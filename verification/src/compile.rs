//! The compiler: turns the statements of a parsed module into the
//! instructions of a program.
use vstd::prelude::*;
use vstd::seq_lib::seq_to_set_is_finite;
use rustc_hash::FxHashMap;
use indexmap::IndexMap;

use crate::ast::{
    AssignmentOperator, BinaryOperator, ComparisonOperator, EqualityOperator, Expr, ExprV,
    Location, LogicalOperator, Number, Stmt, StmtV, UnaryOperator, Value, ValueV,
};
use crate::error::{RuntimeError, RuntimeErrorV};
use crate::module::Module;
use crate::node::{NodeOp, NodeOpV, Operand, OutputTarget, VoxelCode};
use crate::semantics::{
    assign_arith, assign_ops, binary_op, c_expr, c_material_blocks, c_pattern_blocks, c_stmt,
    c_stmts, code_of, code_or_empty, comparison_op, emit_all, emit_expr, equality_op, input_op,
    is_walk, lemma_emit_all_add, lemma_emit_all_empty, lemma_emit_then, logical_op,
    material_ops, material_property_op, ok_code, pop_custom, push_custom, set_target,
    store_components_ops, store_ops, table_insert, then, unary_op, variable_ops, Compiled, CtxV,
    Walks,
};
use crate::tables::{
    expr_table_get, fn_table_insert, fn_table_new, function_table, index_table, index_table_clone,
    index_table_get, material_table, material_table_index_of, material_table_insert,
    material_table_new, names_of, stmt_table, stmt_table_get, stmt_table_keys, table_names,
    voxel_table, voxel_table_contains, voxel_table_get, voxel_table_insert, voxel_table_new, voxel_table_remove,
};

verus! {

/// The instructions of a compiled program.
#[derive(Debug)]
pub struct Program {
    pub globals: Vec<NodeOp>,
    pub custom: Vec<NodeOp>,
    pub voxels: FxHashMap<String, VoxelCode>,
}

/// The context during compilation.
#[derive(Debug)]
pub struct Context {
    /// The current code output target.
    pub current_target: OutputTarget,
    /// Custom targets needed for recursive nesting.
    pub custom_targets: Vec<Vec<NodeOp>>,
    /// Holds the variable names and their indices into the global / flat array.
    pub variables: FxHashMap<String, u32>,
    /// Holds all declared materials and their code which gets executed by the renderer on hit.
    pub materials: IndexMap<String, Vec<NodeOp>>,
    /// Holds the program's instructions.
    pub program: Program,
}

pub open spec fn err_of(r: Result<(), RuntimeError>) -> Option<RuntimeErrorV> {
    match r {
        Ok(_) => None,
        Err(e) => Some(e@),
    }
}

/// A fresh context: code goes to the program, nothing is declared yet.
pub open spec fn initial(variables: Map<Seq<char>, u32>) -> CtxV {
    CtxV {
        target: crate::node::OutputTargetV::Globals,
        customs: Seq::empty(),
        variables,
        materials: Seq::empty(),
        globals: Seq::empty(),
        custom: Seq::empty(),
        voxels: Map::empty(),
    }
}

impl Context {
    pub open spec fn model(&self) -> CtxV {
        CtxV {
            target: self.current_target@,
            customs: self.custom_targets@.map_values(|v: Vec<NodeOp>| NodeOp::models(v@)),
            variables: index_table(self.variables),
            materials: material_table(self.materials),
            globals: NodeOp::models(self.program.globals@),
            custom: NodeOp::models(self.program.custom@),
            voxels: voxel_table(self.program.voxels),
        }
    }

    /// No material is named twice.
    pub open spec fn wf(&self) -> bool {
        table_names(material_table(self.materials)).no_duplicates()
    }

    pub fn new(variables: FxHashMap<String, u32>) -> (r: Self)
        ensures
            r.wf(),
            r.model() == initial(index_table(variables)),
    {
        let r = Context {
            current_target: OutputTarget::Globals,
            custom_targets: Vec::new(),
            variables,
            materials: material_table_new(),
            program: Program { globals: Vec::new(), custom: Vec::new(), voxels: voxel_table_new() },
        };
        assert(r.model().customs =~= Seq::empty());
        assert(r.model().globals =~= Seq::empty());
        assert(r.model().custom =~= Seq::empty());
        assert(r.model().voxels =~= Map::empty());
        assert(table_names(r.model().materials) =~= Seq::empty());
        r
    }

    /// The voxel that code goes to, when the output target is a declared voxel.
    pub fn get_output_voxel(&self) -> (r: Option<&VoxelCode>)
        ensures
            match self.model().target {
                crate::node::OutputTargetV::Voxels(n) => match r {
                    Some(v) => self.model().voxels.dom().contains(n) && v.model()
                        == self.model().voxels[n],
                    None => !self.model().voxels.dom().contains(n),
                },
                _ => r is None,
            },
    {
        match &self.current_target {
            OutputTarget::Voxels(id) => voxel_table_get(&self.program.voxels, id.as_str()),
            _ => None,
        }
    }

    pub fn set_target(&mut self, target: OutputTarget)
        ensures
            final(self).model() == set_target(old(self).model(), target@),
            final(self).materials == old(self).materials,
    {
        self.current_target = target;
        self.program.custom.clear();
        assert(self.model().custom =~= Seq::empty());
    }

    pub fn add_custom_target(&mut self)
        ensures
            final(self).model() == push_custom(old(self).model()),
            final(self).materials == old(self).materials,
    {
        let v: Vec<NodeOp> = Vec::new();
        assert(NodeOp::models(v@) =~= Seq::empty());
        self.custom_targets.push(v);
        assert(self.model().customs =~= old(self).model().customs.push(Seq::empty()));
    }

    pub fn take_last_custom_target(&mut self) -> (r: Option<Vec<NodeOp>>)
        ensures
            (final(self).model(), match r {
                Some(v) => Some(NodeOp::models(v@)),
                None => None,
            }) == pop_custom(old(self).model()),
            final(self).materials == old(self).materials,
    {
        let r = self.custom_targets.pop();
        proof {
            if old(self).custom_targets.len() > 0 {
                assert(self.model().customs =~= old(self).model().customs.drop_last());
            }
        }
        r
    }

    pub fn emit(&mut self, op: NodeOp)
        ensures
            final(self).model() == emit_all(old(self).model(), seq![op.model()]),
            final(self).materials == old(self).materials,
    {
        let ghost m = op.model();
        let n = self.custom_targets.len();
        if n > 0 {
            let ghost cv = old(self).model().customs;
            let mut last = self.custom_targets.pop().unwrap();
            let ghost before = last@;
            last.push(op);
            proof {
                NodeOp::lemma_models_push(before, op);
                assert(NodeOp::models(before).push(m) =~= NodeOp::models(before) + seq![m]);
            }
            self.custom_targets.push(last);
            assert(self.model().customs =~= cv.update(n - 1, cv.last() + seq![m]));
            return ;
        }
        match &self.current_target {
            OutputTarget::Globals => {
                let ghost before = self.program.globals@;
                self.program.globals.push(op);
                proof {
                    NodeOp::lemma_models_push(before, op);
                    assert(NodeOp::models(before).push(m) =~= NodeOp::models(before) + seq![m]);
                }
            },
            OutputTarget::Custom => {
                let ghost before = self.program.custom@;
                self.program.custom.push(op);
                proof {
                    NodeOp::lemma_models_push(before, op);
                    assert(NodeOp::models(before).push(m) =~= NodeOp::models(before) + seq![m]);
                }
            },
            OutputTarget::Voxels(name) => {
                let ghost vs = voxel_table(self.program.voxels);
                match voxel_table_remove(&mut self.program.voxels, name.as_str()) {
                    Some(mut v) => {
                        let ghost before = v.body@;
                        v.body.push(op);
                        proof {
                            NodeOp::lemma_models_push(before, op);
                            assert(NodeOp::models(before).push(m) =~= NodeOp::models(before)
                                + seq![m]);
                        }
                        let ghost nv = v.model();
                        assert(nv == crate::node::VoxelCodeV {
                            body: vs[name@].body + seq![m],
                            ..vs[name@]
                        });
                        voxel_table_insert(&mut self.program.voxels, name.clone(), v);
                        assert(voxel_table(self.program.voxels) =~= vs.insert(name@, nv));
                    },
                    None => {
                        assert(voxel_table(self.program.voxels) =~= vs);
                    },
                }
            },
        }
    }
}

/// A copy of a number literal.
fn copy_number(n: &Number) -> (r: Number)
    ensures
        r@ == n@,
{
    match n {
        Number::Int(i) => Number::Int(*i),
        Number::Decimal(s) => Number::Decimal(s.clone()),
    }
}

/// A copy of a swizzle.
fn copy_bytes(v: &Vec<u8>) -> (r: Vec<u8>)
    ensures
        r@ == v@,
{
    let mut r: Vec<u8> = Vec::new();
    let mut i: usize = 0;
    while i < v.len()
        invariant
            i <= v.len(),
            r@ == v@.take(i as int),
        decreases v.len() - i,
    {
        r.push(v[i]);
        assert(v@.take(i + 1) == v@.take(i as int).push(v@[i as int]));
        i = i + 1;
    }
    assert(v@.take(v.len() as int) == v@);
    r
}

fn unary_node(op: UnaryOperator) -> (r: NodeOp)
    ensures
        r.model() == unary_op(op),
{
    match op {
        UnaryOperator::Negate => NodeOp::Not,
        UnaryOperator::Minus => NodeOp::Neg,
    }
}

fn logical_node(op: LogicalOperator) -> (r: NodeOp)
    ensures
        r.model() == logical_op(op),
{
    match op {
        LogicalOperator::And => NodeOp::And,
        LogicalOperator::Or => NodeOp::Or,
    }
}

fn equality_node(op: EqualityOperator) -> (r: NodeOp)
    ensures
        r.model() == equality_op(op),
{
    match op {
        EqualityOperator::NotEqual => NodeOp::Ne,
        EqualityOperator::Equal => NodeOp::Eq,
    }
}

fn comparison_node(op: ComparisonOperator) -> (r: NodeOp)
    ensures
        r.model() == comparison_op(op),
{
    match op {
        ComparisonOperator::Greater => NodeOp::Gt,
        ComparisonOperator::GreaterEqual => NodeOp::Ge,
        ComparisonOperator::Less => NodeOp::Lt,
        ComparisonOperator::LessEqual => NodeOp::Le,
    }
}

fn binary_node(op: BinaryOperator) -> (r: NodeOp)
    ensures
        r.model() == binary_op(op),
{
    match op {
        BinaryOperator::Add => NodeOp::Add,
        BinaryOperator::Subtract => NodeOp::Sub,
        BinaryOperator::Multiply => NodeOp::Mul,
        BinaryOperator::Divide => NodeOp::Div,
        BinaryOperator::Mod => NodeOp::Mod,
    }
}

fn assign_arith_node(op: AssignmentOperator) -> (r: NodeOp)
    ensures
        r.model() == assign_arith(op),
{
    match op {
        AssignmentOperator::SubtractAssign => NodeOp::Sub,
        AssignmentOperator::MultiplyAssign => NodeOp::Mul,
        AssignmentOperator::DivideAssign => NodeOp::Div,
        _ => NodeOp::Add,
    }
}

fn is_text(s: &String, t: &str) -> (r: bool)
    ensures
        r == (s@ == t@),
{
    s.eq(&String::from_str(t))
}

/// The instruction that ends the code of a material property.
fn material_property_node(name: &String) -> (r: Option<NodeOp>)
    ensures
        match r {
            Some(op) => material_property_op(name@) == Some(op.model()),
            None => material_property_op(name@) is None,
        },
{
    if is_text(name, "albedo") {
        Some(NodeOp::MaterialAlbedo)
    } else if is_text(name, "subsurface") {
        Some(NodeOp::MaterialSubsurface)
    } else if is_text(name, "metallic") {
        Some(NodeOp::MaterialMetallic)
    } else if is_text(name, "specular_tint") {
        Some(NodeOp::MaterialSpecularTint)
    } else if is_text(name, "roughness") {
        Some(NodeOp::MaterialRoughness)
    } else if is_text(name, "anisotropic") {
        Some(NodeOp::MaterialAnisotropic)
    } else if is_text(name, "sheen") {
        Some(NodeOp::MaterialSheen)
    } else if is_text(name, "sheen_tint") {
        Some(NodeOp::MaterialSheenTint)
    } else if is_text(name, "clearcoat") {
        Some(NodeOp::MaterialClearcoat)
    } else if is_text(name, "clearcoat_gloss") {
        Some(NodeOp::MaterialClearcoatGloss)
    } else if is_text(name, "ior") {
        Some(NodeOp::MaterialIOR)
    } else if is_text(name, "transmission") {
        Some(NodeOp::MaterialTransmission)
    } else if is_text(name, "emission") {
        Some(NodeOp::MaterialEmission)
    } else {
        None
    }
}

/// The instruction that reads an input of the program, for a built-in name.
fn input_node(name: &String) -> (r: Option<NodeOp>)
    ensures
        match r {
            Some(op) => input_op(name@) == Some(op.model()),
            None => input_op(name@) is None,
        },
{
    if is_text(name, "local") {
        Some(NodeOp::Local)
    } else if is_text(name, "world") {
        Some(NodeOp::World)
    } else if is_text(name, "u") {
        Some(NodeOp::U)
    } else if is_text(name, "v") {
        Some(NodeOp::V)
    } else if is_text(name, "d") {
        Some(NodeOp::D)
    } else if is_text(name, "hash") {
        Some(NodeOp::Hash)
    } else {
        None
    }
}

proof fn lemma_index_of_unique(s: Seq<Seq<char>>, k: Seq<char>, i: int)
    requires
        s.no_duplicates(),
        0 <= i < s.len(),
        s[i] == k,
    ensures
        s.index_of(k) == i,
{
    assert(s.contains(k));
    let j = s.index_of(k);
    assert(0 <= j < s.len() && s[j] == k);
}

/// Reading a variable.
fn variable(name: &String, sw: &Vec<u8>, ctx: &mut Context)
    ensures
        final(ctx).model() == emit_all(
            old(ctx).model(),
            variable_ops(name@, sw@, old(ctx).model().variables),
        ),
        final(ctx).materials == old(ctx).materials,
{
    match input_node(name) {
        Some(op) => {
            ctx.emit(op);
        },
        None => {
            match index_table_get(&ctx.variables, name.as_str()) {
                Some(index) => {
                    let ghost c0 = ctx.model();
                    let ghost load = seq![NodeOpV::Load(index as usize)];
                    ctx.emit(NodeOp::Load(index as usize));
                    if sw.len() > 0 {
                        let ghost get = seq![NodeOpV::GetComponents(sw@)];
                        ctx.emit(NodeOp::GetComponents(copy_bytes(sw)));
                        proof {
                            lemma_emit_all_add(c0, load, get);
                        }
                    } else {
                        assert(load + Seq::empty() =~= load);
                    }
                },
                None => {
                    proof {
                        lemma_emit_all_empty(ctx.model());
                    }
                },
            }
        },
    }
}

/// Emits one more instruction after `acc`, which was emitted into `c0`.
fn emit_more(ctx: &mut Context, op: NodeOp, Ghost(c0): Ghost<CtxV>, Ghost(acc): Ghost<Seq<NodeOpV>>)
    requires
        old(ctx).model() == emit_all(c0, acc),
    ensures
        final(ctx).model() == emit_all(c0, acc.push(op.model())),
        final(ctx).materials == old(ctx).materials,
{
    let ghost m = op.model();
    ctx.emit(op);
    proof {
        lemma_emit_all_add(c0, acc, seq![m]);
        assert(acc + seq![m] =~= acc.push(m));
    }
}

/// Storing the value on the stack into a whole variable.
fn store(i: usize, op: AssignmentOperator, ctx: &mut Context)
    ensures
        final(ctx).model() == emit_all(old(ctx).model(), store_ops(i, op)),
        final(ctx).materials == old(ctx).materials,
{
    let ghost c0 = ctx.model();
    match op {
        AssignmentOperator::Assign => {
            ctx.emit(NodeOp::Store(i));
        },
        _ => {
            let a = assign_arith_node(op);
            let ghost am = a.model();
            let ghost s1 = seq![NodeOpV::Load(i)];
            let ghost s2 = s1.push(NodeOpV::Swap);
            let ghost s3 = s2.push(am);
            proof {
                lemma_emit_all_empty(c0);
                assert(Seq::<NodeOpV>::empty().push(NodeOpV::Load(i)) =~= s1);
            }
            emit_more(ctx, NodeOp::Load(i), Ghost(c0), Ghost(Seq::<NodeOpV>::empty()));
            emit_more(ctx, NodeOp::Swap, Ghost(c0), Ghost(s1));
            emit_more(ctx, a, Ghost(c0), Ghost(s2));
            emit_more(ctx, NodeOp::Store(i), Ghost(c0), Ghost(s3));
            assert(s3.push(NodeOpV::Store(i)) =~= store_ops(i, op));
        },
    }
}

/// Storing the value on the stack into components of a variable.
fn store_components(i: usize, op: AssignmentOperator, sw: &Vec<u8>, ctx: &mut Context)
    ensures
        final(ctx).model() == emit_all(old(ctx).model(), store_components_ops(i, op, sw@)),
        final(ctx).materials == old(ctx).materials,
{
    let ghost sv = sw@;
    let ghost c0 = ctx.model();
    proof {
        lemma_emit_all_empty(c0);
    }
    match op {
        AssignmentOperator::Assign => {
            let ghost s1 = seq![NodeOpV::Load(i)];
            let ghost s2 = s1.push(NodeOpV::Swap);
            let ghost s3 = s2.push(NodeOpV::SetComponents(sv));
            assert(Seq::<NodeOpV>::empty().push(NodeOpV::Load(i)) =~= s1);
            emit_more(ctx, NodeOp::Load(i), Ghost(c0), Ghost(Seq::<NodeOpV>::empty()));
            emit_more(ctx, NodeOp::Swap, Ghost(c0), Ghost(s1));
            emit_more(ctx, NodeOp::SetComponents(copy_bytes(sw)), Ghost(c0), Ghost(s2));
            emit_more(ctx, NodeOp::Store(i), Ghost(c0), Ghost(s3));
            assert(s3.push(NodeOpV::Store(i)) =~= store_components_ops(i, op, sv));
        },
        _ => {
            let a = assign_arith_node(op);
            let ghost am = a.model();
            let ghost s1 = seq![NodeOpV::Load(i)];
            let ghost s2 = s1.push(NodeOpV::Dup);
            let ghost s3 = s2.push(NodeOpV::GetComponents(sv));
            let ghost s4 = s3.push(NodeOpV::Swap);
            let ghost s5 = s4.push(am);
            let ghost s6 = s5.push(NodeOpV::SetComponents(sv));
            emit_more(ctx, NodeOp::Load(i), Ghost(c0), Ghost(Seq::<NodeOpV>::empty()));
            assert(Seq::<NodeOpV>::empty().push(NodeOpV::Load(i)) =~= s1);
            emit_more(ctx, NodeOp::Dup, Ghost(c0), Ghost(s1));
            emit_more(ctx, NodeOp::GetComponents(copy_bytes(sw)), Ghost(c0), Ghost(s2));
            emit_more(ctx, NodeOp::Swap, Ghost(c0), Ghost(s3));
            emit_more(ctx, a, Ghost(c0), Ghost(s4));
            emit_more(ctx, NodeOp::SetComponents(copy_bytes(sw)), Ghost(c0), Ghost(s5));
            emit_more(ctx, NodeOp::Store(i), Ghost(c0), Ghost(s6));
            assert(s6.push(NodeOpV::Store(i)) =~= store_components_ops(i, op, sv));
        },
    }
}

/// Storing the value on the stack into a variable.
fn variable_assignment(name: &String, op: AssignmentOperator, sw: &Vec<u8>, ctx: &mut Context)
    ensures
        final(ctx).model() == emit_all(
            old(ctx).model(),
            assign_ops(name@, op, sw@, old(ctx).model().variables),
        ),
        final(ctx).materials == old(ctx).materials,
{
    match index_table_get(&ctx.variables, name.as_str()) {
        Some(index) => {
            if sw.len() == 0 {
                store(index as usize, op, ctx);
            } else {
                store_components(index as usize, op, sw, ctx);
            }
        },
        None => {
            proof {
                lemma_emit_all_empty(ctx.model());
            }
        },
    }
}

/// The built-in functions of the language: each with its name, the number of
/// arguments it takes and the instruction it compiles to.
#[derive(Debug)]
pub struct ASTFunction {
    pub name: String,
    pub arguments: i32,
    pub op: NodeOp,
}

pub struct ASTFunctionV {
    pub name: Seq<char>,
    pub arguments: i32,
    pub op: NodeOpV,
}

impl ASTFunction {
    pub open spec fn model(&self) -> ASTFunctionV {
        ASTFunctionV { name: self.name@, arguments: self.arguments, op: self.op.model() }
    }
}

/// The result of compiling an expression into the context.
pub open spec fn expr_done(
    c0: CtxV,
    e: crate::ast::ExprV,
    c1: CtxV,
    r: Result<(), RuntimeError>,
) -> bool {
    c1 == emit_expr(c0, e).0 && err_of(r) == emit_expr(c0, e).1
}

} // verus!

verus! {

/// The table of built-in functions that a compiler starts with.
pub open spec fn builtin_functions() -> Map<Seq<char>, ASTFunctionV> {
    Map::empty().insert("length"@, ASTFunctionV { name: "length"@, arguments: 1, op: NodeOpV::Length })
        .insert("abs"@, ASTFunctionV { name: "abs"@, arguments: 1, op: NodeOpV::Abs })
        .insert("sin"@, ASTFunctionV { name: "sin"@, arguments: 1, op: NodeOpV::Sin })
        .insert("cos"@, ASTFunctionV { name: "cos"@, arguments: 1, op: NodeOpV::Cos })
        .insert("tan"@, ASTFunctionV { name: "tan"@, arguments: 1, op: NodeOpV::Tan })
        .insert("floor"@, ASTFunctionV { name: "floor"@, arguments: 1, op: NodeOpV::Floor })
        .insert("ceil"@, ASTFunctionV { name: "ceil"@, arguments: 1, op: NodeOpV::Ceil })
        .insert("fract"@, ASTFunctionV { name: "fract"@, arguments: 1, op: NodeOpV::Ceil })
        .insert("radians"@, ASTFunctionV { name: "radians"@, arguments: 1, op: NodeOpV::Radians })
        .insert("degrees"@, ASTFunctionV { name: "degrees"@, arguments: 1, op: NodeOpV::Degrees })
}

/// Compiles the statements of a module into a context.
pub struct CompileVisitor {
    /// The built-in functions, by name.
    pub functions: FxHashMap<String, ASTFunction>,
    walks: Ghost<Walks>,
}

fn builtin(functions: &mut FxHashMap<String, ASTFunction>, name: &str, op: NodeOp)
    ensures
        function_table(*final(functions)) == function_table(*old(functions)).insert(
            name@,
            ASTFunctionV { name: name@, arguments: 1, op: op.model() },
        ),
{
    let f = ASTFunction { name: name.to_string(), arguments: 1, op };
    fn_table_insert(functions, name.to_string(), f);
}

impl CompileVisitor {
    /// The built-in functions the compiler knows.
    pub closed spec fn functions(&self) -> Map<Seq<char>, ASTFunctionV> {
        function_table(self.functions)
    }

    /// The orders in which the compiler has walked tables of named bodies.
    pub closed spec fn walks(&self) -> Walks {
        self.walks@
    }

    pub fn new() -> (r: Self)
        ensures
            r.functions() == builtin_functions(),
            r.walks() == Seq::<Seq<Seq<char>>>::empty(),
    {
        let mut functions = fn_table_new();
        builtin(&mut functions, "length", NodeOp::Length);
        builtin(&mut functions, "abs", NodeOp::Abs);
        builtin(&mut functions, "sin", NodeOp::Sin);
        builtin(&mut functions, "cos", NodeOp::Cos);
        builtin(&mut functions, "tan", NodeOp::Tan);
        builtin(&mut functions, "floor", NodeOp::Floor);
        builtin(&mut functions, "ceil", NodeOp::Ceil);
        builtin(&mut functions, "fract", NodeOp::Ceil);
        builtin(&mut functions, "radians", NodeOp::Radians);
        builtin(&mut functions, "degrees", NodeOp::Degrees);
        assert(function_table(functions) =~= builtin_functions());
        CompileVisitor { functions, walks: Ghost(Seq::empty()) }
    }

    /// Compiles an expression.
    #[verifier::spinoff_prover]
    #[verifier::rlimit(50)]
    fn expr(&self, e: &Expr, ctx: &mut Context) -> (r: Result<(), RuntimeError>)
        requires
            old(ctx).wf(),
        ensures
            final(ctx).materials == old(ctx).materials,
            expr_done(old(ctx).model(), e.model(), final(ctx).model(), r),
        decreases e, 1int,
    {
        let ghost c0 = ctx.model();
        let ghost vars = c0.variables;
        let ghost mats = table_names(c0.materials);
        match e {
            Expr::Value(v, _, _, _) => match v {
                Value::Boolean(b) => {
                    ctx.emit(NodeOp::Push(Operand::Bool(*b)));
                    Ok(())
                },
                Value::Float(n) => {
                    ctx.emit(NodeOp::Push(Operand::Float(copy_number(n))));
                    Ok(())
                },
                Value::Float3(a, b, c) => {
                    let ghost ca = c_expr(a.model(), vars, mats);
                    let ghost cb = c_expr(b.model(), vars, mats);
                    let ghost cc = c_expr(c.model(), vars, mats);
                    assert(v.model() == ValueV::Float3(Box::new(a.model()), Box::new(b.model()), Box::new(c.model())));
                    assert(c_expr(e.model(), vars, mats) == then(
                        then(then(ca, cb), cc),
                        ok_code(seq![NodeOpV::Pack3]),
                    ));
                    let r = self.expr(a, ctx);
                    if r.is_err() {
                        return r;
                    }
                    let r = self.expr(b, ctx);
                    proof {
                        lemma_emit_then(c0, ca, cb);
                    }
                    if r.is_err() {
                        return r;
                    }
                    let r = self.expr(c, ctx);
                    proof {
                        lemma_emit_then(c0, then(ca, cb), cc);
                    }
                    if r.is_err() {
                        return r;
                    }
                    ctx.emit(NodeOp::Pack3);
                    proof {
                        lemma_emit_then(c0, then(then(ca, cb), cc), ok_code(seq![NodeOpV::Pack3]));
                    }
                    Ok(())
                },
                _ => {
                    proof {
                        lemma_emit_all_empty(c0);
                    }
                    Ok(())
                },
            },
            Expr::Logical(..) | Expr::Equality(..) | Expr::Comparison(..) | Expr::Binary(..) => {
                self.operands(e, ctx)
            },
            Expr::Unary(op, a, _) => {
                let ghost ca = c_expr(a.model(), vars, mats);
                let r = self.expr(a, ctx);
                if r.is_err() {
                    return r;
                }
                let node = unary_node(*op);
                let ghost m = node.model();
                ctx.emit(node);
                proof {
                    lemma_emit_then(c0, ca, ok_code(seq![m]));
                }
                Ok(())
            },
            Expr::Grouping(a, _) => self.expr(a, ctx),
            Expr::Variable(name, sw, _, _) => {
                variable(name, sw, ctx);
                Ok(())
            },
            Expr::VariableAssignment(name, op, sw, _, a, _) => {
                let ghost ca = c_expr(a.model(), vars, mats);
                let r = self.expr(a, ctx);
                if r.is_err() {
                    return r;
                }
                variable_assignment(name, *op, sw, ctx);
                proof {
                    lemma_emit_then(c0, ca, ok_code(assign_ops(name@, *op, sw@, vars)));
                }
                Ok(())
            },
            Expr::FunctionCall(callee, _, _, _, _) => self.expr(callee, ctx),
            Expr::Ternary(_, t, _, _) => self.expr(t, ctx),
            Expr::MaterialReference(name, loc) => material_reference(name, loc, ctx),
        }
    }

    /// Compiles two operands, then the operator.
    fn operands(&self, e: &Expr, ctx: &mut Context) -> (r: Result<(), RuntimeError>)
        requires
            old(ctx).wf(),
            e is Logical || e is Equality || e is Comparison || e is Binary,
        ensures
            final(ctx).materials == old(ctx).materials,
            expr_done(old(ctx).model(), e.model(), final(ctx).model(), r),
        decreases e, 0int,
    {
        let (a, b, op) = match e {
            Expr::Logical(a, op, b, _) => (a, b, logical_node(*op)),
            Expr::Equality(a, op, b, _) => (a, b, equality_node(*op)),
            Expr::Comparison(a, op, b, _) => (a, b, comparison_node(*op)),
            Expr::Binary(a, op, b, _) => (a, b, binary_node(*op)),
            _ => {
                return Ok(());
            },
        };
        let ghost c0 = ctx.model();
        let ghost vars = c0.variables;
        let ghost mats = table_names(c0.materials);
        let ghost ca = c_expr(a.model(), vars, mats);
        let ghost cb = c_expr(b.model(), vars, mats);
        let ghost m = op.model();
        assert(c_expr(e.model(), vars, mats) == then(then(ca, cb), ok_code(seq![m])));
        let r = self.expr(a, ctx);
        if r.is_err() {
            return r;
        }
        let r = self.expr(b, ctx);
        proof {
            lemma_emit_then(c0, ca, cb);
        }
        if r.is_err() {
            return r;
        }
        ctx.emit(op);
        proof {
            lemma_emit_then(c0, then(ca, cb), ok_code(seq![m]));
        }
        Ok(())
    }
}

/// Naming a material: its index, or an error for an unknown one.
fn material_reference(name: &String, loc: &Location, ctx: &mut Context) -> (r: Result<(), RuntimeError>)
    requires
        old(ctx).wf(),
    ensures
        final(ctx).materials == old(ctx).materials,
        final(ctx).model() == emit_all(
            old(ctx).model(),
            material_ops(name@, table_names(old(ctx).model().materials), loc@).0,
        ),
        err_of(r) == material_ops(name@, table_names(old(ctx).model().materials), loc@).1,
{
    let ghost names = table_names(ctx.model().materials);
    match material_table_index_of(&ctx.materials, name.as_str()) {
        Some(index) => {
            proof {
                assert(names[index as int] == name@);
                lemma_index_of_unique(names, name@, index as int);
            }
            ctx.emit(NodeOp::Push(Operand::Index(index)));
            Ok(())
        },
        None => {
            proof {
                lemma_emit_all_empty(ctx.model());
            }
            let mut message = String::from_str("Unknown material: ");
            message.append(name.as_str());
            Err(RuntimeError::new(message, loc))
        },
    }
}

} // verus!

verus! {

/// The result of compiling a statement: `c1` and `w1` are the context and the
/// recorded walk orders after, for every way the record may go on.
pub open spec fn stmt_done(
    s: StmtV,
    c0: CtxV,
    w0: Walks,
    c1: CtxV,
    w1: Walks,
    r: Result<(), RuntimeError>,
) -> bool {
    &&& w0.is_prefix_of(w1)
    &&& forall|ext: Walks| #[trigger]
        c_stmt(s, c0, w1 + ext, w0.len() as int) == (Compiled {
            ctx: c1,
            err: err_of(r),
            next: w1.len() as int,
            ok: true,
        })
}

proof fn lemma_prefix_trans(a: Walks, b: Walks, c: Walks)
    requires
        a.is_prefix_of(b),
        b.is_prefix_of(c),
    ensures
        a.is_prefix_of(c),
{
    assert(a =~= c.subrange(0, a.len() as int));
}

proof fn lemma_prefix_index(a: Walks, b: Walks, i: int)
    requires
        a.is_prefix_of(b),
        0 <= i < a.len(),
    ensures
        b[i] == a[i],
{
    assert(b.subrange(0, a.len() as int)[i] == b[i]);
}

/// What a statement compiled to stays so as the record of walk orders grows.
proof fn lemma_walks_extend(s: StmtV, c: CtxV, n: int, w1: Walks, w2: Walks, ext: Walks, res: Compiled)
    requires
        forall|e: Walks| #[trigger] c_stmt(s, c, w1 + e, n) == res,
        w1.is_prefix_of(w2),
    ensures
        c_stmt(s, c, w2 + ext, n) == res,
{
    let e = w2.subrange(w1.len() as int, w2.len() as int) + ext;
    assert(w1 + e =~= w2 + ext);
    assert(c_stmt(s, c, w1 + e, n) == res);
}

impl CompileVisitor {
    /// Compiles a statement.
    fn stmt(&mut self, s: &Stmt, ctx: &mut Context) -> (r: Result<(), RuntimeError>)
        requires
            old(ctx).wf(),
        ensures
            final(ctx).wf(),
            stmt_done(
                s.model(),
                old(ctx).model(),
                old(self).walks@,
                final(ctx).model(),
                final(self).walks@,
                r,
            ),
        decreases s.model(), 1int,
    {
        match s {
            Stmt::If(..) => self.if_stmt(s, ctx),
            Stmt::Block(..) => self.block(s, ctx),
            Stmt::Expression(..) | Stmt::VarDeclaration(..) | Stmt::Place(..) => {
                self.simple(s, ctx)
            },
            Stmt::Material(..) => self.material(s, ctx),
            Stmt::Voxel(..) => self.voxel(s, ctx),
            Stmt::Shape(..) => self.shape(s, ctx),
            Stmt::Segment(..) => self.segment(s, ctx),
            Stmt::Pattern(..) => self.pattern(s, ctx),
        }
    }

    /// An expression statement, a variable declaration or a placement.
    fn simple(&mut self, s: &Stmt, ctx: &mut Context) -> (r: Result<(), RuntimeError>)
        requires
            old(ctx).wf(),
            s is Expression || s is VarDeclaration || s is Place,
        ensures
            final(ctx).wf(),
            stmt_done(
                s.model(),
                old(ctx).model(),
                old(self).walks@,
                final(ctx).model(),
                final(self).walks@,
                r,
            ),
    {
        let ghost c0 = ctx.model();
        let ghost w0 = self.walks@;
        let r = match s {
            Stmt::Expression(e, _) => self.expr(e, ctx),
            Stmt::VarDeclaration(name, _, e, _) => {
                let r = self.expr(e, ctx);
                if r.is_err() {
                    r
                } else {
                    match index_table_get(&ctx.variables, name.as_str()) {
                        Some(index) => {
                            ctx.emit(NodeOp::Store(index as usize));
                        },
                        None => {},
                    }
                    Ok(())
                }
            },
            Stmt::Place(id, _, _) => {
                if voxel_table_contains(&ctx.program.voxels, id.as_str()) {
                    ctx.emit(NodeOp::Place(id.clone()));
                }
                Ok(())
            },
            _ => Ok(()),
        };
        assert(w0.is_prefix_of(w0 + Seq::empty())) by {
            assert(w0 + Seq::<Seq<Seq<char>>>::empty() =~= w0);
        }
        r
    }

    /// A block: its statements in order, up to the first error.
    fn block(&mut self, s: &Stmt, ctx: &mut Context) -> (r: Result<(), RuntimeError>)
        requires
            old(ctx).wf(),
            s is Block,
        ensures
            final(ctx).wf(),
            stmt_done(
                s.model(),
                old(ctx).model(),
                old(self).walks@,
                final(ctx).model(),
                final(self).walks@,
                r,
            ),
        decreases s.model(), 0int,
    {
        match s {
            Stmt::Block(list, _) => {
                let ghost lm = Stmt::models(list@);
                proof {
                    Stmt::lemma_models_index(list@);
                    assert(old(self).walks@.is_prefix_of(old(self).walks@));
                }
                let mut i: usize = 0;
                while i < list.len()
                    invariant
                        i <= list.len(),
                        lm == Stmt::models(list@),
                        lm.len() == list.len(),
                        forall|j: int| 0 <= j < list.len() ==> lm[j] == #[trigger] list@[j].model(),
                        s.model() == StmtV::Block(lm, s.model()->Block_1),
                        ctx.wf(),
                        old(self).walks@.is_prefix_of(self.walks@),
                        forall|ext: Walks| #[trigger]
                            c_stmts(lm, 0, old(ctx).model(), self.walks@ + ext, old(self).walks@.len() as int) == c_stmts(
                                lm,
                                i as int,
                                ctx.model(),
                                self.walks@ + ext,
                                self.walks@.len() as int,
                            ),
                    decreases list.len() - i,
                {
                    let ghost ci = ctx.model();
                    let ghost wi = self.walks@;
                    assert(lm[i as int] == list@[i as int].model());
                    assert(decreases_to!(s.model() => s.model()->Block_0));
                    assert(decreases_to!(lm => lm[i as int]));
                    let r = self.stmt(&list[i], ctx);
                    proof {
                        lemma_prefix_trans(old(self).walks@, wi, self.walks@);
                        assert forall|ext: Walks| #[trigger]
                            c_stmts(lm, 0, old(ctx).model(), self.walks@ + ext, old(self).walks@.len() as int) == c_stmts(
                                lm,
                                i as int,
                                ci,
                                self.walks@ + ext,
                                wi.len() as int,
                            ) by {
                            let e = self.walks@.subrange(wi.len() as int, self.walks@.len() as int)
                                + ext;
                            assert(wi + e =~= self.walks@ + ext);
                        }
                    }
                    if r.is_err() {
                        let ghost w1 = self.walks@;
                        let ghost c1 = ctx.model();
                        proof {
                            assert forall|ext: Walks|
                                #[trigger] c_stmt(s.model(), old(ctx).model(), w1 + ext, old(self).walks@.len() as int) == (Compiled {
                                    ctx: c1,
                                    err: err_of(r),
                                    next: w1.len() as int,
                                    ok: true,
                                }) by {
                                assert(c_stmts(lm, 0, old(ctx).model(), w1 + ext, old(self).walks@.len() as int) == c_stmts(
                                    lm,
                                    i as int,
                                    ci,
                                    w1 + ext,
                                    wi.len() as int,
                                ));
                                assert(c_stmt(lm[i as int], ci, w1 + ext, wi.len() as int)
                                    == (Compiled {
                                    ctx: c1,
                                    err: err_of(r),
                                    next: w1.len() as int,
                                    ok: true,
                                }));
                            }
                        }
                        assert(old(self).walks@.is_prefix_of(self.walks@));
                        assert(stmt_done(s.model(), old(ctx).model(), old(self).walks@, ctx.model(), self.walks@, r));
                        return r;
                    }
                    proof {
                        assert forall|ext: Walks| #[trigger]
                            c_stmts(lm, 0, old(ctx).model(), self.walks@ + ext, old(self).walks@.len() as int) == c_stmts(
                                lm,
                                i + 1,
                                ctx.model(),
                                self.walks@ + ext,
                                self.walks@.len() as int,
                            ) by {
                            assert(c_stmt(lm[i as int], ci, self.walks@ + ext, wi.len() as int)
                                == (Compiled {
                                ctx: ctx.model(),
                                err: None,
                                next: self.walks@.len() as int,
                                ok: true,
                            }));
                        }
                    }
                    i = i + 1;
                }
                proof {
                    assert forall|ext: Walks| #[trigger]
                        c_stmt(s.model(), old(ctx).model(), self.walks@ + ext, old(self).walks@.len() as int) == (Compiled {
                            ctx: ctx.model(),
                            err: None,
                            next: self.walks@.len() as int,
                            ok: true,
                        }) by {
                        assert(c_stmts(lm, 0, old(ctx).model(), self.walks@ + ext, old(self).walks@.len() as int) == c_stmts(
                            lm,
                            i as int,
                            ctx.model(),
                            self.walks@ + ext,
                            self.walks@.len() as int,
                        ));
                    }
                }
                Ok(())
            },
            _ => Ok(()),
        }
    }

    /// A conditional: the branches are compiled into bodies of their own, then
    /// the condition, then the instruction that picks a branch.
    #[verifier::spinoff_prover]
    #[verifier::rlimit(60)]
    fn if_stmt(&mut self, s: &Stmt, ctx: &mut Context) -> (r: Result<(), RuntimeError>)
        requires
            old(ctx).wf(),
            s is If,
        ensures
            final(ctx).wf(),
            stmt_done(
                s.model(),
                old(ctx).model(),
                old(self).walks@,
                final(ctx).model(),
                final(self).walks@,
                r,
            ),
        decreases s.model(), 0int,
    {
        match s {
            Stmt::If(cond, then_stmt, else_stmt, _) => {
                let ghost n0 = old(self).walks@.len() as int;
                let ghost tm = then_stmt.model();
                proof {
                    assert(decreases_to!(s.model() => s.model()->If_1));
                    assert(old(self).walks@.is_prefix_of(old(self).walks@));
                }
                ctx.add_custom_target();
                let ghost c1 = ctx.model();
                let r = self.stmt(then_stmt, ctx);
                let ghost w1 = self.walks@;
                let ghost c2 = ctx.model();
                if r.is_err() {
                    proof {
                        assert forall|ext: Walks| #[trigger]
                            c_stmt(s.model(), old(ctx).model(), self.walks@ + ext, old(self).walks@.len() as int)
                                == (Compiled {
                                ctx: ctx.model(),
                                err: err_of(r),
                                next: self.walks@.len() as int,
                                ok: true,
                            }) by {
                            assert(c_stmt(tm, c1, w1 + ext, n0) == (Compiled {
                                ctx: c2,
                                err: err_of(r),
                                next: w1.len() as int,
                                ok: true,
                            }));
                        }
                    }
                    return r;
                }
                let mut then_code: Vec<NodeOp> = Vec::new();
                match ctx.take_last_custom_target() {
                    Some(code) => {
                        then_code = code;
                    },
                    None => {
                        assert(NodeOp::models(then_code@) =~= Seq::empty());
                    },
                }
                let ghost c3 = ctx.model();
                let ghost then_m = NodeOp::models(then_code@);
                assert(then_m == code_or_empty(pop_custom(c2).1));
                let mut else_code: Option<Vec<NodeOp>> = None;
                let ghost mut c4 = c3;
                let ghost mut c5 = c3;
                match else_stmt {
                    Some(es) => {
                        proof {
                            assert(decreases_to!(s.model() => s.model()->If_2));
                        }
                        ctx.add_custom_target();
                        proof {
                            c4 = ctx.model();
                        }
                        let r2 = self.stmt(es, ctx);
                        let ghost w2 = self.walks@;
                        proof {
                            c5 = ctx.model();
                            lemma_prefix_trans(old(self).walks@, w1, w2);
                        }
                        if r2.is_err() {
                            proof {
                                assert forall|ext: Walks| #[trigger]
                                    c_stmt(s.model(), old(ctx).model(), self.walks@ + ext, old(self).walks@.len() as int)
                                        == (Compiled {
                                        ctx: ctx.model(),
                                        err: err_of(r2),
                                        next: self.walks@.len() as int,
                                        ok: true,
                                    }) by {
                                    lemma_walks_extend(
                                        tm,
                                        c1,
                                        n0,
                                        w1,
                                        w2,
                                        ext,
                                        Compiled { ctx: c2, err: None, next: w1.len() as int, ok: true },
                                    );
                                    assert(c_stmt(es.model(), c4, w2 + ext, w1.len() as int) == (Compiled {
                                        ctx: c5,
                                        err: err_of(r2),
                                        next: w2.len() as int,
                                        ok: true,
                                    }));
                                }
                            }
                            return r2;
                        }
                        match ctx.take_last_custom_target() {
                            Some(code) => {
                                else_code = Some(code);
                            },
                            None => {},
                        }
                    },
                    None => {},
                }
                let ghost c6 = ctx.model();
                let ghost w2 = self.walks@;
                let ghost else_m = NodeOp::opt_models(else_code);
                proof {
                    match else_stmt {
                        Some(es) => {
                            assert(c4 == push_custom(c3));
                            assert((c6, else_m) == pop_custom(c5));
                            assert(forall|e: Walks| #[trigger]
                                c_stmt(es.model(), c4, w2 + e, w1.len() as int) == (Compiled {
                                    ctx: c5,
                                    err: None,
                                    next: w2.len() as int,
                                    ok: true,
                                }));
                        },
                        None => {
                            assert(c6 == c3 && w2 == w1 && else_m is None);
                        },
                    }
                }
                let r3 = self.expr(cond, ctx);
                let ghost c7 = ctx.model();
                if r3.is_err() {
                    proof {
                        assert forall|ext: Walks| #[trigger]
                            c_stmt(s.model(), old(ctx).model(), self.walks@ + ext, old(self).walks@.len() as int)
                                == (Compiled {
                                ctx: ctx.model(),
                                err: err_of(r3),
                                next: self.walks@.len() as int,
                                ok: true,
                            }) by {
                            lemma_walks_extend(
                                tm,
                                c1,
                                n0,
                                w1,
                                w2,
                                ext,
                                Compiled { ctx: c2, err: None, next: w1.len() as int, ok: true },
                            );
                            match else_stmt {
                                Some(es) => {
                                    assert(c_stmt(es.model(), c4, w2 + ext, w1.len() as int) == (Compiled {
                                        ctx: c5,
                                        err: None,
                                        next: w2.len() as int,
                                        ok: true,
                                    }));
                                },
                                None => {},
                            }
                        }
                    }
                    return r3;
                }
                let node = NodeOp::If(then_code, else_code);
                assert(node.model() == NodeOpV::If(then_m, else_m));
                ctx.emit(node);
                proof {
                    assert forall|ext: Walks| #[trigger]
                        c_stmt(s.model(), old(ctx).model(), self.walks@ + ext, old(self).walks@.len() as int)
                            == (Compiled {
                            ctx: ctx.model(),
                            err: None,
                            next: self.walks@.len() as int,
                            ok: true,
                        }) by {
                        lemma_walks_extend(
                            tm,
                            c1,
                            n0,
                            w1,
                            w2,
                            ext,
                            Compiled { ctx: c2, err: None, next: w1.len() as int, ok: true },
                        );
                        match else_stmt {
                            Some(es) => {
                                assert(c_stmt(es.model(), c4, w2 + ext, w1.len() as int) == (Compiled {
                                    ctx: c5,
                                    err: None,
                                    next: w2.len() as int,
                                    ok: true,
                                }));
                            },
                            None => {},
                        }
                    }
                }
                Ok(())
            },
            _ => Ok(()),
        }
    }

    /// A shape: its body is compiled into a body of its own, which the shape's
    /// instruction then carries.
    #[verifier::spinoff_prover]
    #[verifier::rlimit(60)]
    fn shape(&mut self, s: &Stmt, ctx: &mut Context) -> (r: Result<(), RuntimeError>)
        requires
            old(ctx).wf(),
            s is Shape,
        ensures
            final(ctx).wf(),
            stmt_done(
                s.model(),
                old(ctx).model(),
                old(self).walks@,
                final(ctx).model(),
                final(self).walks@,
                r,
            ),
        decreases s.model(), 0int,
    {
        match s {
            Stmt::Shape(d, _) => {
                let ghost n0 = old(self).walks@.len() as int;
                proof {
                    assert(old(self).walks@.is_prefix_of(old(self).walks@));
                    assert(old(self).walks@ + Seq::<Seq<Seq<char>>>::empty() =~= old(self).walks@);
                }
                ctx.add_custom_target();
                let ghost c1 = ctx.model();
                let ghost mut c2 = c1;
                let ghost mut w1 = old(self).walks@;
                match &d.block {
                    Some(b) => {
                        proof {
                            assert(decreases_to!(s.model() => s.model()->Shape_0));
                            assert(decreases_to!(s.model()->Shape_0 => s.model()->Shape_0.block));
                            assert(decreases_to!(s.model()->Shape_0.block => s.model()->Shape_0.block->Some_0));
                        }
                        let r = self.stmt(b, ctx);
                        proof {
                            c2 = ctx.model();
                            w1 = self.walks@;
                        }
                        if r.is_err() {
                            proof {
                                assert forall|ext: Walks| #[trigger]
                                    c_stmt(s.model(), old(ctx).model(), self.walks@ + ext, old(self).walks@.len() as int)
                                        == (Compiled {
                                        ctx: ctx.model(),
                                        err: err_of(r),
                                        next: self.walks@.len() as int,
                                        ok: true,
                                    }) by {
                                    assert(c_stmt(b.model(), c1, w1 + ext, n0) == (Compiled {
                                        ctx: c2,
                                        err: err_of(r),
                                        next: w1.len() as int,
                                        ok: true,
                                    }));
                                }
                            }
                            return r;
                        }
                        proof {
                            assert(forall|e: Walks| #[trigger]
                                c_stmt(b.model(), c1, w1 + e, n0) == (Compiled {
                                    ctx: c2,
                                    err: None,
                                    next: w1.len() as int,
                                    ok: true,
                                }));
                        }
                    },
                    None => {},
                }
                let ghost code_m = pop_custom(c2).1;
                match ctx.take_last_custom_target() {
                    Some(code) => {
                        if is_text(&d.name, "Rect") {
                            ctx.emit(NodeOp::ShapeRect(code));
                        } else if is_text(&d.name, "Disc") {
                            ctx.emit(NodeOp::ShapeDisc(code));
                        }
                    },
                    None => {},
                }
                proof {
                    assert forall|ext: Walks| #[trigger]
                        c_stmt(s.model(), old(ctx).model(), self.walks@ + ext, old(self).walks@.len() as int)
                            == (Compiled {
                            ctx: ctx.model(),
                            err: None,
                            next: self.walks@.len() as int,
                            ok: true,
                        }) by {
                        match d.block {
                            Some(b) => {
                                assert(c_stmt(b.model(), c1, w1 + ext, n0) == (Compiled {
                                    ctx: c2,
                                    err: None,
                                    next: w1.len() as int,
                                    ok: true,
                                }));
                            },
                            None => {},
                        }
                    }
                }
                Ok(())
            },
            _ => Ok(()),
        }
    }

    /// A segment: its depth and its body are compiled into bodies of their own,
    /// which the segment's instruction then carries.
    #[verifier::spinoff_prover]
    #[verifier::rlimit(60)]
    fn segment(&mut self, s: &Stmt, ctx: &mut Context) -> (r: Result<(), RuntimeError>)
        requires
            old(ctx).wf(),
            s is Segment,
        ensures
            final(ctx).wf(),
            stmt_done(
                s.model(),
                old(ctx).model(),
                old(self).walks@,
                final(ctx).model(),
                final(self).walks@,
                r,
            ),
        decreases s.model(), 0int,
    {
        match s {
            Stmt::Segment(d, _) => {
                proof {
                    assert(old(self).walks@.is_prefix_of(old(self).walks@));
                    assert(old(self).walks@ + Seq::<Seq<Seq<char>>>::empty() =~= old(self).walks@);
                }
                let ghost n0 = old(self).walks@.len() as int;
                let mut depth: Vec<NodeOp> = Vec::new();
                assert(NodeOp::models(depth@) =~= Seq::empty());
                match expr_table_get(&d.params, "depth") {
                    Some(depth_ast) => {
                        ctx.add_custom_target();
                        let r = self.expr(depth_ast, ctx);
                        if r.is_err() {
                            return r;
                        }
                        match ctx.take_last_custom_target() {
                            Some(code) => {
                                depth = code;
                            },
                            None => {},
                        }
                    },
                    None => {},
                }
                let ghost depth_m = NodeOp::models(depth@);
                let ghost cb = ctx.model();
                ctx.add_custom_target();
                let ghost c1 = ctx.model();
                let ghost mut c2 = c1;
                let ghost mut w1 = old(self).walks@;
                match &d.block {
                    Some(b) => {
                        proof {
                            assert(decreases_to!(s.model() => s.model()->Segment_0));
                            assert(decreases_to!(s.model()->Segment_0 => s.model()->Segment_0.block));
                            assert(decreases_to!(s.model()->Segment_0.block => s.model()->Segment_0.block->Some_0));
                        }
                        let r = self.stmt(b, ctx);
                        proof {
                            c2 = ctx.model();
                            w1 = self.walks@;
                        }
                        if r.is_err() {
                            proof {
                                assert forall|ext: Walks| #[trigger]
                                    c_stmt(s.model(), old(ctx).model(), self.walks@ + ext, old(self).walks@.len() as int)
                                        == (Compiled {
                                        ctx: ctx.model(),
                                        err: err_of(r),
                                        next: self.walks@.len() as int,
                                        ok: true,
                                    }) by {
                                    assert(c_stmt(b.model(), c1, w1 + ext, n0) == (Compiled {
                                        ctx: c2,
                                        err: err_of(r),
                                        next: w1.len() as int,
                                        ok: true,
                                    }));
                                }
                            }
                            return r;
                        }
                        proof {
                            assert(forall|e: Walks| #[trigger]
                                c_stmt(b.model(), c1, w1 + e, n0) == (Compiled {
                                    ctx: c2,
                                    err: None,
                                    next: w1.len() as int,
                                    ok: true,
                                }));
                        }
                    },
                    None => {},
                }
                match ctx.take_last_custom_target() {
                    Some(code) => {
                        if is_text(&d.name, "Left") {
                            ctx.emit(NodeOp::SegmentLeft(depth, code));
                        } else if is_text(&d.name, "Back") {
                            ctx.emit(NodeOp::SegmentBack(depth, code));
                        } else if is_text(&d.name, "Floor") {
                            ctx.emit(NodeOp::SegmentFloor(depth, code));
                        }
                    },
                    None => {},
                }
                proof {
                    assert forall|ext: Walks| #[trigger]
                        c_stmt(s.model(), old(ctx).model(), self.walks@ + ext, old(self).walks@.len() as int)
                            == (Compiled {
                            ctx: ctx.model(),
                            err: None,
                            next: self.walks@.len() as int,
                            ok: true,
                        }) by {
                        match d.block {
                            Some(b) => {
                                assert(c_stmt(b.model(), c1, w1 + ext, n0) == (Compiled {
                                    ctx: c2,
                                    err: None,
                                    next: w1.len() as int,
                                    ok: true,
                                }));
                            },
                            None => {},
                        }
                    }
                }
                Ok(())
            },
            _ => Ok(()),
        }
    }

    /// A voxel: its size is compiled as a parameter, it is declared, then its
    /// body is compiled into it.
    #[verifier::spinoff_prover]
    #[verifier::rlimit(60)]
    fn voxel(&mut self, s: &Stmt, ctx: &mut Context) -> (r: Result<(), RuntimeError>)
        requires
            old(ctx).wf(),
            s is Voxel,
        ensures
            final(ctx).wf(),
            stmt_done(
                s.model(),
                old(ctx).model(),
                old(self).walks@,
                final(ctx).model(),
                final(self).walks@,
                r,
            ),
        decreases s.model(), 0int,
    {
        match s {
            Stmt::Voxel(d, _) => {
                proof {
                    assert(old(self).walks@.is_prefix_of(old(self).walks@));
                    assert(old(self).walks@ + Seq::<Seq<Seq<char>>>::empty() =~= old(self).walks@);
                }
                let ghost n0 = old(self).walks@.len() as int;
                let mut size: Vec<NodeOp> = Vec::new();
                match expr_table_get(&d.params, "size") {
                    Some(size_ast) => {
                        ctx.set_target(OutputTarget::Custom);
                        let r = self.expr(size_ast, ctx);
                        if r.is_err() {
                            return r;
                        }
                        std::mem::swap(&mut size, &mut ctx.program.custom);
                    },
                    None => {
                        let ghost e = size@;
                        size.push(
                            NodeOp::Push(Operand::Float3(Number::Int(1), Number::Int(1), Number::Int(1))),
                        );
                        proof {
                            NodeOp::lemma_models_push(e, size@.last());
                            assert(e.push(size@.last()) =~= size@);
                            assert(NodeOp::models(e) =~= Seq::empty());
                            assert(NodeOp::models(size@) =~= crate::semantics::unit_size());
                        }
                    },
                }
                let ghost size_m = NodeOp::models(size@);
                let code = VoxelCode { name: d.name.clone(), size, body: Vec::new() };
                assert(NodeOp::models(code.body@) =~= Seq::empty());
                voxel_table_insert(&mut ctx.program.voxels, d.name.clone(), code);
                ctx.set_target(OutputTarget::Voxels(d.name.clone()));
                let ghost c1 = ctx.model();
                let ghost mut c2 = c1;
                let ghost mut w1 = old(self).walks@;
                match &d.block {
                    Some(b) => {
                        proof {
                            assert(decreases_to!(s.model() => s.model()->Voxel_0));
                            assert(decreases_to!(s.model()->Voxel_0 => s.model()->Voxel_0.block));
                            assert(decreases_to!(s.model()->Voxel_0.block => s.model()->Voxel_0.block->Some_0));
                        }
                        let r = self.stmt(b, ctx);
                        proof {
                            c2 = ctx.model();
                            w1 = self.walks@;
                        }
                        if r.is_err() {
                            proof {
                                assert forall|ext: Walks| #[trigger]
                                    c_stmt(s.model(), old(ctx).model(), self.walks@ + ext, old(self).walks@.len() as int)
                                        == (Compiled {
                                        ctx: ctx.model(),
                                        err: err_of(r),
                                        next: self.walks@.len() as int,
                                        ok: true,
                                    }) by {
                                    assert(c_stmt(b.model(), c1, w1 + ext, n0) == (Compiled {
                                        ctx: c2,
                                        err: err_of(r),
                                        next: w1.len() as int,
                                        ok: true,
                                    }));
                                }
                            }
                            return r;
                        }
                        proof {
                            assert(forall|e: Walks| #[trigger]
                                c_stmt(b.model(), c1, w1 + e, n0) == (Compiled {
                                    ctx: c2,
                                    err: None,
                                    next: w1.len() as int,
                                    ok: true,
                                }));
                        }
                    },
                    None => {},
                }
                ctx.set_target(OutputTarget::Globals);
                proof {
                    assert forall|ext: Walks| #[trigger]
                        c_stmt(s.model(), old(ctx).model(), self.walks@ + ext, old(self).walks@.len() as int)
                            == (Compiled {
                            ctx: ctx.model(),
                            err: None,
                            next: self.walks@.len() as int,
                            ok: true,
                        }) by {
                        match d.block {
                            Some(b) => {
                                assert(c_stmt(b.model(), c1, w1 + ext, n0) == (Compiled {
                                    ctx: c2,
                                    err: None,
                                    next: w1.len() as int,
                                    ok: true,
                                }));
                            },
                            None => {},
                        }
                    }
                }
                Ok(())
            },
            _ => Ok(()),
        }
    }

    /// A material: each of its bodies in turn, in the order in which its
    /// table is walked, is compiled into a body of its own and followed by the
    /// instruction of its property; the whole becomes the material's code.
    #[verifier::spinoff_prover]
    #[verifier::rlimit(80)]
    fn material(&mut self, s: &Stmt, ctx: &mut Context) -> (r: Result<(), RuntimeError>)
        requires
            old(ctx).wf(),
            s is Material,
        ensures
            final(ctx).wf(),
            stmt_done(
                s.model(),
                old(ctx).model(),
                old(self).walks@,
                final(ctx).model(),
                final(self).walks@,
                r,
            ),
        decreases s.model(), 0int,
    {
        match s {
            Stmt::Material(d, loc) => {
                let ghost n0 = old(self).walks@.len() as int;
                let ghost bm = stmt_table(d.blocks);
                let ghost l = loc@;
                let keys = stmt_table_keys(&d.blocks);
                let ghost order = names_of(keys@);
                proof {
                    self.walks@ = self.walks@.push(order);
                    assert(old(self).walks@.is_prefix_of(self.walks@));
                    assert(self.walks@.is_prefix_of(self.walks@));
                    seq_to_set_is_finite(order);
                }
                let ghost wa = self.walks@;
                let mut material_ops: Vec<NodeOp> = Vec::new();
                assert(NodeOp::models(material_ops@) =~= Seq::empty());
                let mut i: usize = 0;
                while i < keys.len()
                    invariant
                        i <= keys.len(),
                        order == names_of(keys@),
                        order.len() == keys.len(),
                        order.no_duplicates(),
                        order.to_set() == bm.dom(),
                        bm.dom().finite(),
                        bm == stmt_table(d.blocks),
                        n0 == old(self).walks@.len(),
                        l == loc@,
                        s.model() == StmtV::Material(
                            Box::new(crate::ast::BlocksDeclV { name: d.name@, params: crate::tables::expr_table(d.params), blocks: bm }),
                            l,
                        ),
                        ctx.wf(),
                        wa == old(self).walks@.push(order),
                        wa.is_prefix_of(self.walks@),
                        forall|ext: Walks| #[trigger]
                            c_material_blocks(bm, order, 0, old(ctx).model(), self.walks@ + ext, n0 + 1, Seq::empty(), l)
                                == c_material_blocks(
                                bm,
                                order,
                                i as int,
                                ctx.model(),
                                self.walks@ + ext,
                                self.walks@.len() as int,
                                NodeOp::models(material_ops@),
                                l,
                            ),
                    decreases keys.len() - i,
                {
                    let ghost ci = ctx.model();
                    let ghost wi = self.walks@;
                    let ghost opsi = NodeOp::models(material_ops@);
                    let k = &keys[i];
                    let ghost km = order[i as int];
                    assert(km == k@);
                    assert(order.to_set().contains(km));
                    let b = match stmt_table_get(&d.blocks, k.as_str()) {
                        Some(b) => b,
                        None => {
                            return Ok(());
                        },
                    };
                    proof {
                        vstd::map::axiom_map_index_decreases_finite(bm, km);
                        assert(decreases_to!(s.model() => s.model()->Material_0));
                        assert(decreases_to!(s.model()->Material_0 => s.model()->Material_0.blocks));
                        assert(decreases_to!(s.model()->Material_0.blocks => s.model()->Material_0.blocks[km]));
                    }
                    ctx.add_custom_target();
                    let ghost c1 = ctx.model();
                    let r = self.stmt(b, ctx);
                    let ghost w1 = self.walks@;
                    let ghost c2 = ctx.model();
                    proof {
                        lemma_prefix_trans(wa, wi, w1);
                        assert forall|ext: Walks| #[trigger]
                            c_material_blocks(bm, order, 0, old(ctx).model(), w1 + ext, n0 + 1, Seq::empty(), l)
                                == c_material_blocks(bm, order, i as int, ci, w1 + ext, wi.len() as int, opsi, l) by {
                            let e = w1.subrange(wi.len() as int, w1.len() as int) + ext;
                            assert(wi + e =~= w1 + ext);
                        }
                        assert forall|ext: Walks|
                            (w1 + ext)[n0] == order by {
                            assert(wa[n0] == order);
                            assert(w1[n0] == wa[n0]);
                        }
                    }
                    if r.is_err() {
                        proof {
                            lemma_prefix_trans(old(self).walks@, wa, w1);
                            assert forall|ext: Walks| #[trigger]
                                c_stmt(s.model(), old(ctx).model(), self.walks@ + ext, old(self).walks@.len() as int)
                                    == (Compiled {
                                    ctx: ctx.model(),
                                    err: err_of(r),
                                    next: self.walks@.len() as int,
                                    ok: true,
                                }) by {
                                assert(c_stmt(bm[km], c1, w1 + ext, wi.len() as int) == (Compiled {
                                    ctx: c2,
                                    err: err_of(r),
                                    next: w1.len() as int,
                                    ok: true,
                                }));
                                assert((w1 + ext)[n0] == order);
                                assert(c_material_blocks(bm, order, i as int, ci, w1 + ext, wi.len() as int, opsi, l).0 == (Compiled {
                                    ctx: c2,
                                    err: err_of(r),
                                    next: w1.len() as int,
                                    ok: true,
                                }));
                                assert(c_material_blocks(bm, order, 0, old(ctx).model(), w1 + ext, n0 + 1, Seq::empty(), l).0 == (Compiled {
                                    ctx: c2,
                                    err: err_of(r),
                                    next: w1.len() as int,
                                    ok: true,
                                }));
                                assert(is_walk(order, bm.dom()));
                            }
                        }
                        return r;
                    }
                    let popped = ctx.take_last_custom_target();
                    let ghost c3 = ctx.model();
                    match popped {
                        Some(code) => {
                            let mut code = code;
                            let ghost before = material_ops@;
                            let ghost code_seq = code@;
                            let ghost cm = NodeOp::models(code@);
                            material_ops.append(&mut code);
                            proof {
                                NodeOp::lemma_models_add(before, code_seq);
                            }
                            match material_property_node(k) {
                                Some(op) => {
                                    let ghost mid = material_ops@;
                                    let ghost om = op.model();
                                    material_ops.push(op);
                                    proof {
                                        NodeOp::lemma_models_push(mid, op);
                                        assert(NodeOp::models(mid).push(om) =~= opsi + cm + seq![om]);
                                    }
                                },
                                None => {
                                    let mut message = String::from_str("Unknown material property: ");
                                    message.append(k.as_str());
                                    let err = RuntimeError::new(message, loc);
                                    assert(err@ == crate::semantics::rt_error("Unknown material property: "@ + km, l));
                                    let r: Result<(), RuntimeError> = Err(err);
                                    proof {
                                        lemma_prefix_trans(old(self).walks@, wa, w1);
                                        assert forall|ext: Walks| #[trigger]
                                            c_stmt(s.model(), old(ctx).model(), self.walks@ + ext, old(self).walks@.len() as int)
                                                == (Compiled {
                                                ctx: ctx.model(),
                                                err: err_of(r),
                                                next: self.walks@.len() as int,
                                                ok: true,
                                            }) by {
                                            assert(c_stmt(bm[km], c1, w1 + ext, wi.len() as int) == (Compiled {
                                                ctx: c2,
                                                err: None,
                                                next: w1.len() as int,
                                                ok: true,
                                            }));
                                            assert((w1 + ext)[n0] == order);
                                            assert(c_material_blocks(bm, order, i as int, ci, w1 + ext, wi.len() as int, opsi, l).0 == (Compiled {
                                                ctx: c3,
                                                err: err_of(r),
                                                next: w1.len() as int,
                                                ok: true,
                                            }));
                                            assert(c_material_blocks(bm, order, 0, old(ctx).model(), w1 + ext, n0 + 1, Seq::empty(), l).0 == (Compiled {
                                                ctx: c3,
                                                err: err_of(r),
                                                next: w1.len() as int,
                                                ok: true,
                                            }));
                                            assert(is_walk(order, bm.dom()));
                                        }
                                    }
                                    return r;
                                },
                            }
                        },
                        None => {},
                    }
                    proof {
                        assert forall|ext: Walks| #[trigger]
                            c_material_blocks(bm, order, 0, old(ctx).model(), self.walks@ + ext, n0 + 1, Seq::empty(), l)
                                == c_material_blocks(
                                bm,
                                order,
                                i + 1,
                                ctx.model(),
                                self.walks@ + ext,
                                self.walks@.len() as int,
                                NodeOp::models(material_ops@),
                                l,
                            ) by {
                            assert(c_stmt(bm[km], c1, w1 + ext, wi.len() as int) == (Compiled {
                                ctx: c2,
                                err: None,
                                next: w1.len() as int,
                                ok: true,
                            }));
                        }
                    }
                    i = i + 1;
                }
                let ghost cf = ctx.model();
                let ghost opsf = NodeOp::models(material_ops@);
                material_table_insert(&mut ctx.materials, d.name.clone(), material_ops);
                proof {
                    lemma_prefix_trans(old(self).walks@, wa, self.walks@);
                    assert forall|ext: Walks| #[trigger]
                        c_stmt(s.model(), old(ctx).model(), self.walks@ + ext, old(self).walks@.len() as int)
                            == (Compiled {
                            ctx: ctx.model(),
                            err: None,
                            next: self.walks@.len() as int,
                            ok: true,
                        }) by {
                        lemma_prefix_index(wa, self.walks@, n0);
                        assert((self.walks@ + ext)[n0] == order);
                        assert(c_material_blocks(bm, order, 0, old(ctx).model(), self.walks@ + ext, n0 + 1, Seq::empty(), l)
                            == c_material_blocks(bm, order, i as int, cf, self.walks@ + ext, self.walks@.len() as int, opsf, l));
                        assert(ctx.model() == CtxV { materials: table_insert(cf.materials, d.name@, opsf), ..cf });
                    }
                }
                Ok(())
            },
            _ => Ok(()),
        }
    }

    /// A pattern: each of its bodies in turn, in the order in which its table
    /// is walked, is compiled into a body of its own; the pattern's
    /// instruction then carries the bodies that its kind names.
    #[verifier::spinoff_prover]
    #[verifier::rlimit(80)]
    fn pattern(&mut self, s: &Stmt, ctx: &mut Context) -> (r: Result<(), RuntimeError>)
        requires
            old(ctx).wf(),
            s is Pattern,
        ensures
            final(ctx).wf(),
            stmt_done(
                s.model(),
                old(ctx).model(),
                old(self).walks@,
                final(ctx).model(),
                final(self).walks@,
                r,
            ),
        decreases s.model(), 0int,
    {
        match s {
            Stmt::Pattern(d, loc) => {
                let ghost n0 = old(self).walks@.len() as int;
                let ghost bm = stmt_table(d.blocks);
                let ghost l = loc@;
                let keys = stmt_table_keys(&d.blocks);
                let ghost order = names_of(keys@);
                proof {
                    self.walks@ = self.walks@.push(order);
                    assert(old(self).walks@.is_prefix_of(self.walks@));
                    assert(self.walks@.is_prefix_of(self.walks@));
                    seq_to_set_is_finite(order);
                }
                let ghost wa = self.walks@;
                let ghost mut codes = Map::<Seq<char>, Seq<NodeOpV>>::empty();
                let mut even: Option<Vec<NodeOp>> = None;
                let mut odd: Option<Vec<NodeOp>> = None;
                let mut brick: Option<Vec<NodeOp>> = None;
                let mut cement: Option<Vec<NodeOp>> = None;
                let mut i: usize = 0;
                while i < keys.len()
                    invariant
                        i <= keys.len(),
                        order == names_of(keys@),
                        order.len() == keys.len(),
                        order.no_duplicates(),
                        order.to_set() == bm.dom(),
                        bm.dom().finite(),
                        bm == stmt_table(d.blocks),
                        n0 == old(self).walks@.len(),
                        l == loc@,
                        s.model() == StmtV::Pattern(
                            Box::new(crate::ast::BlocksDeclV { name: d.name@, params: crate::tables::expr_table(d.params), blocks: bm }),
                            l,
                        ),
                        ctx.wf(),
                        wa == old(self).walks@.push(order),
                        wa.is_prefix_of(self.walks@),
                        NodeOp::opt_models(even) == code_of(codes, "even"@),
                        NodeOp::opt_models(odd) == code_of(codes, "odd"@),
                        NodeOp::opt_models(brick) == code_of(codes, "brick"@),
                        NodeOp::opt_models(cement) == code_of(codes, "cement"@),
                        forall|ext: Walks| #[trigger]
                            c_pattern_blocks(bm, order, 0, old(ctx).model(), self.walks@ + ext, n0 + 1, Map::empty())
                                == c_pattern_blocks(
                                bm,
                                order,
                                i as int,
                                ctx.model(),
                                self.walks@ + ext,
                                self.walks@.len() as int,
                                codes,
                            ),
                    decreases keys.len() - i,
                {
                    let ghost ci = ctx.model();
                    let ghost wi = self.walks@;
                    let ghost codes_i = codes;
                    let k = &keys[i];
                    let ghost km = order[i as int];
                    assert(km == k@);
                    assert(order.to_set().contains(km));
                    let b = match stmt_table_get(&d.blocks, k.as_str()) {
                        Some(b) => b,
                        None => {
                            return Ok(());
                        },
                    };
                    proof {
                        vstd::map::axiom_map_index_decreases_finite(bm, km);
                        assert(decreases_to!(s.model() => s.model()->Pattern_0));
                        assert(decreases_to!(s.model()->Pattern_0 => s.model()->Pattern_0.blocks));
                        assert(decreases_to!(s.model()->Pattern_0.blocks => s.model()->Pattern_0.blocks[km]));
                    }
                    ctx.add_custom_target();
                    let ghost c1 = ctx.model();
                    let r = self.stmt(b, ctx);
                    let ghost w1 = self.walks@;
                    let ghost c2 = ctx.model();
                    proof {
                        lemma_prefix_trans(wa, wi, w1);
                        assert forall|ext: Walks| #[trigger]
                            c_pattern_blocks(bm, order, 0, old(ctx).model(), w1 + ext, n0 + 1, Map::empty())
                                == c_pattern_blocks(bm, order, i as int, ci, w1 + ext, wi.len() as int, codes_i) by {
                            let e = w1.subrange(wi.len() as int, w1.len() as int) + ext;
                            assert(wi + e =~= w1 + ext);
                        }
                    }
                    if r.is_err() {
                        proof {
                            lemma_prefix_trans(old(self).walks@, wa, w1);
                            assert forall|ext: Walks| #[trigger]
                                c_stmt(s.model(), old(ctx).model(), self.walks@ + ext, old(self).walks@.len() as int)
                                    == (Compiled {
                                    ctx: ctx.model(),
                                    err: err_of(r),
                                    next: self.walks@.len() as int,
                                    ok: true,
                                }) by {
                                assert(c_stmt(bm[km], c1, w1 + ext, wi.len() as int) == (Compiled {
                                    ctx: c2,
                                    err: err_of(r),
                                    next: w1.len() as int,
                                    ok: true,
                                }));
                                lemma_prefix_index(wa, w1, n0);
                                assert((w1 + ext)[n0] == order);
                                assert(c_pattern_blocks(bm, order, i as int, ci, w1 + ext, wi.len() as int, codes_i).0 == (Compiled {
                                    ctx: c2,
                                    err: err_of(r),
                                    next: w1.len() as int,
                                    ok: true,
                                }));
                                assert(c_pattern_blocks(bm, order, 0, old(ctx).model(), w1 + ext, n0 + 1, Map::empty()).0 == (Compiled {
                                    ctx: c2,
                                    err: err_of(r),
                                    next: w1.len() as int,
                                    ok: true,
                                }));
                                assert(is_walk(order, bm.dom()));
                            }
                        }
                        return r;
                    }
                    match ctx.take_last_custom_target() {
                        Some(code) => {
                            let ghost cm = NodeOp::models(code@);
                            proof {
                                codes = codes.insert(km, cm);
                                reveal_strlit("even");
                                reveal_strlit("odd");
                                reveal_strlit("brick");
                                reveal_strlit("cement");
                            }
                            if is_text(k, "even") {
                                even = Some(code);
                            } else if is_text(k, "odd") {
                                odd = Some(code);
                            } else if is_text(k, "brick") {
                                brick = Some(code);
                            } else if is_text(k, "cement") {
                                cement = Some(code);
                            }
                        },
                        None => {},
                    }
                    proof {
                        assert forall|ext: Walks| #[trigger]
                            c_pattern_blocks(bm, order, 0, old(ctx).model(), self.walks@ + ext, n0 + 1, Map::empty())
                                == c_pattern_blocks(
                                bm,
                                order,
                                i + 1,
                                ctx.model(),
                                self.walks@ + ext,
                                self.walks@.len() as int,
                                codes,
                            ) by {
                            assert(c_stmt(bm[km], c1, w1 + ext, wi.len() as int) == (Compiled {
                                ctx: c2,
                                err: None,
                                next: w1.len() as int,
                                ok: true,
                            }));
                        }
                    }
                    i = i + 1;
                }
                let ghost cf = ctx.model();
                if is_text(&d.name, "Modulo") {
                    ctx.emit(NodeOp::PatternModulo(even, odd));
                } else if is_text(&d.name, "Bricks") {
                    ctx.emit(NodeOp::PatternBricks(brick, cement));
                }
                proof {
                    lemma_prefix_trans(old(self).walks@, wa, self.walks@);
                    assert forall|ext: Walks| #[trigger]
                        c_stmt(s.model(), old(ctx).model(), self.walks@ + ext, old(self).walks@.len() as int)
                            == (Compiled {
                            ctx: ctx.model(),
                            err: None,
                            next: self.walks@.len() as int,
                            ok: true,
                        }) by {
                        lemma_prefix_index(wa, self.walks@, n0);
                        assert((self.walks@ + ext)[n0] == order);
                        assert(c_pattern_blocks(bm, order, 0, old(ctx).model(), self.walks@ + ext, n0 + 1, Map::empty())
                            == c_pattern_blocks(bm, order, i as int, cf, self.walks@ + ext, self.walks@.len() as int, codes));
                        assert(is_walk(order, bm.dom()));
                    }
                }
                Ok(())
            },
            _ => Ok(()),
        }
    }
}

} // verus!

verus! {

impl CompileVisitor {
    /// Compiles statements in order, up to the first error. The walk orders
    /// that materials and patterns take are recorded in `walks()`.
    pub fn compile_statements(&mut self, stmts: &Vec<Box<Stmt>>, ctx: &mut Context) -> (r: Result<
        (),
        RuntimeError,
    >)
        requires
            old(ctx).wf(),
        ensures
            final(ctx).wf(),
            old(self).walks().is_prefix_of(final(self).walks()),
            forall|ext: Walks| #[trigger]
                c_stmts(
                    Stmt::models(stmts@),
                    0,
                    old(ctx).model(),
                    final(self).walks() + ext,
                    old(self).walks().len() as int,
                ) == (Compiled {
                    ctx: final(ctx).model(),
                    err: err_of(r),
                    next: final(self).walks().len() as int,
                    ok: true,
                }),
    {
        let ghost lm = Stmt::models(stmts@);
        proof {
            Stmt::lemma_models_index(stmts@);
            assert(old(self).walks@.is_prefix_of(old(self).walks@));
        }
        let mut i: usize = 0;
        while i < stmts.len()
            invariant
                i <= stmts.len(),
                lm == Stmt::models(stmts@),
                lm.len() == stmts.len(),
                forall|j: int| 0 <= j < stmts.len() ==> lm[j] == #[trigger] stmts@[j].model(),
                ctx.wf(),
                old(self).walks@.is_prefix_of(self.walks@),
                forall|ext: Walks| #[trigger]
                    c_stmts(lm, 0, old(ctx).model(), self.walks@ + ext, old(self).walks@.len() as int)
                        == c_stmts(lm, i as int, ctx.model(), self.walks@ + ext, self.walks@.len() as int),
            decreases stmts.len() - i,
        {
            let ghost ci = ctx.model();
            let ghost wi = self.walks@;
            assert(lm[i as int] == stmts@[i as int].model());
            let r = self.stmt(&stmts[i], ctx);
            let ghost w1 = self.walks@;
            let ghost c1 = ctx.model();
            proof {
                lemma_prefix_trans(old(self).walks@, wi, w1);
                assert forall|ext: Walks| #[trigger]
                    c_stmts(lm, 0, old(ctx).model(), w1 + ext, old(self).walks@.len() as int)
                        == c_stmts(lm, i as int, ci, w1 + ext, wi.len() as int) by {
                    let e = w1.subrange(wi.len() as int, w1.len() as int) + ext;
                    assert(wi + e =~= w1 + ext);
                }
                assert forall|ext: Walks| #[trigger]
                    c_stmt(lm[i as int], ci, w1 + ext, wi.len() as int) == (Compiled {
                        ctx: c1,
                        err: err_of(r),
                        next: w1.len() as int,
                        ok: true,
                    }) by {
                    assert(c_stmt(stmts@[i as int].model(), ci, w1 + ext, wi.len() as int) == (Compiled {
                        ctx: c1,
                        err: err_of(r),
                        next: w1.len() as int,
                        ok: true,
                    }));
                }
            }
            if r.is_err() {
                proof {
                    assert forall|ext: Walks| #[trigger]
                        c_stmts(lm, 0, old(ctx).model(), w1 + ext, old(self).walks@.len() as int)
                            == (Compiled { ctx: c1, err: err_of(r), next: w1.len() as int, ok: true }) by {
                        assert(c_stmts(lm, 0, old(ctx).model(), w1 + ext, old(self).walks@.len() as int)
                            == c_stmts(lm, i as int, ci, w1 + ext, wi.len() as int));
                        assert(c_stmt(lm[i as int], ci, w1 + ext, wi.len() as int) == (Compiled {
                            ctx: c1,
                            err: err_of(r),
                            next: w1.len() as int,
                            ok: true,
                        }));
                    }
                }
                return r;
            }
            proof {
                assert forall|ext: Walks| #[trigger]
                    c_stmts(lm, 0, old(ctx).model(), w1 + ext, old(self).walks@.len() as int)
                        == c_stmts(lm, i + 1, c1, w1 + ext, w1.len() as int) by {
                    assert(c_stmts(lm, 0, old(ctx).model(), w1 + ext, old(self).walks@.len() as int)
                        == c_stmts(lm, i as int, ci, w1 + ext, wi.len() as int));
                    assert(c_stmt(lm[i as int], ci, w1 + ext, wi.len() as int) == (Compiled {
                        ctx: c1,
                        err: None,
                        next: w1.len() as int,
                        ok: true,
                    }));
                }
            }
            i = i + 1;
        }
        Ok(())
    }
}

/// Compiles the statements of a module, in order, into a fresh context whose
/// variables are the module's; stops at the first error. Each material and
/// pattern walks its table of bodies in some order that lists every name
/// once.
pub fn compile(module: &Module) -> (r: (Context, Result<(), RuntimeError>))
    ensures
        r.0.wf(),
        exists|w: Walks|
            c_stmts(module.model().stmts, 0, initial(module.model().variables), w, 0) == (Compiled {
                ctx: r.0.model(),
                err: err_of(r.1),
                next: w.len() as int,
                ok: true,
            }),
{
    let mut visitor = CompileVisitor::new();
    let mut ctx = Context::new(index_table_clone(&module.variables));
    let r = visitor.compile_statements(&module.stmts, &mut ctx);
    proof {
        let w = visitor.walks();
        assert(w + Seq::<Seq<Seq<char>>>::empty() =~= w);
        assert(c_stmts(module.model().stmts, 0, initial(module.model().variables), w + Seq::<Seq<Seq<char>>>::empty(), 0) == (Compiled {
            ctx: ctx.model(),
            err: err_of(r),
            next: w.len() as int,
            ok: true,
        }));
    }
    (ctx, r)
}

} // verus!
