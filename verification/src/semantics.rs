//! What compiling a syntax tree into instructions means: the instructions each
//! expression stands for, and how each statement changes the compilation
//! context.
use vstd::prelude::*;

use crate::ast::{
    AssignmentOperator, BinaryOperator, ComparisonOperator, EqualityOperator, ExprV, LocationV,
    LogicalOperator, NumberV, StmtV, UnaryOperator, ValueV,
};
use crate::error::RuntimeErrorV;
use crate::node::{NodeOpV, OperandV, OutputTargetV, VoxelCodeV};
use crate::tables::table_names;

verus! {

/// The model of a compilation context.
pub struct CtxV {
    /// Where instructions go when no nested body is being compiled.
    pub target: OutputTargetV,
    /// The bodies being compiled, innermost last.
    pub customs: Seq<Seq<NodeOpV>>,
    /// The slot of each variable.
    pub variables: Map<Seq<char>, u32>,
    /// The code of each material, in the order the materials were declared.
    pub materials: Seq<(Seq<char>, Seq<NodeOpV>)>,
    /// The code of the program.
    pub globals: Seq<NodeOpV>,
    /// Code compiled for a parameter.
    pub custom: Seq<NodeOpV>,
    /// The declared voxels.
    pub voxels: Map<Seq<char>, VoxelCodeV>,
}

/// What a compilation step leaves: the context, the error that stopped it if
/// any, how many of the recorded walk orders it has used up, and whether each
/// walk order it used lists the names of its table once each.
pub struct Compiled {
    pub ctx: CtxV,
    pub err: Option<RuntimeErrorV>,
    pub next: int,
    pub ok: bool,
}

/// The recorded orders in which tables of named bodies were walked.
pub type Walks = Seq<Seq<Seq<char>>>;

/// Whether `order` lists each name of `names` exactly once.
pub open spec fn is_walk(order: Seq<Seq<char>>, names: Set<Seq<char>>) -> bool {
    order.no_duplicates() && order.to_set() == names
}

pub open spec fn rt_error(message: Seq<char>, l: LocationV) -> RuntimeErrorV {
    RuntimeErrorV { message, location: l }
}

// ---------------------------------------------------------------------------
// Context operations.

/// Appends instructions where they go: to the innermost body being compiled,
/// else to the output target. Code for a voxel that does not exist is dropped.
pub open spec fn emit_all(c: CtxV, ops: Seq<NodeOpV>) -> CtxV {
    if c.customs.len() > 0 {
        CtxV { customs: c.customs.update(c.customs.len() - 1, c.customs.last() + ops), ..c }
    } else {
        match c.target {
            OutputTargetV::Globals => CtxV { globals: c.globals + ops, ..c },
            OutputTargetV::Custom => CtxV { custom: c.custom + ops, ..c },
            OutputTargetV::Voxels(n) => if c.voxels.dom().contains(n) {
                CtxV {
                    voxels: c.voxels.insert(
                        n,
                        VoxelCodeV { body: c.voxels[n].body + ops, ..c.voxels[n] },
                    ),
                    ..c
                }
            } else {
                c
            },
        }
    }
}

/// Switches the output target and clears the parameter code.
pub open spec fn set_target(c: CtxV, t: OutputTargetV) -> CtxV {
    CtxV { target: t, custom: Seq::empty(), ..c }
}

/// Opens a new innermost body.
pub open spec fn push_custom(c: CtxV) -> CtxV {
    CtxV { customs: c.customs.push(Seq::empty()), ..c }
}

/// Closes the innermost body and hands out its code.
pub open spec fn pop_custom(c: CtxV) -> (CtxV, Option<Seq<NodeOpV>>) {
    if c.customs.len() > 0 {
        (CtxV { customs: c.customs.drop_last(), ..c }, Some(c.customs.last()))
    } else {
        (c, None)
    }
}

pub open spec fn code_or_empty(o: Option<Seq<NodeOpV>>) -> Seq<NodeOpV> {
    match o {
        Some(c) => c,
        None => Seq::empty(),
    }
}

/// A material table after `k` got the code `v`: a known name keeps its place.
pub open spec fn table_insert(
    t: Seq<(Seq<char>, Seq<NodeOpV>)>,
    k: Seq<char>,
    v: Seq<NodeOpV>,
) -> Seq<(Seq<char>, Seq<NodeOpV>)> {
    if table_names(t).contains(k) {
        t.update(table_names(t).index_of(k), (k, v))
    } else {
        t.push((k, v))
    }
}

/// Emitting two runs of instructions in turn emits the two together.
pub proof fn lemma_emit_all_add(c: CtxV, a: Seq<NodeOpV>, b: Seq<NodeOpV>)
    ensures
        emit_all(emit_all(c, a), b) == emit_all(c, a + b),
{
    if c.customs.len() > 0 {
        assert(c.customs.last() + a + b =~= c.customs.last() + (a + b));
        assert(emit_all(emit_all(c, a), b).customs =~= emit_all(c, a + b).customs);
    } else {
        match c.target {
            OutputTargetV::Globals => {
                assert(c.globals + a + b =~= c.globals + (a + b));
            },
            OutputTargetV::Custom => {
                assert(c.custom + a + b =~= c.custom + (a + b));
            },
            OutputTargetV::Voxels(n) => {
                if c.voxels.dom().contains(n) {
                    assert(c.voxels[n].body + a + b =~= c.voxels[n].body + (a + b));
                    assert(emit_all(emit_all(c, a), b).voxels =~= emit_all(c, a + b).voxels);
                }
            },
        }
    }
}

/// Emitting nothing leaves the context as it was.
pub proof fn lemma_emit_all_empty(c: CtxV)
    ensures
        emit_all(c, Seq::empty()) == c,
{
    if c.customs.len() > 0 {
        assert(c.customs.last() + Seq::<NodeOpV>::empty() =~= c.customs.last());
        assert(emit_all(c, Seq::empty()).customs =~= c.customs);
    } else {
        match c.target {
            OutputTargetV::Globals => {
                assert(c.globals + Seq::<NodeOpV>::empty() =~= c.globals);
            },
            OutputTargetV::Custom => {
                assert(c.custom + Seq::<NodeOpV>::empty() =~= c.custom);
            },
            OutputTargetV::Voxels(n) => {
                if c.voxels.dom().contains(n) {
                    assert(c.voxels[n].body + Seq::<NodeOpV>::empty() =~= c.voxels[n].body);
                    assert(emit_all(c, Seq::empty()).voxels =~= c.voxels);
                }
            },
        }
    }
}

// ---------------------------------------------------------------------------
// Expressions: each stands for a list of instructions, or stops at an error
// after part of them.

pub type Code = (Seq<NodeOpV>, Option<RuntimeErrorV>);

pub open spec fn ok_code(ops: Seq<NodeOpV>) -> Code {
    (ops, None)
}

/// The code of `a`, then, unless `a` failed, the code of `b`.
pub open spec fn then(a: Code, b: Code) -> Code {
    if a.1 is Some {
        a
    } else {
        (a.0 + b.0, b.1)
    }
}

pub open spec fn unary_op(op: UnaryOperator) -> NodeOpV {
    match op {
        UnaryOperator::Negate => NodeOpV::Not,
        UnaryOperator::Minus => NodeOpV::Neg,
    }
}

pub open spec fn logical_op(op: LogicalOperator) -> NodeOpV {
    match op {
        LogicalOperator::And => NodeOpV::And,
        LogicalOperator::Or => NodeOpV::Or,
    }
}

pub open spec fn equality_op(op: EqualityOperator) -> NodeOpV {
    match op {
        EqualityOperator::NotEqual => NodeOpV::Ne,
        EqualityOperator::Equal => NodeOpV::Eq,
    }
}

pub open spec fn comparison_op(op: ComparisonOperator) -> NodeOpV {
    match op {
        ComparisonOperator::Greater => NodeOpV::Gt,
        ComparisonOperator::GreaterEqual => NodeOpV::Ge,
        ComparisonOperator::Less => NodeOpV::Lt,
        ComparisonOperator::LessEqual => NodeOpV::Le,
    }
}

pub open spec fn binary_op(op: BinaryOperator) -> NodeOpV {
    match op {
        BinaryOperator::Add => NodeOpV::Add,
        BinaryOperator::Subtract => NodeOpV::Sub,
        BinaryOperator::Multiply => NodeOpV::Mul,
        BinaryOperator::Divide => NodeOpV::Div,
        BinaryOperator::Mod => NodeOpV::Mod,
    }
}

/// The arithmetic of a compound assignment.
pub open spec fn assign_arith(op: AssignmentOperator) -> NodeOpV {
    match op {
        AssignmentOperator::SubtractAssign => NodeOpV::Sub,
        AssignmentOperator::MultiplyAssign => NodeOpV::Mul,
        AssignmentOperator::DivideAssign => NodeOpV::Div,
        _ => NodeOpV::Add,
    }
}

/// The input of the program that a built-in name reads.
pub open spec fn input_op(name: Seq<char>) -> Option<NodeOpV> {
    if name == "local"@ {
        Some(NodeOpV::Local)
    } else if name == "world"@ {
        Some(NodeOpV::World)
    } else if name == "u"@ {
        Some(NodeOpV::U)
    } else if name == "v"@ {
        Some(NodeOpV::V)
    } else if name == "d"@ {
        Some(NodeOpV::D)
    } else if name == "hash"@ {
        Some(NodeOpV::Hash)
    } else {
        None
    }
}

/// Reading a variable: an input of the program, or the variable's slot and the
/// chosen components. A name without a slot reads nothing.
pub open spec fn variable_ops(name: Seq<char>, sw: Seq<u8>, vars: Map<Seq<char>, u32>) -> Seq<
    NodeOpV,
> {
    match input_op(name) {
        Some(op) => seq![op],
        None => if vars.dom().contains(name) {
            seq![NodeOpV::Load(vars[name] as usize)] + if sw.len() > 0 {
                seq![NodeOpV::GetComponents(sw)]
            } else {
                Seq::empty()
            }
        } else {
            Seq::empty()
        },
    }
}

/// Storing the value on the stack into a variable, with the value's old
/// content where the operator combines the two, and into the chosen
/// components only where there is a swizzle. A name without a slot stores
/// nothing.
pub open spec fn assign_ops(
    name: Seq<char>,
    op: AssignmentOperator,
    sw: Seq<u8>,
    vars: Map<Seq<char>, u32>,
) -> Seq<NodeOpV> {
    if !vars.dom().contains(name) {
        Seq::empty()
    } else if sw.len() == 0 {
        store_ops(vars[name] as usize, op)
    } else {
        store_components_ops(vars[name] as usize, op, sw)
    }
}

/// Storing into a whole variable.
pub open spec fn store_ops(i: usize, op: AssignmentOperator) -> Seq<NodeOpV> {
    match op {
        AssignmentOperator::Assign => seq![NodeOpV::Store(i)],
        _ => seq![NodeOpV::Load(i), NodeOpV::Swap, assign_arith(op), NodeOpV::Store(i)],
    }
}

/// Storing into the chosen components of a variable.
pub open spec fn store_components_ops(i: usize, op: AssignmentOperator, sw: Seq<u8>) -> Seq<
    NodeOpV,
> {
    match op {
        AssignmentOperator::Assign => seq![
            NodeOpV::Load(i),
            NodeOpV::Swap,
            NodeOpV::SetComponents(sw),
            NodeOpV::Store(i),
        ],
        _ => seq![
            NodeOpV::Load(i),
            NodeOpV::Dup,
            NodeOpV::GetComponents(sw),
            NodeOpV::Swap,
            assign_arith(op),
            NodeOpV::SetComponents(sw),
            NodeOpV::Store(i),
        ],
    }
}

/// Naming a material pushes its index; an unknown one is an error.
pub open spec fn material_ops(name: Seq<char>, mats: Seq<Seq<char>>, l: LocationV) -> Code {
    if mats.contains(name) {
        ok_code(seq![NodeOpV::Push(OperandV::Index(mats.index_of(name) as usize))])
    } else {
        (Seq::empty(), Some(rt_error("Unknown material: "@ + name, l)))
    }
}

/// The code of an expression, given the variables' slots and the materials'
/// names in order. Operands come first, then the operator. A call compiles its
/// callee alone, a conditional its first branch alone; two-component vectors
/// and strings compile to nothing.
pub open spec fn c_expr(e: ExprV, vars: Map<Seq<char>, u32>, mats: Seq<Seq<char>>) -> Code
    decreases e,
{
    match e {
        ExprV::Value(v, _, _, _) => match v {
            ValueV::Boolean(b) => ok_code(seq![NodeOpV::Push(OperandV::Bool(b))]),
            ValueV::Float(n) => ok_code(seq![NodeOpV::Push(OperandV::Float(n))]),
            ValueV::Float3(a, b, c) => then(
                then(then(c_expr(*a, vars, mats), c_expr(*b, vars, mats)), c_expr(*c, vars, mats)),
                ok_code(seq![NodeOpV::Pack3]),
            ),
            _ => ok_code(Seq::empty()),
        },
        ExprV::Logical(a, op, b, _) => then(
            then(c_expr(*a, vars, mats), c_expr(*b, vars, mats)),
            ok_code(seq![logical_op(op)]),
        ),
        ExprV::Unary(op, a, _) => then(c_expr(*a, vars, mats), ok_code(seq![unary_op(op)])),
        ExprV::Equality(a, op, b, _) => then(
            then(c_expr(*a, vars, mats), c_expr(*b, vars, mats)),
            ok_code(seq![equality_op(op)]),
        ),
        ExprV::Comparison(a, op, b, _) => then(
            then(c_expr(*a, vars, mats), c_expr(*b, vars, mats)),
            ok_code(seq![comparison_op(op)]),
        ),
        ExprV::Binary(a, op, b, _) => then(
            then(c_expr(*a, vars, mats), c_expr(*b, vars, mats)),
            ok_code(seq![binary_op(op)]),
        ),
        ExprV::Grouping(a, _) => c_expr(*a, vars, mats),
        ExprV::Variable(name, sw, _, _) => ok_code(variable_ops(name, sw, vars)),
        ExprV::VariableAssignment(name, op, sw, _, a, _) => then(
            c_expr(*a, vars, mats),
            ok_code(assign_ops(name, op, sw, vars)),
        ),
        ExprV::FunctionCall(callee, _, _, _, _) => c_expr(*callee, vars, mats),
        ExprV::Ternary(_, t, _, _) => c_expr(*t, vars, mats),
        ExprV::MaterialReference(name, l) => material_ops(name, mats, l),
    }
}

/// Emitting the code of `a`, then, unless it failed, that of `b`, emits the
/// code of `then(a, b)`.
pub proof fn lemma_emit_then(c: CtxV, a: Code, b: Code)
    requires
        a.1 is None,
    ensures
        emit_all(emit_all(c, a.0), b.0) == emit_all(c, then(a, b).0),
        then(a, b).1 == b.1,
{
    lemma_emit_all_add(c, a.0, b.0);
}

/// Compiles an expression into the context.
pub open spec fn emit_expr(c: CtxV, e: ExprV) -> (CtxV, Option<RuntimeErrorV>) {
    let r = c_expr(e, c.variables, table_names(c.materials));
    (emit_all(c, r.0), r.1)
}

// ---------------------------------------------------------------------------
// Statements.

/// The instruction a material property's code ends with.
pub open spec fn material_property_op(name: Seq<char>) -> Option<NodeOpV> {
    if name == "albedo"@ {
        Some(NodeOpV::MaterialAlbedo)
    } else if name == "subsurface"@ {
        Some(NodeOpV::MaterialSubsurface)
    } else if name == "metallic"@ {
        Some(NodeOpV::MaterialMetallic)
    } else if name == "specular_tint"@ {
        Some(NodeOpV::MaterialSpecularTint)
    } else if name == "roughness"@ {
        Some(NodeOpV::MaterialRoughness)
    } else if name == "anisotropic"@ {
        Some(NodeOpV::MaterialAnisotropic)
    } else if name == "sheen"@ {
        Some(NodeOpV::MaterialSheen)
    } else if name == "sheen_tint"@ {
        Some(NodeOpV::MaterialSheenTint)
    } else if name == "clearcoat"@ {
        Some(NodeOpV::MaterialClearcoat)
    } else if name == "clearcoat_gloss"@ {
        Some(NodeOpV::MaterialClearcoatGloss)
    } else if name == "ior"@ {
        Some(NodeOpV::MaterialIOR)
    } else if name == "transmission"@ {
        Some(NodeOpV::MaterialTransmission)
    } else if name == "emission"@ {
        Some(NodeOpV::MaterialEmission)
    } else {
        None
    }
}

/// The size a voxel has when it declares none: one unit along each axis.
pub open spec fn unit_size() -> Seq<NodeOpV> {
    seq![NodeOpV::Push(OperandV::Float3(NumberV::Int(1), NumberV::Int(1), NumberV::Int(1)))]
}

pub open spec fn done(c: CtxV, n: int) -> Compiled {
    Compiled { ctx: c, err: None, next: n, ok: true }
}

pub open spec fn failed(c: CtxV, e: Option<RuntimeErrorV>, n: int) -> Compiled {
    Compiled { ctx: c, err: e, next: n, ok: true }
}

/// The code that a declaration's name selects from a pattern's bodies.
pub open spec fn code_of(codes: Map<Seq<char>, Seq<NodeOpV>>, k: Seq<char>) -> Option<Seq<NodeOpV>> {
    if codes.dom().contains(k) {
        Some(codes[k])
    } else {
        None
    }
}

/// Compiles a statement. A material or a pattern walks its table of bodies in
/// the order `w[n]`.
pub open spec fn c_stmt(s: StmtV, c: CtxV, w: Walks, n: int) -> Compiled
    decreases s, 0int,
{
    match s {
        StmtV::If(cond, t, e, _) => {
            let r1 = c_stmt(*t, push_custom(c), w, n);
            if r1.err is Some {
                r1
            } else {
                let (c2, then_code) = pop_custom(r1.ctx);
                let r2 = match e {
                    Some(e) => c_stmt(*e, push_custom(c2), w, r1.next),
                    None => done(c2, r1.next),
                };
                if r2.err is Some {
                    Compiled { ok: r1.ok && r2.ok, ..r2 }
                } else {
                    let (c3, else_code) = match e {
                        Some(_) => pop_custom(r2.ctx),
                        None => (r2.ctx, None),
                    };
                    let (c4, er) = emit_expr(c3, *cond);
                    if er is Some {
                        Compiled { ctx: c4, err: er, next: r2.next, ok: r1.ok && r2.ok }
                    } else {
                        Compiled {
                            ctx: emit_all(c4, seq![NodeOpV::If(code_or_empty(then_code), else_code)]),
                            err: None,
                            next: r2.next,
                            ok: r1.ok && r2.ok,
                        }
                    }
                }
            }
        },
        StmtV::Block(list, _) => c_stmts(list, 0, c, w, n),
        StmtV::Expression(e, _) => {
            let (c1, er) = emit_expr(c, *e);
            failed(c1, er, n)
        },
        StmtV::VarDeclaration(name, _, e, _) => {
            let (c1, er) = emit_expr(c, *e);
            if er is Some {
                failed(c1, er, n)
            } else if c1.variables.dom().contains(name) {
                done(emit_all(c1, seq![NodeOpV::Store(c1.variables[name] as usize)]), n)
            } else {
                done(c1, n)
            }
        },
        StmtV::Material(d, l) => {
            let order = w[n];
            let r = c_material_blocks(d.blocks, order, 0, c, w, n + 1, Seq::empty(), l);
            let ok = is_walk(order, d.blocks.dom()) && r.0.ok;
            if r.0.err is Some {
                Compiled { ok, ..r.0 }
            } else {
                Compiled {
                    ctx: CtxV { materials: table_insert(r.0.ctx.materials, d.name, r.1), ..r.0.ctx },
                    ok,
                    ..r.0
                }
            }
        },
        StmtV::Voxel(d, _) => {
            let (c1, er, size) = if d.params.dom().contains("size"@) {
                let (c1, er) = emit_expr(set_target(c, OutputTargetV::Custom), d.params["size"@]);
                (c1, er, c1.custom)
            } else {
                (c, None, unit_size())
            };
            if er is Some {
                failed(c1, er, n)
            } else {
                let c2 = CtxV {
                    voxels: c1.voxels.insert(
                        d.name,
                        VoxelCodeV { name: d.name, size, body: Seq::empty() },
                    ),
                    ..c1
                };
                let c3 = set_target(c2, OutputTargetV::Voxels(d.name));
                let r = match d.block {
                    Some(b) => c_stmt(b, c3, w, n),
                    None => done(c3, n),
                };
                if r.err is Some {
                    r
                } else {
                    Compiled { ctx: set_target(r.ctx, OutputTargetV::Globals), ..r }
                }
            }
        },
        StmtV::Shape(d, _) => {
            let r = match d.block {
                Some(b) => c_stmt(b, push_custom(c), w, n),
                None => done(push_custom(c), n),
            };
            if r.err is Some {
                r
            } else {
                let (c2, code) = pop_custom(r.ctx);
                let c3 = match code {
                    Some(code) => if d.name == "Rect"@ {
                        emit_all(c2, seq![NodeOpV::ShapeRect(code)])
                    } else if d.name == "Disc"@ {
                        emit_all(c2, seq![NodeOpV::ShapeDisc(code)])
                    } else {
                        c2
                    },
                    None => c2,
                };
                Compiled { ctx: c3, ..r }
            }
        },
        StmtV::Segment(d, _) => {
            let (c1, er, depth) = if d.params.dom().contains("depth"@) {
                let (c0, er) = emit_expr(push_custom(c), d.params["depth"@]);
                if er is Some {
                    (c0, er, Seq::empty())
                } else {
                    let (c1, dc) = pop_custom(c0);
                    (c1, er, code_or_empty(dc))
                }
            } else {
                (c, None, Seq::empty())
            };
            if er is Some {
                failed(c1, er, n)
            } else {
                let r = match d.block {
                    Some(b) => c_stmt(b, push_custom(c1), w, n),
                    None => done(push_custom(c1), n),
                };
                if r.err is Some {
                    r
                } else {
                    let (c2, code) = pop_custom(r.ctx);
                    let c3 = match code {
                        Some(code) => if d.name == "Left"@ {
                            emit_all(c2, seq![NodeOpV::SegmentLeft(depth, code)])
                        } else if d.name == "Back"@ {
                            emit_all(c2, seq![NodeOpV::SegmentBack(depth, code)])
                        } else if d.name == "Floor"@ {
                            emit_all(c2, seq![NodeOpV::SegmentFloor(depth, code)])
                        } else {
                            c2
                        },
                        None => c2,
                    };
                    Compiled { ctx: c3, ..r }
                }
            }
        },
        StmtV::Place(id, _, _) => if c.voxels.dom().contains(id) {
            done(emit_all(c, seq![NodeOpV::Place(id)]), n)
        } else {
            done(c, n)
        },
        StmtV::Pattern(d, _) => {
            let order = w[n];
            let r = c_pattern_blocks(d.blocks, order, 0, c, w, n + 1, Map::empty());
            let ok = is_walk(order, d.blocks.dom()) && r.0.ok;
            if r.0.err is Some {
                Compiled { ok, ..r.0 }
            } else {
                let codes = r.1;
                let c1 = if d.name == "Modulo"@ {
                    emit_all(
                        r.0.ctx,
                        seq![NodeOpV::PatternModulo(code_of(codes, "even"@), code_of(codes, "odd"@))],
                    )
                } else if d.name == "Bricks"@ {
                    emit_all(
                        r.0.ctx,
                        seq![
                            NodeOpV::PatternBricks(code_of(codes, "brick"@), code_of(codes, "cement"@)),
                        ],
                    )
                } else {
                    r.0.ctx
                };
                Compiled { ctx: c1, ok, ..r.0 }
            }
        },
    }
}

/// Compiles the statements from position `i` on, in order, up to the first
/// error.
pub open spec fn c_stmts(list: Seq<StmtV>, i: int, c: CtxV, w: Walks, n: int) -> Compiled
    decreases list, list.len() - i,
{
    if i < 0 || i >= list.len() {
        done(c, n)
    } else {
        let r = c_stmt(list[i], c, w, n);
        if r.err is Some {
            r
        } else {
            let r2 = c_stmts(list, i + 1, r.ctx, w, r.next);
            Compiled { ok: r.ok && r2.ok, ..r2 }
        }
    }
}

/// Compiles a material's bodies from position `i` of the walk order on: each
/// body's code, then the instruction of its property, is added to `ops`. An
/// unknown property stops with an error.
pub open spec fn c_material_blocks(
    blocks: Map<Seq<char>, StmtV>,
    order: Seq<Seq<char>>,
    i: int,
    c: CtxV,
    w: Walks,
    n: int,
    ops: Seq<NodeOpV>,
    l: LocationV,
) -> (Compiled, Seq<NodeOpV>)
    decreases blocks, order.len() - i,
{
    if i < 0 || i >= order.len() {
        (done(c, n), ops)
    } else {
        let k = order[i];
        if blocks.dom().finite() && blocks.dom().contains(k) {
            proof {
                vstd::map::axiom_map_index_decreases_finite(blocks, k);
            }
            let r = c_stmt(blocks[k], push_custom(c), w, n);
            if r.err is Some {
                (r, ops)
            } else {
                let (c2, code) = pop_custom(r.ctx);
                match code {
                    Some(code) => match material_property_op(k) {
                        Some(op) => {
                            let rest = c_material_blocks(
                                blocks,
                                order,
                                i + 1,
                                c2,
                                w,
                                r.next,
                                ops + code + seq![op],
                                l,
                            );
                            (Compiled { ok: r.ok && rest.0.ok, ..rest.0 }, rest.1)
                        },
                        None => (
                            Compiled {
                                ctx: c2,
                                err: Some(rt_error("Unknown material property: "@ + k, l)),
                                next: r.next,
                                ok: r.ok,
                            },
                            ops + code,
                        ),
                    },
                    None => {
                        let rest = c_material_blocks(blocks, order, i + 1, c2, w, r.next, ops, l);
                        (Compiled { ok: r.ok && rest.0.ok, ..rest.0 }, rest.1)
                    },
                }
            }
        } else {
            c_material_blocks(blocks, order, i + 1, c, w, n, ops, l)
        }
    }
}

/// Compiles a pattern's bodies from position `i` of the walk order on, and
/// collects their code by name.
pub open spec fn c_pattern_blocks(
    blocks: Map<Seq<char>, StmtV>,
    order: Seq<Seq<char>>,
    i: int,
    c: CtxV,
    w: Walks,
    n: int,
    codes: Map<Seq<char>, Seq<NodeOpV>>,
) -> (Compiled, Map<Seq<char>, Seq<NodeOpV>>)
    decreases blocks, order.len() - i,
{
    if i < 0 || i >= order.len() {
        (done(c, n), codes)
    } else {
        let k = order[i];
        if blocks.dom().finite() && blocks.dom().contains(k) {
            proof {
                vstd::map::axiom_map_index_decreases_finite(blocks, k);
            }
            let r = c_stmt(blocks[k], push_custom(c), w, n);
            if r.err is Some {
                (r, codes)
            } else {
                let (c2, code) = pop_custom(r.ctx);
                let codes2 = match code {
                    Some(code) => codes.insert(k, code),
                    None => codes,
                };
                let rest = c_pattern_blocks(blocks, order, i + 1, c2, w, r.next, codes2);
                (Compiled { ok: r.ok && rest.0.ok, ..rest.0 }, rest.1)
            }
        } else {
            c_pattern_blocks(blocks, order, i + 1, c, w, n, codes)
        }
    }
}

/// Compiling an operator expression whose operands compile without error
/// gives the code of the left operand, then that of the right one (of the
/// one operand, for a prefix operator), then the instruction of the
/// operator: `Add`, `Sub`, `Mul`, `Div`, `Mod` for `+ - * / %`; `Lt`, `Gt`,
/// `Le`, `Ge` for `< > <= >=`; `Eq`, `Ne` for `== !=`; `And`, `Or` for
/// `&& ||`; `Not` for `!` and `Neg` for a prefix `-`.
pub proof fn law_operator_code(
    a: ExprV,
    b: ExprV,
    l: LocationV,
    vars: Map<Seq<char>, u32>,
    mats: Seq<Seq<char>>,
    bop: BinaryOperator,
    cop: ComparisonOperator,
    eop: EqualityOperator,
    lop: LogicalOperator,
    uop: UnaryOperator,
)
    requires
        c_expr(a, vars, mats).1 is None,
        c_expr(b, vars, mats).1 is None,
    ensures
        ({
            let ab = c_expr(a, vars, mats).0 + c_expr(b, vars, mats).0;
            let bin = c_expr(ExprV::Binary(Box::new(a), bop, Box::new(b), l), vars, mats);
            let rel_code = c_expr(ExprV::Comparison(Box::new(a), cop, Box::new(b), l), vars, mats);
            let eq_code = c_expr(ExprV::Equality(Box::new(a), eop, Box::new(b), l), vars, mats);
            let log = c_expr(ExprV::Logical(Box::new(a), lop, Box::new(b), l), vars, mats);
            let un = c_expr(ExprV::Unary(uop, Box::new(a), l), vars, mats);
            &&& bin.1 is None && rel_code.1 is None && eq_code.1 is None && log.1 is None
                && un.1 is None
            &&& bin.0.len() == ab.len() + 1 && bin.0.take(ab.len() as int) == ab
            &&& rel_code.0.len() == ab.len() + 1 && rel_code.0.take(ab.len() as int) == ab
            &&& eq_code.0.len() == ab.len() + 1 && eq_code.0.take(ab.len() as int) == ab
            &&& log.0.len() == ab.len() + 1 && log.0.take(ab.len() as int) == ab
            &&& un.0 == c_expr(a, vars, mats).0.push(un.0.last())
            &&& bop == BinaryOperator::Add ==> bin.0.last() == NodeOpV::Add
            &&& bop == BinaryOperator::Subtract ==> bin.0.last() == NodeOpV::Sub
            &&& bop == BinaryOperator::Multiply ==> bin.0.last() == NodeOpV::Mul
            &&& bop == BinaryOperator::Divide ==> bin.0.last() == NodeOpV::Div
            &&& bop == BinaryOperator::Mod ==> bin.0.last() == NodeOpV::Mod
            &&& cop == ComparisonOperator::Less ==> rel_code.0.last() == NodeOpV::Lt
            &&& cop == ComparisonOperator::Greater ==> rel_code.0.last() == NodeOpV::Gt
            &&& cop == ComparisonOperator::LessEqual ==> rel_code.0.last() == NodeOpV::Le
            &&& cop == ComparisonOperator::GreaterEqual ==> rel_code.0.last() == NodeOpV::Ge
            &&& eop == EqualityOperator::Equal ==> eq_code.0.last() == NodeOpV::Eq
            &&& eop == EqualityOperator::NotEqual ==> eq_code.0.last() == NodeOpV::Ne
            &&& lop == LogicalOperator::And ==> log.0.last() == NodeOpV::And
            &&& lop == LogicalOperator::Or ==> log.0.last() == NodeOpV::Or
            &&& uop == UnaryOperator::Negate ==> un.0.last() == NodeOpV::Not
            &&& uop == UnaryOperator::Minus ==> un.0.last() == NodeOpV::Neg
        }),
{
    let ab = c_expr(a, vars, mats).0 + c_expr(b, vars, mats).0;
    assert((ab + seq![binary_op(bop)]).take(ab.len() as int) =~= ab);
    assert((ab + seq![comparison_op(cop)]).take(ab.len() as int) =~= ab);
    assert((ab + seq![equality_op(eop)]).take(ab.len() as int) =~= ab);
    assert((ab + seq![logical_op(lop)]).take(ab.len() as int) =~= ab);
    assert(c_expr(a, vars, mats).0 + seq![unary_op(uop)] =~= c_expr(a, vars, mats).0.push(
        unary_op(uop),
    ));
}

/// A compound assignment to a whole variable loads the variable, brings the
/// value under it, applies the arithmetic that its operator names (`Add` for
/// `+=`, `Sub` for `-=`, `Mul` for `*=`, `Div` for `/=`) and stores the result
/// back; a plain assignment only stores.
pub proof fn law_assignment_code(i: usize, op: AssignmentOperator)
    ensures
        op == AssignmentOperator::Assign ==> store_ops(i, op) == seq![NodeOpV::Store(i)],
        op != AssignmentOperator::Assign ==> store_ops(i, op).len() == 4 && store_ops(i, op)[0]
            == NodeOpV::Load(i) && store_ops(i, op)[1] == NodeOpV::Swap && store_ops(i, op)[3]
            == NodeOpV::Store(i),
        op == AssignmentOperator::AddAssign ==> store_ops(i, op)[2] == NodeOpV::Add,
        op == AssignmentOperator::SubtractAssign ==> store_ops(i, op)[2] == NodeOpV::Sub,
        op == AssignmentOperator::MultiplyAssign ==> store_ops(i, op)[2] == NodeOpV::Mul,
        op == AssignmentOperator::DivideAssign ==> store_ops(i, op)[2] == NodeOpV::Div,
{
}


/// Reading a variable: each built-in name reads its own input of the program
/// (`local`, `world`, `u`, `v`, `d`, `hash`); any other declared name loads
/// the variable's own slot, then picks the swizzled components if there are
/// any; an undeclared name gives no code.
pub proof fn law_variable_code(name: Seq<char>, sw: Seq<u8>, vars: Map<Seq<char>, u32>)
    ensures
        name == "local"@ ==> variable_ops(name, sw, vars) == seq![NodeOpV::Local],
        name == "world"@ ==> variable_ops(name, sw, vars) == seq![NodeOpV::World],
        name == "u"@ ==> variable_ops(name, sw, vars) == seq![NodeOpV::U],
        name == "v"@ ==> variable_ops(name, sw, vars) == seq![NodeOpV::V],
        name == "d"@ ==> variable_ops(name, sw, vars) == seq![NodeOpV::D],
        name == "hash"@ ==> variable_ops(name, sw, vars) == seq![NodeOpV::Hash],
        ({
            let builtin = name == "local"@ || name == "world"@ || name == "u"@ || name == "v"@
                || name == "d"@ || name == "hash"@;
            &&& !builtin && vars.dom().contains(name) && sw.len() == 0 ==> variable_ops(
                name,
                sw,
                vars,
            ) == seq![NodeOpV::Load(vars[name] as usize)]
            &&& !builtin && vars.dom().contains(name) && sw.len() > 0 ==> variable_ops(
                name,
                sw,
                vars,
            ) == seq![NodeOpV::Load(vars[name] as usize), NodeOpV::GetComponents(sw)]
            &&& !builtin && !vars.dom().contains(name) ==> variable_ops(name, sw, vars).len() == 0
        }),
{
    reveal_strlit("local");
    reveal_strlit("world");
    reveal_strlit("u");
    reveal_strlit("v");
    reveal_strlit("d");
    reveal_strlit("hash");
    assert("local"@.len() == 5 && "world"@.len() == 5 && "hash"@.len() == 4);
    assert("local"@[0] == 'l' && "world"@[0] == 'w');
    assert("u"@[0] == 'u' && "v"@[0] == 'v' && "d"@[0] == 'd');
    assert(seq![NodeOpV::Load(vars[name] as usize)] + Seq::<NodeOpV>::empty() =~= seq![
        NodeOpV::Load(vars[name] as usize),
    ]);
    assert(seq![NodeOpV::Load(vars[name] as usize)] + seq![NodeOpV::GetComponents(sw)] =~= seq![
        NodeOpV::Load(vars[name] as usize),
        NodeOpV::GetComponents(sw),
    ]);
}

/// Each material property sets its own field of the material.
pub proof fn law_material_properties(name: Seq<char>)
    ensures
        name == "albedo"@ ==> material_property_op(name) == Some(NodeOpV::MaterialAlbedo),
        name == "subsurface"@ ==> material_property_op(name) == Some(NodeOpV::MaterialSubsurface),
        name == "metallic"@ ==> material_property_op(name) == Some(NodeOpV::MaterialMetallic),
        name == "specular_tint"@ ==> material_property_op(name) == Some(
            NodeOpV::MaterialSpecularTint,
        ),
        name == "roughness"@ ==> material_property_op(name) == Some(NodeOpV::MaterialRoughness),
        name == "anisotropic"@ ==> material_property_op(name) == Some(
            NodeOpV::MaterialAnisotropic,
        ),
        name == "sheen"@ ==> material_property_op(name) == Some(NodeOpV::MaterialSheen),
        name == "sheen_tint"@ ==> material_property_op(name) == Some(NodeOpV::MaterialSheenTint),
        name == "clearcoat"@ ==> material_property_op(name) == Some(NodeOpV::MaterialClearcoat),
        name == "clearcoat_gloss"@ ==> material_property_op(name) == Some(
            NodeOpV::MaterialClearcoatGloss,
        ),
        name == "ior"@ ==> material_property_op(name) == Some(NodeOpV::MaterialIOR),
        name == "transmission"@ ==> material_property_op(name) == Some(
            NodeOpV::MaterialTransmission,
        ),
        name == "emission"@ ==> material_property_op(name) == Some(NodeOpV::MaterialEmission),
{
    reveal_strlit("albedo");
    reveal_strlit("subsurface");
    reveal_strlit("metallic");
    reveal_strlit("specular_tint");
    reveal_strlit("roughness");
    reveal_strlit("anisotropic");
    reveal_strlit("sheen");
    reveal_strlit("sheen_tint");
    reveal_strlit("clearcoat");
    reveal_strlit("clearcoat_gloss");
    reveal_strlit("ior");
    reveal_strlit("transmission");
    reveal_strlit("emission");
    assert("albedo"@.len() == 6 && "albedo"@[0] == 'a' && "albedo"@[1] == 'l');
    assert("subsurface"@.len() == 10 && "subsurface"@[0] == 's' && "subsurface"@[1] == 'u');
    assert("metallic"@.len() == 8 && "metallic"@[0] == 'm' && "metallic"@[1] == 'e');
    assert("specular_tint"@.len() == 13 && "specular_tint"@[0] == 's' && "specular_tint"@[1] == 'p');
    assert("roughness"@.len() == 9 && "roughness"@[0] == 'r' && "roughness"@[1] == 'o');
    assert("anisotropic"@.len() == 11 && "anisotropic"@[0] == 'a' && "anisotropic"@[1] == 'n');
    assert("sheen"@.len() == 5 && "sheen"@[0] == 's' && "sheen"@[1] == 'h');
    assert("sheen_tint"@.len() == 10 && "sheen_tint"@[0] == 's' && "sheen_tint"@[1] == 'h');
    assert("clearcoat"@.len() == 9 && "clearcoat"@[0] == 'c' && "clearcoat"@[1] == 'l');
    assert("clearcoat_gloss"@.len() == 15 && "clearcoat_gloss"@[0] == 'c' && "clearcoat_gloss"@[1] == 'l');
    assert("ior"@.len() == 3 && "ior"@[0] == 'i' && "ior"@[1] == 'o');
    assert("transmission"@.len() == 12 && "transmission"@[0] == 't' && "transmission"@[1] == 'r');
    assert("emission"@.len() == 8 && "emission"@[0] == 'e' && "emission"@[1] == 'm');
}


} // verus!

verus! {

/// What compiling keeps: the variables' slots, and, when it succeeds, the
/// bodies that were open before; and it never goes back in the record of walk
/// orders.
pub open spec fn keeps_frame(c: CtxV, r: Compiled, n: int) -> bool {
    &&& r.ctx.variables == c.variables
    &&& (r.err is None ==> r.ctx.customs.len() == c.customs.len())
    &&& r.next >= n
}

proof fn lemma_emit_frame(c: CtxV, ops: Seq<NodeOpV>)
    ensures
        emit_all(c, ops).variables == c.variables,
        emit_all(c, ops).customs.len() == c.customs.len(),
{
}

/// Compiling a statement never changes the variables' slots; when it
/// succeeds, it closes every body it opened.
pub proof fn law_stmt_keeps_frame(s: StmtV, c: CtxV, w: Walks, n: int)
    ensures
        keeps_frame(c, c_stmt(s, c, w, n), n),
    decreases s, 0int,
{
    match s {
        StmtV::If(cond, t, e, _) => {
            law_stmt_keeps_frame(*t, push_custom(c), w, n);
            let r1 = c_stmt(*t, push_custom(c), w, n);
            if r1.err is None {
                let (c2, _) = pop_custom(r1.ctx);
                match e {
                    Some(e) => {
                        law_stmt_keeps_frame(*e, push_custom(c2), w, r1.next);
                    },
                    None => {},
                }
                let r2 = match e {
                    Some(e) => c_stmt(*e, push_custom(c2), w, r1.next),
                    None => done(c2, r1.next),
                };
                if r2.err is None {
                    let (c3, _) = match e {
                        Some(_) => pop_custom(r2.ctx),
                        None => (r2.ctx, None),
                    };
                    lemma_emit_frame(c3, c_expr(*cond, c3.variables, table_names(c3.materials)).0);
                    let c4 = emit_expr(c3, *cond).0;
                    let then_code = code_or_empty(pop_custom(r1.ctx).1);
                    let else_code = match e {
                        Some(_) => pop_custom(r2.ctx).1,
                        None => None,
                    };
                    lemma_emit_frame(c4, seq![NodeOpV::If(then_code, else_code)]);
                }
            }
        },
        StmtV::Block(list, _) => {
            law_stmts_keep_frame(list, 0, c, w, n);
        },
        StmtV::Expression(e, _) => {
            lemma_emit_frame(c, c_expr(*e, c.variables, table_names(c.materials)).0);
        },
        StmtV::VarDeclaration(name, _, e, _) => {
            lemma_emit_frame(c, c_expr(*e, c.variables, table_names(c.materials)).0);
            let c1 = emit_expr(c, *e).0;
            if c1.variables.dom().contains(name) {
                lemma_emit_frame(c1, seq![NodeOpV::Store(c1.variables[name] as usize)]);
            }
        },
        StmtV::Material(d, l) => {
            lemma_material_frame(d.blocks, w[n], 0, c, w, n + 1, Seq::empty(), l);
        },
        StmtV::Voxel(d, _) => {
            if d.params.dom().contains("size"@) {
                let c0 = set_target(c, OutputTargetV::Custom);
                lemma_emit_frame(c0, c_expr(d.params["size"@], c0.variables, table_names(c0.materials)).0);
            }
            let (c1, er, size) = if d.params.dom().contains("size"@) {
                let (c1, er) = emit_expr(set_target(c, OutputTargetV::Custom), d.params["size"@]);
                (c1, er, c1.custom)
            } else {
                (c, None, unit_size())
            };
            if er is None {
                let c2 = CtxV {
                    voxels: c1.voxels.insert(d.name, VoxelCodeV { name: d.name, size, body: Seq::empty() }),
                    ..c1
                };
                let c3 = set_target(c2, OutputTargetV::Voxels(d.name));
                match d.block {
                    Some(b) => {
                        law_stmt_keeps_frame(b, c3, w, n);
                    },
                    None => {},
                }
            }
        },
        StmtV::Shape(d, _) => {
            match d.block {
                Some(b) => {
                    law_stmt_keeps_frame(b, push_custom(c), w, n);
                },
                None => {},
            }
            let r = match d.block {
                Some(b) => c_stmt(b, push_custom(c), w, n),
                None => done(push_custom(c), n),
            };
            if r.err is None {
                let (c2, code) = pop_custom(r.ctx);
                match code {
                    Some(code) => {
                        lemma_emit_frame(c2, seq![NodeOpV::ShapeRect(code)]);
                        lemma_emit_frame(c2, seq![NodeOpV::ShapeDisc(code)]);
                    },
                    None => {},
                }
            }
        },
        StmtV::Segment(d, _) => {
            if d.params.dom().contains("depth"@) {
                let c0 = push_custom(c);
                lemma_emit_frame(c0, c_expr(d.params["depth"@], c0.variables, table_names(c0.materials)).0);
            }
            let (c1, er, depth) = if d.params.dom().contains("depth"@) {
                let (c0, er) = emit_expr(push_custom(c), d.params["depth"@]);
                if er is Some {
                    (c0, er, Seq::empty())
                } else {
                    let (c1, dc) = pop_custom(c0);
                    (c1, er, code_or_empty(dc))
                }
            } else {
                (c, None, Seq::empty())
            };
            if er is None {
                match d.block {
                    Some(b) => {
                        law_stmt_keeps_frame(b, push_custom(c1), w, n);
                    },
                    None => {},
                }
                let r = match d.block {
                    Some(b) => c_stmt(b, push_custom(c1), w, n),
                    None => done(push_custom(c1), n),
                };
                if r.err is None {
                    let (c2, code) = pop_custom(r.ctx);
                    match code {
                        Some(code) => {
                            lemma_emit_frame(c2, seq![NodeOpV::SegmentLeft(depth, code)]);
                            lemma_emit_frame(c2, seq![NodeOpV::SegmentBack(depth, code)]);
                            lemma_emit_frame(c2, seq![NodeOpV::SegmentFloor(depth, code)]);
                        },
                        None => {},
                    }
                }
            }
        },
        StmtV::Place(id, _, _) => {
            lemma_emit_frame(c, seq![NodeOpV::Place(id)]);
        },
        StmtV::Pattern(d, _) => {
            lemma_pattern_frame(d.blocks, w[n], 0, c, w, n + 1, Map::empty());
            let r = c_pattern_blocks(d.blocks, w[n], 0, c, w, n + 1, Map::empty());
            let codes = r.1;
            lemma_emit_frame(
                r.0.ctx,
                seq![NodeOpV::PatternModulo(code_of(codes, "even"@), code_of(codes, "odd"@))],
            );
            lemma_emit_frame(
                r.0.ctx,
                seq![NodeOpV::PatternBricks(code_of(codes, "brick"@), code_of(codes, "cement"@))],
            );
        },
    }
}

/// The frame of a list of statements.
pub proof fn law_stmts_keep_frame(list: Seq<StmtV>, i: int, c: CtxV, w: Walks, n: int)
    ensures
        keeps_frame(c, c_stmts(list, i, c, w, n), n),
    decreases list, list.len() - i,
{
    if 0 <= i < list.len() {
        law_stmt_keeps_frame(list[i], c, w, n);
        let r = c_stmt(list[i], c, w, n);
        if r.err is None {
            law_stmts_keep_frame(list, i + 1, r.ctx, w, r.next);
        }
    }
}

proof fn lemma_material_frame(
    blocks: Map<Seq<char>, StmtV>,
    order: Seq<Seq<char>>,
    i: int,
    c: CtxV,
    w: Walks,
    n: int,
    ops: Seq<NodeOpV>,
    l: LocationV,
)
    ensures
        keeps_frame(c, c_material_blocks(blocks, order, i, c, w, n, ops, l).0, n),
    decreases blocks, order.len() - i,
{
    if 0 <= i < order.len() {
        let k = order[i];
        if blocks.dom().finite() && blocks.dom().contains(k) {
            vstd::map::axiom_map_index_decreases_finite(blocks, k);
            law_stmt_keeps_frame(blocks[k], push_custom(c), w, n);
            let r = c_stmt(blocks[k], push_custom(c), w, n);
            if r.err is None {
                let (c2, code) = pop_custom(r.ctx);
                match code {
                    Some(code) => match material_property_op(k) {
                        Some(op) => {
                            lemma_material_frame(blocks, order, i + 1, c2, w, r.next, ops + code + seq![op], l);
                        },
                        None => {},
                    },
                    None => {
                        lemma_material_frame(blocks, order, i + 1, c2, w, r.next, ops, l);
                    },
                }
            }
        } else {
            lemma_material_frame(blocks, order, i + 1, c, w, n, ops, l);
        }
    }
}

proof fn lemma_pattern_frame(
    blocks: Map<Seq<char>, StmtV>,
    order: Seq<Seq<char>>,
    i: int,
    c: CtxV,
    w: Walks,
    n: int,
    codes: Map<Seq<char>, Seq<NodeOpV>>,
)
    ensures
        keeps_frame(c, c_pattern_blocks(blocks, order, i, c, w, n, codes).0, n),
    decreases blocks, order.len() - i,
{
    if 0 <= i < order.len() {
        let k = order[i];
        if blocks.dom().finite() && blocks.dom().contains(k) {
            vstd::map::axiom_map_index_decreases_finite(blocks, k);
            law_stmt_keeps_frame(blocks[k], push_custom(c), w, n);
            let r = c_stmt(blocks[k], push_custom(c), w, n);
            if r.err is None {
                let (c2, code) = pop_custom(r.ctx);
                let codes2 = match code {
                    Some(code) => codes.insert(k, code),
                    None => codes,
                };
                lemma_pattern_frame(blocks, order, i + 1, c2, w, r.next, codes2);
            }
        } else {
            lemma_pattern_frame(blocks, order, i + 1, c, w, n, codes);
        }
    }
}

} // verus!
