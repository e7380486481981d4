//! The abstract syntax tree of the shape language, and its mathematical model.
use vstd::prelude::*;
use rustc_hash::FxHashMap;

use crate::tables::{expr_table, stmt_table};

verus! {

/// Assignment operators in the AST
#[derive(Clone, Copy, Debug, PartialEq, Eq, Structural)]
pub enum AssignmentOperator {
    Assign,
    AddAssign,
    SubtractAssign,
    MultiplyAssign,
    DivideAssign,
}

impl AssignmentOperator {
    pub open spec fn spec_describe(self) -> Seq<char> {
        match self {
            AssignmentOperator::Assign => "="@,
            AssignmentOperator::AddAssign => "+="@,
            AssignmentOperator::SubtractAssign => "-="@,
            AssignmentOperator::MultiplyAssign => "*="@,
            AssignmentOperator::DivideAssign => "/="@,
        }
    }

    /// The source text of the operator.
    pub fn describe(&self) -> (r: &str)
        ensures
            r@ == self.spec_describe(),
    {
        match self {
            AssignmentOperator::Assign => "=",
            AssignmentOperator::AddAssign => "+=",
            AssignmentOperator::SubtractAssign => "-=",
            AssignmentOperator::MultiplyAssign => "*=",
            AssignmentOperator::DivideAssign => "/=",
        }
    }
}

/// Logical operators in the AST
#[derive(Clone, Copy, Debug, PartialEq, Eq, Structural)]
pub enum LogicalOperator {
    And,
    Or,
}

impl LogicalOperator {
    pub open spec fn spec_describe(self) -> Seq<char> {
        match self {
            LogicalOperator::And => "&&"@,
            LogicalOperator::Or => "||"@,
        }
    }

    /// The source text of the operator.
    pub fn describe(&self) -> (r: &str)
        ensures
            r@ == self.spec_describe(),
    {
        match self {
            LogicalOperator::And => "&&",
            LogicalOperator::Or => "||",
        }
    }
}

/// Unary operators in the AST
#[derive(Clone, Copy, Debug, PartialEq, Eq, Structural)]
pub enum UnaryOperator {
    Negate,
    Minus,
}

/// Binary operators in the AST
#[derive(Clone, Copy, Debug, PartialEq, Eq, Structural)]
pub enum BinaryOperator {
    Add,
    Subtract,
    Multiply,
    Divide,
    Mod,
}

impl BinaryOperator {
    pub open spec fn spec_describe(self) -> Seq<char> {
        match self {
            BinaryOperator::Add => "+"@,
            BinaryOperator::Subtract => "-"@,
            BinaryOperator::Multiply => "*"@,
            BinaryOperator::Divide => "/"@,
            BinaryOperator::Mod => "%"@,
        }
    }

    /// The source text of the operator.
    pub fn describe(&self) -> (r: &str)
        ensures
            r@ == self.spec_describe(),
    {
        match self {
            BinaryOperator::Add => "+",
            BinaryOperator::Subtract => "-",
            BinaryOperator::Multiply => "*",
            BinaryOperator::Divide => "/",
            BinaryOperator::Mod => "%",
        }
    }
}

/// Comparison operators in the AST
#[derive(Clone, Copy, Debug, PartialEq, Eq, Structural)]
pub enum ComparisonOperator {
    Greater,
    GreaterEqual,
    Less,
    LessEqual,
}

impl ComparisonOperator {
    pub open spec fn spec_describe(self) -> Seq<char> {
        match self {
            ComparisonOperator::Greater => ">"@,
            ComparisonOperator::GreaterEqual => ">="@,
            ComparisonOperator::Less => "<"@,
            ComparisonOperator::LessEqual => "<="@,
        }
    }

    /// The source text of the operator.
    pub fn describe(&self) -> (r: &str)
        ensures
            r@ == self.spec_describe(),
    {
        match self {
            ComparisonOperator::Greater => ">",
            ComparisonOperator::GreaterEqual => ">=",
            ComparisonOperator::Less => "<",
            ComparisonOperator::LessEqual => "<=",
        }
    }
}

/// Equality operators in the AST
#[derive(Clone, Copy, Debug, PartialEq, Eq, Structural)]
pub enum EqualityOperator {
    NotEqual,
    Equal,
}

impl EqualityOperator {
    pub open spec fn spec_describe(self) -> Seq<char> {
        match self {
            EqualityOperator::NotEqual => "!="@,
            EqualityOperator::Equal => "=="@,
        }
    }

    /// The source text of the operator.
    pub fn describe(&self) -> (r: &str)
        ensures
            r@ == self.spec_describe(),
    {
        match self {
            EqualityOperator::NotEqual => "!=",
            EqualityOperator::Equal => "==",
        }
    }
}

/// Location in the source code
#[derive(Debug)]
pub struct Location {
    pub file: String,
    pub line: usize,
}

/// The model of a [`Location`].
pub struct LocationV {
    pub file: Seq<char>,
    pub line: usize,
}

impl View for Location {
    type V = LocationV;

    open spec fn view(&self) -> LocationV {
        LocationV { file: self.file@, line: self.line }
    }
}

/// The text `Location::describe` gives for a line.
pub open spec fn spec_describe_line(line: usize) -> Seq<char> {
    "at line "@ + crate::text::decimal(line as nat) + "."@
}

impl Location {
    pub fn new(file: String, line: usize) -> (r: Self)
        ensures
            r@ == (LocationV { file: file@, line }),
    {
        Location { file, line }
    }

    /// The location with an empty file name at line 0.
    pub fn empty() -> (r: Self)
        ensures
            r@ == (LocationV { file: Seq::empty(), line: 0 }),
    {
        Location { file: String::new(), line: 0 }
    }

    /// Describes the location for error messages: `at line <n>.`
    pub fn describe(&self) -> (r: String)
        ensures
            r@ == spec_describe_line(self.line),
    {
        let mut s = String::from_str("at line ");
        let n = crate::text::usize_to_string(self.line);
        s.append(n.as_str());
        s.append(".");
        s
    }
}

/// A number literal of the source. The language computes with 32-bit floats;
/// the library keeps the literal exactly as it was written and leaves the
/// conversion to a float to its users: an integer literal is its value, a
/// decimal literal is its text, which satisfies the grammar of float literals.
#[derive(Debug)]
pub enum Number {
    Int(i32),
    Decimal(String),
}

pub enum NumberV {
    Int(i32),
    Decimal(Seq<char>),
}

impl View for Number {
    type V = NumberV;

    open spec fn view(&self) -> NumberV {
        match self {
            Number::Int(i) => NumberV::Int(*i),
            Number::Decimal(s) => NumberV::Decimal(s@),
        }
    }
}

/// Values in the AST
#[derive(Debug)]
pub enum Value {
    Void,
    Boolean(bool),
    Float(Number),
    Float2(Box<Expr>, Box<Expr>),
    Float3(Box<Expr>, Box<Expr>, Box<Expr>),
    String(String),
}

/// Expressions in the AST
#[derive(Debug)]
pub enum Expr {
    Value(Value, Vec<u8>, Vec<String>, Location),
    Logical(Box<Expr>, LogicalOperator, Box<Expr>, Location),
    Unary(UnaryOperator, Box<Expr>, Location),
    Equality(Box<Expr>, EqualityOperator, Box<Expr>, Location),
    Comparison(Box<Expr>, ComparisonOperator, Box<Expr>, Location),
    Binary(Box<Expr>, BinaryOperator, Box<Expr>, Location),
    Grouping(Box<Expr>, Location),
    Variable(String, Vec<u8>, Vec<String>, Location),
    VariableAssignment(String, AssignmentOperator, Vec<u8>, Vec<String>, Box<Expr>, Location),
    FunctionCall(Box<Expr>, Vec<u8>, Vec<String>, Vec<Box<Expr>>, Location),
    Ternary(Box<Expr>, Box<Expr>, Box<Expr>, Location),
    MaterialReference(String, Location),
}

/// A voxel declaration.
#[derive(Debug)]
pub struct VoxelD {
    pub name: String,
    pub params: FxHashMap<String, Box<Expr>>,
    pub block: Option<Box<Stmt>>,
}

/// A shape declaration.
#[derive(Debug)]
pub struct ShapeD {
    pub name: String,
    pub params: FxHashMap<String, Box<Expr>>,
    pub block: Option<Box<Stmt>>,
}

/// A segment declaration.
#[derive(Debug)]
pub struct SegmentD {
    pub name: String,
    pub params: FxHashMap<String, Box<Expr>>,
    pub block: Option<Box<Stmt>>,
}

/// A pattern statement.
#[derive(Debug)]
pub struct PatternD {
    pub name: String,
    pub params: FxHashMap<String, Box<Expr>>,
    pub blocks: FxHashMap<String, Box<Stmt>>,
}

/// A material declaration.
#[derive(Debug)]
pub struct MaterialD {
    pub name: String,
    pub params: FxHashMap<String, Box<Expr>>,
    pub blocks: FxHashMap<String, Box<Stmt>>,
}

/// Statements in the AST
#[derive(Debug)]
pub enum Stmt {
    If(Box<Expr>, Box<Stmt>, Option<Box<Stmt>>, Location),
    Block(Vec<Box<Stmt>>, Location),
    Expression(Box<Expr>, Location),
    VarDeclaration(String, Value, Box<Expr>, Location),
    Material(MaterialD, Location),
    Voxel(VoxelD, Location),
    Shape(ShapeD, Location),
    Segment(SegmentD, Location),
    Place(String, FxHashMap<String, Box<Expr>>, Location),
    Pattern(PatternD, Location),
}

// ---------------------------------------------------------------------------
// The model of the tree.

pub enum ValueV {
    Void,
    Boolean(bool),
    Float(NumberV),
    Float2(Box<ExprV>, Box<ExprV>),
    Float3(Box<ExprV>, Box<ExprV>, Box<ExprV>),
    String(Seq<char>),
}

pub enum ExprV {
    Value(ValueV, Seq<u8>, Seq<Seq<char>>, LocationV),
    Logical(Box<ExprV>, LogicalOperator, Box<ExprV>, LocationV),
    Unary(UnaryOperator, Box<ExprV>, LocationV),
    Equality(Box<ExprV>, EqualityOperator, Box<ExprV>, LocationV),
    Comparison(Box<ExprV>, ComparisonOperator, Box<ExprV>, LocationV),
    Binary(Box<ExprV>, BinaryOperator, Box<ExprV>, LocationV),
    Grouping(Box<ExprV>, LocationV),
    Variable(Seq<char>, Seq<u8>, Seq<Seq<char>>, LocationV),
    VariableAssignment(Seq<char>, AssignmentOperator, Seq<u8>, Seq<Seq<char>>, Box<ExprV>, LocationV),
    FunctionCall(Box<ExprV>, Seq<u8>, Seq<Seq<char>>, Seq<ExprV>, LocationV),
    Ternary(Box<ExprV>, Box<ExprV>, Box<ExprV>, LocationV),
    MaterialReference(Seq<char>, LocationV),
}

/// The model of a declaration with a single body.
pub struct BodyDeclV {
    pub name: Seq<char>,
    pub params: Map<Seq<char>, ExprV>,
    pub block: Option<StmtV>,
}

/// The model of a declaration with named bodies.
pub struct BlocksDeclV {
    pub name: Seq<char>,
    pub params: Map<Seq<char>, ExprV>,
    pub blocks: Map<Seq<char>, StmtV>,
}

pub enum StmtV {
    If(Box<ExprV>, Box<StmtV>, Option<Box<StmtV>>, LocationV),
    Block(Seq<StmtV>, LocationV),
    Expression(Box<ExprV>, LocationV),
    VarDeclaration(Seq<char>, ValueV, Box<ExprV>, LocationV),
    Material(Box<BlocksDeclV>, LocationV),
    Voxel(Box<BodyDeclV>, LocationV),
    Shape(Box<BodyDeclV>, LocationV),
    Segment(Box<BodyDeclV>, LocationV),
    Place(Seq<char>, Map<Seq<char>, ExprV>, LocationV),
    Pattern(Box<BlocksDeclV>, LocationV),
}

pub open spec fn names_view(s: Seq<String>) -> Seq<Seq<char>> {
    s.map_values(|x: String| x@)
}

impl Value {
    pub open spec fn model(&self) -> ValueV
        decreases self,
    {
        match self {
            Value::Void => ValueV::Void,
            Value::Boolean(b) => ValueV::Boolean(*b),
            Value::Float(n) => ValueV::Float(n@),
            Value::Float2(a, b) => ValueV::Float2(Box::new(a.model()), Box::new(b.model())),
            Value::Float3(a, b, c) => ValueV::Float3(
                Box::new(a.model()),
                Box::new(b.model()),
                Box::new(c.model()),
            ),
            Value::String(s) => ValueV::String(s@),
        }
    }
}

impl Expr {
    pub open spec fn models(args: Seq<Box<Expr>>) -> Seq<ExprV>
        decreases args,
    {
        if args.len() == 0 {
            Seq::empty()
        } else {
            Self::models(args.drop_last()).push(args.last().model())
        }
    }

    pub proof fn lemma_models_len(args: Seq<Box<Expr>>)
        ensures
            Self::models(args).len() == args.len(),
        decreases args.len(),
    {
        if args.len() > 0 {
            Self::lemma_models_len(args.drop_last());
        }
    }

    pub proof fn lemma_models_push(args: Seq<Box<Expr>>, e: Box<Expr>)
        ensures
            Self::models(args.push(e)) == Self::models(args).push(e.model()),
    {
        assert(args.push(e).drop_last() == args);
    }

    pub open spec fn model(&self) -> ExprV
        decreases self,
    {
        match self {
            Expr::Value(v, sw, fp, l) => ExprV::Value(v.model(), sw@, names_view(fp@), l@),
            Expr::Logical(a, op, b, l) => ExprV::Logical(
                Box::new(a.model()),
                *op,
                Box::new(b.model()),
                l@,
            ),
            Expr::Unary(op, a, l) => ExprV::Unary(*op, Box::new(a.model()), l@),
            Expr::Equality(a, op, b, l) => ExprV::Equality(
                Box::new(a.model()),
                *op,
                Box::new(b.model()),
                l@,
            ),
            Expr::Comparison(a, op, b, l) => ExprV::Comparison(
                Box::new(a.model()),
                *op,
                Box::new(b.model()),
                l@,
            ),
            Expr::Binary(a, op, b, l) => ExprV::Binary(
                Box::new(a.model()),
                *op,
                Box::new(b.model()),
                l@,
            ),
            Expr::Grouping(a, l) => ExprV::Grouping(Box::new(a.model()), l@),
            Expr::Variable(n, sw, fp, l) => ExprV::Variable(n@, sw@, names_view(fp@), l@),
            Expr::VariableAssignment(n, op, sw, fp, a, l) => ExprV::VariableAssignment(
                n@,
                *op,
                sw@,
                names_view(fp@),
                Box::new(a.model()),
                l@,
            ),
            Expr::FunctionCall(c, sw, fp, args, l) => ExprV::FunctionCall(
                Box::new(c.model()),
                sw@,
                names_view(fp@),
                Self::models(args@),
                l@,
            ),
            Expr::Ternary(a, b, c, l) => ExprV::Ternary(
                Box::new(a.model()),
                Box::new(b.model()),
                Box::new(c.model()),
                l@,
            ),
            Expr::MaterialReference(n, l) => ExprV::MaterialReference(n@, l@),
        }
    }
}

impl Stmt {
    pub open spec fn models(list: Seq<Box<Stmt>>) -> Seq<StmtV>
        decreases list,
    {
        if list.len() == 0 {
            Seq::empty()
        } else {
            Self::models(list.drop_last()).push(list.last().model())
        }
    }

    pub proof fn lemma_models_index(list: Seq<Box<Stmt>>)
        ensures
            Self::models(list).len() == list.len(),
            forall|i: int| 0 <= i < list.len() ==> Self::models(list)[i] == #[trigger] list[i].model(),
        decreases list.len(),
    {
        if list.len() > 0 {
            Self::lemma_models_index(list.drop_last());
            assert forall|i: int| 0 <= i < list.len() implies Self::models(list)[i]
                == #[trigger] list[i].model() by {
                if i < list.len() - 1 {
                    assert(list.drop_last()[i] == list[i]);
                }
            }
        }
    }

    pub proof fn lemma_models_push(list: Seq<Box<Stmt>>, e: Box<Stmt>)
        ensures
            Self::models(list.push(e)) == Self::models(list).push(e.model()),
    {
        assert(list.push(e).drop_last() == list);
    }

    pub open spec fn model(&self) -> StmtV
        decreases self,
    {
        match self {
            Stmt::If(c, t, e, l) => StmtV::If(
                Box::new(c.model()),
                Box::new(t.model()),
                match e {
                    Some(e) => Some(Box::new(e.model())),
                    None => None,
                },
                l@,
            ),
            Stmt::Block(list, l) => StmtV::Block(Self::models(list@), l@),
            Stmt::Expression(e, l) => StmtV::Expression(Box::new(e.model()), l@),
            Stmt::VarDeclaration(n, v, e, l) => StmtV::VarDeclaration(
                n@,
                v.model(),
                Box::new(e.model()),
                l@,
            ),
            Stmt::Material(d, l) => StmtV::Material(
                Box::new(
                    BlocksDeclV {
                        name: d.name@,
                        params: expr_table(d.params),
                        blocks: stmt_table(d.blocks),
                    },
                ),
                l@,
            ),
            Stmt::Voxel(d, l) => StmtV::Voxel(
                Box::new(
                    BodyDeclV {
                        name: d.name@,
                        params: expr_table(d.params),
                        block: match d.block {
                            Some(b) => Some(b.model()),
                            None => None,
                        },
                    },
                ),
                l@,
            ),
            Stmt::Shape(d, l) => StmtV::Shape(
                Box::new(
                    BodyDeclV {
                        name: d.name@,
                        params: expr_table(d.params),
                        block: match d.block {
                            Some(b) => Some(b.model()),
                            None => None,
                        },
                    },
                ),
                l@,
            ),
            Stmt::Segment(d, l) => StmtV::Segment(
                Box::new(
                    BodyDeclV {
                        name: d.name@,
                        params: expr_table(d.params),
                        block: match d.block {
                            Some(b) => Some(b.model()),
                            None => None,
                        },
                    },
                ),
                l@,
            ),
            Stmt::Place(n, p, l) => StmtV::Place(n@, expr_table(*p), l@),
            Stmt::Pattern(d, l) => StmtV::Pattern(
                Box::new(
                    BlocksDeclV {
                        name: d.name@,
                        params: expr_table(d.params),
                        blocks: stmt_table(d.blocks),
                    },
                ),
                l@,
            ),
        }
    }
}

impl Value {
    /// The number of float components the value has.
    pub fn components(&self) -> (r: usize)
        ensures
            r == match self.model() {
                ValueV::Float(_) => 1usize,
                ValueV::Float2(_, _) => 2usize,
                ValueV::Float3(_, _, _) => 3usize,
                _ => 0usize,
            },
    {
        match self {
            Value::Float(_) => 1,
            Value::Float2(_, _) => 2,
            Value::Float3(_, _, _) => 3,
            _ => 0,
        }
    }
}

} // verus!
