//! The grammar of the shape language, as mathematical functions from the
//! tokens and the parser's state to a result and the state after it.
//!
//! Each function reads the tokens from `s.pos` on, as the parser does, and
//! returns what the parser returns together with the state in which the
//! parser stops, which matters: the parser keeps its scopes, variables and
//! materials from one module to the next, also after an error.
//!
//! Positions never move backwards. Where a definition goes on after a
//! sub-parse, it asks for that (`fwd`); the branch for the other case is
//! never taken, and exists so that the definitions terminate.
use vstd::prelude::*;

use crate::ast::{
    BlocksDeclV, BodyDeclV, StmtV,
    AssignmentOperator, BinaryOperator, ComparisonOperator, EqualityOperator, ExprV, LocationV,
    LogicalOperator, NumberV, UnaryOperator, ValueV,
};
use crate::error::ParseErrorV;
use crate::idverifier::{scopes_declare, scopes_define, scopes_end};
use crate::text::{debug_text, is_swizzle, spec_float_literal, spec_parse_i32, swizzle_of};
use crate::token::{TokenType, TokenV};

verus! {

/// What the parser reads: the tokens and the path of the module.
pub struct Src {
    pub toks: Seq<TokenV>,
    pub path: Seq<char>,
}

/// The state of the parser.
pub struct PState {
    /// The index of the current token.
    pub pos: int,
    /// The line of the token last consumed.
    pub line: int,
    /// The declared variable names, scope by scope.
    pub scopes: Seq<Seq<Seq<char>>>,
    /// The slot of each declared variable.
    pub vars: Map<Seq<char>, u32>,
    /// The number of variable declarations read so far.
    pub counter: int,
    /// The declared materials, in order.
    pub materials: Seq<Seq<char>>,
}

/// Why parsing stopped: an error of the source, or a shape parameter that
/// ends the tokens, where the parser would read past the last token.
pub enum Fail {
    Error(ParseErrorV),
    Overrun,
}

pub open spec fn fwd(a: PState, b: PState) -> bool {
    a.pos <= b.pos
}

/// The number of tokens left.
pub open spec fn rem(c: Src, s: PState) -> nat {
    if s.pos < 0 {
        c.toks.len()
    } else if s.pos < c.toks.len() {
        (c.toks.len() - s.pos) as nat
    } else {
        0
    }
}

pub open spec fn at_end(c: Src, s: PState) -> bool {
    s.pos >= c.toks.len()
}

pub open spec fn check(c: Src, s: PState, k: TokenType) -> bool {
    0 <= s.pos < c.toks.len() && c.toks[s.pos].kind == k
}

pub open spec fn check_next(c: Src, s: PState, k: TokenType) -> bool {
    0 <= s.pos && s.pos + 1 < c.toks.len() && c.toks[s.pos + 1].kind == k
}

pub open spec fn advance(c: Src, s: PState) -> PState {
    if 0 <= s.pos < c.toks.len() {
        PState { pos: s.pos + 1, line: c.toks[s.pos].line as int, ..s }
    } else {
        s
    }
}

/// Consumes the current token if it has the kind.
pub open spec fn match_one(c: Src, s: PState, k: TokenType) -> (bool, PState) {
    if check(c, s, k) {
        (true, advance(c, s))
    } else {
        (false, s)
    }
}

/// Consumes the current token if it has one of the kinds.
pub open spec fn match_any(c: Src, s: PState, ks: Seq<TokenType>) -> (bool, PState) {
    if 0 <= s.pos < c.toks.len() && ks.contains(c.toks[s.pos].kind) {
        (true, advance(c, s))
    } else {
        (false, s)
    }
}

pub open spec fn error(c: Src, message: Seq<char>, line: int) -> ParseErrorV {
    ParseErrorV { message, line: line as usize, path: c.path }
}

pub open spec fn loc(c: Src, line: int) -> LocationV {
    LocationV { file: c.path, line: line as usize }
}

/// Consumes a token of the kind, or fails with the message at the line.
pub open spec fn consume(c: Src, s: PState, k: TokenType, message: Seq<char>, line: int) -> (
    Result<TokenV, ParseErrorV>,
    PState,
) {
    if check(c, s, k) {
        (Ok(c.toks[s.pos]), advance(c, s))
    } else {
        (Err(error(c, message, line)), s)
    }
}

/// The token at the position, or an end-of-file token.
pub open spec fn peek(c: Src, s: PState) -> TokenV {
    if 0 <= s.pos < c.toks.len() {
        c.toks[s.pos]
    } else {
        TokenV { kind: TokenType::Eof, lexeme: Seq::empty(), line: 0 }
    }
}

/// A swizzle follows: a dot, then an identifier made of component letters.
pub open spec fn swizzle_valid(c: Src, s: PState) -> bool {
    &&& 0 <= s.pos
    &&& s.pos + 1 < c.toks.len()
    &&& c.toks[s.pos].kind == TokenType::Dot
    &&& c.toks[s.pos + 1].kind == TokenType::Identifier
    &&& is_swizzle(c.toks[s.pos + 1].lexeme)
}

/// Reads a swizzle `.xyz` that is not followed by a further dot.
pub open spec fn get_swizzle(c: Src, s: PState) -> (Seq<u8>, PState) {
    if 0 <= s.pos && s.pos + 2 < c.toks.len() && c.toks[s.pos].kind == TokenType::Dot
        && c.toks[s.pos + 1].kind == TokenType::Identifier && c.toks[s.pos + 2].kind
        != TokenType::Dot && is_swizzle(c.toks[s.pos + 1].lexeme) {
        (swizzle_of(c.toks[s.pos + 1].lexeme), PState { pos: s.pos + 2, ..s })
    } else {
        (Seq::empty(), s)
    }
}

pub open spec fn unary_of(k: TokenType) -> UnaryOperator {
    if k == TokenType::Bang {
        UnaryOperator::Negate
    } else {
        UnaryOperator::Minus
    }
}

pub open spec fn binary_of(k: TokenType) -> BinaryOperator {
    if k == TokenType::Plus {
        BinaryOperator::Add
    } else if k == TokenType::Minus {
        BinaryOperator::Subtract
    } else if k == TokenType::Star {
        BinaryOperator::Multiply
    } else if k == TokenType::Slash {
        BinaryOperator::Divide
    } else {
        BinaryOperator::Mod
    }
}

pub open spec fn comparison_of(k: TokenType) -> ComparisonOperator {
    if k == TokenType::Greater {
        ComparisonOperator::Greater
    } else if k == TokenType::GreaterEqual {
        ComparisonOperator::GreaterEqual
    } else if k == TokenType::Less {
        ComparisonOperator::Less
    } else {
        ComparisonOperator::LessEqual
    }
}

pub open spec fn equality_of(k: TokenType) -> EqualityOperator {
    if k == TokenType::BangEqual {
        EqualityOperator::NotEqual
    } else {
        EqualityOperator::Equal
    }
}

pub open spec fn logical_of(k: TokenType) -> LogicalOperator {
    if k == TokenType::And {
        LogicalOperator::And
    } else {
        LogicalOperator::Or
    }
}

/// The identifiers that always name an input of the program.
pub open spec fn is_builtin_name(s: Seq<char>) -> bool {
    ||| s == "local"@
    ||| s == "world"@
    ||| s == "u"@
    ||| s == "v"@
    ||| s == "d"@
    ||| s == "hash"@
    ||| s == "Clear"@
}

/// A float literal `0`, which stands for a missing vector component.
pub open spec fn zero_expr() -> ExprV {
    ExprV::Value(
        ValueV::Float(NumberV::Int(0)),
        Seq::empty(),
        Seq::empty(),
        LocationV { file: Seq::empty(), line: 0 },
    )
}

/// The component at the index, or the zero literal.
pub open spec fn component(comps: Seq<ExprV>, i: int) -> Box<ExprV> {
    if i < comps.len() {
        Box::new(comps[i])
    } else {
        Box::new(zero_expr())
    }
}

pub open spec fn no_value(line: int, c: Src, v: ValueV) -> ExprV {
    ExprV::Value(v, Seq::empty(), Seq::empty(), loc(c, line))
}

/// Consumes an operator `k` directly followed by `=`; the operator stays
/// consumed where no `=` follows.
pub open spec fn compound(c: Src, s: PState, k: TokenType) -> (bool, PState) {
    if check(c, s, k) {
        match_one(c, advance(c, s), TokenType::Equal)
    } else {
        (false, s)
    }
}

pub type ExprResult = (Result<ExprV, ParseErrorV>, PState);

// ---------------------------------------------------------------------------
// Expressions

pub open spec fn p_expression(c: Src, s: PState) -> ExprResult
    decreases rem(c, s), 20nat,
{
    p_assignment(c, s)
}

/// The rest of an assignment after its operator: the target must be a variable.
pub open spec fn assign_rest(
    c: Src,
    s: PState,
    target: ExprV,
    op: AssignmentOperator,
) -> ExprResult
    decreases rem(c, s), 21nat,
{
    let equals = c.toks[s.pos - 1];
    let (r, s1) = p_assignment(c, s);
    match r {
        Err(e) => (Err(e), s1),
        Ok(value) => match target {
            ExprV::Variable(name, sw, fp, _) => (
                Ok(
                    ExprV::VariableAssignment(
                        name,
                        op,
                        sw,
                        fp,
                        Box::new(value),
                        loc(c, equals.line as int),
                    ),
                ),
                s1,
            ),
            _ => (
                Err(
                    error(
                        c,
                        "Invalid assignment target: '"@ + debug_text(equals.lexeme) + "'"@,
                        equals.line as int,
                    ),
                ),
                s1,
            ),
        },
    }
}

pub open spec fn p_assignment(c: Src, s: PState) -> ExprResult
    decreases rem(c, s), 19nat,
{
    let (r, s1) = p_or(c, s);
    match r {
        Err(e) => (Err(e), s1),
        Ok(expr) => if !fwd(s, s1) {
            (Ok(expr), s1)
        } else {
            let (a, sa) = compound(c, s1, TokenType::Plus);
            if a {
                assign_rest(c, sa, expr, AssignmentOperator::AddAssign)
            } else {
                let (b, sb) = compound(c, sa, TokenType::Minus);
                if b {
                    assign_rest(c, sb, expr, AssignmentOperator::SubtractAssign)
                } else {
                    let (m, sm) = compound(c, sb, TokenType::Star);
                    if m {
                        assign_rest(c, sm, expr, AssignmentOperator::MultiplyAssign)
                    } else {
                        let (d, sd) = compound(c, sm, TokenType::Slash);
                        if d {
                            assign_rest(c, sd, expr, AssignmentOperator::DivideAssign)
                        } else {
                            let (e, se) = match_one(c, sd, TokenType::Equal);
                            if e {
                                assign_rest(c, se, expr, AssignmentOperator::Assign)
                            } else {
                                (Ok(expr), se)
                            }
                        }
                    }
                }
            }
        },
    }
}

pub open spec fn p_or(c: Src, s: PState) -> ExprResult
    decreases rem(c, s), 18nat,
{
    let (r, s1) = p_and(c, s);
    match r {
        Err(e) => (Err(e), s1),
        Ok(e) => if fwd(s, s1) {
            p_or_loop(c, s1, e)
        } else {
            (Ok(e), s1)
        },
    }
}

pub open spec fn p_or_loop(c: Src, s: PState, left: ExprV) -> ExprResult
    decreases rem(c, s), 17nat,
{
    let (m, s1) = match_one(c, s, TokenType::Or);
    if !m {
        (Ok(left), s1)
    } else {
        let op = c.toks[s.pos];
        let (r, s2) = p_and(c, s1);
        match r {
            Err(e) => (Err(e), s2),
            Ok(right) => {
                let e = ExprV::Logical(
                    Box::new(left),
                    logical_of(op.kind),
                    Box::new(right),
                    loc(c, op.line as int),
                );
                if fwd(s1, s2) {
                    p_or_loop(c, s2, e)
                } else {
                    (Ok(e), s2)
                }
            },
        }
    }
}

pub open spec fn p_and(c: Src, s: PState) -> ExprResult
    decreases rem(c, s), 16nat,
{
    let (r, s1) = p_ternary(c, s);
    match r {
        Err(e) => (Err(e), s1),
        Ok(e) => if fwd(s, s1) {
            p_and_loop(c, s1, e)
        } else {
            (Ok(e), s1)
        },
    }
}

pub open spec fn p_and_loop(c: Src, s: PState, left: ExprV) -> ExprResult
    decreases rem(c, s), 15nat,
{
    let (m, s1) = match_one(c, s, TokenType::And);
    if !m {
        (Ok(left), s1)
    } else {
        let op = c.toks[s.pos];
        let (r, s2) = p_equality(c, s1);
        match r {
            Err(e) => (Err(e), s2),
            Ok(right) => {
                let e = ExprV::Logical(
                    Box::new(left),
                    logical_of(op.kind),
                    Box::new(right),
                    loc(c, op.line as int),
                );
                if fwd(s1, s2) {
                    p_and_loop(c, s2, e)
                } else {
                    (Ok(e), s2)
                }
            },
        }
    }
}

pub open spec fn p_ternary(c: Src, s: PState) -> ExprResult
    decreases rem(c, s), 14nat,
{
    let (r, s1) = p_equality(c, s);
    match r {
        Err(e) => (Err(e), s1),
        Ok(e) => if fwd(s, s1) {
            p_ternary_loop(c, s1, e, s1.line)
        } else {
            (Ok(e), s1)
        },
    }
}

pub open spec fn p_ternary_loop(c: Src, s: PState, cond: ExprV, line: int) -> ExprResult
    decreases rem(c, s), 13nat,
{
    let (m, s1) = match_one(c, s, TokenType::TernaryOperator);
    if !m {
        (Ok(cond), s1)
    } else {
        let (r, s2) = p_expression(c, s1);
        match r {
            Err(e) => (Err(e), s2),
            Ok(then_branch) => {
                let (k, s3) = consume(
                    c,
                    s2,
                    TokenType::Colon,
                    "Expect ':' after condition for ternary"@,
                    line,
                );
                match k {
                    Err(e) => (Err(e), s3),
                    Ok(_) => if !fwd(s1, s3) {
                        (Ok(cond), s3)
                    } else {
                        let (r2, s4) = p_expression(c, s3);
                        match r2 {
                            Err(e) => (Err(e), s4),
                            Ok(else_branch) => {
                                let e = ExprV::Ternary(
                                    Box::new(cond),
                                    Box::new(then_branch),
                                    Box::new(else_branch),
                                    loc(c, line),
                                );
                                if fwd(s3, s4) {
                                    p_ternary_loop(c, s4, e, line)
                                } else {
                                    (Ok(e), s4)
                                }
                            },
                        }
                    },
                }
            },
        }
    }
}

pub open spec fn is_equality_kind(k: TokenType) -> bool {
    k == TokenType::BangEqual || k == TokenType::EqualEqual
}

pub open spec fn is_comparison_kind(k: TokenType) -> bool {
    k == TokenType::Greater || k == TokenType::GreaterEqual || k == TokenType::Less || k
        == TokenType::LessEqual
}

pub open spec fn is_term_kind(k: TokenType) -> bool {
    k == TokenType::Minus || k == TokenType::Plus
}

pub open spec fn is_factor_kind(k: TokenType) -> bool {
    k == TokenType::Slash || k == TokenType::Star
}

pub open spec fn is_unary_kind(k: TokenType) -> bool {
    k == TokenType::Bang || k == TokenType::Minus
}

/// The groups of operators that the grammar reads with one rule.
pub enum Group {
    Equality,
    Comparison,
    Term,
    Factor,
    Unary,
}

pub open spec fn in_group(g: Group, k: TokenType) -> bool {
    match g {
        Group::Equality => is_equality_kind(k),
        Group::Comparison => is_comparison_kind(k),
        Group::Term => is_term_kind(k),
        Group::Factor => is_factor_kind(k),
        Group::Unary => is_unary_kind(k),
    }
}

/// Consumes the current token if its kind is in the group.
pub open spec fn match_kind_if(c: Src, s: PState, g: Group) -> (bool, PState) {
    if 0 <= s.pos < c.toks.len() && in_group(g, c.toks[s.pos].kind) {
        (true, advance(c, s))
    } else {
        (false, s)
    }
}

pub open spec fn p_equality(c: Src, s: PState) -> ExprResult
    decreases rem(c, s), 12nat,
{
    let (r, s1) = p_comparison(c, s);
    match r {
        Err(e) => (Err(e), s1),
        Ok(e) => if fwd(s, s1) {
            p_equality_loop(c, s1, e)
        } else {
            (Ok(e), s1)
        },
    }
}

pub open spec fn p_equality_loop(c: Src, s: PState, left: ExprV) -> ExprResult
    decreases rem(c, s), 11nat,
{
    let (m, s1) = match_kind_if(c, s, Group::Equality);
    if !m {
        (Ok(left), s1)
    } else {
        let op = c.toks[s.pos];
        let (r, s2) = p_comparison(c, s1);
        match r {
            Err(e) => (Err(e), s2),
            Ok(right) => {
                let e = ExprV::Equality(
                    Box::new(left),
                    equality_of(op.kind),
                    Box::new(right),
                    loc(c, op.line as int),
                );
                if fwd(s1, s2) {
                    p_equality_loop(c, s2, e)
                } else {
                    (Ok(e), s2)
                }
            },
        }
    }
}

pub open spec fn p_comparison(c: Src, s: PState) -> ExprResult
    decreases rem(c, s), 10nat,
{
    let (r, s1) = p_term(c, s);
    match r {
        Err(e) => (Err(e), s1),
        Ok(e) => if fwd(s, s1) {
            p_comparison_loop(c, s1, e)
        } else {
            (Ok(e), s1)
        },
    }
}

pub open spec fn p_comparison_loop(c: Src, s: PState, left: ExprV) -> ExprResult
    decreases rem(c, s), 9nat,
{
    let (m, s1) = match_kind_if(c, s, Group::Comparison);
    if !m {
        (Ok(left), s1)
    } else {
        let op = c.toks[s.pos];
        let (r, s2) = p_term(c, s1);
        match r {
            Err(e) => (Err(e), s2),
            Ok(right) => {
                let e = ExprV::Comparison(
                    Box::new(left),
                    comparison_of(op.kind),
                    Box::new(right),
                    loc(c, op.line as int),
                );
                if fwd(s1, s2) {
                    p_comparison_loop(c, s2, e)
                } else {
                    (Ok(e), s2)
                }
            },
        }
    }
}

pub open spec fn p_term(c: Src, s: PState) -> ExprResult
    decreases rem(c, s), 8nat,
{
    let (r, s1) = p_factor(c, s);
    match r {
        Err(e) => (Err(e), s1),
        Ok(e) => if fwd(s, s1) && (check(c, s1, TokenType::Minus) || check(c, s1, TokenType::Plus))
            && !check_next(c, s1, TokenType::Equal) {
            p_term_loop(c, s1, e)
        } else {
            (Ok(e), s1)
        },
    }
}

pub open spec fn p_term_loop(c: Src, s: PState, left: ExprV) -> ExprResult
    decreases rem(c, s), 7nat,
{
    let (m, s1) = match_kind_if(c, s, Group::Term);
    if !m {
        (Ok(left), s1)
    } else {
        let op = c.toks[s.pos];
        let (r, s2) = p_factor(c, s1);
        match r {
            Err(e) => (Err(e), s2),
            Ok(right) => {
                let e = ExprV::Binary(
                    Box::new(left),
                    binary_of(op.kind),
                    Box::new(right),
                    loc(c, op.line as int),
                );
                if fwd(s1, s2) {
                    p_term_loop(c, s2, e)
                } else {
                    (Ok(e), s2)
                }
            },
        }
    }
}

pub open spec fn p_factor(c: Src, s: PState) -> ExprResult
    decreases rem(c, s), 6nat,
{
    let (r, s1) = p_unary(c, s);
    match r {
        Err(e) => (Err(e), s1),
        Ok(e) => if fwd(s, s1) && (check(c, s1, TokenType::Slash) || check(c, s1, TokenType::Star))
            && !check_next(c, s1, TokenType::Equal) {
            p_factor_loop(c, s1, e)
        } else {
            (Ok(e), s1)
        },
    }
}

pub open spec fn p_factor_loop(c: Src, s: PState, left: ExprV) -> ExprResult
    decreases rem(c, s), 5nat,
{
    let (m, s1) = match_kind_if(c, s, Group::Factor);
    if !m {
        (Ok(left), s1)
    } else {
        let op = c.toks[s.pos];
        let (r, s2) = p_unary(c, s1);
        match r {
            Err(e) => (Err(e), s2),
            Ok(right) => {
                let e = ExprV::Binary(
                    Box::new(left),
                    binary_of(op.kind),
                    Box::new(right),
                    loc(c, op.line as int),
                );
                if fwd(s1, s2) {
                    p_factor_loop(c, s2, e)
                } else {
                    (Ok(e), s2)
                }
            },
        }
    }
}

pub open spec fn p_unary(c: Src, s: PState) -> ExprResult
    decreases rem(c, s), 4nat,
{
    let (m, s1) = match_kind_if(c, s, Group::Unary);
    if m {
        let op = c.toks[s.pos];
        let (r, s2) = p_unary(c, s1);
        match r {
            Err(e) => (Err(e), s2),
            Ok(right) => (
                Ok(ExprV::Unary(unary_of(op.kind), Box::new(right), loc(c, op.line as int))),
                s2,
            ),
        }
    } else {
        p_call(c, s)
    }
}

pub open spec fn p_call(c: Src, s: PState) -> ExprResult
    decreases rem(c, s), 3nat,
{
    let (r, s1) = p_primary(c, s);
    match r {
        Err(e) => (Err(e), s1),
        Ok(e) => if fwd(s, s1) {
            p_call_loop(c, s1, e)
        } else {
            (Ok(e), s1)
        },
    }
}

pub open spec fn p_call_loop(c: Src, s: PState, callee: ExprV) -> ExprResult
    decreases rem(c, s), 2nat,
{
    let (m, s1) = match_one(c, s, TokenType::LeftParen);
    if !m {
        (Ok(callee), s1)
    } else {
        let (r, s2) = p_finish_call(c, s1, callee);
        match r {
            Err(e) => (Err(e), s2),
            Ok(e) => if fwd(s1, s2) {
                p_call_loop(c, s2, e)
            } else {
                (Ok(e), s2)
            },
        }
    }
}

/// The arguments of a call, up to the closing parenthesis.
pub open spec fn p_arguments(c: Src, s: PState, args: Seq<ExprV>, line: int) -> (
    Result<Seq<ExprV>, ParseErrorV>,
    PState,
)
    decreases rem(c, s), 22nat,
{
    if args.len() >= 255 {
        (Err(error(c, "Cannot have more than 255 arguments"@, line)), s)
    } else {
        let (r, s1) = p_expression(c, s);
        match r {
            Err(e) => (Err(e), s1),
            Ok(e) => {
                let args2 = args.push(e);
                let (m, s2) = match_one(c, s1, TokenType::Comma);
                if !m {
                    (Ok(args2), s2)
                } else if fwd(s, s1) {
                    p_arguments(c, s2, args2, line)
                } else {
                    (Ok(args2), s2)
                }
            },
        }
    }
}

pub open spec fn p_finish_call(c: Src, s: PState, callee: ExprV) -> ExprResult
    decreases rem(c, s), 23nat,
{
    let line = s.line;
    let (r, s1) = if !check(c, s, TokenType::RightParen) {
        p_arguments(c, s, Seq::empty(), line)
    } else {
        (Ok(Seq::empty()), s)
    };
    match r {
        Err(e) => (Err(e), s1),
        Ok(args) => {
            let (p, s2) = consume(
                c,
                s1,
                TokenType::RightParen,
                "Expect ')' after function arguments"@,
                line,
            );
            match p {
                Err(e) => (Err(e), s2),
                Ok(paren) => (
                    Ok(
                        ExprV::FunctionCall(
                            Box::new(callee),
                            Seq::empty(),
                            Seq::empty(),
                            args,
                            loc(c, paren.line as int),
                        ),
                    ),
                    s2,
                ),
            }
        },
    }
}

/// The components of a vector, up to `max`; a closing parenthesis may end
/// them early.
pub open spec fn p_read_vec(c: Src, s: PState, max: int, line: int) -> (
    Result<Seq<ExprV>, ParseErrorV>,
    PState,
)
    decreases rem(c, s), 23nat,
{
    let (m, s1) = match_one(c, s, TokenType::RightParen);
    if m {
        (Ok(Seq::empty()), s1)
    } else {
        p_read_vec_loop(c, s1, Seq::empty(), max, line)
    }
}

pub open spec fn p_read_vec_loop(
    c: Src,
    s: PState,
    comps: Seq<ExprV>,
    max: int,
    line: int,
) -> (Result<Seq<ExprV>, ParseErrorV>, PState)
    decreases rem(c, s), 22nat,
{
    if comps.len() < max {
        let (r, s1) = p_expression(c, s);
        match r {
            Err(e) => (Err(e), s1),
            Ok(e) => {
                let comps2 = comps.push(e);
                let (m, s2) = match_one(c, s1, TokenType::Comma);
                if !m {
                    let (m2, s3) = match_one(c, s2, TokenType::RightParen);
                    if !m2 {
                        (Err(error(c, "Expected ')' after vector components"@, line)), s3)
                    } else {
                        (Ok(comps2), s3)
                    }
                } else if fwd(s, s1) {
                    p_read_vec_loop(c, s2, comps2, max, line)
                } else {
                    (Ok(comps2), s2)
                }
            },
        }
    } else {
        (Ok(comps), s)
    }
}

/// A `vec2(..)` or `vec3(..)` value, after its keyword.
pub open spec fn p_vector(c: Src, s: PState, token: TokenV, n: int) -> ExprResult
    decreases rem(c, s), 24nat,
{
    let (m, s1) = match_one(c, s, TokenType::LeftParen);
    if !m {
        (
            Err(
                error(
                    c,
                    if n == 2 {
                        "Expected '(' after vec2"@
                    } else {
                        "Expected '(' after vec3"@
                    },
                    token.line as int,
                ),
            ),
            s1,
        )
    } else {
        let (r, s2) = p_read_vec(c, s1, n, token.line as int);
        match r {
            Err(e) => (Err(e), s2),
            Ok(comps) => {
                let (sw, s3) = get_swizzle(c, s2);
                let v = if n == 2 {
                    ValueV::Float2(component(comps, 0), component(comps, 1))
                } else {
                    ValueV::Float3(component(comps, 0), component(comps, 1), component(comps, 2))
                };
                (Ok(ExprV::Value(v, sw, Seq::empty(), loc(c, token.line as int))), s3)
            },
        }
    }
}

/// An identifier: an input of the program, a material or a declared variable.
pub open spec fn p_identifier(c: Src, s: PState, token: TokenV) -> ExprResult {
    let (sw, s1) = if check(c, s, TokenType::Dot) && swizzle_valid(c, s) {
        get_swizzle(c, s)
    } else {
        (Seq::empty(), s)
    };
    let name = token.lexeme;
    let l = loc(c, token.line as int);
    if is_builtin_name(name) {
        (Ok(ExprV::Variable(name, sw, Seq::empty(), l)), s1)
    } else if s1.materials.contains(name) {
        (Ok(ExprV::MaterialReference(name, l)), s1)
    } else if scopes_declare(s1.scopes, name) {
        (Ok(ExprV::Variable(name, sw, Seq::empty(), l)), s1)
    } else {
        (Err(error(c, "Unknown identifier '"@ + name + "'"@, token.line as int)), s1)
    }
}

pub open spec fn p_primary(c: Src, s: PState) -> ExprResult
    decreases rem(c, s), 1nat,
{
    let token = peek(c, s);
    let line = token.line as int;
    let s1 = advance(c, s);
    match token.kind {
        TokenType::False => (Ok(no_value(line, c, ValueV::Boolean(false))), s1),
        TokenType::True => (Ok(no_value(line, c, ValueV::Boolean(true))), s1),
        TokenType::Void => (Ok(no_value(line, c, ValueV::Void)), s1),
        TokenType::Semicolon => (Ok(no_value(line, c, ValueV::Void)), s),
        TokenType::IntegerNumber => match spec_parse_i32(token.lexeme) {
            Some(n) => (Ok(no_value(line, c, ValueV::Float(NumberV::Int(n)))), s1),
            None => (Err(error(c, "Invalid integer number"@, line)), s1),
        },
        TokenType::FloatNumber => if spec_float_literal(token.lexeme) {
            (Ok(no_value(line, c, ValueV::Float(NumberV::Decimal(token.lexeme)))), s1)
        } else {
            (Err(error(c, "Invalid float number"@, line)), s1)
        },
        TokenType::Float2 => p_vector(c, s1, token, 2),
        TokenType::Float3 => p_vector(c, s1, token, 3),
        TokenType::LeftParen => {
            let (r, s2) = p_expression(c, s1);
            match r {
                Err(e) => (Err(e), s2),
                Ok(e) => {
                    let (m, s3) = match_one(c, s2, TokenType::RightParen);
                    if m {
                        (Ok(ExprV::Grouping(Box::new(e), loc(c, line))), s3)
                    } else {
                        (Err(error(c, "Expected ')' after expression"@, line)), s3)
                    }
                },
            }
        },
        TokenType::Identifier => p_identifier(c, s1, token),
        _ => (Err(error(c, "Unknown identifier '"@ + token.lexeme + "'"@, line)), s),
    }
}


// ---------------------------------------------------------------------------
// Statements

pub type StmtResult = (Result<StmtV, Fail>, PState);

pub open spec fn lift<T>(r: Result<T, ParseErrorV>) -> Result<T, Fail> {
    match r {
        Ok(x) => Ok(x),
        Err(e) => Err(Fail::Error(e)),
    }
}

/// Parsing did not read past the last token.
pub open spec fn no_overrun<T>(r: Result<T, Fail>) -> bool {
    !(r matches Err(Fail::Overrun))
}

/// Parameters `name = expression`, as long as an identifier follows.
pub open spec fn p_params(
    c: Src,
    s: PState,
    params: Map<Seq<char>, ExprV>,
    message: Seq<char>,
) -> (Result<Map<Seq<char>, ExprV>, ParseErrorV>, PState)
    decreases rem(c, s),
{
    let (m, s1) = match_one(c, s, TokenType::Identifier);
    if !m {
        (Ok(params), s1)
    } else {
        let id = c.toks[s.pos].lexeme;
        let (k, s2) = consume(c, s1, TokenType::Equal, message, s1.line);
        match k {
            Err(e) => (Err(e), s2),
            Ok(_) => {
                let (r, s3) = p_expression(c, s2);
                match r {
                    Err(e) => (Err(e), s3),
                    Ok(v) => if fwd(s2, s3) {
                        p_params(c, s3, params.insert(id, v), message)
                    } else {
                        (Ok(params), s3)
                    },
                }
            },
        }
    }
}

/// The parameters of a shape, which commas may separate. After a parameter
/// the parser looks at the next token without asking whether there is one.
pub open spec fn p_shape_params(c: Src, s: PState, params: Map<Seq<char>, ExprV>) -> (
    Result<Map<Seq<char>, ExprV>, Fail>,
    PState,
)
    decreases rem(c, s),
{
    let (m, s1) = match_one(c, s, TokenType::Identifier);
    if !m {
        (Ok(params), s1)
    } else {
        let id = c.toks[s.pos].lexeme;
        let (k, s2) = consume(
            c,
            s1,
            TokenType::Equal,
            "Expected '=' after voxel identifier"@,
            s1.line,
        );
        match k {
            Err(e) => (Err(Fail::Error(e)), s2),
            Ok(_) => {
                let (r, s3) = p_expression(c, s2);
                match r {
                    Err(e) => (Err(Fail::Error(e)), s3),
                    Ok(v) => if !(0 <= s3.pos < c.toks.len()) {
                        (Err(Fail::Overrun), s3)
                    } else {
                        let s4 = if c.toks[s3.pos].kind == TokenType::Comma {
                            advance(c, s3)
                        } else {
                            s3
                        };
                        if fwd(s2, s3) {
                            p_shape_params(c, s4, params.insert(id, v))
                        } else {
                            (Ok(params), s4)
                        }
                    },
                }
            },
        }
    }
}

/// Named blocks `name { .. }`, as long as an identifier follows.
pub open spec fn p_blocks(c: Src, s: PState, blocks: Map<Seq<char>, StmtV>) -> (
    Result<Map<Seq<char>, StmtV>, Fail>,
    PState,
)
    decreases rem(c, s), 37nat,
{
    let (m, s1) = match_one(c, s, TokenType::Identifier);
    if !m {
        (Ok(blocks), s1)
    } else {
        let id = c.toks[s.pos].lexeme;
        let (k, s2) = consume(
            c,
            s1,
            TokenType::LeftBrace,
            "Expected '{' after pattern identifier"@,
            s1.line,
        );
        match k {
            Err(e) => (Err(Fail::Error(e)), s2),
            Ok(_) => {
                let (r, s3) = p_block(c, s2);
                match r {
                    Err(f) => (Err(f), s3),
                    Ok(b) => if fwd(s2, s3) {
                        p_blocks(c, s3, blocks.insert(id, b))
                    } else {
                        (Ok(blocks), s3)
                    },
                }
            },
        }
    }
}

/// A block, after its opening brace: a new scope for its declarations.
pub open spec fn p_block(c: Src, s: PState) -> StmtResult
    decreases rem(c, s), 40nat,
{
    p_block_loop(c, PState { scopes: s.scopes.push(Seq::empty()), ..s }, Seq::empty())
}

pub open spec fn p_block_loop(c: Src, s: PState, list: Seq<StmtV>) -> StmtResult
    decreases rem(c, s), 39nat,
{
    if !check(c, s, TokenType::RightBrace) && !at_end(c, s) {
        let (r, s1) = p_declaration(c, s);
        match r {
            Err(f) => (Err(f), s1),
            Ok(st) => if 0 <= s.pos < s1.pos {
                p_block_loop(c, s1, list.push(st))
            } else {
                (Ok(StmtV::Block(list, loc(c, s1.line))), s1)
            },
        }
    } else {
        let s2 = PState { scopes: scopes_end(s.scopes), ..s };
        let line = s2.line;
        let (k, s3) = consume(c, s2, TokenType::RightBrace, "Expect '}}' after block"@, line);
        match k {
            Err(e) => (Err(Fail::Error(e)), s3),
            Ok(_) => (Ok(StmtV::Block(list, loc(c, line))), s3),
        }
    }
}

pub open spec fn p_declaration(c: Src, s: PState) -> StmtResult
    decreases rem(c, s), 38nat,
{
    let (m1, s1) = match_one(c, s, TokenType::Material);
    if m1 {
        p_material(c, s1)
    } else {
        let (m2, s2) = match_one(c, s1, TokenType::Voxel);
        if m2 {
            p_voxel(c, s2)
        } else {
            let (m3, s3) = match_one(c, s2, TokenType::Shape);
            if m3 {
                p_shape(c, s3)
            } else {
                let (m4, s4) = match_one(c, s3, TokenType::Segment);
                if m4 {
                    p_segment(c, s4)
                } else {
                    let (m5, s5) = match_one(c, s4, TokenType::Place);
                    if m5 {
                        p_place(c, s5)
                    } else {
                        let (m6, s6) = match_one(c, s5, TokenType::Let);
                        if m6 {
                            p_var_declaration(c, s6)
                        } else {
                            p_statement(c, s6)
                        }
                    }
                }
            }
        }
    }
}

/// A variable declaration, after `let`: the name is declared, and takes the
/// next variable slot, before the initializer is read.
pub open spec fn p_var_declaration(c: Src, s: PState) -> StmtResult
    decreases rem(c, s), 37nat,
{
    let line = s.line;
    let (k, s1) = consume(c, s, TokenType::Identifier, "Expect variable name"@, line);
    match k {
        Err(e) => (Err(Fail::Error(e)), s1),
        Ok(tok) => {
            let name = tok.lexeme;
            let s2 = PState {
                scopes: scopes_define(s1.scopes, name),
                vars: s1.vars.insert(name, s1.counter as u32),
                counter: s1.counter + 1,
                ..s1
            };
            let (m, s3) = match_one(c, s2, TokenType::Equal);
            if m {
                let (r, s4) = p_expression(c, s3);
                match r {
                    Err(e) => (Err(Fail::Error(e)), s4),
                    Ok(x) => (
                        Ok(StmtV::VarDeclaration(name, ValueV::Void, Box::new(x), loc(c, line))),
                        s4,
                    ),
                }
            } else {
                (
                    Err(Fail::Error(error(c, "Variable declaration cannot be empty"@, line))),
                    s3,
                )
            }
        },
    }
}

/// A material declaration, after `material`; its name is recorded.
pub open spec fn p_material(c: Src, s: PState) -> StmtResult
    decreases rem(c, s), 37nat,
{
    let line = s.line;
    let (k, s1) = consume(
        c,
        s,
        TokenType::Identifier,
        "Expected identifier after 'material''"@,
        s.line,
    );
    match k {
        Err(e) => (Err(Fail::Error(e)), s1),
        Ok(tok) => {
            let id = tok.lexeme;
            let (p, s2) = p_params(c, s1, Map::empty(), "Expected '=' after voxel identifier"@);
            match p {
                Err(e) => (Err(Fail::Error(e)), s2),
                Ok(params) => {
                    let (k2, s3) = consume(
                        c,
                        s2,
                        TokenType::LeftBrace,
                        "Expected '{' after material header"@,
                        s2.line,
                    );
                    match k2 {
                        Err(e) => (Err(Fail::Error(e)), s3),
                        Ok(_) => if !fwd(s1, s2) {
                            (Err(Fail::Overrun), s3)
                        } else {
                            let (b, s4) = p_blocks(c, s3, Map::empty());
                            match b {
                                Err(f) => (Err(f), s4),
                                Ok(blocks) => {
                                    let (k3, s5) = consume(
                                        c,
                                        s4,
                                        TokenType::RightBrace,
                                        "Expected '}' after pattern block"@,
                                        s4.line,
                                    );
                                    match k3 {
                                        Err(e) => (Err(Fail::Error(e)), s5),
                                        Ok(_) => {
                                            let s6 = PState {
                                                materials: if s5.materials.contains(id) {
                                                    s5.materials
                                                } else {
                                                    s5.materials.push(id)
                                                },
                                                ..s5
                                            };
                                            (
                                                Ok(
                                                    StmtV::Material(
                                                        Box::new(
                                                            BlocksDeclV { name: id, params, blocks },
                                                        ),
                                                        loc(c, line),
                                                    ),
                                                ),
                                                s6,
                                            )
                                        },
                                    }
                                },
                            }
                        },
                    }
                },
            }
        },
    }
}

/// The header and block of a voxel or a segment declaration, after the keyword.
pub open spec fn p_body_decl(
    c: Src,
    s: PState,
    id_message: Seq<char>,
    param_message: Seq<char>,
    brace_message: Seq<char>,
) -> (Result<BodyDeclV, Fail>, PState)
    decreases rem(c, s), 37nat,
{
    let (k, s1) = consume(c, s, TokenType::Identifier, id_message, s.line);
    match k {
        Err(e) => (Err(Fail::Error(e)), s1),
        Ok(tok) => {
            let id = tok.lexeme;
            let (p, s2) = p_params(c, s1, Map::empty(), param_message);
            match p {
                Err(e) => (Err(Fail::Error(e)), s2),
                Ok(params) => {
                    let (k2, s3) = consume(c, s2, TokenType::LeftBrace, brace_message, s2.line);
                    match k2 {
                        Err(e) => (Err(Fail::Error(e)), s3),
                        Ok(_) => if !fwd(s1, s2) {
                            (Err(Fail::Overrun), s3)
                        } else {
                            let (b, s4) = p_block(c, s3);
                            match b {
                                Err(f) => (Err(f), s4),
                                Ok(block) => (
                                    Ok(BodyDeclV { name: id, params, block: Some(block) }),
                                    s4,
                                ),
                            }
                        },
                    }
                },
            }
        },
    }
}

pub open spec fn p_voxel(c: Src, s: PState) -> StmtResult
    decreases rem(c, s), 38nat,
{
    let (r, s1) = p_body_decl(
        c,
        s,
        "Expected identifier after 'voxel''"@,
        "Expected '=' after voxel identifier"@,
        "Expected '{' after voxel header"@,
    );
    match r {
        Err(f) => (Err(f), s1),
        Ok(d) => (Ok(StmtV::Voxel(Box::new(d), loc(c, s.line))), s1),
    }
}

pub open spec fn p_segment(c: Src, s: PState) -> StmtResult
    decreases rem(c, s), 38nat,
{
    let (r, s1) = p_body_decl(
        c,
        s,
        "Expected identifier after 'segment''"@,
        "Expected '=' after voxel identifier"@,
        "Expected '{' after segment header"@,
    );
    match r {
        Err(f) => (Err(f), s1),
        Ok(d) => (Ok(StmtV::Segment(Box::new(d), loc(c, s.line))), s1),
    }
}

/// The shapes that a shape declaration may name.
pub open spec fn is_shape_id(id: Seq<char>) -> bool {
    id == "Rect"@ || id == "Disc"@
}

pub open spec fn p_shape(c: Src, s: PState) -> StmtResult
    decreases rem(c, s), 37nat,
{
    let line = s.line;
    let (k, s1) = consume(
        c,
        s,
        TokenType::Identifier,
        "Expected identifier after 'shape''"@,
        s.line,
    );
    match k {
        Err(e) => (Err(Fail::Error(e)), s1),
        Ok(tok) => {
            let id = tok.lexeme;
            if !is_shape_id(id) {
                (Err(Fail::Error(error(c, "Invalid shape id: "@ + debug_text(id), line))), s1)
            } else {
                let (p, s2) = p_shape_params(c, s1, Map::empty());
                match p {
                    Err(f) => (Err(f), s2),
                    Ok(params) => {
                        let (k2, s3) = consume(
                            c,
                            s2,
                            TokenType::LeftBrace,
                            "Expected '{' after shape header"@,
                            s2.line,
                        );
                        match k2 {
                            Err(e) => (Err(Fail::Error(e)), s3),
                            Ok(_) => if !fwd(s1, s2) {
                                (Err(Fail::Overrun), s3)
                            } else {
                                let (b, s4) = p_block(c, s3);
                                match b {
                                    Err(f) => (Err(f), s4),
                                    Ok(block) => (
                                        Ok(
                                            StmtV::Shape(
                                                Box::new(
                                                    BodyDeclV {
                                                        name: id,
                                                        params,
                                                        block: Some(block),
                                                    },
                                                ),
                                                loc(c, line),
                                            ),
                                        ),
                                        s4,
                                    ),
                                }
                            },
                        }
                    },
                }
            }
        },
    }
}

pub open spec fn p_place(c: Src, s: PState) -> StmtResult {
    let line = s.line;
    let (k, s1) = consume(
        c,
        s,
        TokenType::Identifier,
        "Expected identifier after 'place''"@,
        s.line,
    );
    match k {
        Err(e) => (Err(Fail::Error(e)), s1),
        Ok(tok) => {
            let id = tok.lexeme;
            let (p, s2) = p_params(c, s1, Map::empty(), "Expected '=' after define identifier"@);
            match p {
                Err(e) => (Err(Fail::Error(e)), s2),
                Ok(params) => {
                    let (k2, s3) = consume(
                        c,
                        s2,
                        TokenType::Semicolon,
                        "Expect ';' after place statement"@,
                        line,
                    );
                    match k2 {
                        Err(e) => (Err(Fail::Error(e)), s3),
                        Ok(_) => (Ok(StmtV::Place(id, params, loc(c, line))), s3),
                    }
                },
            }
        },
    }
}

pub open spec fn p_statement(c: Src, s: PState) -> StmtResult
    decreases rem(c, s), 36nat,
{
    let (m1, s1) = match_one(c, s, TokenType::If);
    if m1 {
        p_if(c, s1)
    } else {
        let (m2, s2) = match_one(c, s1, TokenType::Pattern);
        if m2 {
            p_pattern(c, s2)
        } else {
            let (m3, s3) = match_one(c, s2, TokenType::LeftBrace);
            if m3 {
                p_block(c, s3)
            } else {
                p_expression_statement(c, s3)
            }
        }
    }
}

pub open spec fn p_expression_statement(c: Src, s: PState) -> StmtResult
    decreases rem(c, s), 35nat,
{
    let (r, s1) = p_expression(c, s);
    match r {
        Err(e) => (Err(Fail::Error(e)), s1),
        Ok(v) => {
            let line = s1.line;
            let (k, s2) = consume(
                c,
                s1,
                TokenType::Semicolon,
                "Expect ';' after expression"@,
                line,
            );
            match k {
                Err(e) => (Err(Fail::Error(e)), s2),
                Ok(_) => (Ok(StmtV::Expression(Box::new(v), loc(c, line))), s2),
            }
        },
    }
}

pub open spec fn p_if(c: Src, s: PState) -> StmtResult
    decreases rem(c, s), 37nat,
{
    let line = s.line;
    let (r, s1) = p_expression(c, s);
    match r {
        Err(e) => (Err(Fail::Error(e)), s1),
        Ok(cond) => if !fwd(s, s1) {
            (Err(Fail::Overrun), s1)
        } else {
            let (t, s2) = p_statement(c, s1);
            match t {
                Err(f) => (Err(f), s2),
                Ok(then_branch) => {
                    let (m, s3) = match_one(c, s2, TokenType::Else);
                    if m {
                        if fwd(s1, s2) {
                            let (e, s4) = p_statement(c, s3);
                            match e {
                                Err(f) => (Err(f), s4),
                                Ok(else_branch) => (
                                    Ok(
                                        StmtV::If(
                                            Box::new(cond),
                                            Box::new(then_branch),
                                            Some(Box::new(else_branch)),
                                            loc(c, line),
                                        ),
                                    ),
                                    s4,
                                ),
                            }
                        } else {
                            (Err(Fail::Overrun), s3)
                        }
                    } else {
                        (
                            Ok(
                                StmtV::If(
                                    Box::new(cond),
                                    Box::new(then_branch),
                                    None,
                                    loc(c, line),
                                ),
                            ),
                            s3,
                        )
                    }
                },
            }
        },
    }
}

pub open spec fn p_pattern(c: Src, s: PState) -> StmtResult
    decreases rem(c, s), 37nat,
{
    let line = s.line;
    let (k, s1) = consume(
        c,
        s,
        TokenType::Identifier,
        "Expected identifier after 'pattern''"@,
        s.line,
    );
    match k {
        Err(e) => (Err(Fail::Error(e)), s1),
        Ok(tok) => {
            let id = tok.lexeme;
            let (p, s2) = p_params(c, s1, Map::empty(), "Expected '=' after voxel identifier"@);
            match p {
                Err(e) => (Err(Fail::Error(e)), s2),
                Ok(params) => {
                    let (k2, s3) = consume(
                        c,
                        s2,
                        TokenType::LeftBrace,
                        "Expected '{' after pattern header"@,
                        s2.line,
                    );
                    match k2 {
                        Err(e) => (Err(Fail::Error(e)), s3),
                        Ok(_) => if !fwd(s1, s2) {
                            (Err(Fail::Overrun), s3)
                        } else {
                            let (b, s4) = p_blocks(c, s3, Map::empty());
                            match b {
                                Err(f) => (Err(f), s4),
                                Ok(blocks) => {
                                    let (k3, s5) = consume(
                                        c,
                                        s4,
                                        TokenType::RightBrace,
                                        "Expected '}' after pattern block"@,
                                        s4.line,
                                    );
                                    match k3 {
                                        Err(e) => (Err(Fail::Error(e)), s5),
                                        Ok(_) => (
                                            Ok(
                                                StmtV::Pattern(
                                                    Box::new(
                                                        BlocksDeclV { name: id, params, blocks },
                                                    ),
                                                    loc(c, line),
                                                ),
                                            ),
                                            s5,
                                        ),
                                    }
                                },
                            }
                        },
                    }
                },
            }
        },
    }
}

/// The statements of a module: declarations until the tokens end.
pub open spec fn p_program(c: Src, s: PState, stmts: Seq<StmtV>) -> (
    Result<Seq<StmtV>, Fail>,
    PState,
)
    decreases rem(c, s),
{
    if !at_end(c, s) {
        let (r, s1) = p_declaration(c, s);
        match r {
            Err(f) => (Err(f), s1),
            Ok(st) => if 0 <= s.pos < s1.pos {
                p_program(c, s1, stmts.push(st))
            } else {
                (Ok(stmts.push(st)), s1)
            },
        }
    } else {
        (Ok(stmts), s)
    }
}

/// The tokens before the first end-of-file token.
pub open spec fn before_eof(toks: Seq<TokenV>) -> Seq<TokenV>
    decreases toks.len(),
{
    if toks.len() == 0 {
        toks
    } else if toks[0].kind == TokenType::Eof {
        Seq::empty()
    } else {
        seq![toks[0]] + before_eof(toks.drop_first())
    }
}

pub proof fn lemma_before_eof(toks: Seq<TokenV>, k: int)
    requires
        0 <= k <= toks.len(),
        forall|j: int| 0 <= j < k ==> toks[j].kind != TokenType::Eof,
        k == toks.len() || toks[k].kind == TokenType::Eof,
    ensures
        before_eof(toks) == toks.take(k),
    decreases k,
{
    if k > 0 {
        lemma_before_eof(toks.drop_first(), k - 1);
        assert(toks.take(k) =~= seq![toks[0]] + toks.drop_first().take(k - 1));
    } else if toks.len() == 0 {
        assert(toks.take(0) =~= toks);
    } else {
        assert(toks.take(0) =~= Seq::<TokenV>::empty());
    }
}

/// The statements of the tokens before the first end-of-file token.
pub open spec fn p_module(toks: Seq<TokenV>, path: Seq<char>, s: PState) -> (
    Result<Seq<StmtV>, Fail>,
    PState,
) {
    p_program(Src { toks: before_eof(toks), path }, s, Seq::empty())
}

/// Each operator token is read as the operator it names, and different
/// tokens as different operators: `<` is less-than, `>` greater-than, `<=`
/// and `>=` their inclusive forms; `+ - * / %` are addition, subtraction,
/// multiplication, division and remainder; `==` and `!=` are equality and
/// inequality; `&&` and `||` conjunction and disjunction; a prefix `!` is
/// negation and a prefix `-` is the minus sign.
pub proof fn law_operator_tokens(k: TokenType)
    ensures
        is_comparison_kind(k) ==> {
            &&& (comparison_of(k) == ComparisonOperator::Less <==> k == TokenType::Less)
            &&& (comparison_of(k) == ComparisonOperator::Greater <==> k == TokenType::Greater)
            &&& (comparison_of(k) == ComparisonOperator::LessEqual <==> k == TokenType::LessEqual)
            &&& (comparison_of(k) == ComparisonOperator::GreaterEqual <==> k
                == TokenType::GreaterEqual)
        },
        is_term_kind(k) || is_factor_kind(k) || k == TokenType::Percent ==> {
            &&& (binary_of(k) == BinaryOperator::Add <==> k == TokenType::Plus)
            &&& (binary_of(k) == BinaryOperator::Subtract <==> k == TokenType::Minus)
            &&& (binary_of(k) == BinaryOperator::Multiply <==> k == TokenType::Star)
            &&& (binary_of(k) == BinaryOperator::Divide <==> k == TokenType::Slash)
            &&& (binary_of(k) == BinaryOperator::Mod <==> k == TokenType::Percent)
        },
        is_equality_kind(k) ==> {
            &&& (equality_of(k) == EqualityOperator::Equal <==> k == TokenType::EqualEqual)
            &&& (equality_of(k) == EqualityOperator::NotEqual <==> k == TokenType::BangEqual)
        },
        k == TokenType::And || k == TokenType::Or ==> {
            &&& (logical_of(k) == LogicalOperator::And <==> k == TokenType::And)
            &&& (logical_of(k) == LogicalOperator::Or <==> k == TokenType::Or)
        },
        is_unary_kind(k) ==> {
            &&& (unary_of(k) == UnaryOperator::Negate <==> k == TokenType::Bang)
            &&& (unary_of(k) == UnaryOperator::Minus <==> k == TokenType::Minus)
        },
{
}


} // verus!
