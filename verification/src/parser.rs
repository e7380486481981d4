//! The recursive-descent parser of the shape language.
use vstd::prelude::*;
use indexmap::IndexMap;
use rustc_hash::FxHashMap;

use crate::ast::{
    names_view, NumberV, ValueV, MaterialD, PatternD, SegmentD, ShapeD, Stmt, StmtV, VoxelD,
    BlocksDeclV, BodyDeclV,
    AssignmentOperator, BinaryOperator, ComparisonOperator, EqualityOperator, Expr, ExprV,
    Location, LogicalOperator, Number, UnaryOperator, Value,
};
use crate::error::{ParseError, ParseErrorV};
use crate::grammar::{
    component, lemma_before_eof, p_module, before_eof, lift, no_overrun, p_block, p_block_loop, p_blocks, p_body_decl,
    p_declaration, p_expression_statement, p_if, p_material, p_params, p_pattern, p_place,
    p_program, p_segment, p_shape, p_shape_params, p_statement, p_var_declaration, p_voxel,
    is_shape_id, Fail, error,
    advance, at_end, binary_of, check, check_next, comparison_of, compound, is_comparison_kind, is_equality_kind, is_factor_kind, is_term_kind, is_unary_kind, match_kind_if, in_group, Group,
    consume, equality_of, get_swizzle, logical_of, match_any,
    match_one, p_and, p_and_loop, p_arguments, p_assignment, p_call, p_call_loop,
    p_comparison, p_comparison_loop, p_equality, p_equality_loop, p_expression, p_factor,
    p_factor_loop, p_finish_call, p_or, p_or_loop, p_primary, p_read_vec, p_read_vec_loop,
    p_term, p_term_loop, p_ternary, p_ternary_loop, p_unary, p_vector, p_identifier, peek,
    rem, swizzle_valid, unary_of, assign_rest, PState, Src,
};
use crate::idverifier::IdVerifier;
use crate::module::{Module, ModuleV};
use crate::tables::{
    expr_table, expr_table_insert, expr_table_new, index_table, index_table_clone,
    index_table_insert, index_table_new, key_order, key_order_index_of, key_order_insert,
    key_order_new, stmt_table, stmt_table_insert, stmt_table_new,
};
use crate::text::{is_swizzle, is_swizzle_text, swizzle_bytes, swizzle_of};
use crate::token::{tokens_view, Token, TokenType, TokenV};

verus! {

/// The parser: reads tokens into statements.
pub struct Parser {
    tokens: Vec<Token>,
    current: usize,
    current_line: usize,
    path: String,
    verifier: IdVerifier,
    variable_counter: u32,
    variable_map: FxHashMap<String, u32>,
    materials: IndexMap<String, ()>,
    /// Set where a statement ran past the last token.
    overran: bool,
}

/// The error of a module whose tokens end where a statement needs another.
pub open spec fn end_error(c: Src, s: PState) -> ParseErrorV {
    error(c, "Unexpected end of tokens"@, s.line)
}

/// What went wrong: past the last token where the flag is set, else the error.
pub open spec fn fail_of(e: ParseError, overran: bool) -> Fail {
    if overran {
        Fail::Overrun
    } else {
        Fail::Error(e@)
    }
}

pub open spec fn stmt_outcome(r: Result<Stmt, ParseError>, overran: bool) -> Result<StmtV, Fail> {
    match r {
        Ok(st) => Ok(st.model()),
        Err(e) => Err(fail_of(e, overran)),
    }
}

pub open spec fn expr_result(r: Result<Expr, ParseError>) -> Result<ExprV, ParseErrorV> {
    match r {
        Ok(e) => Ok(e.model()),
        Err(e) => Err(e@),
    }
}

pub open spec fn token_result(r: Result<Token, ParseError>) -> Result<TokenV, ParseErrorV> {
    match r {
        Ok(t) => Ok(t@),
        Err(e) => Err(e@),
    }
}

pub open spec fn stmt_result(r: Result<Stmt, ParseError>) -> Result<StmtV, Fail> {
    match r {
        Ok(st) => Ok(st.model()),
        Err(e) => Err(Fail::Error(e@)),
    }
}

pub open spec fn exprs_result(r: Result<Vec<Expr>, ParseError>) -> Result<
    Seq<ExprV>,
    ParseErrorV,
> {
    match r {
        Ok(v) => Ok(v@.map_values(|e: Expr| e.model())),
        Err(e) => Err(e@),
    }
}

impl Parser {
    /// What the parser reads.
    pub closed spec fn src(&self) -> Src {
        Src { toks: tokens_view(self.tokens@), path: self.path@ }
    }

    /// The state of the parser.
    pub closed spec fn state(&self) -> PState {
        PState {
            pos: self.current as int,
            line: self.current_line as int,
            scopes: self.verifier@,
            vars: index_table(self.variable_map),
            counter: self.variable_counter as int,
            materials: key_order(self.materials),
        }
    }

    /// The declarations that the remaining tokens can hold still fit the
    /// variable counter.
    pub open spec fn wf(&self) -> bool {
        self.state().counter + rem(self.src(), self.state()) <= u32::MAX
    }

    /// The parser went forward on the same tokens.
    pub closed spec fn advanced(&self, next: &Parser) -> bool {
        &&& next.wf()
        &&& next.tokens == self.tokens
        &&& next.path == self.path
        &&& self.current <= next.current
    }

    /// The parser went forward on the same tokens, and did not run past them.
    pub closed spec fn step(&self, next: &Parser) -> bool {
        &&& self.advanced(next)
        &&& next.overran == self.overran
    }

    /// A step keeps the tokens and the path, leaves a valid parser, and never
    /// moves the cursor back.
    pub proof fn lemma_step(&self, next: &Parser)
        requires
            self.step(next),
        ensures
            next.wf(),
            next.src() == self.src(),
            self.state().pos <= next.state().pos,
    {
    }

    /// The cursor, the line and the variable counter are never negative, and
    /// the counter fits a `u32`.
    pub proof fn lemma_state_bounds(&self)
        ensures
            0 <= self.state().pos,
            0 <= self.state().line,
            0 <= self.state().counter <= u32::MAX,
    {
    }

    /// The number of variables declared so far, over all modules.
    pub fn variable_count(&self) -> (r: u32)
        ensures
            r == self.state().counter,
    {
        self.variable_counter
    }

    pub fn new() -> (r: Self)
        ensures
            r.wf(),
            r.src().toks.len() == 0,
            r.src().path.len() == 0,
            r.state() == (PState {
                pos: 0,
                line: 0,
                scopes: seq![Seq::<Seq<char>>::empty()],
                vars: Map::empty(),
                counter: 0,
                materials: Seq::empty(),
            }),
    {
        let r = Parser {
            tokens: Vec::new(),
            current: 0,
            current_line: 0,
            path: String::new(),
            verifier: IdVerifier::new(),
            variable_counter: 0,
            variable_map: index_table_new(),
            materials: key_order_new(),
            overran: false,
        };
        assert(r.state().vars == Map::<Seq<char>, u32>::empty());
        assert(r.src().toks =~= Seq::<TokenV>::empty());
        r
    }

    // -----------------------------------------------------------------------
    // Tokens

    // Checks if the current token matches the given kind.
    fn check(&self, kind: TokenType) -> (r: bool)
        requires
            self.wf(),
        ensures
            r == check(self.src(), self.state(), kind),
    {
        self.current < self.tokens.len() && self.tokens[self.current].kind == kind
    }

    // Checks if the next token matches the given kind.
    fn check_next(&self, kind: TokenType) -> (r: bool)
        requires
            self.wf(),
        ensures
            r == check_next(self.src(), self.state(), kind),
    {
        self.current < self.tokens.len() && self.tokens.len() - self.current > 1
            && self.tokens[self.current + 1].kind == kind
    }

    // Returns true if all tokens have been consumed.
    fn is_at_end(&self) -> (r: bool)
        requires
            self.wf(),
        ensures
            r == at_end(self.src(), self.state()),
    {
        self.current >= self.tokens.len()
    }

    // Advances to the next token and returns the previous token.
    fn advance(&mut self) -> (r: Option<Token>)
        requires
            old(self).wf(),
        ensures
            old(self).step(final(self)),
            final(self).state() == advance(old(self).src(), old(self).state()),
            0 < final(self).current <= final(self).tokens.len() ==> (r matches Some(t) && t@
                == old(self).src().toks[final(self).current - 1]),
    {
        assert(self.src().toks.len() == self.tokens.len());
        if !self.is_at_end() {
            self.current_line = self.tokens[self.current].line;
            self.current += 1;
        }
        if self.current > self.tokens.len() {
            return None;
        }
        self.previous()
    }

    // Returns the current token or an EOF token if at the end.
    fn peek(&self) -> (r: Token)
        requires
            self.wf(),
        ensures
            r@ == peek(self.src(), self.state()),
    {
        if self.is_at_end() {
            Token { kind: TokenType::Eof, lexeme: String::new(), line: 0 }
        } else {
            self.tokens[self.current].duplicate()
        }
    }

    // Returns the previous token if available.
    fn previous(&self) -> (r: Option<Token>)
        requires
            self.wf(),
            self.current <= self.tokens.len(),
        ensures
            self.current > 0 ==> (r matches Some(t) && t@ == self.src().toks[self.current - 1]),
            self.current == 0 ==> r is None,
    {
        if self.current > 0 {
            Some(self.tokens[self.current - 1].duplicate())
        } else {
            None
        }
    }

    // Advances if the next token matches any in the expected list, returns true if matched.
    fn match_token(&mut self, expected: Vec<TokenType>) -> (r: bool)
        requires
            old(self).wf(),
        ensures
            old(self).step(final(self)),
            (r, final(self).state()) == match_any(old(self).src(), old(self).state(), expected@),
    {
        let mut i: usize = 0;
        while i < expected.len()
            invariant
                self.wf(),
                self == old(self),
                i <= expected.len(),
                forall|j: int| 0 <= j < i ==> !check(self.src(), self.state(), expected@[j]),
            decreases expected.len() - i,
        {
            if self.check(expected[i]) {
                self.advance();
                return true;
            }
            i = i + 1;
        }
        assert(!(0 <= self.state().pos < self.src().toks.len() && expected@.contains(
            self.src().toks[self.state().pos].kind,
        )));
        false
    }

    /// Consumes the current token if it has the kind.
    fn match_kind(&mut self, kind: TokenType) -> (r: bool)
        requires
            old(self).wf(),
        ensures
            old(self).step(final(self)),
            (r, final(self).state()) == match_one(old(self).src(), old(self).state(), kind),
    {
        let v = vec![kind];
        assert(v@ == seq![kind]);
        assert(forall|k: TokenType| v@.contains(k) <==> k == kind) by {
            assert(v@[0] == kind);
        }
        self.match_token(v)
    }

    /// Consumes the current token if its kind is one of the group.
    fn match_group(&mut self, kinds: Vec<TokenType>, Ghost(g): Ghost<Group>) -> (r: bool)
        requires
            old(self).wf(),
            forall|k: TokenType| kinds@.contains(k) <==> in_group(g, k),
        ensures
            old(self).step(final(self)),
            (r, final(self).state()) == match_kind_if(old(self).src(), old(self).state(), g),
    {
        self.match_token(kinds)
    }

    // Advances and returns the matched token type if any in the expected list matches.
    fn _match_token_and_return(&mut self, expected: Vec<TokenType>) -> (r: Option<TokenType>)
        requires
            old(self).wf(),
        ensures
            old(self).step(final(self)),
            (r is Some, final(self).state()) == match_any(
                old(self).src(),
                old(self).state(),
                expected@,
            ),
            r matches Some(k) ==> k == old(self).src().toks[old(self).state().pos].kind,
    {
        let mut i: usize = 0;
        while i < expected.len()
            invariant
                self.wf(),
                self == old(self),
                i <= expected.len(),
                forall|j: int| 0 <= j < i ==> !check(self.src(), self.state(), expected@[j]),
            decreases expected.len() - i,
        {
            let kind = expected[i];
            if self.check(kind) {
                self.advance();
                return Some(kind);
            }
            i = i + 1;
        }
        assert(!(0 <= self.state().pos < self.src().toks.len() && expected@.contains(
            self.src().toks[self.state().pos].kind,
        )));
        None
    }

    // Returns the lexeme of the current token.
    fn _lexeme(&self) -> (r: String)
        requires
            self.wf(),
        ensures
            r@ == peek(self.src(), self.state()).lexeme,
    {
        if self.current < self.tokens.len() {
            self.tokens[self.current].lexeme.clone()
        } else {
            String::new()
        }
    }

    // Consumes the next token if it matches the expected kind, otherwise returns a parse error.
    fn consume(&mut self, kind: TokenType, message: &str, line: usize) -> (r: Result<
        Token,
        ParseError,
    >)
        requires
            old(self).wf(),
        ensures
            old(self).step(final(self)),
            (token_result(r), final(self).state()) == consume(
                old(self).src(),
                old(self).state(),
                kind,
                message@,
                line as int,
            ),
    {
        if self.check(kind) {
            let t = self.advance();
            Ok(t.unwrap())
        } else {
            Err(ParseError::new(String::from_str(message), line, &self.path))
        }
    }

    /// Create a location for the given line number.
    fn create_loc(&self, line: usize) -> (r: Location)
        ensures
            r@ == crate::grammar::loc(self.src(), line as int),
    {
        Location::new(self.path.clone(), line)
    }

    // -----------------------------------------------------------------------
    // Operators

    fn operator_to_unary(operator: TokenType) -> (r: UnaryOperator)
        requires
            is_unary_kind(operator),
        ensures
            r == unary_of(operator),
    {
        match operator {
            TokenType::Bang => UnaryOperator::Negate,
            _ => UnaryOperator::Minus,
        }
    }

    fn operator_to_binary(operator: TokenType) -> (r: BinaryOperator)
        requires
            is_term_kind(operator) || is_factor_kind(operator) || operator == TokenType::Percent,
        ensures
            r == binary_of(operator),
    {
        match operator {
            TokenType::Plus => BinaryOperator::Add,
            TokenType::Minus => BinaryOperator::Subtract,
            TokenType::Star => BinaryOperator::Multiply,
            TokenType::Slash => BinaryOperator::Divide,
            _ => BinaryOperator::Mod,
        }
    }

    fn operator_to_comparison(operator: TokenType) -> (r: ComparisonOperator)
        requires
            is_comparison_kind(operator),
        ensures
            r == comparison_of(operator),
    {
        match operator {
            TokenType::Greater => ComparisonOperator::Greater,
            TokenType::GreaterEqual => ComparisonOperator::GreaterEqual,
            TokenType::Less => ComparisonOperator::Less,
            _ => ComparisonOperator::LessEqual,
        }
    }

    fn operator_to_equality(operator: TokenType) -> (r: EqualityOperator)
        requires
            is_equality_kind(operator),
        ensures
            r == equality_of(operator),
    {
        match operator {
            TokenType::BangEqual => EqualityOperator::NotEqual,
            _ => EqualityOperator::Equal,
        }
    }

    fn operator_to_logical(operator: TokenType) -> (r: LogicalOperator)
        requires
            operator == TokenType::And || operator == TokenType::Or,
        ensures
            r == logical_of(operator),
    {
        match operator {
            TokenType::And => LogicalOperator::And,
            _ => LogicalOperator::Or,
        }
    }

    // -----------------------------------------------------------------------
    // Swizzles

    /// Returns the swizzle at the current token if any.
    pub fn get_swizzle_at_current(&mut self) -> (r: Vec<u8>)
        requires
            old(self).wf(),
        ensures
            old(self).step(final(self)),
            final(self).wf(),
            final(self).src() == old(self).src(),
            (r@, final(self).state()) == get_swizzle(old(self).src(), old(self).state()),
    {
        let mut swizzle: Vec<u8> = Vec::new();
        if self.current < self.tokens.len() && self.tokens.len() - self.current > 2
            && self.tokens[self.current].kind == TokenType::Dot
            && self.tokens[self.current + 1].kind == TokenType::Identifier && self.tokens[self.current
            + 2].kind != TokenType::Dot {
            let swizzle_token = self.tokens[self.current + 1].lexeme.as_str();
            if is_swizzle_text(swizzle_token) {
                swizzle = swizzle_bytes(swizzle_token);
                self.current += 2;
            }
        }
        assert(Seq::<u8>::empty() == swizzle_of(Seq::empty()));
        swizzle
    }

    /// Returns true if a swizzle is valid at the current token.
    /// Splits a name at its last dot when all that follows is a swizzle.
    pub fn _extract_swizzle<'a>(input: &'a str) -> (r: (&'a str, Vec<u8>))
        ensures
            (r.0@, r.1@) == crate::text::spec_extract_swizzle(input@),
    {
        let n = input.unicode_len();
        let mut i: usize = n;
        while i > 0
            invariant_except_break
                i <= n,
                n == input@.len(),
                forall|j: int| i <= j < n ==> input@[j] != '.',
            ensures
                i <= n,
                n == input@.len(),
                forall|j: int| i <= j < n ==> input@[j] != '.',
                i > 0 ==> input@[i - 1] == '.',
            decreases i,
        {
            if input.get_char(i - 1) == '.' {
                break;
            }
            i = i - 1;
        }
        proof {
            crate::text::lemma_last_index_of(input@, '.', i - 1);
        }
        if i > 0 {
            let swizzle = input.substring_char(i, n);
            assert(swizzle@ == input@.skip(i as int));
            if crate::text::is_swizzle_text(swizzle) {
                let base = input.substring_char(0, i - 1);
                assert(base@ == input@.take(i - 1));
                return (base, crate::text::swizzle_bytes(swizzle));
            }
        }
        (input, Vec::new())
    }

    pub fn is_swizzle_valid_at_current(&self) -> (r: bool)
        requires
            self.wf(),
        ensures
            r == swizzle_valid(self.src(), self.state()),
    {
        if self.current < self.tokens.len() && self.tokens.len() - self.current > 1
            && self.tokens[self.current].kind == TokenType::Dot
            && self.tokens[self.current + 1].kind == TokenType::Identifier {
            is_swizzle_text(self.tokens[self.current + 1].lexeme.as_str())
        } else {
            false
        }
    }

    // -----------------------------------------------------------------------
    // Expressions

    fn expression(&mut self) -> (r: Result<Expr, ParseError>)
        requires
            old(self).wf(),
        ensures
            old(self).step(final(self)),
            (expr_result(r), final(self).state()) == p_expression(
                old(self).src(),
                old(self).state(),
            ),
        decreases rem(self.src(), self.state()), 20nat,
    {
        self.assignment()
    }

    /// Consumes an operator of the kind directly followed by `=`.
    fn compound_assign(&mut self, kind: TokenType) -> (r: bool)
        requires
            old(self).wf(),
        ensures
            old(self).step(final(self)),
            (r, final(self).state()) == compound(old(self).src(), old(self).state(), kind),
            r ==> final(self).current > old(self).current,
    {
        if self.check(kind) {
            self.match_kind(kind);
            self.match_kind(TokenType::Equal)
        } else {
            false
        }
    }

    /// The rest of an assignment after its operator.
    fn assign_rest(&mut self, target: Expr, op: AssignmentOperator) -> (r: Result<
        Expr,
        ParseError,
    >)
        requires
            old(self).wf(),
            0 < old(self).current <= old(self).tokens.len(),
        ensures
            old(self).step(final(self)),
            (expr_result(r), final(self).state()) == assign_rest(
                old(self).src(),
                old(self).state(),
                target.model(),
                op,
            ),
        decreases rem(self.src(), self.state()), 21nat,
    {
        let equals = self.previous().unwrap();
        let value = self.assignment()?;
        match target {
            Expr::Variable(name, swizzle, field_path, _loc) => {
                Ok(
                    Expr::VariableAssignment(
                        name,
                        op,
                        swizzle,
                        field_path,
                        Box::new(value),
                        self.create_loc(equals.line),
                    ),
                )
            },
            _ => {
                let mut message = String::from_str("Invalid assignment target: '");
                let shown = crate::text::debug_string(equals.lexeme.as_str());
                message.append(shown.as_str());
                message.append("'");
                Err(ParseError::new(message, equals.line, &self.path))
            },
        }
    }

    #[verifier::spinoff_prover]
    #[verifier::rlimit(60)]
    fn assignment(&mut self) -> (r: Result<Expr, ParseError>)
        requires
            old(self).wf(),
        ensures
            old(self).step(final(self)),
            (expr_result(r), final(self).state()) == p_assignment(
                old(self).src(),
                old(self).state(),
            ),
        decreases rem(self.src(), self.state()), 19nat,
    {
        let expr = self.or()?;
        if self.compound_assign(TokenType::Plus) {
            self.assign_rest(expr, AssignmentOperator::AddAssign)
        } else if self.compound_assign(TokenType::Minus) {
            self.assign_rest(expr, AssignmentOperator::SubtractAssign)
        } else if self.compound_assign(TokenType::Star) {
            self.assign_rest(expr, AssignmentOperator::MultiplyAssign)
        } else if self.compound_assign(TokenType::Slash) {
            self.assign_rest(expr, AssignmentOperator::DivideAssign)
        } else if self.match_kind(TokenType::Equal) {
            self.assign_rest(expr, AssignmentOperator::Assign)
        } else {
            Ok(expr)
        }
    }

    #[verifier::spinoff_prover]
    #[verifier::rlimit(60)]
    fn or(&mut self) -> (r: Result<Expr, ParseError>)
        requires
            old(self).wf(),
        ensures
            old(self).step(final(self)),
            (expr_result(r), final(self).state()) == p_or(old(self).src(), old(self).state()),
        decreases rem(self.src(), self.state()), 18nat,
    {
        let ghost c = self.src();
        let ghost s0 = self.state();
        let mut expr = self.and()?;
        loop
            invariant
                old(self).step(self),
                self.src() == c,
                c == old(self).src(),
                s0 == old(self).state(),
                p_or_loop(c, self.state(), expr.model()) == p_or(c, s0),
            ensures
                old(self).step(self),
                (Ok::<ExprV, ParseErrorV>(expr.model()), self.state()) == p_or(c, s0),
            decreases rem(c, self.state()),
        {
            if !self.match_kind(TokenType::Or) {
                break;
            }
            let operator = self.previous().unwrap();
            let right = self.and()?;
            let op = Self::operator_to_logical(operator.kind);
                let l = self.create_loc(operator.line);
                expr = make_logical(expr, op, right, l);
        }
        Ok(expr)
    }

    #[verifier::spinoff_prover]
    #[verifier::rlimit(60)]
    fn and(&mut self) -> (r: Result<Expr, ParseError>)
        requires
            old(self).wf(),
        ensures
            old(self).step(final(self)),
            (expr_result(r), final(self).state()) == p_and(old(self).src(), old(self).state()),
        decreases rem(self.src(), self.state()), 16nat,
    {
        let ghost c = self.src();
        let ghost s0 = self.state();
        let mut expr = self.ternary()?;
        loop
            invariant
                old(self).step(self),
                self.src() == c,
                c == old(self).src(),
                s0 == old(self).state(),
                p_and_loop(c, self.state(), expr.model()) == p_and(c, s0),
            ensures
                old(self).step(self),
                (Ok::<ExprV, ParseErrorV>(expr.model()), self.state()) == p_and(c, s0),
            decreases rem(c, self.state()),
        {
            if !self.match_kind(TokenType::And) {
                break;
            }
            let operator = self.previous().unwrap();
            let right = self.equality()?;
            let op = Self::operator_to_logical(operator.kind);
                let l = self.create_loc(operator.line);
                expr = make_logical(expr, op, right, l);
        }
        Ok(expr)
    }

    #[verifier::spinoff_prover]
    #[verifier::rlimit(60)]
    fn ternary(&mut self) -> (r: Result<Expr, ParseError>)
        requires
            old(self).wf(),
        ensures
            old(self).step(final(self)),
            (expr_result(r), final(self).state()) == p_ternary(
                old(self).src(),
                old(self).state(),
            ),
        decreases rem(self.src(), self.state()), 14nat,
    {
        let ghost c = self.src();
        let ghost s0 = self.state();
        let mut expr = self.equality()?;
        let line = self.current_line;
        loop
            invariant
                old(self).step(self),
                self.src() == c,
                c == old(self).src(),
                s0 == old(self).state(),
                p_ternary_loop(c, self.state(), expr.model(), line as int) == p_ternary(c, s0),
            ensures
                old(self).step(self),
                (Ok::<ExprV, ParseErrorV>(expr.model()), self.state()) == p_ternary(c, s0),
            decreases rem(c, self.state()),
        {
            if !self.match_kind(TokenType::TernaryOperator) {
                break;
            }
            let then_branch = self.expression()?;
            self.consume(TokenType::Colon, "Expect ':' after condition for ternary", line)?;
            let else_branch = self.expression()?;
            expr = Expr::Ternary(
                Box::new(expr),
                Box::new(then_branch),
                Box::new(else_branch),
                self.create_loc(line),
            );
        }
        Ok(expr)
    }

    #[verifier::spinoff_prover]
    #[verifier::rlimit(60)]
    fn equality(&mut self) -> (r: Result<Expr, ParseError>)
        requires
            old(self).wf(),
        ensures
            old(self).step(final(self)),
            (expr_result(r), final(self).state()) == p_equality(
                old(self).src(),
                old(self).state(),
            ),
        decreases rem(self.src(), self.state()), 12nat,
    {
        let ghost c = self.src();
        let ghost s0 = self.state();
        let mut expr = self.comparison()?;
        loop
            invariant
                old(self).step(self),
                self.src() == c,
                c == old(self).src(),
                s0 == old(self).state(),
                p_equality_loop(c, self.state(), expr.model()) == p_equality(c, s0),
            ensures
                old(self).step(self),
                (Ok::<ExprV, ParseErrorV>(expr.model()), self.state()) == p_equality(c, s0),
            decreases rem(c, self.state()),
        {
            let kinds = vec![TokenType::BangEqual, TokenType::EqualEqual];
            proof {
                lemma_two_kinds(kinds@, TokenType::BangEqual, TokenType::EqualEqual);
            }
            if !self.match_group(kinds, Ghost(Group::Equality)) {
                break;
            }
            let operator = self.previous().unwrap();
            let right = self.comparison()?;
            let op = Self::operator_to_equality(operator.kind);
                let l = self.create_loc(operator.line);
                expr = make_equality(expr, op, right, l);
        }
        Ok(expr)
    }

    #[verifier::spinoff_prover]
    #[verifier::rlimit(60)]
    fn comparison(&mut self) -> (r: Result<Expr, ParseError>)
        requires
            old(self).wf(),
        ensures
            old(self).step(final(self)),
            (expr_result(r), final(self).state()) == p_comparison(
                old(self).src(),
                old(self).state(),
            ),
        decreases rem(self.src(), self.state()), 10nat,
    {
        let ghost c = self.src();
        let ghost s0 = self.state();
        let mut expr = self.term()?;
        loop
            invariant
                old(self).step(self),
                self.src() == c,
                c == old(self).src(),
                s0 == old(self).state(),
                p_comparison_loop(c, self.state(), expr.model()) == p_comparison(c, s0),
            ensures
                old(self).step(self),
                (Ok::<ExprV, ParseErrorV>(expr.model()), self.state()) == p_comparison(c, s0),
            decreases rem(c, self.state()),
        {
            let kinds = vec![
                TokenType::Greater,
                TokenType::GreaterEqual,
                TokenType::Less,
                TokenType::LessEqual,
            ];
            proof {
                lemma_four_kinds(
                    kinds@,
                    TokenType::Greater,
                    TokenType::GreaterEqual,
                    TokenType::Less,
                    TokenType::LessEqual,
                );
            }
            if !self.match_group(kinds, Ghost(Group::Comparison)) {
                break;
            }
            let operator = self.previous().unwrap();
            let right = self.term()?;
            let op = Self::operator_to_comparison(operator.kind);
                let l = self.create_loc(operator.line);
                expr = make_comparison(expr, op, right, l);
        }
        Ok(expr)
    }

    #[verifier::spinoff_prover]
    #[verifier::rlimit(60)]
    fn term(&mut self) -> (r: Result<Expr, ParseError>)
        requires
            old(self).wf(),
        ensures
            old(self).step(final(self)),
            (expr_result(r), final(self).state()) == p_term(old(self).src(), old(self).state()),
        decreases rem(self.src(), self.state()), 8nat,
    {
        let ghost c = self.src();
        let ghost s0 = self.state();
        let mut expr = self.factor()?;
        if (self.check(TokenType::Minus) || self.check(TokenType::Plus)) && !self.check_next(
            TokenType::Equal,
        ) {
            loop
                invariant
                    old(self).step(self),
                    self.src() == c,
                    c == old(self).src(),
                    s0 == old(self).state(),
                    p_term_loop(c, self.state(), expr.model()) == p_term(c, s0),
                ensures
                    old(self).step(self),
                    (Ok::<ExprV, ParseErrorV>(expr.model()), self.state()) == p_term(c, s0),
                decreases rem(c, self.state()),
            {
                let kinds = vec![TokenType::Minus, TokenType::Plus];
                proof {
                    lemma_two_kinds(kinds@, TokenType::Minus, TokenType::Plus);
                }
                if !self.match_group(kinds, Ghost(Group::Term)) {
                    break;
                }
                let operator = self.previous().unwrap();
                let right = self.factor()?;
                let op = Self::operator_to_binary(operator.kind);
                let l = self.create_loc(operator.line);
                expr = make_binary(expr, op, right, l);
            }
        }
        Ok(expr)
    }

    #[verifier::spinoff_prover]
    #[verifier::rlimit(60)]
    fn factor(&mut self) -> (r: Result<Expr, ParseError>)
        requires
            old(self).wf(),
        ensures
            old(self).step(final(self)),
            (expr_result(r), final(self).state()) == p_factor(
                old(self).src(),
                old(self).state(),
            ),
        decreases rem(self.src(), self.state()), 6nat,
    {
        let ghost c = self.src();
        let ghost s0 = self.state();
        let mut expr = self.unary()?;
        if (self.check(TokenType::Slash) || self.check(TokenType::Star)) && !self.check_next(
            TokenType::Equal,
        ) {
            loop
                invariant
                    old(self).step(self),
                    self.src() == c,
                    c == old(self).src(),
                    s0 == old(self).state(),
                    p_factor_loop(c, self.state(), expr.model()) == p_factor(c, s0),
                ensures
                    old(self).step(self),
                    (Ok::<ExprV, ParseErrorV>(expr.model()), self.state()) == p_factor(c, s0),
                decreases rem(c, self.state()),
            {
                let kinds = vec![TokenType::Slash, TokenType::Star];
                proof {
                    lemma_two_kinds(kinds@, TokenType::Slash, TokenType::Star);
                }
                if !self.match_group(kinds, Ghost(Group::Factor)) {
                    break;
                }
                let operator = self.previous().unwrap();
                let right = self.unary()?;
                let op = Self::operator_to_binary(operator.kind);
                let l = self.create_loc(operator.line);
                expr = make_binary(expr, op, right, l);
            }
        }
        Ok(expr)
    }

    #[verifier::spinoff_prover]
    #[verifier::rlimit(60)]
    fn unary(&mut self) -> (r: Result<Expr, ParseError>)
        requires
            old(self).wf(),
        ensures
            old(self).step(final(self)),
            (expr_result(r), final(self).state()) == p_unary(old(self).src(), old(self).state()),
        decreases rem(self.src(), self.state()), 4nat,
    {
        let kinds = vec![TokenType::Bang, TokenType::Minus];
        proof {
            lemma_two_kinds(kinds@, TokenType::Bang, TokenType::Minus);
        }
        if self.match_group(kinds, Ghost(Group::Unary)) {
            let operator = self.previous().unwrap();
            let right = self.unary()?;
            return Ok(
                Expr::Unary(
                    Self::operator_to_unary(operator.kind),
                    Box::new(right),
                    self.create_loc(operator.line),
                ),
            );
        }
        self.call()
    }

    #[verifier::spinoff_prover]
    #[verifier::rlimit(60)]
    fn call(&mut self) -> (r: Result<Expr, ParseError>)
        requires
            old(self).wf(),
        ensures
            old(self).step(final(self)),
            (expr_result(r), final(self).state()) == p_call(old(self).src(), old(self).state()),
        decreases rem(self.src(), self.state()), 3nat,
    {
        let ghost c = self.src();
        let ghost s0 = self.state();
        let mut expr = self.primary()?;
        loop
            invariant
                old(self).step(self),
                self.src() == c,
                c == old(self).src(),
                s0 == old(self).state(),
                p_call_loop(c, self.state(), expr.model()) == p_call(c, s0),
            ensures
                old(self).step(self),
                (Ok::<ExprV, ParseErrorV>(expr.model()), self.state()) == p_call(c, s0),
            decreases rem(c, self.state()),
        {
            if !self.match_kind(TokenType::LeftParen) {
                break;
            }
            expr = self.finish_call(expr)?;
        }
        Ok(expr)
    }

    /// The arguments of a call, up to the closing parenthesis.
    #[verifier::spinoff_prover]
    #[verifier::rlimit(60)]
    fn arguments(&mut self, line: usize) -> (r: Result<Vec<Box<Expr>>, ParseError>)
        requires
            old(self).wf(),
        ensures
            old(self).step(final(self)),
            (match r {
                Ok(v) => Ok(Expr::models(v@)),
                Err(e) => Err(e@),
            }, final(self).state()) == p_arguments(
                old(self).src(),
                old(self).state(),
                Seq::empty(),
                line as int,
            ),
        decreases rem(self.src(), self.state()), 22nat,
    {
        let ghost c = self.src();
        let ghost s0 = self.state();
        let mut arguments: Vec<Box<Expr>> = Vec::new();
        loop
            invariant_except_break
                p_arguments(c, self.state(), Expr::models(arguments@), line as int)
                    == p_arguments(c, s0, Seq::empty(), line as int),
            invariant
                old(self).step(self),
                self.src() == c,
                c == old(self).src(),
                s0 == old(self).state(),
            ensures
                old(self).step(self),
                (Ok::<Seq<ExprV>, ParseErrorV>(Expr::models(arguments@)), self.state())
                    == p_arguments(c, s0, Seq::empty(), line as int),
            decreases rem(c, self.state()),
        {
            proof {
                Expr::lemma_models_len(arguments@);
            }
            if arguments.len() >= 255 {
                return Err(
                    ParseError::new(
                        String::from_str("Cannot have more than 255 arguments"),
                        line,
                        &self.path,
                    ),
                );
            }
            let e = Box::new(self.expression()?);
            proof {
                Expr::lemma_models_push(arguments@, e);
            }
            arguments.push(e);
            if !self.match_kind(TokenType::Comma) {
                break;
            }
        }
        Ok(arguments)
    }

    #[verifier::spinoff_prover]
    #[verifier::rlimit(60)]
    fn finish_call(&mut self, callee: Expr) -> (r: Result<Expr, ParseError>)
        requires
            old(self).wf(),
        ensures
            old(self).step(final(self)),
            (expr_result(r), final(self).state()) == p_finish_call(
                old(self).src(),
                old(self).state(),
                callee.model(),
            ),
        decreases rem(self.src(), self.state()), 23nat,
    {
        let ghost c = self.src();
        let ghost s0 = self.state();
        let line = self.current_line;
        let arguments = if !self.check(TokenType::RightParen) {
            match self.arguments(line) {
                Ok(a) => a,
                Err(e) => {
                    return Err(e);
                },
            }
        } else {
            let a: Vec<Box<Expr>> = Vec::new();
            assert(Expr::models(a@) == Seq::<ExprV>::empty());
            a
        };
        let ghost s1 = self.state();
        let ghost args = Expr::models(arguments@);
        assert((Ok::<Seq<ExprV>, ParseErrorV>(args), s1) == (if !check(c, s0, TokenType::RightParen) {
            p_arguments(c, s0, Seq::empty(), line as int)
        } else {
            (Ok(Seq::empty()), s0)
        }));
        match self.consume(TokenType::RightParen, "Expect ')' after function arguments", line) {
            Ok(paren) => {
                let l = self.create_loc(paren.line);
                Ok(make_call(callee, arguments, l))
            },
            Err(e) => Err(e),
        }
    }

    /// The zero literal that stands for a missing vector component.
    fn zero_component() -> (r: Box<Expr>)
        ensures
            r.model() == crate::grammar::zero_expr(),
    {
        let sw: Vec<u8> = Vec::new();
        let fp: Vec<String> = Vec::new();
        let l = Location::empty();
        assert(names_view(fp@) =~= Seq::<Seq<char>>::empty());
        let v = Value::Float(Number::Int(0));
        assert(v.model() == ValueV::Float(NumberV::Int(0)));
        let r = Box::new(Expr::Value(v, sw, fp, l));
        assert(r.model() == ExprV::Value(ValueV::Float(NumberV::Int(0)), sw@, names_view(fp@), l@));
        r
    }

    /// Takes the first of the components, or the zero literal if none is left.
    fn take_component(comps: &mut Vec<Expr>) -> (r: Box<Expr>)
        ensures
            old(comps)@.len() > 0 ==> r.model() == old(comps)@[0].model() && final(comps)@
                == old(comps)@.drop_first(),
            old(comps)@.len() == 0 ==> r.model() == crate::grammar::zero_expr() && final(comps)@
                == old(comps)@,
    {
        if comps.len() > 0 {
            Box::new(comps.remove(0))
        } else {
            Self::zero_component()
        }
    }

    /// Reads the components of a vector up to `max_comps` components. Can terminate early if closing parenthesis is found.
    /// Check for component validity is done in the compiler.
    #[verifier::spinoff_prover]
    #[verifier::rlimit(60)]
    fn read_vec_components(&mut self, max_comps: usize, line: usize) -> (r: Result<
        Vec<Expr>,
        ParseError,
    >)
        requires
            old(self).wf(),
        ensures
            old(self).step(final(self)),
            (exprs_result(r), final(self).state()) == p_read_vec(
                old(self).src(),
                old(self).state(),
                max_comps as int,
                line as int,
            ),
        decreases rem(self.src(), self.state()), 23nat,
    {
        let ghost c = self.src();
        let mut components: Vec<Expr> = Vec::new();
        let mut count: usize = 0;
        if self.match_kind(TokenType::RightParen) {
            assert(components@.map_values(|e: Expr| e.model()) =~= Seq::<ExprV>::empty());
            return Ok(components);
        }
        let ghost s1 = self.state();
        assert(components@.map_values(|e: Expr| e.model()) =~= Seq::<ExprV>::empty());
        loop
            invariant_except_break
                p_read_vec_loop(
                    c,
                    self.state(),
                    components@.map_values(|e: Expr| e.model()),
                    max_comps as int,
                    line as int,
                ) == p_read_vec(c, old(self).state(), max_comps as int, line as int),
            invariant
                old(self).step(self),
                self.src() == c,
                c == old(self).src(),
                count == components.len(),
            ensures
                old(self).step(self),
                (Ok::<Seq<ExprV>, ParseErrorV>(components@.map_values(|e: Expr| e.model())), self.state())
                    == p_read_vec(c, old(self).state(), max_comps as int, line as int),
            decreases rem(c, self.state()),
        {
            if count >= max_comps {
                break;
            }
            let expr = self.expression()?;
            let ghost before = components@;
            components.push(expr);
            assert(components@.map_values(|e: Expr| e.model()) =~= before.map_values(
                |e: Expr| e.model(),
            ).push(components@.last().model()));
            count += 1;
            if !self.match_kind(TokenType::Comma) {
                if !self.match_kind(TokenType::RightParen) {
                    return Err(
                        ParseError::new(
                            String::from_str("Expected ')' after vector components"),
                            line,
                            &self.path,
                        ),
                    );
                }
                break;
            }
        }
        Ok(components)
    }

    /// The value of a vector with the components; missing ones are zero.
    fn vector_value(comps: Vec<Expr>, n: usize) -> (r: Value)
        requires
            n == 2 || n == 3,
        ensures
            ({
                let cm = comps@.map_values(|e: Expr| e.model());
                r.model() == if n == 2 {
                    ValueV::Float2(component(cm, 0), component(cm, 1))
                } else {
                    ValueV::Float3(component(cm, 0), component(cm, 1), component(cm, 2))
                }
            }),
    {
        let mut comps = comps;
        let ghost c0 = comps@;
        let x = Self::take_component(&mut comps);
        let ghost c1 = comps@;
        let y = Self::take_component(&mut comps);
        let ghost c2 = comps@;
        if n == 2 {
            Value::Float2(x, y)
        } else {
            let z = Self::take_component(&mut comps);
            assert(c0.len() > 1 ==> c1[0] == c0[1]);
            assert(c0.len() > 2 ==> c2[0] == c0[2]);
            Value::Float3(x, y, z)
        }
    }

    /// A `vec2(..)` or `vec3(..)` value, after its keyword.
    #[verifier::spinoff_prover]
    #[verifier::rlimit(60)]
    fn vector(&mut self, token: &Token, n: usize) -> (r: Result<Expr, ParseError>)
        requires
            old(self).wf(),
            n == 2 || n == 3,
        ensures
            old(self).step(final(self)),
            (expr_result(r), final(self).state()) == p_vector(
                old(self).src(),
                old(self).state(),
                token@,
                n as int,
            ),
        decreases rem(self.src(), self.state()), 24nat,
    {
        if self.match_kind(TokenType::LeftParen) {
            let comps = self.read_vec_components(n, token.line)?;
            let swizzle: Vec<u8> = self.get_swizzle_at_current();
            let value = Self::vector_value(comps, n);
            let l = self.create_loc(token.line);
            Ok(make_value(value, swizzle, l))
        } else {
            let message = if n == 2 {
                String::from_str("Expected '(' after vec2")
            } else {
                String::from_str("Expected '(' after vec3")
            };
            Err(ParseError::new(message, token.line, &self.path))
        }
    }

    /// An identifier, after its token.
    fn identifier(&mut self, token: &Token) -> (r: Result<Expr, ParseError>)
        requires
            old(self).wf(),
        ensures
            old(self).step(final(self)),
            (expr_result(r), final(self).state()) == p_identifier(
                old(self).src(),
                old(self).state(),
                token@,
            ),
    {
        let mut swizzle: Vec<u8> = Vec::new();
        let field_path: Vec<String> = Vec::new();
        if self.check(TokenType::Dot) {
            if self.is_swizzle_valid_at_current() {
                swizzle = self.get_swizzle_at_current();
            }
        }
        assert(names_view(field_path@) =~= Seq::<Seq<char>>::empty());
        if is_builtin_name(&token.lexeme) {
            Ok(
                Expr::Variable(
                    token.lexeme.clone(),
                    swizzle,
                    field_path,
                    self.create_loc(token.line),
                ),
            )
        } else if key_order_index_of(&self.materials, token.lexeme.as_str()).is_some() {
            Ok(Expr::MaterialReference(token.lexeme.clone(), self.create_loc(token.line)))
        } else if self.verifier.get_var_name(&token.lexeme).is_some() {
            Ok(
                Expr::Variable(
                    token.lexeme.clone(),
                    swizzle,
                    field_path,
                    self.create_loc(token.line),
                ),
            )
        } else {
            let mut message = String::from_str("Unknown identifier '");
            message.append(token.lexeme.as_str());
            message.append("'");
            Err(ParseError::new(message, token.line, &self.path))
        }
    }

    #[verifier::spinoff_prover]
    #[verifier::rlimit(60)]
    fn primary(&mut self) -> (r: Result<Expr, ParseError>)
        requires
            old(self).wf(),
        ensures
            old(self).step(final(self)),
            (expr_result(r), final(self).state()) == p_primary(
                old(self).src(),
                old(self).state(),
            ),
        decreases rem(self.src(), self.state()), 1nat,
    {
        let token = self.peek();
        assert(names_view(Seq::<String>::empty()) =~= Seq::<Seq<char>>::empty());
        match token.kind {
            TokenType::False => {
                self.advance();
                Ok(
                    make_value(Value::Boolean(false), Vec::new(), self.create_loc(token.line)),
                )
            },
            TokenType::True => {
                self.advance();
                Ok(
                    make_value(Value::Boolean(true), Vec::new(), self.create_loc(token.line)),
                )
            },
            TokenType::Void => {
                self.advance();
                Ok(make_value(Value::Void, Vec::new(), self.create_loc(token.line)))
            },
            TokenType::Semicolon => Ok(
                make_value(Value::Void, Vec::new(), self.create_loc(token.line)),
            ),
            TokenType::IntegerNumber => {
                self.advance();
                match crate::text::parse_i32(token.lexeme.as_str()) {
                    Some(number) => Ok(
                        make_value(Value::Float(Number::Int(number)), Vec::new(), self.create_loc(token.line)),
                    ),
                    None => Err(
                        ParseError::new(
                            String::from_str("Invalid integer number"),
                            token.line,
                            &self.path,
                        ),
                    ),
                }
            },
            TokenType::FloatNumber => {
                self.advance();
                if crate::text::is_float_literal(token.lexeme.as_str()) {
                    Ok(
                        make_value(Value::Float(Number::Decimal(token.lexeme.clone())), Vec::new(), self.create_loc(token.line)),
                    )
                } else {
                    Err(
                        ParseError::new(
                            String::from_str("Invalid float number"),
                            token.line,
                            &self.path,
                        ),
                    )
                }
            },
            TokenType::Float2 => {
                self.advance();
                self.vector(&token, 2)
            },
            TokenType::Float3 => {
                self.advance();
                self.vector(&token, 3)
            },
            TokenType::LeftParen => {
                self.advance();
                let expr = self.expression()?;
                if self.match_kind(TokenType::RightParen) {
                    Ok(Expr::Grouping(Box::new(expr), self.create_loc(token.line)))
                } else {
                    Err(
                        ParseError::new(
                            String::from_str("Expected ')' after expression"),
                            token.line,
                            &self.path,
                        ),
                    )
                }
            },
            TokenType::Identifier => {
                self.advance();
                self.identifier(&token)
            },
            _ => {
                let mut message = String::from_str("Unknown identifier '");
                message.append(token.lexeme.as_str());
                message.append("'");
                Err(ParseError::new(message, token.line, &self.path))
            },
        }
    }

    // -----------------------------------------------------------------------
    // Statements

    /// Parameters `name = expression`, as long as an identifier follows.
    fn params(&mut self, message: &str) -> (r: Result<FxHashMap<String, Box<Expr>>, ParseError>)
        requires
            old(self).wf(),
        ensures
            old(self).step(final(self)),
            (match r {
                Ok(m) => Ok(expr_table(m)),
                Err(e) => Err(e@),
            }, final(self).state()) == p_params(
                old(self).src(),
                old(self).state(),
                Map::empty(),
                message@,
            ),
    {
        let ghost c = self.src();
        let ghost s0 = self.state();
        let mut params = expr_table_new();
        assert(expr_table(params) == Map::<Seq<char>, ExprV>::empty());
        loop
            invariant
                old(self).step(self),
                self.src() == c,
                c == old(self).src(),
                s0 == old(self).state(),
                p_params(c, self.state(), expr_table(params), message@) == p_params(
                    c,
                    s0,
                    Map::empty(),
                    message@,
                ),
            ensures
                old(self).step(self),
                (Ok::<Map<Seq<char>, ExprV>, ParseErrorV>(expr_table(params)), self.state())
                    == p_params(c, s0, Map::empty(), message@),
            decreases rem(c, self.state()),
        {
            if !self.match_kind(TokenType::Identifier) {
                break;
            }
            let id = self.previous().unwrap().lexeme;
            let line = self.current_line;
            self.consume(TokenType::Equal, message, line)?;
            let value = self.expression()?;
            expr_table_insert(&mut params, id, Box::new(value));
        }
        Ok(params)
    }

    /// The parameters of a shape, which commas may separate.
    fn shape_params(&mut self) -> (r: Result<FxHashMap<String, Box<Expr>>, ParseError>)
        requires
            old(self).wf(),
            !old(self).overran,
        ensures
            old(self).advanced(final(self)),
            final(self).overran ==> (r matches Err(e) && e@ == end_error(
                old(self).src(),
                final(self).state(),
            )),
            (match r {
                Ok(m) => Ok(expr_table(m)),
                Err(e) => Err(fail_of(e, final(self).overran)),
            }, final(self).state()) == p_shape_params(
                old(self).src(),
                old(self).state(),
                Map::empty(),
            ),
    {
        let ghost c = self.src();
        let ghost s0 = self.state();
        let mut params = expr_table_new();
        assert(expr_table(params) == Map::<Seq<char>, ExprV>::empty());
        loop
            invariant
                old(self).step(self),
                !self.overran,
                self.src() == c,
                c == old(self).src(),
                s0 == old(self).state(),
                p_shape_params(c, self.state(), expr_table(params)) == p_shape_params(
                    c,
                    s0,
                    Map::empty(),
                ),
            ensures
                old(self).step(self),
                (Ok::<Map<Seq<char>, ExprV>, Fail>(expr_table(params)), self.state())
                    == p_shape_params(c, s0, Map::empty()),
            decreases rem(c, self.state()),
        {
            if !self.match_kind(TokenType::Identifier) {
                break;
            }
            let id = self.previous().unwrap().lexeme;
            let line = self.current_line;
            self.consume(TokenType::Equal, "Expected '=' after voxel identifier", line)?;
            let value = self.expression()?;
            expr_table_insert(&mut params, id, Box::new(value));
            assert(self.src().toks.len() == self.tokens.len());
            if self.current >= self.tokens.len() {
                self.overran = true;
                let line = self.current_line;
                return Err(
                    ParseError::new(String::from_str("Unexpected end of tokens"), line, &self.path),
                );
            }
            if self.tokens[self.current].kind == TokenType::Comma {
                self.advance();
            }
        }
        Ok(params)
    }

    /// Named blocks `name { .. }`, as long as an identifier follows.
    fn blocks(&mut self) -> (r: Result<FxHashMap<String, Box<Stmt>>, ParseError>)
        requires
            old(self).wf(),
            !old(self).overran,
        ensures
            old(self).advanced(final(self)),
            final(self).overran ==> (r matches Err(e) && e@ == end_error(
                old(self).src(),
                final(self).state(),
            )),
            (match r {
                Ok(m) => Ok(stmt_table(m)),
                Err(e) => Err(fail_of(e, final(self).overran)),
            }, final(self).state()) == p_blocks(old(self).src(), old(self).state(), Map::empty()),
        decreases rem(self.src(), self.state()), 37nat,
    {
        let ghost c = self.src();
        let ghost s0 = self.state();
        let mut blocks = stmt_table_new();
        assert(stmt_table(blocks) == Map::<Seq<char>, StmtV>::empty());
        loop
            invariant
                old(self).step(self),
                !self.overran,
                self.src() == c,
                c == old(self).src(),
                s0 == old(self).state(),
                p_blocks(c, self.state(), stmt_table(blocks)) == p_blocks(c, s0, Map::empty()),
            ensures
                old(self).step(self),
                (Ok::<Map<Seq<char>, StmtV>, Fail>(stmt_table(blocks)), self.state())
                    == p_blocks(c, s0, Map::empty()),
            decreases rem(c, self.state()),
        {
            if !self.match_kind(TokenType::Identifier) {
                break;
            }
            let id = self.previous().unwrap().lexeme;
            let line = self.current_line;
            self.consume(TokenType::LeftBrace, "Expected '{' after pattern identifier", line)?;
            let block = self.block()?;
            stmt_table_insert(&mut blocks, id, Box::new(block));
        }
        Ok(blocks)
    }

    #[verifier::spinoff_prover]
    #[verifier::rlimit(60)]
    fn block(&mut self) -> (r: Result<Stmt, ParseError>)
        requires
            old(self).wf(),
            !old(self).overran,
        ensures
            old(self).advanced(final(self)),
            final(self).overran ==> (r matches Err(e) && e@ == end_error(
                old(self).src(),
                final(self).state(),
            )),
            (stmt_outcome(r, final(self).overran), final(self).state()) == p_block(old(self).src(), old(self).state()),
        decreases rem(self.src(), self.state()), 40nat,
    {
        let ghost c = self.src();
        let ghost s0 = self.state();
        let mut statements: Vec<Box<Stmt>> = Vec::new();
        self.verifier.begin_scope();
        assert(Stmt::models(statements@) == Seq::<StmtV>::empty());
        loop
            invariant
                old(self).step(self),
                !self.overran,
                self.src() == c,
                c == old(self).src(),
                s0 == old(self).state(),
                p_block_loop(c, self.state(), Stmt::models(statements@)) == p_block(c, s0),
            ensures
                old(self).step(self),
                check(c, self.state(), TokenType::RightBrace) || at_end(c, self.state()),
                p_block_loop(c, self.state(), Stmt::models(statements@)) == p_block(c, s0),
            decreases rem(c, self.state()),
        {
            if self.check(TokenType::RightBrace) || self.is_at_end() {
                break;
            }
            let stmt = self.declaration()?;
            let stmt = Box::new(stmt);
            proof {
                Stmt::lemma_models_push(statements@, stmt);
            }
            statements.push(stmt);
        }
        self.verifier.end_scope();
        let line = self.current_line;
        self.consume(TokenType::RightBrace, "Expect '}}' after block", line)?;
        let l = self.create_loc(line);
        Ok(make_block(statements, l))
    }

    #[verifier::spinoff_prover]
    #[verifier::rlimit(60)]
    fn declaration(&mut self) -> (r: Result<Stmt, ParseError>)
        requires
            old(self).wf(),
            !old(self).overran,
        ensures
            old(self).advanced(final(self)),
            final(self).overran ==> (r matches Err(e) && e@ == end_error(
                old(self).src(),
                final(self).state(),
            )),
            (stmt_outcome(r, final(self).overran), final(self).state()) == p_declaration(
                old(self).src(),
                old(self).state(),
            ),
            r is Ok ==> old(self).current < final(self).current,
        decreases rem(self.src(), self.state()), 38nat,
    {
        if self.match_kind(TokenType::Material) {
            return self.material_declaration();
        }
        if self.match_kind(TokenType::Voxel) {
            return self.voxel_declaration();
        }
        if self.match_kind(TokenType::Shape) {
            return self.shape_declaration();
        }
        if self.match_kind(TokenType::Segment) {
            return self.segment_declaration();
        }
        if self.match_kind(TokenType::Place) {
            return self.place_declaration();
        }
        if self.match_kind(TokenType::Let) {
            return self.var_declaration();
        }
        self.statement()
    }

    #[verifier::spinoff_prover]
    #[verifier::rlimit(60)]
    fn var_declaration(&mut self) -> (r: Result<Stmt, ParseError>)
        requires
            old(self).wf(),
        ensures
            old(self).step(final(self)),
            (stmt_result(r), final(self).state()) == p_var_declaration(
                old(self).src(),
                old(self).state(),
            ),
            r is Ok ==> old(self).current < final(self).current,
        decreases rem(self.src(), self.state()), 37nat,
    {
        let line = self.current_line;
        let var_name = self.consume(TokenType::Identifier, "Expect variable name", line)?.lexeme;
        self.verifier.define_var(&var_name);
        index_table_insert(&mut self.variable_map, var_name.clone(), self.variable_counter);
        self.variable_counter += 1;
        let mut initializer = None;
        if self.match_kind(TokenType::Equal) {
            initializer = Some(self.expression()?);
        }
        let init = if let Some(i) = initializer {
            Box::new(i)
        } else {
            return Err(
                ParseError::new(
                    String::from_str("Variable declaration cannot be empty"),
                    line,
                    &self.path,
                ),
            );
        };
        let l = self.create_loc(line);
        Ok(Stmt::VarDeclaration(var_name, Value::Void, init, l))
    }

    /// Material declaration
    #[verifier::spinoff_prover]
    #[verifier::rlimit(60)]
    fn material_declaration(&mut self) -> (r: Result<Stmt, ParseError>)
        requires
            old(self).wf(),
            !old(self).overran,
        ensures
            old(self).advanced(final(self)),
            final(self).overran ==> (r matches Err(e) && e@ == end_error(
                old(self).src(),
                final(self).state(),
            )),
            (stmt_outcome(r, final(self).overran), final(self).state()) == p_material(
                old(self).src(),
                old(self).state(),
            ),
            r is Ok ==> old(self).current < final(self).current,
        decreases rem(self.src(), self.state()), 37nat,
    {
        let line = self.current_line;
        let l0 = self.current_line;
        self.consume(TokenType::Identifier, "Expected identifier after 'material''", l0)?;
        let id = self.previous().unwrap().lexeme;
        let params = self.params("Expected '=' after voxel identifier")?;
        let l1 = self.current_line;
        self.consume(TokenType::LeftBrace, "Expected '{' after material header", l1)?;
        let blocks = self.blocks()?;
        let l2 = self.current_line;
        self.consume(TokenType::RightBrace, "Expected '}' after pattern block", l2)?;
        key_order_insert(&mut self.materials, id.clone());
        let l = self.create_loc(line);
        Ok(Stmt::Material(MaterialD { name: id, params, blocks }, l))
    }

    /// The header and block of a voxel or a segment declaration, after the keyword.
    #[verifier::spinoff_prover]
    #[verifier::rlimit(60)]
    fn body_declaration(
        &mut self,
        id_message: &str,
        param_message: &str,
        brace_message: &str,
    ) -> (r: Result<(String, FxHashMap<String, Box<Expr>>, Box<Stmt>), ParseError>)
        requires
            old(self).wf(),
            !old(self).overran,
        ensures
            old(self).advanced(final(self)),
            final(self).overran ==> (r matches Err(e) && e@ == end_error(
                old(self).src(),
                final(self).state(),
            )),
            (match r {
                Ok((n, p, b)) => Ok(
                    BodyDeclV { name: n@, params: expr_table(p), block: Some(b.model()) },
                ),
                Err(e) => Err(fail_of(e, final(self).overran)),
            }, final(self).state()) == p_body_decl(
                old(self).src(),
                old(self).state(),
                id_message@,
                param_message@,
                brace_message@,
            ),
            r is Ok ==> old(self).current < final(self).current,
        decreases rem(self.src(), self.state()), 37nat,
    {
        let l0 = self.current_line;
        self.consume(TokenType::Identifier, id_message, l0)?;
        let id = self.previous().unwrap().lexeme;
        let params = self.params(param_message)?;
        let l1 = self.current_line;
        self.consume(TokenType::LeftBrace, brace_message, l1)?;
        let block = self.block()?;
        Ok((id, params, Box::new(block)))
    }

    /// Voxel declaration
    fn voxel_declaration(&mut self) -> (r: Result<Stmt, ParseError>)
        requires
            old(self).wf(),
            !old(self).overran,
        ensures
            old(self).advanced(final(self)),
            final(self).overran ==> (r matches Err(e) && e@ == end_error(
                old(self).src(),
                final(self).state(),
            )),
            (stmt_outcome(r, final(self).overran), final(self).state()) == p_voxel(old(self).src(), old(self).state()),
            r is Ok ==> old(self).current < final(self).current,
        decreases rem(self.src(), self.state()), 38nat,
    {
        let line = self.current_line;
        let (id, params, block) = self.body_declaration(
            "Expected identifier after 'voxel''",
            "Expected '=' after voxel identifier",
            "Expected '{' after voxel header",
        )?;
        let l = self.create_loc(line);
        Ok(Stmt::Voxel(VoxelD { name: id, params, block: Some(block) }, l))
    }

    /// Segment declaration
    fn segment_declaration(&mut self) -> (r: Result<Stmt, ParseError>)
        requires
            old(self).wf(),
            !old(self).overran,
        ensures
            old(self).advanced(final(self)),
            final(self).overran ==> (r matches Err(e) && e@ == end_error(
                old(self).src(),
                final(self).state(),
            )),
            (stmt_outcome(r, final(self).overran), final(self).state()) == p_segment(
                old(self).src(),
                old(self).state(),
            ),
            r is Ok ==> old(self).current < final(self).current,
        decreases rem(self.src(), self.state()), 38nat,
    {
        let line = self.current_line;
        let (id, params, block) = self.body_declaration(
            "Expected identifier after 'segment''",
            "Expected '=' after voxel identifier",
            "Expected '{' after segment header",
        )?;
        let l = self.create_loc(line);
        Ok(Stmt::Segment(SegmentD { name: id, params, block: Some(block) }, l))
    }

    /// Shape declaration
    #[verifier::spinoff_prover]
    #[verifier::rlimit(60)]
    fn shape_declaration(&mut self) -> (r: Result<Stmt, ParseError>)
        requires
            old(self).wf(),
            !old(self).overran,
        ensures
            old(self).advanced(final(self)),
            final(self).overran ==> (r matches Err(e) && e@ == end_error(
                old(self).src(),
                final(self).state(),
            )),
            (stmt_outcome(r, final(self).overran), final(self).state()) == p_shape(old(self).src(), old(self).state()),
            r is Ok ==> old(self).current < final(self).current,
        decreases rem(self.src(), self.state()), 37nat,
    {
        let line = self.current_line;
        let l0 = self.current_line;
        self.consume(TokenType::Identifier, "Expected identifier after 'shape''", l0)?;
        let id = self.previous().unwrap().lexeme;
        if !(id.eq(&String::from_str("Rect")) || id.eq(&String::from_str("Disc"))) {
            let mut message = String::from_str("Invalid shape id: ");
            let shown = crate::text::debug_string(id.as_str());
            message.append(shown.as_str());
            return Err(ParseError::new(message, line, &self.path));
        }
        let params = self.shape_params()?;
        let l1 = self.current_line;
        self.consume(TokenType::LeftBrace, "Expected '{' after shape header", l1)?;
        let block = self.block()?;
        let l = self.create_loc(line);
        Ok(Stmt::Shape(ShapeD { name: id, params, block: Some(Box::new(block)) }, l))
    }

    /// Place declaration
    fn place_declaration(&mut self) -> (r: Result<Stmt, ParseError>)
        requires
            old(self).wf(),
        ensures
            old(self).step(final(self)),
            (stmt_result(r), final(self).state()) == p_place(old(self).src(), old(self).state()),
            r is Ok ==> old(self).current < final(self).current,
    {
        let line = self.current_line;
        let l0 = self.current_line;
        self.consume(TokenType::Identifier, "Expected identifier after 'place''", l0)?;
        let id = self.previous().unwrap().lexeme;
        let params = self.params("Expected '=' after define identifier")?;
        self.consume(TokenType::Semicolon, "Expect ';' after place statement", line)?;
        let l = self.create_loc(line);
        Ok(Stmt::Place(id, params, l))
    }

    #[verifier::spinoff_prover]
    #[verifier::rlimit(60)]
    fn statement(&mut self) -> (r: Result<Stmt, ParseError>)
        requires
            old(self).wf(),
            !old(self).overran,
        ensures
            old(self).advanced(final(self)),
            final(self).overran ==> (r matches Err(e) && e@ == end_error(
                old(self).src(),
                final(self).state(),
            )),
            (stmt_outcome(r, final(self).overran), final(self).state()) == p_statement(
                old(self).src(),
                old(self).state(),
            ),
            r is Ok ==> old(self).current < final(self).current,
        decreases rem(self.src(), self.state()), 36nat,
    {
        if self.match_kind(TokenType::If) {
            self.if_statement()
        } else if self.match_kind(TokenType::Pattern) {
            self.pattern_statement()
        } else if self.match_kind(TokenType::LeftBrace) {
            self.block()
        } else {
            self.expression_statement()
        }
    }

    fn expression_statement(&mut self) -> (r: Result<Stmt, ParseError>)
        requires
            old(self).wf(),
        ensures
            old(self).step(final(self)),
            (stmt_result(r), final(self).state()) == p_expression_statement(
                old(self).src(),
                old(self).state(),
            ),
            r is Ok ==> old(self).current < final(self).current,
        decreases rem(self.src(), self.state()), 35nat,
    {
        let value: Expr = self.expression()?;
        let line = self.current_line;
        self.consume(TokenType::Semicolon, "Expect ';' after expression", line)?;
        let l = self.create_loc(line);
        Ok(Stmt::Expression(Box::new(value), l))
    }

    #[verifier::spinoff_prover]
    #[verifier::rlimit(60)]
    fn if_statement(&mut self) -> (r: Result<Stmt, ParseError>)
        requires
            old(self).wf(),
            !old(self).overran,
        ensures
            old(self).advanced(final(self)),
            final(self).overran ==> (r matches Err(e) && e@ == end_error(
                old(self).src(),
                final(self).state(),
            )),
            (stmt_outcome(r, final(self).overran), final(self).state()) == p_if(old(self).src(), old(self).state()),
            r is Ok ==> old(self).current < final(self).current,
        decreases rem(self.src(), self.state()), 37nat,
    {
        let line = self.current_line;
        let condition = self.expression()?;
        let then_branch = self.statement()?;
        let else_branch = if self.match_kind(TokenType::Else) {
            Some(Box::new(self.statement()?))
        } else {
            None
        };
        let l = self.create_loc(line);
        Ok(Stmt::If(Box::new(condition), Box::new(then_branch), else_branch, l))
    }

    #[verifier::spinoff_prover]
    #[verifier::rlimit(60)]
    fn pattern_statement(&mut self) -> (r: Result<Stmt, ParseError>)
        requires
            old(self).wf(),
            !old(self).overran,
        ensures
            old(self).advanced(final(self)),
            final(self).overran ==> (r matches Err(e) && e@ == end_error(
                old(self).src(),
                final(self).state(),
            )),
            (stmt_outcome(r, final(self).overran), final(self).state()) == p_pattern(
                old(self).src(),
                old(self).state(),
            ),
            r is Ok ==> old(self).current < final(self).current,
        decreases rem(self.src(), self.state()), 37nat,
    {
        let line = self.current_line;
        let l0 = self.current_line;
        self.consume(TokenType::Identifier, "Expected identifier after 'pattern''", l0)?;
        let id = self.previous().unwrap().lexeme;
        let params = self.params("Expected '=' after voxel identifier")?;
        let l1 = self.current_line;
        self.consume(TokenType::LeftBrace, "Expected '{' after pattern header", l1)?;
        let blocks = self.blocks()?;
        let l2 = self.current_line;
        self.consume(TokenType::RightBrace, "Expected '}' after pattern block", l2)?;
        let l = self.create_loc(line);
        Ok(Stmt::Pattern(PatternD { name: id, params, blocks }, l))
    }

    // -----------------------------------------------------------------------
    // Modules

    /// Compile a module with the given name, source code, path and tokens.
    /// The tokens end at the first end-of-file token. Parsing starts at the
    /// parser's current position and keeps the scopes, variables and
    /// materials of earlier modules. Tokens that end where a statement needs
    /// another are left out.
    pub fn compile_module(
        &mut self,
        name: String,
        source: String,
        path: String,
        tokens: Vec<Token>,
    ) -> (r: Result<Module, ParseError>)
        requires
            old(self).state().counter + tokens.len() <= u32::MAX,
            no_overrun(p_module(tokens_view(tokens@), path@, old(self).state()).0),
        ensures
            final(self).wf(),
            final(self).src() == (Src { toks: before_eof(tokens_view(tokens@)), path: path@ }),
            final(self).state() == p_module(tokens_view(tokens@), path@, old(self).state()).1,
            match r {
                Ok(m) => {
                    &&& p_module(tokens_view(tokens@), path@, old(self).state()).0 == Ok::<
                        Seq<StmtV>,
                        Fail,
                    >(m.model().stmts)
                    &&& m.model().name == name@
                    &&& m.model().source == source@
                    &&& m.model().path == path@
                    &&& m.model().variables == final(self).state().vars
                },
                Err(e) => p_module(tokens_view(tokens@), path@, old(self).state()).0 == Err::<
                    Seq<StmtV>,
                    Fail,
                >(Fail::Error(e@)),
            },
    {
        self.try_compile_module(name, source, path, tokens)
    }

    /// Compile a module as `compile_module` does; where the tokens end where
    /// a statement needs another, the error says so.
    #[verifier::spinoff_prover]
    #[verifier::rlimit(60)]
    pub fn try_compile_module(
        &mut self,
        name: String,
        source: String,
        path: String,
        tokens: Vec<Token>,
    ) -> (r: Result<Module, ParseError>)
        requires
            old(self).state().counter + tokens.len() <= u32::MAX,
        ensures
            final(self).wf(),
            final(self).src() == (Src { toks: before_eof(tokens_view(tokens@)), path: path@ }),
            final(self).state() == p_module(tokens_view(tokens@), path@, old(self).state()).1,
            match r {
                Ok(m) => {
                    &&& p_module(tokens_view(tokens@), path@, old(self).state()).0 == Ok::<
                        Seq<StmtV>,
                        Fail,
                    >(m.model().stmts)
                    &&& m.model().name == name@
                    &&& m.model().source == source@
                    &&& m.model().path == path@
                    &&& m.model().variables == final(self).state().vars
                },
                Err(e) => p_module(tokens_view(tokens@), path@, old(self).state()).0 == Err::<
                    Seq<StmtV>,
                    Fail,
                >(Fail::Error(e@)) || (p_module(tokens_view(tokens@), path@, old(self).state()).0
                    == Err::<Seq<StmtV>, Fail>(Fail::Overrun) && e@ == end_error(
                    final(self).src(),
                    final(self).state(),
                )),
            },
    {
        let ghost all = tokens_view(tokens@);
        let mut toks = tokens;
        let mut k: usize = 0;
        while k < toks.len() && toks[k].kind != TokenType::Eof
            invariant
                k <= toks.len(),
                all == tokens_view(toks@),
                forall|j: int| 0 <= j < k ==> all[j].kind != TokenType::Eof,
            decreases toks.len() - k,
        {
            k = k + 1;
        }
        proof {
            lemma_before_eof(all, k as int);
        }
        toks.truncate(k);
        assert(tokens_view(toks@) =~= all.take(k as int));
        self.tokens = toks;
        self.path = path.clone();
        self.overran = false;
        let ghost c = self.src();
        let ghost s0 = self.state();
        assert(c == (Src { toks: before_eof(all), path: path@ }));
        let mut statements: Vec<Box<Stmt>> = Vec::new();
        assert(Stmt::models(statements@) == Seq::<StmtV>::empty());
        while !self.is_at_end()
            invariant
                self.wf(),
                !self.overran,
                self.src() == c,
                c == (Src { toks: before_eof(all), path: path@ }),
                all == tokens_view(tokens@),
                s0 == old(self).state(),
                p_program(c, self.state(), Stmt::models(statements@)) == p_program(
                    c,
                    s0,
                    Seq::empty(),
                ),
            decreases rem(c, self.state()),
        {
            let stmt = self.declaration()?;
            let stmt = Box::new(stmt);
            proof {
                Stmt::lemma_models_push(statements@, stmt);
            }
            statements.push(stmt);
        }
        let variables = index_table_clone(&self.variable_map);
        let source_path = self.path.clone();
        Ok(Module::new(name, source, source_path, statements, variables))
    }
}

/// A logical expression.
fn make_logical(left: Expr, op: LogicalOperator, right: Expr, l: Location) -> (r: Expr)
    ensures
        r.model() == ExprV::Logical(Box::new(left.model()), op, Box::new(right.model()), l@),
{
    Expr::Logical(Box::new(left), op, Box::new(right), l)
}

/// A equality expression.
fn make_equality(left: Expr, op: EqualityOperator, right: Expr, l: Location) -> (r: Expr)
    ensures
        r.model() == ExprV::Equality(Box::new(left.model()), op, Box::new(right.model()), l@),
{
    Expr::Equality(Box::new(left), op, Box::new(right), l)
}

/// A comparison expression.
fn make_comparison(left: Expr, op: ComparisonOperator, right: Expr, l: Location) -> (r: Expr)
    ensures
        r.model() == ExprV::Comparison(Box::new(left.model()), op, Box::new(right.model()), l@),
{
    Expr::Comparison(Box::new(left), op, Box::new(right), l)
}

/// A binary expression.
fn make_binary(left: Expr, op: BinaryOperator, right: Expr, l: Location) -> (r: Expr)
    ensures
        r.model() == ExprV::Binary(Box::new(left.model()), op, Box::new(right.model()), l@),
{
    Expr::Binary(Box::new(left), op, Box::new(right), l)
}

/// A value expression without field path.
fn make_value(v: Value, sw: Vec<u8>, l: Location) -> (r: Expr)
    ensures
        r.model() == ExprV::Value(v.model(), sw@, Seq::empty(), l@),
{
    let fp: Vec<String> = Vec::new();
    assert(names_view(fp@) =~= Seq::<Seq<char>>::empty());
    Expr::Value(v, sw, fp, l)
}

/// A call expression without swizzle or field path.
fn make_call(callee: Expr, arguments: Vec<Box<Expr>>, l: Location) -> (r: Expr)
    ensures
        r.model() == ExprV::FunctionCall(
            Box::new(callee.model()),
            Seq::empty(),
            Seq::empty(),
            Expr::models(arguments@),
            l@,
        ),
{
    let sw: Vec<u8> = Vec::new();
    let fp: Vec<String> = Vec::new();
    assert(names_view(fp@) =~= Seq::<Seq<char>>::empty());
    Expr::FunctionCall(Box::new(callee), sw, fp, arguments, l)
}

proof fn lemma_two_kinds(ks: Seq<TokenType>, a: TokenType, b: TokenType)
    requires
        ks == seq![a, b],
    ensures
        forall|k: TokenType| ks.contains(k) <==> (k == a || k == b),
{
    assert forall|k: TokenType| ks.contains(k) <==> (k == a || k == b) by {
        if k == a {
            assert(ks[0] == k);
        }
        if k == b {
            assert(ks[1] == k);
        }
    }
}

proof fn lemma_four_kinds(ks: Seq<TokenType>, a: TokenType, b: TokenType, c: TokenType, d: TokenType)
    requires
        ks == seq![a, b, c, d],
    ensures
        forall|k: TokenType| ks.contains(k) <==> (k == a || k == b || k == c || k == d),
{
    assert forall|k: TokenType| ks.contains(k) <==> (k == a || k == b || k == c || k == d) by {
        if k == a {
            assert(ks[0] == k);
        }
        if k == b {
            assert(ks[1] == k);
        }
        if k == c {
            assert(ks[2] == k);
        }
        if k == d {
            assert(ks[3] == k);
        }
    }
}

/// Whether the identifier always names an input of the program.
fn is_builtin_name(s: &String) -> (r: bool)
    ensures
        r == crate::grammar::is_builtin_name(s@),
{
    s.eq(&String::from_str("local")) || s.eq(&String::from_str("world")) || s.eq(
        &String::from_str("u"),
    ) || s.eq(&String::from_str("v")) || s.eq(&String::from_str("d")) || s.eq(
        &String::from_str("hash"),
    ) || s.eq(&String::from_str("Clear"))
}

/// A block statement.
fn make_block(list: Vec<Box<Stmt>>, l: Location) -> (r: Stmt)
    ensures
        r.model() == StmtV::Block(Stmt::models(list@), l@),
{
    Stmt::Block(list, l)
}

} // verus!
