//! The tokens that the parser reads.
use vstd::prelude::*;

verus! {

/// The kinds of tokens of the shape language.
#[derive(Clone, Copy, Debug, PartialEq, Eq, Structural)]
pub enum TokenType {
    // Single-character tokens.
    LeftParen,
    RightParen,
    LeftBrace,
    RightBrace,
    Comma,
    Dot,
    Minus,
    Plus,
    Semicolon,
    Colon,
    Slash,
    Star,
    Percent,
    TernaryOperator,
    // One or two character tokens.
    Bang,
    BangEqual,
    Equal,
    EqualEqual,
    Greater,
    GreaterEqual,
    Less,
    LessEqual,
    And,
    Or,
    // Literals.
    Identifier,
    IntegerNumber,
    FloatNumber,
    // Keywords.
    Let,
    If,
    Else,
    True,
    False,
    Void,
    Float2,
    Float3,
    Material,
    Voxel,
    Shape,
    Segment,
    Place,
    Pattern,
    Eof,
}

/// A token: its kind, its text and the line it stands on.
#[derive(Debug)]
pub struct Token {
    pub kind: TokenType,
    pub lexeme: String,
    pub line: usize,
}

/// The model of a [`Token`].
pub struct TokenV {
    pub kind: TokenType,
    pub lexeme: Seq<char>,
    pub line: usize,
}

impl View for Token {
    type V = TokenV;

    open spec fn view(&self) -> TokenV {
        TokenV { kind: self.kind, lexeme: self.lexeme@, line: self.line }
    }
}

impl Token {
    pub fn new(kind: TokenType, lexeme: String, line: usize) -> (r: Token)
        ensures
            r@ == (TokenV { kind, lexeme: lexeme@, line }),
    {
        Token { kind, lexeme, line }
    }

    /// A copy of the token.
    pub fn duplicate(&self) -> (r: Token)
        ensures
            r@ == self@,
    {
        Token { kind: self.kind, lexeme: self.lexeme.clone(), line: self.line }
    }
}

/// The models of a list of tokens.
pub open spec fn tokens_view(t: Seq<Token>) -> Seq<TokenV> {
    t.map_values(|x: Token| x@)
}

} // verus!
