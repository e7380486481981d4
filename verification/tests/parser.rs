use shapez::ast::{BinaryOperator, Expr, Number, Stmt, Value};
use shapez::error::ParseError;
use shapez::module::Module;
use shapez::parser::Parser;
use shapez::token::TokenType::{
    Dot, Else, Eof, Equal, FloatNumber, Identifier, If, IntegerNumber, LeftBrace, Let, Material,
    Pattern, Place, Plus, RightBrace, Segment, Semicolon, Shape, Star, True, Voxel,
};
use shapez::token::{Token, TokenType};

fn tok(kind: TokenType, text: &str) -> Token {
    Token::new(kind, text.to_string(), 1)
}

fn tok_at(kind: TokenType, text: &str, line: usize) -> Token {
    Token::new(kind, text.to_string(), line)
}

fn run(tokens: Vec<Token>) -> Result<Module, ParseError> {
    let mut parser = Parser::new();
    parser.compile_module(
        "main".to_string(),
        "source".to_string(),
        "test.shpz".to_string(),
        tokens,
    )
}

#[test]
fn parses_variable_declaration() {
    let m = run(vec![
        tok(Let, "let"),
        tok(Identifier, "a"),
        tok(Equal, "="),
        tok(IntegerNumber, "1"),
        tok(Plus, "+"),
        tok(FloatNumber, "2.5"),
        tok(Eof, ""),
    ])
    .ok()
    .unwrap();
    assert_eq!(m.name, "main");
    assert_eq!(m.source, "source");
    assert_eq!(m.path, "test.shpz");
    assert_eq!(m.stmts.len(), 1);
    assert_eq!(m.variables.get("a"), Some(&0));
    match &*m.stmts[0] {
        Stmt::VarDeclaration(name, Value::Void, init, loc) => {
            assert_eq!(name, "a");
            assert_eq!(loc.line, 1);
            match &**init {
                Expr::Binary(l, BinaryOperator::Add, r, _) => {
                    assert!(matches!(&**l, Expr::Value(Value::Float(Number::Int(1)), ..)));
                    assert!(
                        matches!(&**r, Expr::Value(Value::Float(Number::Decimal(t)), ..) if t == "2.5")
                    );
                }
                other => panic!("unexpected {:?}", other),
            }
        }
        other => panic!("unexpected {:?}", other),
    }
}

#[test]
fn multiplication_binds_tighter_than_addition() {
    let m = run(vec![
        tok(Let, "let"),
        tok(Identifier, "a"),
        tok(Equal, "="),
        tok(IntegerNumber, "1"),
        tok(Plus, "+"),
        tok(IntegerNumber, "2"),
        tok(Star, "*"),
        tok(IntegerNumber, "3"),
        tok(Eof, ""),
    ])
    .ok()
    .unwrap();
    match &*m.stmts[0] {
        Stmt::VarDeclaration(_, _, init, _) => match &**init {
            Expr::Binary(_, BinaryOperator::Add, r, _) => {
                assert!(matches!(&**r, Expr::Binary(_, BinaryOperator::Multiply, _, _)));
            }
            other => panic!("unexpected {:?}", other),
        },
        other => panic!("unexpected {:?}", other),
    }
}

#[test]
fn unknown_identifier_is_an_error() {
    let e = run(vec![
        tok_at(Identifier, "b", 3),
        tok_at(Semicolon, ";", 3),
        tok_at(Eof, "", 3),
    ])
    .err()
    .unwrap();
    assert_eq!(e.message, "Unknown identifier 'b'");
    assert_eq!(e.line, 3);
    assert_eq!(e.to_string(), "Unknown identifier 'b' in test.shpz at line 3.");
}

#[test]
fn invalid_shape_id_is_an_error() {
    let e = run(vec![
        tok(Shape, "shape"),
        tok(Identifier, "Circle"),
        tok(LeftBrace, "{"),
        tok(RightBrace, "}"),
        tok(Eof, ""),
    ])
    .err()
    .unwrap();
    assert_eq!(e.message, "Invalid shape id: \"Circle\"");
}

#[test]
fn empty_variable_declaration_is_an_error() {
    let e = run(vec![tok(Let, "let"), tok(Identifier, "a"), tok(Eof, "")])
        .err()
        .unwrap();
    assert_eq!(e.message, "Variable declaration cannot be empty");
}

#[test]
fn invalid_integer_is_an_error() {
    let e = run(vec![
        tok(Let, "let"),
        tok(Identifier, "a"),
        tok(Equal, "="),
        tok(IntegerNumber, "99999999999"),
        tok(Eof, ""),
    ])
    .err()
    .unwrap();
    assert_eq!(e.message, "Invalid integer number");
}

#[test]
fn invalid_float_is_an_error() {
    let e = run(vec![
        tok(Let, "let"),
        tok(Identifier, "a"),
        tok(Equal, "="),
        tok(FloatNumber, "1.2.3"),
        tok(Eof, ""),
    ])
    .err()
    .unwrap();
    assert_eq!(e.message, "Invalid float number");
}

#[test]
fn missing_semicolon_is_an_error() {
    let e = run(vec![
        tok(Let, "let"),
        tok(Identifier, "a"),
        tok(Equal, "="),
        tok(IntegerNumber, "1"),
        tok(Identifier, "a"),
        tok(Eof, ""),
    ])
    .err()
    .unwrap();
    assert_eq!(e.message, "Expect ';' after expression");
}

#[test]
fn parses_swizzled_variable() {
    let m = run(vec![
        tok(Let, "let"),
        tok(Identifier, "p"),
        tok(Equal, "="),
        tok(IntegerNumber, "1"),
        tok(Identifier, "p"),
        tok(Dot, "."),
        tok(Identifier, "zx"),
        tok(Semicolon, ";"),
        tok(Eof, ""),
    ])
    .ok()
    .unwrap();
    match &*m.stmts[1] {
        Stmt::Expression(e, _) => {
            assert!(matches!(&**e, Expr::Variable(n, sw, _, _) if n == "p" && sw == &vec![2u8, 0]));
        }
        other => panic!("unexpected {:?}", other),
    }
}

#[test]
fn tokens_after_end_are_ignored() {
    let m = run(vec![tok(Eof, ""), tok(Identifier, "zzz"), tok(Eof, "")])
        .ok()
        .unwrap();
    assert!(m.stmts.is_empty());
}

#[test]
fn swizzle_helpers() {
    let mut parser = Parser::new();
    let _ = parser.compile_module(
        "m".to_string(),
        String::new(),
        "p".to_string(),
        vec![tok(Eof, "")],
    );
    assert!(!parser.is_swizzle_valid_at_current());
    assert!(parser.get_swizzle_at_current().is_empty());
    assert_eq!(Parser::_extract_swizzle("pos.xzy"), ("pos", vec![0u8, 2, 1]));
    assert_eq!(Parser::_extract_swizzle("a.b.wx"), ("a.b", vec![3u8, 0]));
    assert_eq!(Parser::_extract_swizzle("pos.xq"), ("pos.xq", vec![]));
    assert_eq!(Parser::_extract_swizzle("plain"), ("plain", vec![]));
}

#[test]
fn shape_cut_off_after_parameter_is_an_error() {
    let mut parser = Parser::new();
    let r = parser.try_compile_module(
        "main".to_string(),
        "source".to_string(),
        "test.shpz".to_string(),
        vec![
            tok_at(Shape, "shape", 3),
            tok_at(Identifier, "Rect", 3),
            tok_at(Identifier, "size", 4),
            tok_at(Equal, "=", 4),
            tok_at(IntegerNumber, "2", 5),
            tok(Eof, ""),
        ],
    );
    let e = r.err().unwrap();
    assert_eq!(e.message, "Unexpected end of tokens");
    assert_eq!(e.line, 5);
    assert_eq!(e.path, "test.shpz");
}

#[test]
fn checked_compile_agrees_on_complete_input() {
    let mut parser = Parser::new();
    let m = parser
        .try_compile_module(
            "main".to_string(),
            "source".to_string(),
            "test.shpz".to_string(),
            vec![
                tok(Let, "let"),
                tok(Identifier, "a"),
                tok(Equal, "="),
                tok(IntegerNumber, "1"),
                tok(Eof, ""),
            ],
        )
        .ok()
        .unwrap();
    assert_eq!(m.stmts.len(), 1);
    assert_eq!(parser.variable_count(), 1);
}
