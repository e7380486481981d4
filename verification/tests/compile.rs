use shapez::ast::{Expr, Number, Stmt, Value};
use shapez::compile::{compile, CompileVisitor, Context};
use shapez::module::Module;
use shapez::node::{NodeOp, Operand, OutputTarget};
use shapez::parser::Parser;
use shapez::token::TokenType::{
    Dot, Else, Eof, Equal, FloatNumber, Identifier, If, IntegerNumber, LeftBrace, Let, Material,
    Pattern, Place, Plus, RightBrace, Segment, Semicolon, Shape, Star, True, Voxel,
};
use shapez::token::{Token, TokenType};

fn tok(kind: TokenType, text: &str) -> Token {
    Token::new(kind, text.to_string(), 1)
}

fn parse(tokens: Vec<Token>) -> Module {
    let mut parser = Parser::new();
    match parser.compile_module(
        "main".to_string(),
        String::new(),
        "test.shpz".to_string(),
        tokens,
    ) {
        Ok(m) => m,
        Err(e) => panic!("parse failed: {}", e.to_string()),
    }
}

fn is_int(op: &NodeOp, v: i32) -> bool {
    matches!(op, NodeOp::Push(Operand::Float(Number::Int(x))) if *x == v)
}

#[test]
fn compiles_variable_declaration() {
    let module = parse(vec![
        tok(Let, "let"),
        tok(Identifier, "a"),
        tok(Equal, "="),
        tok(IntegerNumber, "1"),
        tok(Plus, "+"),
        tok(IntegerNumber, "2"),
        tok(Eof, ""),
    ]);
    let (ctx, r) = compile(&module);
    assert!(r.is_ok());
    let g = &ctx.program.globals;
    assert_eq!(g.len(), 4);
    assert!(is_int(&g[0], 1));
    assert!(is_int(&g[1], 2));
    assert!(matches!(g[2], NodeOp::Add));
    assert!(matches!(g[3], NodeOp::Store(0)));
}

#[test]
fn compiles_compound_assignment() {
    let module = parse(vec![
        tok(Let, "let"),
        tok(Identifier, "a"),
        tok(Equal, "="),
        tok(IntegerNumber, "1"),
        tok(Identifier, "a"),
        tok(Star, "*"),
        tok(Equal, "="),
        tok(IntegerNumber, "3"),
        tok(Semicolon, ";"),
        tok(Eof, ""),
    ]);
    let (ctx, r) = compile(&module);
    assert!(r.is_ok());
    let g = &ctx.program.globals;
    assert_eq!(g.len(), 7, "{:?}", g);
    assert!(is_int(&g[0], 1));
    assert!(matches!(g[1], NodeOp::Store(0)));
    assert!(is_int(&g[2], 3));
    assert!(matches!(g[3], NodeOp::Load(0)));
    assert!(matches!(g[4], NodeOp::Swap));
    assert!(matches!(g[5], NodeOp::Mul));
    assert!(matches!(g[6], NodeOp::Store(0)));
}

#[test]
fn compiles_conditional() {
    let module = parse(vec![
        tok(If, "if"),
        tok(True, "true"),
        tok(LeftBrace, "{"),
        tok(IntegerNumber, "1"),
        tok(Semicolon, ";"),
        tok(RightBrace, "}"),
        tok(Else, "else"),
        tok(LeftBrace, "{"),
        tok(IntegerNumber, "2"),
        tok(Semicolon, ";"),
        tok(RightBrace, "}"),
        tok(Eof, ""),
    ]);
    let (ctx, r) = compile(&module);
    assert!(r.is_ok());
    let g = &ctx.program.globals;
    assert_eq!(g.len(), 2, "{:?}", g);
    assert!(matches!(g[0], NodeOp::Push(Operand::Bool(true))));
    match &g[1] {
        NodeOp::If(then_code, Some(else_code)) => {
            assert_eq!(then_code.len(), 1);
            assert!(is_int(&then_code[0], 1));
            assert_eq!(else_code.len(), 1);
            assert!(is_int(&else_code[0], 2));
        }
        other => panic!("unexpected {:?}", other),
    }
    assert!(ctx.custom_targets.is_empty());
}

#[test]
fn compiles_material_and_reference() {
    let module = parse(vec![
        tok(Material, "material"),
        tok(Identifier, "Gold"),
        tok(LeftBrace, "{"),
        tok(Identifier, "albedo"),
        tok(LeftBrace, "{"),
        tok(IntegerNumber, "1"),
        tok(Semicolon, ";"),
        tok(RightBrace, "}"),
        tok(RightBrace, "}"),
        tok(Let, "let"),
        tok(Identifier, "m"),
        tok(Equal, "="),
        tok(Identifier, "Gold"),
        tok(Eof, ""),
    ]);
    let (ctx, r) = compile(&module);
    assert!(r.is_ok());
    assert_eq!(ctx.materials.len(), 1);
    let code = ctx.materials.get("Gold").unwrap();
    assert_eq!(code.len(), 2);
    assert!(is_int(&code[0], 1));
    assert!(matches!(code[1], NodeOp::MaterialAlbedo));
    let g = &ctx.program.globals;
    assert_eq!(g.len(), 2, "{:?}", g);
    assert!(matches!(g[0], NodeOp::Push(Operand::Index(0))));
    assert!(matches!(g[1], NodeOp::Store(0)));
}

#[test]
fn unknown_material_property_is_an_error() {
    let module = parse(vec![
        tok(Material, "material"),
        tok(Identifier, "Gold"),
        tok(LeftBrace, "{"),
        tok(Identifier, "shiny"),
        tok(LeftBrace, "{"),
        tok(IntegerNumber, "1"),
        tok(Semicolon, ";"),
        tok(RightBrace, "}"),
        tok(RightBrace, "}"),
        tok(Eof, ""),
    ]);
    let (ctx, r) = compile(&module);
    let e = r.unwrap_err();
    assert_eq!(e.message, "Unknown material property: shiny");
    assert_eq!(e.location.line, 1);
    assert_eq!(ctx.materials.len(), 0);
}

#[test]
fn unknown_material_reference_is_an_error() {
    let mut visitor = CompileVisitor::new();
    let mut ctx = Context::new(rustc_hash::FxHashMap::default());
    let stmt = Stmt::Expression(
        Box::new(Expr::MaterialReference(
            "Silver".to_string(),
            shapez::ast::Location::new("f".to_string(), 3),
        )),
        shapez::ast::Location::new("f".to_string(), 3),
    );
    let r = visitor.compile_statements(&vec![Box::new(stmt)], &mut ctx);
    let e = r.unwrap_err();
    assert_eq!(e.message, "Unknown material: Silver");
    assert_eq!(e.location.line, 3);
    assert!(ctx.program.globals.is_empty());
}

#[test]
fn compiles_voxel_and_place() {
    let module = parse(vec![
        tok(Voxel, "voxel"),
        tok(Identifier, "Box"),
        tok(Identifier, "size"),
        tok(Equal, "="),
        tok(IntegerNumber, "2"),
        tok(LeftBrace, "{"),
        tok(IntegerNumber, "7"),
        tok(Semicolon, ";"),
        tok(RightBrace, "}"),
        tok(Place, "place"),
        tok(Identifier, "Box"),
        tok(Semicolon, ";"),
        tok(Place, "place"),
        tok(Identifier, "Nothing"),
        tok(Semicolon, ";"),
        tok(Eof, ""),
    ]);
    let (ctx, r) = compile(&module);
    assert!(r.is_ok());
    let v = ctx.program.voxels.get("Box").unwrap();
    assert_eq!(v.size.len(), 1);
    assert!(is_int(&v.size[0], 2));
    assert_eq!(v.body.len(), 1);
    assert!(is_int(&v.body[0], 7));
    let g = &ctx.program.globals;
    assert_eq!(g.len(), 1, "{:?}", g);
    assert!(matches!(&g[0], NodeOp::Place(name) if name == "Box"));
    assert!(matches!(ctx.current_target, OutputTarget::Globals));
    assert!(ctx.program.custom.is_empty());
    assert!(ctx.get_output_voxel().is_none());
    let mut ctx = ctx;
    ctx.set_target(OutputTarget::Voxels("Box".to_string()));
    assert_eq!(ctx.get_output_voxel().unwrap().name, "Box");
    ctx.set_target(OutputTarget::Voxels("Other".to_string()));
    assert!(ctx.get_output_voxel().is_none());
}

#[test]
fn voxel_without_size_is_one_unit() {
    let module = parse(vec![
        tok(Voxel, "voxel"),
        tok(Identifier, "Cube"),
        tok(LeftBrace, "{"),
        tok(RightBrace, "}"),
        tok(Eof, ""),
    ]);
    let (ctx, r) = compile(&module);
    assert!(r.is_ok());
    let v = ctx.program.voxels.get("Cube").unwrap();
    assert_eq!(v.size.len(), 1);
    assert!(matches!(
        v.size[0],
        NodeOp::Push(Operand::Float3(Number::Int(1), Number::Int(1), Number::Int(1)))
    ));
}

#[test]
fn compiles_shape_and_segment() {
    let module = parse(vec![
        tok(Shape, "shape"),
        tok(Identifier, "Rect"),
        tok(LeftBrace, "{"),
        tok(IntegerNumber, "4"),
        tok(Semicolon, ";"),
        tok(RightBrace, "}"),
        tok(Segment, "segment"),
        tok(Identifier, "Left"),
        tok(Identifier, "depth"),
        tok(Equal, "="),
        tok(IntegerNumber, "5"),
        tok(LeftBrace, "{"),
        tok(RightBrace, "}"),
        tok(Eof, ""),
    ]);
    let (ctx, r) = compile(&module);
    assert!(r.is_ok());
    let g = &ctx.program.globals;
    assert_eq!(g.len(), 2, "{:?}", g);
    match &g[0] {
        NodeOp::ShapeRect(code) => {
            assert_eq!(code.len(), 1);
            assert!(is_int(&code[0], 4));
        }
        other => panic!("unexpected {:?}", other),
    }
    match &g[1] {
        NodeOp::SegmentLeft(depth, code) => {
            assert_eq!(depth.len(), 1);
            assert!(is_int(&depth[0], 5));
            assert!(code.is_empty());
        }
        other => panic!("unexpected {:?}", other),
    }
}

#[test]
fn compiles_pattern() {
    let module = parse(vec![
        tok(Pattern, "pattern"),
        tok(Identifier, "Modulo"),
        tok(LeftBrace, "{"),
        tok(Identifier, "even"),
        tok(LeftBrace, "{"),
        tok(IntegerNumber, "1"),
        tok(Semicolon, ";"),
        tok(RightBrace, "}"),
        tok(RightBrace, "}"),
        tok(Eof, ""),
    ]);
    let (ctx, r) = compile(&module);
    assert!(r.is_ok());
    let g = &ctx.program.globals;
    assert_eq!(g.len(), 1, "{:?}", g);
    match &g[0] {
        NodeOp::PatternModulo(Some(even), None) => {
            assert_eq!(even.len(), 1);
            assert!(is_int(&even[0], 1));
        }
        other => panic!("unexpected {:?}", other),
    }
}

#[test]
fn compiles_inputs_and_swizzles() {
    let loc = || shapez::ast::Location::new("f".to_string(), 1);
    let mut vars = rustc_hash::FxHashMap::default();
    vars.insert("p".to_string(), 4u32);
    let mut ctx = Context::new(vars);
    let mut visitor = CompileVisitor::new();
    let stmts = vec![
        Box::new(Stmt::Expression(
            Box::new(Expr::Variable("world".to_string(), vec![], vec![], loc())),
            loc(),
        )),
        Box::new(Stmt::Expression(
            Box::new(Expr::Variable("p".to_string(), vec![0, 2], vec![], loc())),
            loc(),
        )),
        Box::new(Stmt::Expression(
            Box::new(Expr::Value(Value::Boolean(false), vec![], vec![], loc())),
            loc(),
        )),
    ];
    let r = visitor.compile_statements(&stmts, &mut ctx);
    assert!(r.is_ok());
    let g = &ctx.program.globals;
    assert_eq!(g.len(), 4, "{:?}", g);
    assert!(matches!(g[0], NodeOp::World));
    assert!(matches!(g[1], NodeOp::Load(4)));
    assert!(matches!(&g[2], NodeOp::GetComponents(c) if c == &vec![0u8, 2]));
    assert!(matches!(g[3], NodeOp::Push(Operand::Bool(false))));
}

#[test]
fn context_targets_and_bodies() {
    let mut ctx = Context::new(rustc_hash::FxHashMap::default());
    ctx.emit(NodeOp::Add);
    ctx.add_custom_target();
    ctx.emit(NodeOp::Sub);
    let body = ctx.take_last_custom_target().unwrap();
    assert_eq!(body.len(), 1);
    assert!(matches!(body[0], NodeOp::Sub));
    assert!(ctx.take_last_custom_target().is_none());
    ctx.set_target(OutputTarget::Custom);
    ctx.emit(NodeOp::Mul);
    assert_eq!(ctx.program.custom.len(), 1);
    ctx.set_target(OutputTarget::Globals);
    assert!(ctx.program.custom.is_empty());
    assert_eq!(ctx.program.globals.len(), 1);
    ctx.set_target(OutputTarget::Voxels("missing".to_string()));
    ctx.emit(NodeOp::Div);
    assert_eq!(ctx.program.globals.len(), 1);
    assert!(ctx.program.voxels.is_empty());
}

#[test]
fn compiler_knows_the_builtin_functions() {
    let v = CompileVisitor::new();
    assert_eq!(v.functions.len(), 10);
    let sin = v.functions.get("sin").unwrap();
    assert_eq!(sin.name, "sin");
    assert_eq!(sin.arguments, 1);
    assert!(matches!(sin.op, NodeOp::Sin));
    assert!(matches!(v.functions.get("fract").unwrap().op, NodeOp::Ceil));
    assert!(matches!(v.functions.get("degrees").unwrap().op, NodeOp::Degrees));
    assert!(v.functions.get("sqrt").is_none());
}
