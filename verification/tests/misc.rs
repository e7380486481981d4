use std::str::FromStr;
use shapez::ast::{
    AssignmentOperator, BinaryOperator, ComparisonOperator, EqualityOperator, Location,
    LogicalOperator,
};
use shapez::error::{ParseError, RuntimeError};
use shapez::modes::AxisSign::{Negative, Positive, Within};
use shapez::modes::{compute_side, SideEnum, ToolAttachMode};
use shapez::text::{is_float_literal, parse_i32, usize_to_string};
use shapez::nodefx::{transform_to_snake_case, NodeFXRole};
use shapez::tools::{reset_render, BrushTool, EditTool};

#[test]
fn operators_describe_themselves() {
    assert_eq!(AssignmentOperator::Assign.describe(), "=");
    assert_eq!(AssignmentOperator::DivideAssign.describe(), "/=");
    assert_eq!(LogicalOperator::And.describe(), "&&");
    assert_eq!(LogicalOperator::Or.describe(), "||");
    assert_eq!(BinaryOperator::Mod.describe(), "%");
    assert_eq!(BinaryOperator::Subtract.describe(), "-");
    assert_eq!(ComparisonOperator::GreaterEqual.describe(), ">=");
    assert_eq!(ComparisonOperator::Less.describe(), "<");
    assert_eq!(EqualityOperator::NotEqual.describe(), "!=");
    assert_eq!(EqualityOperator::Equal.describe(), "==");
}

#[test]
fn location_describes_its_line() {
    let l = Location::new("scene.shpz".to_string(), 42);
    assert_eq!(l.describe(), "at line 42.");
    assert_eq!(Location::empty().describe(), "at line 0.");
}

#[test]
fn parse_error_text() {
    let e = ParseError::new("Boom".to_string(), 7, &"a.shpz".to_string());
    assert_eq!(e.to_string(), "Boom in a.shpz at line 7.");
    let e = ParseError::new("File not found".to_string(), 0, &"b.shpz".to_string());
    assert_eq!(e.to_string(), "File not found: \"b.shpz\".");
}

#[test]
fn runtime_error_keeps_message_and_location() {
    let l = Location::new("c.shpz".to_string(), 9);
    let e = RuntimeError::new("Unknown material: X".to_string(), &l);
    assert_eq!(e.message, "Unknown material: X");
    assert_eq!(e.location.file, "c.shpz");
    assert_eq!(e.location.line, 9);
}

#[test]
fn integer_literals() {
    assert_eq!(parse_i32("0"), Some(0));
    assert_eq!(parse_i32("+17"), Some(17));
    assert_eq!(parse_i32("-2147483648"), Some(i32::MIN));
    assert_eq!(parse_i32("2147483647"), Some(i32::MAX));
    assert_eq!(parse_i32("2147483648"), None);
    assert_eq!(parse_i32(""), None);
    assert_eq!(parse_i32("-"), None);
    assert_eq!(parse_i32("1x"), None);
    for s in ["12", "-5", "007", "+0"] {
        assert_eq!(parse_i32(s), s.parse::<i32>().ok(), "{}", s);
    }
}

#[test]
fn float_literals() {
    for s in [
        "1.5", ".5", "5.", "1e10", "1E-3", "+2.0e+2", "inf", "-Infinity", "NaN", "1.2.3", "e5",
        ".", "", "1e", "0x10", "--1",
    ] {
        assert_eq!(is_float_literal(s), s.parse::<f32>().is_ok(), "{}", s);
    }
}

#[test]
fn attach_modes_convert_to_numbers_and_back() {
    assert_eq!(i32::from(ToolAttachMode::Add), 0);
    assert_eq!(i32::from(ToolAttachMode::Remove), 1);
    assert_eq!(ToolAttachMode::from(1), ToolAttachMode::Remove);
    assert_eq!(ToolAttachMode::from(0), ToolAttachMode::Add);
    assert_eq!(ToolAttachMode::from(7), ToolAttachMode::Add);
    for m in [ToolAttachMode::Add, ToolAttachMode::Remove] {
        assert_eq!(ToolAttachMode::from(i32::from(m)), m);
    }
}

#[test]
fn side_follows_the_normal() {
    assert_eq!(compute_side(SideEnum::Front, Within, Positive, Within), SideEnum::Bottom);
    assert_eq!(compute_side(SideEnum::Front, Positive, Negative, Within), SideEnum::Top);
    assert_eq!(compute_side(SideEnum::Top, Positive, Within, Negative), SideEnum::Left);
    assert_eq!(compute_side(SideEnum::Top, Negative, Within, Within), SideEnum::Right);
    assert_eq!(compute_side(SideEnum::Top, Within, Within, Positive), SideEnum::Back);
    assert_eq!(compute_side(SideEnum::Top, Within, Within, Negative), SideEnum::Front);
    assert_eq!(compute_side(SideEnum::Left, Within, Within, Within), SideEnum::Left);
}

#[test]
fn tools_describe_themselves() {
    let b = BrushTool::new();
    assert_eq!(b.id(), "Brush Tool");
    assert_eq!(b.info(), "Brush Tool.");
    assert_eq!(b.icon_name(), "move");
    assert_eq!(b.accel(), Some('b'));
    let e = EditTool::new();
    assert_eq!(e.id(), "Edit Tool");
    assert_eq!(e.info(), "Edit the current mode (E).");
    assert_eq!(e.icon_name(), "hand-pointing");
    assert_eq!(e.accel(), Some('e'));
    let mut accum = 57;
    reset_render(&mut accum);
    assert_eq!(accum, 1);
}

#[test]
fn node_roles_by_name() {
    assert_eq!(NodeFXRole::from_name("Checker"), Ok(NodeFXRole::Checker));
    assert_eq!(NodeFXRole::from_name("PatternUV"), Ok(NodeFXRole::PatternUV));
    assert_eq!(NodeFXRole::from_name("checker"), Err(()));
    assert_eq!(NodeFXRole::from_str("BaseColor"), Ok(NodeFXRole::BaseColor));
    assert_eq!(NodeFXRole::MaterialIndex.name(), "Material");
    assert_eq!(NodeFXRole::BaseColor.name(), "Base Color");
    assert!(NodeFXRole::PatternUV.inputs().is_empty());
    let i = NodeFXRole::Brush.inputs();
    assert_eq!(i.len(), 1);
    assert_eq!(i[0].name, "in");
    assert_eq!(i[0].category_name, "ShapeFX");
    let o = NodeFXRole::Checker.outputs();
    assert_eq!(o.len(), 2);
    assert_eq!(o[0].name, "mat1");
    assert_eq!(o[1].name, "mat2");
    assert_eq!(NodeFXRole::Brush.outputs()[0].name, "out");
}

#[test]
fn snake_case_names() {
    assert_eq!(transform_to_snake_case("ShapeFXBaseColor", "ShapeFX"), "base_color");
    assert_eq!(transform_to_snake_case("MyValue", "X"), "my_value");
    assert_eq!(transform_to_snake_case("plain", ""), "plain");
    assert_eq!(transform_to_snake_case("ÄBc", ""), "Ä_bc");
    assert_eq!(transform_to_snake_case("Pre", "Prefix"), "pre");
}

#[test]
fn decimal_digits_of_numbers() {
    assert_eq!(usize_to_string(0), "0");
    assert_eq!(usize_to_string(7), "7");
    assert_eq!(usize_to_string(120), "120");
    assert_eq!(usize_to_string(4096), "4096");
}

#[test]
fn snake_case_of_ascii_names() {
    assert_eq!(transform_to_snake_case("ShapeFXRoundness", "ShapeFX"), "roundness");
    assert_eq!(transform_to_snake_case("AB", ""), "a_b");
}
