use shapez::tools::{ToolList, ToolSwitch};

#[test]
fn tool_list_starts_with_edit_tool() {
    let t = ToolList::new();
    assert_eq!(t.tools.len(), 2);
    assert_eq!(t.curr_tool, "Edit Tool");
    assert_eq!(t.get_current_tool(), 0);
    assert_eq!(t.tools[1].id(), "Brush Tool");
    assert_eq!(t.tool_for_key('b'), Some(1));
    assert_eq!(t.tool_for_key('e'), Some(0));
    assert_eq!(t.tool_for_key('x'), None);
}

#[test]
fn shortcut_switches_tools() {
    let mut t = ToolList::new();
    assert_eq!(t.key_down('b', true), None);
    assert_eq!(t.curr_tool, "Edit Tool");
    assert_eq!(
        t.key_down('b', false),
        Some(ToolSwitch { redraw: true, deactivate: Some(1), activate: 1 })
    );
    assert_eq!(t.curr_tool, "Brush Tool");
    assert_eq!(
        t.key_down('b', false),
        Some(ToolSwitch { redraw: false, deactivate: None, activate: 1 })
    );
    assert_eq!(t.key_down('q', false), None);
    assert_eq!(t.curr_tool, "Brush Tool");
}

#[test]
fn set_tool_outside_list_keeps_current() {
    let mut t = ToolList::new();
    let s = t.set_tool(5);
    assert_eq!(s, ToolSwitch { redraw: false, deactivate: None, activate: 0 });
    t.curr_tool = "Gone".to_string();
    assert_eq!(t.get_current_tool(), 0);
    let s = t.set_tool(0);
    assert_eq!(s, ToolSwitch { redraw: true, deactivate: Some(0), activate: 0 });
    assert_eq!(t.curr_tool, "Edit Tool");
}
