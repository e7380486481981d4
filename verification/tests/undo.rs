use shapez::undo::{CommandStates, UndoManager, UndoStack};

#[test]
fn new_manager_has_nothing_to_undo() {
    let m: UndoManager<u32> = UndoManager::new();
    assert_eq!(m.max_undo, 30);
    assert!(!m.has_undo());
    assert!(!m.can_save());
    assert_eq!(
        m.command_states(),
        CommandStates { undo: false, redo: false, save: false }
    );
}

#[test]
fn undo_and_redo_walk_the_history() {
    let mut m = UndoManager::new();
    let s = m.add_undo(10u32);
    assert_eq!(s, CommandStates { undo: true, redo: false, save: true });
    m.add_undo(20);
    let (i, s) = m.undo();
    assert_eq!(i, Some(1));
    assert_eq!(*m.atom(1), 20);
    assert_eq!(s, CommandStates { undo: true, redo: true, save: true });
    let (i, s) = m.undo();
    assert_eq!(i, Some(0));
    assert_eq!(s, CommandStates { undo: false, redo: true, save: false });
    let (i, _) = m.undo();
    assert_eq!(i, None);
    let (i, s) = m.redo();
    assert_eq!(i, Some(0));
    assert_eq!(s, CommandStates { undo: true, redo: true, save: true });
    m.add_undo(30);
    let (i, _) = m.redo();
    assert_eq!(i, None);
    let (i, _) = m.undo();
    assert_eq!(i, Some(1));
    assert_eq!(*m.atom(1), 30);
}

#[test]
fn history_keeps_the_newest_edits() {
    let mut m = UndoManager::new();
    m.max_undo = 3;
    for a in 0..5u32 {
        m.add_undo(a);
    }
    let mut seen = vec![];
    while let (Some(i), _) = m.undo() {
        seen.push(*m.atom(i));
    }
    assert_eq!(seen, vec![4, 3, 2]);
}

#[test]
fn stack_operations() {
    let mut s: UndoStack<char> = UndoStack::new();
    assert!(!s.has_undo());
    s.add('a');
    s.add('b');
    s.add('c');
    assert_eq!(s.undo(), Some(2));
    assert!(s.has_redo());
    s.truncate_to_limit(2);
    assert_eq!(*s.atom(0), 'b');
    assert_eq!(s.undo(), Some(0));
    assert_eq!(s.undo(), None);
    assert_eq!(s.redo(), Some(0));
    assert_eq!(s.redo(), Some(1));
    assert_eq!(s.redo(), None);
}

#[test]
fn limit_of_one_keeps_last_edit() {
    let mut m = UndoManager::new();
    m.max_undo = 1;
    m.add_undo(7u32);
    let s = m.add_undo(8);
    assert!(m.has_undo());
    assert_eq!(s, CommandStates { undo: true, redo: false, save: true });
    let (i, s) = m.undo();
    assert_eq!(i, Some(0));
    assert_eq!(*m.atom(0), 8);
    assert_eq!(s, CommandStates { undo: false, redo: true, save: false });
}
