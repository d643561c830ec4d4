use rab::tui::undo_stack::UndoStack;

#[test]
fn test_push_and_pop() {
    let mut stack = UndoStack::new();
    stack.push(&"hello".to_string());
    stack.push(&"world".to_string());
    assert_eq!(stack.len(), 2);
    assert_eq!(stack.pop(), Some("world".to_string()));
    assert_eq!(stack.pop(), Some("hello".to_string()));
    assert_eq!(stack.pop(), None);
}

#[test]
fn test_clear() {
    let mut stack = UndoStack::new();
    stack.push(&1);
    stack.push(&2);
    assert_eq!(stack.len(), 2);
    stack.clear();
    assert!(stack.is_empty());
}

#[test]
fn test_clone_semantics() {
    let mut stack = UndoStack::new();
    let original = "data".to_string();
    stack.push(&original);
    drop(original);
    assert_eq!(stack.pop(), Some("data".to_string()));
}

#[test]
fn push_then_pop_restores_length() {
    let mut stack = UndoStack::new();
    stack.push(&7u32);
    stack.push(&8u32);
    assert_eq!(stack.pop(), Some(8));
    assert_eq!(stack.len(), 1);
}
