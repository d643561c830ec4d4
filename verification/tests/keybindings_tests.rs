use rab::tui::keybindings::{
    Keybindings, ACTION_EDITOR_CURSOR_WORD_LEFT, ACTION_EDITOR_DELETE_WORD_BACKWARD, ACTION_EDITOR_UNDO,
    ACTION_INPUT_COPY, ACTION_SELECT_CANCEL, ACTION_SELECT_CONFIRM, ACTION_SELECT_DOWN, ACTION_SELECT_UP,
};
use rab::tui::keys::{KeyCode, KeyEvent, KeyModifiers};

fn kb() -> Keybindings {
    Keybindings::with_defaults()
}

#[test]
fn test_defaults_loaded() {
    let kb = kb();
    assert!(kb.matches(&KeyEvent::new(KeyCode::Char('c'), KeyModifiers::control()), ACTION_INPUT_COPY));
    assert!(!kb.matches(&KeyEvent::new(KeyCode::Char('x'), KeyModifiers::control()), ACTION_INPUT_COPY));
}

#[test]
fn test_editor_undo() {
    let kb = kb();
    assert!(kb.matches(&KeyEvent::new(KeyCode::Char('z'), KeyModifiers::control()), ACTION_EDITOR_UNDO));
}

#[test]
fn test_select_up_down() {
    let kb = kb();
    assert!(kb.matches(&KeyEvent::new(KeyCode::Up, KeyModifiers::none()), ACTION_SELECT_UP));
    assert!(kb.matches(&KeyEvent::new(KeyCode::Down, KeyModifiers::none()), ACTION_SELECT_DOWN));
    assert!(kb.matches(&KeyEvent::new(KeyCode::Enter, KeyModifiers::none()), ACTION_SELECT_CONFIRM));
    assert!(kb.matches(&KeyEvent::new(KeyCode::Esc, KeyModifiers::none()), ACTION_SELECT_CANCEL));
}

#[test]
fn test_delete_word_backward() {
    let kb = kb();
    assert!(kb.matches(
        &KeyEvent::new(KeyCode::Char('w'), KeyModifiers::control()),
        ACTION_EDITOR_DELETE_WORD_BACKWARD,
    ));
}

#[test]
fn test_cursor_word_left() {
    let kb = kb();
    assert!(kb.matches(&KeyEvent::new(KeyCode::Left, KeyModifiers::control()), ACTION_EDITOR_CURSOR_WORD_LEFT));
    assert!(kb.matches(&KeyEvent::new(KeyCode::Char('b'), KeyModifiers::alt()), ACTION_EDITOR_CURSOR_WORD_LEFT));
}

#[test]
fn set_then_get_keys() {
    let mut kb = Keybindings::new();
    assert!(kb.get_keys("x").is_empty());
    kb.set("x", vec!["ctrl+q".to_string()]);
    kb.set("y", vec!["f2".to_string(), "f3".to_string()]);
    kb.set("x", vec!["ctrl+r".to_string()]);
    assert_eq!(kb.get_keys("x"), &["ctrl+r".to_string()]);
    assert_eq!(kb.get_keys("y"), &["f2".to_string(), "f3".to_string()]);
    assert!(kb.matches(&KeyEvent::new(KeyCode::Char('r'), KeyModifiers::control()), "x"));
    assert!(!kb.matches(&KeyEvent::new(KeyCode::Char('q'), KeyModifiers::control()), "x"));
    assert!(!kb.matches(&KeyEvent::new(KeyCode::F(2), KeyModifiers::none()), "unbound"));
}

#[test]
fn merge_prefers_other() {
    let mut a = Keybindings::with_defaults();
    let mut b = Keybindings::new();
    b.set(ACTION_INPUT_COPY, vec!["ctrl+shift+c".to_string()]);
    b.set("custom", vec!["f5".to_string()]);
    a.merge(b);
    assert_eq!(a.get_keys(ACTION_INPUT_COPY), &["ctrl+shift+c".to_string()]);
    assert_eq!(a.get_keys("custom"), &["f5".to_string()]);
    assert_eq!(a.get_keys(ACTION_EDITOR_UNDO), &["ctrl+z".to_string()]);
}

#[test]
fn pairs_round_trip() {
    let a = Keybindings::with_defaults();
    let b = Keybindings::from_pairs(a.to_pairs());
    assert_eq!(b.get_keys(ACTION_SELECT_UP), a.get_keys(ACTION_SELECT_UP));
    assert_eq!(a.to_pairs().len(), 36);
}
