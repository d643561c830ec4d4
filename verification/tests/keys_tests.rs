use rab::tui::keys::{
    is_key_release, is_key_repeat, is_printable, key_event_to_id, key_event_to_string, match_key_id,
    matches_key, decode_kitty_printable, Key, KeyCode, KeyEvent, KeyEventKind, KeyModifiers,
};

fn ev(code: KeyCode, m: KeyModifiers) -> KeyEvent {
    KeyEvent::new(code, m)
}

fn id(e: &KeyEvent) -> Option<String> {
    key_event_to_id(e)
}

#[test]
fn test_key_event_to_id_enter() {
    let event = ev(KeyCode::Enter, KeyModifiers::none());
    assert_eq!(id(&event), Some("enter".into()));
}

#[test]
fn test_key_event_to_id_escape() {
    let event = ev(KeyCode::Esc, KeyModifiers::none());
    assert_eq!(id(&event), Some("escape".into()));
}

#[test]
fn test_key_event_to_id_ctrl_c() {
    let event = ev(KeyCode::Char('c'), KeyModifiers::control());
    assert_eq!(id(&event), Some("ctrl+c".into()));
}

#[test]
fn test_key_event_to_id_char() {
    let event = ev(KeyCode::Char('a'), KeyModifiers::none());
    assert_eq!(id(&event), Some("a".into()));
}

#[test]
fn test_key_event_to_id_shift_tab() {
    let event = ev(KeyCode::BackTab, KeyModifiers::none());
    assert_eq!(id(&event), Some("shift+tab".into()));
}

#[test]
fn test_key_event_to_id_ctrl_shift() {
    let event = ev(KeyCode::Char('p'), KeyModifiers::control().union(KeyModifiers::shift()));
    assert_eq!(id(&event), Some("ctrl+shift+p".into()));
}

#[test]
fn test_key_event_to_id_alt_left() {
    let event = ev(KeyCode::Left, KeyModifiers::alt());
    assert_eq!(id(&event), Some("alt+left".into()));
}

#[test]
fn test_key_event_to_id_ctrl_left() {
    let event = ev(KeyCode::Left, KeyModifiers::control());
    assert_eq!(id(&event), Some("ctrl+left".into()));
}

#[test]
fn test_match_key_id_exact() {
    let event = ev(KeyCode::Char('c'), KeyModifiers::control());
    assert!(match_key_id(&event, "ctrl+c"));
    assert!(!match_key_id(&event, "ctrl+x"));
}

#[test]
fn test_match_key_id_no_extra_modifiers() {
    let event = ev(KeyCode::Enter, KeyModifiers::control());
    assert!(!match_key_id(&event, "enter"));
}

#[test]
fn test_matches_enter() {
    let event = ev(KeyCode::Enter, KeyModifiers::none());
    assert!(matches_key(&event, &Key::Enter));
}

#[test]
fn test_matches_escape() {
    let event = ev(KeyCode::Esc, KeyModifiers::none());
    assert!(matches_key(&event, &Key::Escape));
}

#[test]
fn test_matches_ctrl_c() {
    let event = ev(KeyCode::Char('c'), KeyModifiers::control());
    assert!(matches_key(&event, &Key::Ctrl('c')));
    assert!(!matches_key(&event, &Key::Char('c')));
}

#[test]
fn test_matches_char() {
    let event = ev(KeyCode::Char('a'), KeyModifiers::none());
    assert!(matches_key(&event, &Key::Char('a')));
    assert!(!matches_key(&event, &Key::Ctrl('a')));
}

#[test]
fn test_matches_arrow_keys() {
    assert!(matches_key(&ev(KeyCode::Up, KeyModifiers::none()), &Key::Up));
    assert!(matches_key(&ev(KeyCode::Down, KeyModifiers::none()), &Key::Down));
    assert!(matches_key(&ev(KeyCode::Left, KeyModifiers::none()), &Key::Left));
    assert!(matches_key(&ev(KeyCode::Right, KeyModifiers::none()), &Key::Right));
}

#[test]
fn test_shift_tab() {
    assert!(matches_key(&ev(KeyCode::BackTab, KeyModifiers::none()), &Key::ShiftTab));
}

#[test]
fn test_ctrl_shift() {
    let event = ev(KeyCode::Char('p'), KeyModifiers::control().union(KeyModifiers::shift()));
    assert!(matches_key(&event, &Key::CtrlShift('p')));
}

#[test]
fn test_is_printable() {
    assert!(is_printable(&ev(KeyCode::Char('a'), KeyModifiers::none())));
    assert!(!is_printable(&ev(KeyCode::Char('c'), KeyModifiers::control())));
    assert!(!is_printable(&ev(KeyCode::Enter, KeyModifiers::none())));
}

#[test]
fn test_key_event_to_id_up() {
    let event = ev(KeyCode::Up, KeyModifiers::none());
    assert_eq!(id(&event), Some("up".into()));
}

#[test]
fn test_key_event_to_id_backspace() {
    let event = ev(KeyCode::Backspace, KeyModifiers::none());
    assert_eq!(id(&event), Some("backspace".into()));
}

#[test]
fn key_ids_of_other_keys() {
    assert_eq!(id(&ev(KeyCode::F(5), KeyModifiers::shift())), Some("shift+f5".into()));
    assert_eq!(id(&ev(KeyCode::PageUp, KeyModifiers::none())), Some("pageUp".into()));
    assert_eq!(id(&ev(KeyCode::Char('X'), KeyModifiers::control())), Some("ctrl+x".into()));
    assert_eq!(id(&ev(KeyCode::Char('x'), KeyModifiers::alt())), Some("alt+x".into()));
    assert_eq!(id(&ev(KeyCode::Tab, KeyModifiers::shift())), Some("shift+tab".into()));
    assert_eq!(id(&ev(KeyCode::Null, KeyModifiers::none())), None);
}

#[test]
fn match_key_id_modifier_rules() {
    // an unknown modifier or an empty id never matches
    let e = ev(KeyCode::Char('c'), KeyModifiers::control());
    assert!(!match_key_id(&e, "meta+c"));
    assert!(!match_key_id(&e, ""));
    // shift is allowed where it only changes the character
    let upper = ev(KeyCode::Char('P'), KeyModifiers::shift());
    assert!(match_key_id(&upper, "P"));
    let lower = ev(KeyCode::Char('p'), KeyModifiers::shift());
    assert!(!match_key_id(&lower, "p"));
    // back-tab answers to shift+tab only
    let bt = ev(KeyCode::BackTab, KeyModifiers::none());
    assert!(match_key_id(&bt, "shift+tab"));
    assert!(!match_key_id(&bt, "tab"));
    // aliases and F keys
    assert!(match_key_id(&ev(KeyCode::Enter, KeyModifiers::none()), "return"));
    assert!(match_key_id(&ev(KeyCode::F(12), KeyModifiers::none()), "F12"));
    assert!(match_key_id(&ev(KeyCode::PageDown, KeyModifiers::none()), "pagedown"));
    // the character compares without case
    assert!(match_key_id(&ev(KeyCode::Char('A'), KeyModifiers::control()), "ctrl+a"));
}

#[test]
fn key_constructors_lowercase() {
    assert_eq!(Key::ctrl('C'), Key::Ctrl('c'));
    assert_eq!(Key::ctrl_shift('P'), Key::CtrlShift('p'));
    assert_eq!(Key::alt('X'), Key::Alt('X'));
    assert_eq!(Key::shift_tab(), Key::ShiftTab);
    let t = ev(KeyCode::Tab, KeyModifiers::shift());
    assert!(matches_key(&t, &Key::shift_tab()));
    assert!(matches_key(&ev(KeyCode::Left, KeyModifiers::alt()), &Key::alt_left()));
    assert!(!matches_key(&ev(KeyCode::Left, KeyModifiers::none()), &Key::ctrl_left()));
}

#[test]
fn key_text_and_kinds() {
    assert_eq!(key_event_to_string(&ev(KeyCode::Enter, KeyModifiers::none())), Some("\n".to_string()));
    assert_eq!(key_event_to_string(&ev(KeyCode::Char('Q'), KeyModifiers::shift())), Some("Q".to_string()));
    assert_eq!(key_event_to_string(&ev(KeyCode::Char('q'), KeyModifiers::control())), None);
    assert_eq!(decode_kitty_printable(&ev(KeyCode::Char('z'), KeyModifiers::shift())), Some("z".to_string()));
    let mut e = ev(KeyCode::Char('a'), KeyModifiers::none());
    assert!(!is_key_release(&e));
    e.kind = KeyEventKind::Release;
    assert!(is_key_release(&e));
    e.kind = KeyEventKind::Repeat;
    assert!(is_key_repeat(&e));
}

#[test]
fn match_key_id_allows_shift_that_keeps_the_key() {
    // shift held on enter still answers to "enter"
    let shift_enter = ev(KeyCode::Enter, KeyModifiers::shift());
    assert!(match_key_id(&shift_enter, "enter"));
    assert!(match_key_id(&shift_enter, "shift+enter"));
    // ctrl is not shift: ctrl+enter does not answer to "enter"
    assert!(!match_key_id(&ev(KeyCode::Enter, KeyModifiers::control()), "enter"));
    // shift on an arrow key keeps the arrow
    assert!(match_key_id(&ev(KeyCode::Up, KeyModifiers::shift()), "up"));
    // shift on tab makes another key
    assert!(!match_key_id(&ev(KeyCode::Tab, KeyModifiers::shift()), "tab"));
    // shift on a lowercase letter makes another letter
    assert!(!match_key_id(&ev(KeyCode::Char('p'), KeyModifiers::shift()), "p"));
}
