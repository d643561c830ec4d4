use rab::tui::components::input::{Input, InputEvent};
use rab::tui::focusable::Focusable;
use rab::tui::keys::{KeyCode, KeyEvent, KeyModifiers};

#[test]
fn test_new_input_is_empty() {
    let input = Input::new();
    assert_eq!(input.get_value(), "");
}

#[test]
fn test_insert_text() {
    let mut input = Input::new();
    input.insert_text("hello");
    assert_eq!(input.get_value(), "hello");
    assert_eq!(input.cursor(), 5);
}

#[test]
fn input_test_backspace() {
    let mut input = Input::new();
    input.insert_text("hello");
    input.delete_before_cursor();
    assert_eq!(input.get_value(), "hell");
    assert_eq!(input.cursor(), 4);
}

#[test]
fn test_move_cursor() {
    let mut input = Input::new();
    input.insert_text("hello");
    input.move_cursor_left();
    assert_eq!(input.cursor(), 4);
    input.move_cursor_right();
    assert_eq!(input.cursor(), 5);
}

#[test]
fn test_set_value() {
    let mut input = Input::new();
    input.set_value("test");
    assert_eq!(input.get_value(), "test");
    assert_eq!(input.cursor(), 4);
}

#[test]
fn test_kill_to_end() {
    let mut input = Input::new();
    input.insert_text("hello world");
    for _ in 0..6 {
        input.move_cursor_left();
    }
    input.kill_to_end();
    assert_eq!(input.get_value(), "hello");
}

#[test]
fn input_test_undo() {
    let mut input = Input::new();
    input.insert_text("hello");
    input.undo();
    assert_eq!(input.get_value(), "");
}

#[test]
fn test_render_basic() {
    let mut input = Input::new();
    input.set_value("test");
    let lines = input.render(20);
    assert_eq!(lines.len(), 1);
    assert!(lines[0].contains("test"));
}

#[test]
fn test_undo_coalescing() {
    let mut input = Input::new();
    input.insert_text("h");
    input.insert_text("e");
    input.insert_text(" ");
    input.insert_text("w");
    assert_eq!(input.get_value(), "he w");
    input.undo();
    assert_eq!(input.get_value(), "he");
    input.undo();
    assert_eq!(input.get_value(), "");
}

#[test]
fn test_paste_handling() {
    let mut input = Input::new();
    input.handle_paste("hello\nworld");
    assert_eq!(input.get_value(), "helloworld");
    assert_eq!(input.cursor(), 10);
}

fn key(c: KeyCode, m: KeyModifiers) -> KeyEvent {
    KeyEvent::new(c, m)
}

#[test]
fn input_keys_edit_and_report() {
    let mut input = Input::new();
    input.set_on_submit();
    input.set_on_change();
    for c in "ab cd".chars() {
        assert!(input.handle_input(&key(KeyCode::Char(c), KeyModifiers::none())));
    }
    assert_eq!(input.get_value(), "ab cd");
    // ctrl+w kills the last word, ctrl+y yanks it back
    assert!(input.handle_input(&key(KeyCode::Char('w'), KeyModifiers::control())));
    assert_eq!(input.get_value(), "ab ");
    assert!(input.handle_input(&key(KeyCode::Char('y'), KeyModifiers::control())));
    assert_eq!(input.get_value(), "ab cd");
    // home, then ctrl+k kills to the end
    assert!(input.handle_input(&key(KeyCode::Home, KeyModifiers::none())));
    assert_eq!(input.cursor(), 0);
    assert!(input.handle_input(&key(KeyCode::Char('k'), KeyModifiers::control())));
    assert_eq!(input.get_value(), "");
    assert!(input.handle_input(&key(KeyCode::Char('z'), KeyModifiers::control())));
    assert_eq!(input.get_value(), "ab cd");
    assert!(input.handle_input(&key(KeyCode::Enter, KeyModifiers::none())));
    assert_eq!(input.get_value(), "");
    let events = input.take_events();
    assert_eq!(events.last(), Some(&InputEvent::Submit("ab cd".to_string())));
    assert!(events.contains(&InputEvent::Change("ab".to_string())));
    assert!(!input.handle_input(&key(KeyCode::F(3), KeyModifiers::none())));
}

#[test]
fn input_clusters_and_words() {
    let mut input = Input::new();
    input.insert_text("a\u{1F600}b");
    input.move_cursor_left();
    assert_eq!(input.cursor(), 5);
    input.move_cursor_left();
    assert_eq!(input.cursor(), 1);
    input.delete_after_cursor();
    assert_eq!(input.get_value(), "ab");
    input.set_value("one two");
    input.kill_word_backward();
    input.kill_word_backward();
    assert_eq!(input.get_value(), "");
    // consecutive kills accumulate into one entry
    input.yank();
    assert_eq!(input.get_value(), "one two");
}

#[test]
fn input_render_focused_cursor() {
    let mut input = Input::new();
    input.set_focused(true);
    input.insert_text("hi");
    let l = input.render(10);
    assert!(l[0].contains("\x1b[7m \x1b[27m"));
    assert!(l[0].starts_with("> "));
    assert!(input.focused());
}
