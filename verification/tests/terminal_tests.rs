use rab::tui::terminal::{ProcessTerminal, Terminal};

fn text(out: Vec<u8>) -> String {
    String::from_utf8(out).unwrap()
}

#[test]
fn test_new_terminal() {
    let term = ProcessTerminal::new();
    assert!(!term.kitty_protocol_active());
}

#[test]
fn terminal_start_and_stop_sessions() {
    let mut term = ProcessTerminal::new();
    assert!(!term.raw_mode_enabled());
    let mut out = Vec::new();
    term.start(&mut out);
    assert!(term.raw_mode_enabled());
    assert_eq!(text(out), "\x1b[?2004h");

    let mut out = Vec::new();
    assert!(term.stop(&mut out));
    assert!(!term.raw_mode_enabled());
    assert_eq!(text(out), "\x1b[?2004l");

    let mut out = Vec::new();
    assert!(!term.stop(&mut out));
    assert_eq!(text(out), "\x1b[?2004l");
}

#[test]
fn terminal_move_by_rows() {
    let term = ProcessTerminal::new();
    let mut out = Vec::new();
    term.move_by(&mut out, 3);
    term.move_by(&mut out, -12);
    term.move_by(&mut out, 0);
    assert_eq!(text(out), "\x1b[3B\x1b[12A");
}

#[test]
fn terminal_sequences() {
    let term = ProcessTerminal::new();
    let mut out = Vec::new();
    term.hide_cursor(&mut out);
    term.show_cursor(&mut out);
    term.clear_line(&mut out);
    term.clear_from_cursor(&mut out);
    term.clear_screen(&mut out);
    assert_eq!(text(out), "\x1b[?25l\x1b[?25h\x1b[2K\x1b[J\x1b[2J\x1b[H");

    let mut out = Vec::new();
    term.set_title(&mut out, "rab");
    term.set_progress(&mut out, true);
    term.set_progress(&mut out, false);
    term.set_color_scheme_notifications(&mut out, true);
    term.set_color_scheme_notifications(&mut out, false);
    term.write(&mut out, "héllo");
    assert_eq!(
        text(out),
        "\x1b]0;rab\x07\x1b]9;4;3\x07\x1b]9;4;0;\x07\x1b[?2031h\x1b[?2031lhéllo"
    );
}

#[test]
fn terminal_disable_kitty_when_off_sends_nothing() {
    let mut term = ProcessTerminal::new();
    let mut out = Vec::new();
    term.disable_kitty_protocol(&mut out);
    assert!(out.is_empty());
    assert!(!term.kitty_protocol_active());
}

#[test]
fn legacy_terminal_sequences() {
    let mut out = Vec::new();
    Terminal::move_cursor_to(&mut out, 4, 9);
    Terminal::show_cursor(&mut out);
    Terminal::hide_cursor(&mut out);
    Terminal::clear_line(&mut out);
    Terminal::clear_screen(&mut out);
    Terminal::begin_sync(&mut out);
    Terminal::end_sync(&mut out);
    Terminal::set_color_scheme_notifications(&mut out, true);
    Terminal::write(&mut out, "x");
    assert_eq!(
        text(out),
        "\x1b[5;10H\x1b[?25h\x1b[?25l\x1b[2K\x1b[2J\x1b[?2026h\x1b[?2026l\x1b[?2031hx"
    );
}

#[test]
fn legacy_terminal_session() {
    let mut t = Terminal::new();
    let mut out = Vec::new();
    t.start(&mut out);
    assert!(t.stop(&mut out));
    assert!(!t.stop(&mut Vec::new()));
    assert_eq!(text(out), "\x1b[?2004h\x1b[?2004l");
}
