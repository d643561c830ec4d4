use rab::tui::focusable::CURSOR_MARKER;
use rab::tui::screen::Screen;

#[test]
fn test_new_screen() {
    let screen = Screen::new();
    assert_eq!(screen.full_redraw_count(), 0);
}

#[test]
fn test_clear_on_shrink_default() {
    let screen = Screen::new();
    assert!(screen.clear_on_shrink());
}

#[test]
fn test_first_render() {
    let mut screen = Screen::new();
    let lines = vec!["hello".to_string(), "world".to_string()];
    let mut output = Vec::new();

    screen.render(lines.clone(), 80, 24, &mut output);

    let output_str = String::from_utf8(output).unwrap();
    assert!(output_str.contains("hello"));
    assert!(output_str.contains("world"));
}

#[test]
fn test_differential_update() {
    let mut screen = Screen::new();
    let mut output = Vec::new();

    let lines1 = vec!["hello".to_string(), "world".to_string()];
    screen.render(lines1.clone(), 80, 24, &mut output);
    output.clear();

    screen.render(lines1.clone(), 80, 24, &mut output);
    assert!(output.is_empty());

    let lines2 = vec!["hello".to_string(), "rust".to_string()];
    screen.render(lines2.clone(), 80, 24, &mut output);
    let output_str = String::from_utf8(output.clone()).unwrap();
    assert!(output_str.contains("rust"));
}

#[test]
fn test_type_character_single_line_change() {
    let mut screen = Screen::new();
    let mut output = Vec::new();

    let mut initial: Vec<String> = Vec::new();
    for i in 0..12 {
        initial.push(format!("line {:02}", i));
    }
    screen.render(initial.clone(), 40, 24, &mut output);
    output.clear();

    let mut after = initial.clone();
    after[7] = "line 07/".to_string();
    screen.render(after, 40, 24, &mut output);

    let text = String::from_utf8_lossy(&output);
    assert!(text.contains("line 07/"), "Missing changed text in: {}", text);
    assert!(!text.contains("\x1b[2J"), "Should not full-clear on single line change");
}

#[test]
fn test_screen_append_no_duplicate_content() {
    let mut screen = Screen::new();
    let mut output = Vec::new();

    let frame1 = vec!["a", "b", "c", "d"].into_iter().map(String::from).collect::<Vec<_>>();
    screen.render(frame1, 40, 24, &mut output);
    output.clear();

    let frame2 = vec!["a", "b", "c", "d", "e"].into_iter().map(String::from).collect::<Vec<_>>();
    screen.render(frame2, 40, 24, &mut output);

    let content = String::from_utf8_lossy(&output);
    let counts = ["a", "b", "c", "d"];
    for &ch in &counts {
        let n = content.matches(ch).count();
        assert!(n <= 1, "'{}' should appear at most once in diff, got {}: {:?}", ch, n, content);
    }
    let e_count = content.matches('e').count();
    assert_eq!(e_count, 1, "'e' should appear exactly once, got {}", e_count);
}

#[test]
fn test_screen_insert_line_mid_content_no_duplicates() {
    let mut screen = Screen::new();
    let mut output = Vec::new();

    let frame1 = vec!["a", "c", "d"].into_iter().map(String::from).collect::<Vec<_>>();
    screen.render(frame1, 40, 24, &mut output);
    output.clear();

    let frame2 = vec!["a", "b", "c", "d"].into_iter().map(String::from).collect::<Vec<_>>();
    screen.render(frame2, 40, 24, &mut output);

    let content = String::from_utf8_lossy(&output);
    assert!(content.matches('a').count() <= 1, "'a' should appear at most once: {:?}", content);
    assert!(content.contains('b'), "Should contain 'b'");
    assert!(content.contains('c'), "Should contain 'c'");
    assert!(content.contains('d'), "Should contain 'd'");
}

#[test]
fn test_screen_editor_appended_empty_line_no_duplicate() {
    let mut screen = Screen::new();
    let mut output = Vec::new();

    let frame1 = vec![
        "header".to_string(),
        "── editor border ──".to_string(),
        "hello".to_string(),
        "── editor border ──".to_string(),
        "footer".to_string(),
    ];
    screen.render(frame1, 30, 24, &mut output);
    output.clear();

    let frame2 = vec![
        "header".to_string(),
        "── editor border ──".to_string(),
        "hello".to_string(),
        "".to_string(),
        "── editor border ──".to_string(),
        "footer".to_string(),
    ];
    screen.render(frame2, 30, 24, &mut output);

    let content = String::from_utf8_lossy(&output);
    let hello_count = content.matches("hello").count();
    assert!(hello_count <= 1, "'hello' should appear at most once in diff, got {}: {:?}", hello_count, content);
    let footer_count = content.matches("footer").count();
    assert!(footer_count <= 1, "'footer' should appear at most once in diff, got {}: {:?}", footer_count, content);
}

#[test]
fn test_cursor_marker_extraction() {
    let screen = Screen::new();
    let mut lines = vec!["line 1".to_string(), format!("before{}after", CURSOR_MARKER), "line 3".to_string()];
    let pos = screen.extract_cursor_marker(&mut lines, 10);
    assert!(pos.is_some());
    let (row, col) = pos.unwrap();
    assert_eq!(row, 1);
    assert_eq!(col, 6);
    assert_eq!(lines[1], "beforeafter");
    assert!(!lines[1].contains(CURSOR_MARKER));
}

#[test]
fn test_cursor_marker_outside_viewport() {
    let screen = Screen::new();
    let mut lines = vec![
        format!("{}marker", CURSOR_MARKER),
        "b".to_string(),
        "c".to_string(),
        "d".to_string(),
        "e".to_string(),
    ];
    let pos = screen.extract_cursor_marker(&mut lines, 2);
    assert!(pos.is_none());
}

#[test]
fn screen_first_frame_exact_output() {
    let mut screen = Screen::new();
    let mut out = Vec::new();
    screen.render(vec!["ab".to_string(), "cd".to_string()], 10, 5, &mut out);
    assert_eq!(String::from_utf8(out).unwrap(), "\x1b[?2026hab\r\ncd\x1b[?2026l");
    assert_eq!(screen.full_redraw_count(), 1);
    assert_eq!(screen.total_lines(), 2);
    assert_eq!(screen.hardware_cursor_row(), 1);
    assert_eq!(screen.prev_viewport_top(), 0);
    assert_eq!(screen.prev_width(), 10);
    assert_eq!(screen.prev_height(), 5);
}

#[test]
fn screen_rerender_is_silent() {
    let mut screen = Screen::new();
    let mut out = Vec::new();
    let frame = vec!["x".to_string(), "y".to_string(), "z".to_string()];
    screen.render(frame.clone(), 20, 10, &mut out);
    out.clear();
    screen.render(frame, 20, 10, &mut out);
    assert!(out.is_empty());
    assert_eq!(screen.full_redraw_count(), 1);
}

#[test]
fn screen_resize_redraws_with_clear() {
    let mut screen = Screen::new();
    let mut out = Vec::new();
    screen.render(vec!["x".to_string()], 20, 10, &mut out);
    out.clear();
    screen.render(vec!["x".to_string()], 30, 10, &mut out);
    assert_eq!(String::from_utf8(out).unwrap(), "\x1b[2J\x1b[H\x1b[3J\x1b[?2026hx\x1b[?2026l");
    assert_eq!(screen.full_redraw_count(), 2);
}

#[test]
fn screen_shrink_clears_or_erases_rows() {
    let mut screen = Screen::new();
    let mut out = Vec::new();
    screen.render(vec!["a".to_string(), "b".to_string(), "c".to_string()], 20, 10, &mut out);
    out.clear();
    screen.render(vec!["a".to_string()], 20, 10, &mut out);
    assert!(String::from_utf8(out.clone()).unwrap().starts_with("\x1b[2J"));
    assert_eq!(screen.full_redraw_count(), 2);

    let mut screen = Screen::new();
    screen.set_clear_on_shrink(false);
    screen.set_use_sync_output(false);
    let mut out = Vec::new();
    screen.render(vec!["a".to_string(), "b".to_string(), "c".to_string()], 20, 10, &mut out);
    out.clear();
    screen.render(vec!["a".to_string()], 20, 10, &mut out);
    assert_eq!(String::from_utf8(out).unwrap(), "\x1b[2A\r\x1b[1B\r\x1b[2K\x1b[1B\r\x1b[2K\x1b[2A");
    assert_eq!(screen.total_lines(), 1);
    assert_eq!(screen.full_redraw_count(), 1);
}

#[test]
fn screen_changed_line_exact_update() {
    let mut screen = Screen::new();
    screen.set_use_sync_output(false);
    let mut out = Vec::new();
    screen.render(vec!["a".to_string(), "b".to_string(), "c".to_string()], 20, 10, &mut out);
    out.clear();
    screen.render(vec!["a".to_string(), "B".to_string(), "c".to_string()], 20, 10, &mut out);
    assert_eq!(String::from_utf8(out).unwrap(), "\x1b[1A\r\x1b[2KB");
    assert_eq!(screen.hardware_cursor_row(), 2);
}

#[test]
fn screen_render_returns_cursor_position() {
    let mut screen = Screen::new();
    let mut out = Vec::new();
    let pos = screen.render(vec!["ab".to_string(), format!("xy{}z", CURSOR_MARKER)], 20, 10, &mut out);
    assert_eq!(pos, Some((1, 2)));
    let text = String::from_utf8(out).unwrap();
    assert!(!text.contains(CURSOR_MARKER));
    assert!(text.contains("xyz"));
}

#[test]
fn screen_finalize_moves_past_content() {
    let mut screen = Screen::new();
    let mut out = Vec::new();
    screen.render(vec!["a".to_string(), "b".to_string()], 20, 10, &mut out);
    let mut fin = Vec::new();
    screen.finalize(&mut fin);
    assert_eq!(String::from_utf8(fin).unwrap(), "\x1b[1B\r\n");

    let mut empty = Screen::new();
    let mut fin = Vec::new();
    empty.finalize(&mut fin);
    assert!(fin.is_empty());
}
