use rab::tui::visual_truncate::{format_hidden_hint, truncate_to_visual_lines, visual_line_count};

#[test]
fn test_visual_line_count_ascii() {
    assert_eq!(visual_line_count("hello", 80), 1);
    assert_eq!(visual_line_count("", 80), 1);
}

#[test]
fn test_visual_line_count_wrapping() {
    assert_eq!(visual_line_count(&"a".repeat(100), 80), 2);
    assert_eq!(visual_line_count(&"a".repeat(160), 80), 2);
    assert_eq!(visual_line_count(&"a".repeat(161), 80), 3);
}

#[test]
fn test_visual_line_count_zero_width() {
    assert_eq!(visual_line_count("hello", 0), 1);
}

#[test]
fn test_truncate_to_visual_lines_no_truncation() {
    let lines = vec!["short", "also short"];
    let (selected, hidden) = truncate_to_visual_lines(&lines, 80, 10);
    assert_eq!(selected.len(), 2);
    assert_eq!(hidden, 0);
}

#[test]
fn test_truncate_to_visual_lines_with_wrapping() {
    let line1 = "a".repeat(100);
    let line2 = "b".repeat(100);
    let line3 = "c".repeat(100);
    let lines = vec![line1.as_str(), line2.as_str(), line3.as_str()];
    let (selected, hidden) = truncate_to_visual_lines(&lines, 80, 4);
    assert_eq!(selected.len(), 2);
    assert_eq!(hidden, 1);
    assert_eq!(selected[0], line2.as_str());
    assert_eq!(selected[1], line3.as_str());
}

#[test]
fn test_truncate_to_visual_lines_exact_fit() {
    let line1 = "a".repeat(100);
    let line2 = "b".repeat(100);
    let lines = vec![line1.as_str(), line2.as_str()];
    let (selected, hidden) = truncate_to_visual_lines(&lines, 80, 4);
    assert_eq!(selected.len(), 2);
    assert_eq!(hidden, 0);
}

#[test]
fn test_truncate_to_visual_lines_empty() {
    let lines: Vec<&str> = vec![];
    let (selected, hidden) = truncate_to_visual_lines(&lines, 80, 5);
    assert!(selected.is_empty());
    assert_eq!(hidden, 0);
}

#[test]
fn test_truncate_to_visual_lines_mixed_widths() {
    let short1 = "short";
    let long = "x".repeat(100);
    let short2 = "also short";
    let lines = vec![short1, long.as_str(), short2];
    let (selected, hidden) = truncate_to_visual_lines(&lines, 80, 3);
    assert_eq!(selected.len(), 2);
    assert_eq!(hidden, 1);
    assert_eq!(selected[0], long.as_str());
    assert_eq!(selected[1], short2);
}

#[test]
fn test_format_hidden_hint() {
    let hint = format_hidden_hint(12, "C-O");
    assert!(hint.contains("12"));
    assert!(hint.contains("C-O"));
    let hint = format_hidden_hint(5, "");
    assert!(hint.contains("5"));
    assert!(!hint.contains("to expand"));
}

#[test]
fn hidden_hint_exact_text() {
    assert_eq!(format_hidden_hint(12, "ctrl+o"), "... (12 earlier lines, ctrl+o to expand)");
    assert_eq!(format_hidden_hint(0, ""), "... 0 earlier lines");
}

#[test]
fn truncation_stops_at_line_that_does_not_fit() {
    let long = "y".repeat(170);
    let lines = vec!["a", long.as_str(), "b"];
    let (selected, hidden) = truncate_to_visual_lines(&lines, 80, 3);
    assert_eq!(selected, vec!["b"]);
    assert_eq!(hidden, 2);
}

#[test]
fn truncate_with_no_rows_hides_every_line() {
    let lines = vec!["one", "two", "three"];
    let (selected, hidden) = truncate_to_visual_lines(&lines, 80, 0);
    assert!(selected.is_empty());
    assert_eq!(hidden, 3);
    let none: Vec<&str> = vec![];
    let (selected, hidden) = truncate_to_visual_lines(&none, 80, 0);
    assert!(selected.is_empty());
    assert_eq!(hidden, 0);
}
