use rab::tui::util::{
    extract_segments, is_whitespace_char, normalize_terminal_output, slice_by_column,
    truncate_to_width, visible_width, wrap_text_with_ansi,
};

#[test]
fn test_visible_width_ascii() {
    assert_eq!(visible_width("hello"), 5);
    assert_eq!(visible_width(""), 0);
}

#[test]
fn test_visible_width_with_ansi() {
    assert_eq!(visible_width("\x1b[31mhello\x1b[0m"), 5);
    assert_eq!(visible_width("\t\x1b[31m界\x1b[0m"), 5);
}

#[test]
fn test_visible_width_cjk() {
    assert_eq!(visible_width("世界"), 4);
    assert_eq!(visible_width("hello世界"), 9);
}

#[test]
fn test_visible_width_emoji() {
    assert_eq!(visible_width("🙂"), 2);
    assert_eq!(visible_width("👋"), 2);
}

#[test]
fn test_truncate_to_width_no_truncation() {
    let result = truncate_to_width("hello", 10, "...", false);
    assert_eq!(result, "hello");
}

#[test]
fn test_truncate_to_width_with_ellipsis() {
    let result = truncate_to_width("hello world", 8, "...", false);
    assert!(visible_width(&result) <= 8);
    assert!(result.contains("..."));
}

#[test]
fn test_truncate_to_width_with_pad() {
    let result = truncate_to_width("hi", 8, "...", true);
    assert_eq!(visible_width(&result), 8);
}

#[test]
fn test_truncate_to_width_empty() {
    assert_eq!(truncate_to_width("", 5, "...", false), "");
    assert_eq!(truncate_to_width("", 5, "...", true), " ".repeat(5));
}

#[test]
fn test_truncate_to_width_max_zero() {
    assert_eq!(truncate_to_width("hello", 0, "...", false), "");
}

#[test]
fn test_wrap_basic() {
    let text = "hello world this is a test";
    let wrapped = wrap_text_with_ansi(text, 10);
    assert!(wrapped.len() > 1);
    for line in &wrapped {
        assert!(visible_width(line) <= 10);
    }
}

#[test]
fn test_wrap_no_wrap_needed() {
    let text = "hello";
    let wrapped = wrap_text_with_ansi(text, 10);
    assert_eq!(wrapped.len(), 1);
    assert_eq!(wrapped[0], "hello");
}

#[test]
fn test_wrap_preserves_ansi() {
    let text = "\x1b[31mhello world this is red\x1b[0m";
    let wrapped = wrap_text_with_ansi(text, 10);
    for line in wrapped.iter().skip(1) {
        assert!(line.starts_with("\x1b[31m"));
    }
}

#[test]
fn test_slice_by_column_basic() {
    let line = "hello world";
    assert_eq!(slice_by_column(line, 0, 5), "hello");
    assert_eq!(slice_by_column(line, 6, 5), "world");
    assert_eq!(slice_by_column(line, 3, 4), "lo w");
}

#[test]
fn test_slice_by_column_empty() {
    assert_eq!(slice_by_column("test", 0, 0), "");
}

#[test]
fn test_normalize_terminal_output() {
    let result = normalize_terminal_output("hello");
    assert_eq!(result, "hello\x1b[0m\x1b]8;;\x07");
}

#[test]
fn test_is_whitespace_char() {
    assert!(is_whitespace_char(" "));
    assert!(is_whitespace_char("\t"));
    assert!(!is_whitespace_char("a"));
    assert!(!is_whitespace_char(""));
}

#[test]
fn test_extract_segments_basic() {
    let line = "hello beautiful world";
    let (before, bw, after, aw) = extract_segments(line, 5, 15, 5, true);
    assert_eq!(before, "hello");
    assert_eq!(bw, 5);
    assert_eq!(after, " worl");
    assert_eq!(aw, 5);
}

#[test]
fn test_extract_segments_overflow() {
    let line = "short";
    let (before, bw, after, _aw) = extract_segments(line, 10, 15, 5, true);
    assert_eq!(before, "short");
    assert_eq!(bw, 5);
    assert!(after.is_empty());
}

#[test]
fn test_wrap_multiline_preserves_line_count() {
    let text = "hello world this is a test\nshort\nanother long line here yes";
    let wrapped = wrap_text_with_ansi(text, 10);
    let total_wrapped = wrapped.len();
    let expected_min = 3;
    assert!(
        total_wrapped >= expected_min,
        "Expected at least {} lines, got {}",
        expected_min,
        total_wrapped
    );
    for (i, line) in wrapped.iter().enumerate() {
        let w = visible_width(line);
        assert!(w <= 10, "Line {}: '{}' has visible_width {} > 10", i, line, w);
    }
}

#[test]
fn test_wrap_text_with_ansi_no_duplicate_lines() {
    let text = "abc def ghi\njk lm no pq rs";
    let result = wrap_text_with_ansi(text, 5);
    assert_eq!(
        result.len(),
        6,
        "Expected 6 wrapped lines (3+3), got {}: {:?}",
        result.len(),
        result
    );
    let mut seen = std::collections::HashSet::new();
    for line in &result {
        let trimmed = line.trim().to_string();
        if !trimmed.is_empty() && !seen.insert(trimmed.clone()) {
            panic!("Duplicate line found: '{}'", trimmed);
        }
    }
}

fn count_occurrences(text: &str, pattern: &str) -> usize {
    text.matches(pattern).count()
}

#[test]
fn test_wrap_user_text_does_not_introduce_duplicates() {
    let t1 = "ghhh jjj jkkk  jrjrnr jrnr rkr rrkr rmrrkrr k   ghhh jjj jkkk  jrjrnr jrnr rkr rrkr rmrrkrr k";
    let pattern = "ghhh jjj jkkk  jrjrnr jrnr rkr rrkr rmrrkrr k";
    let original_count = count_occurrences(t1, pattern);
    assert_eq!(original_count, 2, "Input should have 2 occurrences of pattern");
    for width in [40, 50, 60, 80, 100] {
        let wrapped = wrap_text_with_ansi(t1, width);
        let wrapped_count: usize = wrapped
            .iter()
            .map(|line| count_occurrences(line, pattern))
            .sum();
        assert!(
            wrapped_count <= original_count,
            "Width {}: wrapped has {} occurrences, input has {}",
            width,
            wrapped_count,
            original_count
        );
    }
}

#[test]
fn wrap_breaks_long_words_and_keeps_spaces() {
    let wrapped = wrap_text_with_ansi("abcdefghij klm", 4);
    assert_eq!(wrapped, vec!["abcd", "efgh", "ij ", "klm"]);
}

#[test]
fn wrap_reopens_style_on_next_logical_line() {
    let wrapped = wrap_text_with_ansi("\x1b[1mbold\nnext", 20);
    assert_eq!(wrapped, vec!["\x1b[1mbold", "\x1b[1mnext"]);
}

#[test]
fn wrap_empty_text_is_one_empty_line() {
    assert_eq!(wrap_text_with_ansi("", 5), vec![String::new()]);
}

#[test]
fn truncate_ascii_exact_output() {
    assert_eq!(truncate_to_width("hello world", 8, "...", false), "hello\x1b[0m...\x1b[0m");
    assert_eq!(truncate_to_width("hello world", 8, "...", true), "hello\x1b[0m...\x1b[0m");
    assert_eq!(truncate_to_width("hello world", 3, "...", true), "   ");
}

#[test]
fn truncate_wide_clusters() {
    // "世界世界" is 8 columns; keep two clusters (4 columns) and the ellipsis
    assert_eq!(truncate_to_width("世界世界", 6, "..", false), "世界\x1b[0m..\x1b[0m");
}

#[test]
fn slice_keeps_codes_in_range() {
    assert_eq!(slice_by_column("\x1b[31mab\x1b[0mcd", 1, 2), "\x1b[31mb\x1b[0mc");
}

#[test]
fn visible_width_ignores_zero_width_and_tabs() {
    assert_eq!(visible_width("a\u{200B}b"), 2);
    assert_eq!(visible_width("\t"), 3);
}

#[test]
fn test_visual_col_to_byte_offset_ascii() {
    let text = "hello";
    assert_eq!(rab::tui::util::visual_col_to_byte_offset(text, 0), 0);
    assert_eq!(rab::tui::util::visual_col_to_byte_offset(text, 3), 3);
    assert_eq!(rab::tui::util::visual_col_to_byte_offset(text, 5), 5);
}

#[test]
fn test_visual_col_to_byte_offset_cjk() {
    let text = "世界hello";
    assert_eq!(rab::tui::util::visual_col_to_byte_offset(text, 0), 0);
    assert_eq!(rab::tui::util::visual_col_to_byte_offset(text, 2), 3);
    assert_eq!(rab::tui::util::visual_col_to_byte_offset(text, 4), 6);
}

#[test]
fn test_visual_col_to_byte_offset_ansi() {
    let text = "\x1b[31mhello\x1b[0m";
    assert_eq!(rab::tui::util::visual_col_to_byte_offset(text, 0), 5);
    assert_eq!(rab::tui::util::visual_col_to_byte_offset(text, 1), 6);
    assert_eq!(rab::tui::util::visual_col_to_byte_offset(text, 2), 7);
    assert_eq!(rab::tui::util::visual_col_to_byte_offset(text, 3), 8);
    assert_eq!(rab::tui::util::visual_col_to_byte_offset(text, 4), 9);
    assert_eq!(rab::tui::util::visual_col_to_byte_offset(text, 5), 14);
}

#[test]
fn test_visual_col_to_byte_offset_empty() {
    assert_eq!(rab::tui::util::visual_col_to_byte_offset("", 0), 0);
    assert_eq!(rab::tui::util::visual_col_to_byte_offset("", 5), 0);
}

#[test]
fn test_visual_col_to_byte_offset_zero_col() {
    assert_eq!(rab::tui::util::visual_col_to_byte_offset("abc", 0), 0);
    assert_eq!(rab::tui::util::visual_col_to_byte_offset("\x1b[31mabc", 0), 5);
}

#[test]
fn wrap_breaks_runs_of_spaces_wider_than_the_line() {
    let wrapped = wrap_text_with_ansi("a     b", 3);
    assert_eq!(wrapped, vec!["a".to_string(), "   ".to_string(), "  b".to_string()]);
    for line in &wrapped {
        assert!(visible_width(line) <= 3);
    }
}
