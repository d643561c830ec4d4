use rab::tui::components::diff::{compute_word_diff, render_diff, Change};
use rab::tui::theme::NoopTheme;
use rab::ui::theme::RabTheme;

fn test_theme() -> RabTheme {
    RabTheme
}

#[test]
fn test_empty_diff() {
    let theme = test_theme();
    let result = render_diff("", &theme);
    assert!(result.is_empty());
}

#[test]
fn test_skips_headers() {
    let theme = test_theme();
    let diff = "--- a/file.rs\n+++ b/file.rs\n@@ -1,3 +1,4 @@\n";
    let result = render_diff(diff, &theme);
    assert!(result.is_empty(), "should skip all headers");
}

#[test]
fn test_context_lines() {
    let theme = test_theme();
    let diff = " line1\n line2\n";
    let result = render_diff(diff, &theme);
    assert_eq!(result.len(), 2);
    assert!(result[0].contains("line1"));
    assert!(result[0].starts_with("\x1b"));
    assert!(result[0].contains("\x1b[39m"));
}

#[test]
fn test_removed_line() {
    let theme = test_theme();
    let diff = "-old_line\n";
    let result = render_diff(diff, &theme);
    assert_eq!(result.len(), 1);
    assert!(result[0].contains('-'));
    assert!(result[0].contains("old_line"));
}

#[test]
fn test_added_line() {
    let theme = test_theme();
    let diff = "+new_line\n";
    let result = render_diff(diff, &theme);
    assert_eq!(result.len(), 1);
    assert!(result[0].contains('+'));
    assert!(result[0].contains("new_line"));
}

#[test]
fn test_single_line_modification() {
    let theme = test_theme();
    let diff = "-foo\n+bar\n";
    let result = render_diff(diff, &theme);
    assert_eq!(result.len(), 2);
    assert!(result[0].contains('-'));
    assert!(result[1].contains('+'));
    assert!(result[0].contains("\x1b[7m"), "should have inverse on removed");
    assert!(result[1].contains("\x1b[7m"), "should have inverse on added");
}

#[test]
fn test_multi_line_removes() {
    let theme = test_theme();
    let diff = "-a\n-b\n+c\n";
    let result = render_diff(diff, &theme);
    assert_eq!(result.len(), 3);
    assert!(result[0].contains("-a"));
    assert!(result[1].contains("-b"));
    assert!(result[2].contains("+c"));
}

#[test]
fn test_multi_line_removes_no_intra_diff() {
    let theme = test_theme();
    let diff = "-aaa\n-bbb\n+ccc\n+ddd\n";
    let result = render_diff(diff, &theme);
    assert_eq!(result.len(), 4);
    assert!(!result[0].contains("\x1b[7m"), "no inverse on multi-line remove");
}

#[test]
fn test_compute_word_diff_basic() {
    let changes = compute_word_diff("abc", "abd");
    assert!(!changes.is_empty());
}

#[test]
fn test_compute_word_diff_identical() {
    let changes = compute_word_diff("hello", "hello");
    assert_eq!(changes.len(), 1);
    assert!(matches!(changes[0], Change::Equal(_)));
}

#[test]
fn test_tabs_replaced() {
    let theme = test_theme();
    let diff = "-\tindented\n";
    let result = render_diff(diff, &theme);
    assert_eq!(result.len(), 1);
    assert!(!result[0].contains('\t'), "tabs should be replaced");
}

#[test]
fn test_context_line_format() {
    let theme = test_theme();
    let diff = " context\n";
    let result = render_diff(diff, &theme);
    assert_eq!(result.len(), 1);
    assert!(result[0].contains("context"));
    assert!(result[0].starts_with("\x1b"));
}

// ── Own cases ──

fn texts(cs: &[Change]) -> Vec<String> {
    cs.iter()
        .map(|c| match c {
            Change::Equal(t) => format!("={}", t),
            Change::Removed(t) => format!("-{}", t),
            Change::Added(t) => format!("+{}", t),
        })
        .collect()
}

#[test]
fn diff_word_changes_are_joined() {
    let changes = compute_word_diff("the quick fox", "the slow fox");
    assert_eq!(texts(&changes), vec!["=the ", "-quick", "+slow", "= fox"]);
}

#[test]
fn diff_intra_line_keeps_indent_out_of_reverse() {
    let diff = "-  let a = 1;\n+  let b = 1;\n";
    let result = render_diff(diff, &NoopTheme);
    assert_eq!(result, vec!["-  let a = 1;".to_string(), "+  let b = 1;".to_string()]);
    let result = render_diff("-x\n+ y\n", &RabTheme);
    assert!(result[1].contains("+ \x1b[7m"));
}

#[test]
fn diff_context_and_crlf_lines() {
    let result = render_diff(" a\r\n b", &NoopTheme);
    assert_eq!(result, vec![" a".to_string(), " b".to_string()]);
}

#[test]
fn word_diff_shows_both_texts() {
    let old = "the quick brown fox, 42 times";
    let new = "the slow brown dog, 43 times!";
    let changes = compute_word_diff(old, new);
    let mut o = String::new();
    let mut n = String::new();
    for c in &changes {
        match c {
            Change::Equal(t) => {
                o.push_str(t);
                n.push_str(t);
            }
            Change::Removed(t) => o.push_str(t),
            Change::Added(t) => n.push_str(t),
        }
    }
    assert_eq!(o, old);
    assert_eq!(n, new);
}
