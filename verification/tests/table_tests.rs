use rab::tui::components::table::{compute_column_widths, render_table};
use rab::tui::theme::Style;

fn cell(lines: &[&str]) -> Vec<String> {
    lines.iter().map(|l| l.to_string()).collect()
}

#[test]
fn table_with_natural_widths() {
    let header = vec![cell(&["A"]), cell(&["BB"])];
    let body = vec![vec![cell(&["x"]), cell(&["yyy"])]];
    let lines = render_table(&header, &body, 2, 40, &Style::new());
    assert_eq!(
        lines,
        vec![
            "┌───┬─────┐".to_string(),
            "│ A │ BB  │".to_string(),
            "├───┼─────┤".to_string(),
            "│ x │ yyy │".to_string(),
            "└───┴─────┘".to_string(),
        ]
    );
}

#[test]
fn table_rows_separated_and_header_bold() {
    let header = vec![cell(&["A"])];
    let body = vec![vec![cell(&["1"])], vec![cell(&["2"])]];
    let lines = render_table(&header, &body, 1, 20, &Style::new().bold());
    assert_eq!(lines.len(), 7);
    assert_eq!(lines[1], "│ \x1b[1mA\x1b[22m │");
    assert_eq!(lines[3], "│ 1 │");
    assert_eq!(lines[4], "├───┤");
    assert_eq!(lines[5], "│ 2 │");
}

#[test]
fn table_too_narrow_or_headless_is_empty() {
    let header = vec![cell(&["A"]), cell(&["B"])];
    assert!(render_table(&header, &vec![], 2, 8, &Style::new()).is_empty());
    assert!(render_table(&vec![], &vec![], 2, 40, &Style::new()).is_empty());
    assert!(render_table(&header, &vec![], 0, 40, &Style::new()).is_empty());
}

#[test]
fn table_wraps_a_cell_when_columns_shrink() {
    let header = vec![cell(&["Name"]), cell(&["Description"])];
    let body = vec![vec![cell(&["a"]), cell(&["one two three four"])]];
    let lines = render_table(&header, &body, 2, 25, &Style::new());
    let rule = |l: &str, m: &str, r: &str| format!("{}─{}─{}─{}─{}", l, "─".repeat(4), m, "─".repeat(14), r);
    assert_eq!(
        lines,
        vec![
            rule("┌", "┬", "┐"),
            "│ Name │ Description    │".to_string(),
            rule("├", "┼", "┤"),
            "│ a    │ one two three  │".to_string(),
            "│      │ four           │".to_string(),
            rule("└", "┴", "┘"),
        ]
    );
}

#[test]
fn column_widths_grow_in_proportion_then_share_evenly() {
    // all fit: natural widths, at least the longest word
    assert_eq!(compute_column_widths(&vec![3, 5], &vec![4, 2], 40), vec![4, 5]);
    // room for the words: the extra goes in proportion to what each could use
    assert_eq!(compute_column_widths(&vec![4, 18], &vec![4, 11], 25), vec![4, 14]);
    // one more column each from the left while room is left
    assert_eq!(compute_column_widths(&vec![10, 10], &vec![1, 1], 14), vec![4, 3]);
    // not even room for the words: the room shared out evenly
    assert_eq!(compute_column_widths(&vec![20, 20, 20], &vec![15, 15, 15], 20), vec![4, 3, 3]);
}
