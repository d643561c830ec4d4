use rab::tui::display::{pad_right, truncate_str};
use rab::tui::model_selector::filter_models;

#[test]
fn truncate_str_cuts_with_ellipsis() {
    assert_eq!(truncate_str("hello", 5), "hello");
    assert_eq!(truncate_str("hello", 4), "hel…");
    assert_eq!(truncate_str("héllo wörld", 6), "héllo…");
    assert_eq!(truncate_str("abc", 0), "…");
    assert_eq!(truncate_str("", 0), "");
}

#[test]
fn pad_right_aligns_right() {
    assert_eq!(pad_right("42", 5), "   42");
    assert_eq!(pad_right("12345", 3), "12345");
    assert_eq!(pad_right("é", 2), " é");
}

#[test]
fn filter_models_by_search_text() {
    let models = vec!["alpha-small".to_string(), "Beta-Large".to_string(), "beta-tiny".to_string()];
    assert_eq!(filter_models(&models, ""), vec!["alpha-small", "Beta-Large", "beta-tiny"]);
    assert_eq!(filter_models(&models, "BETA"), vec!["Beta-Large", "beta-tiny"]);
    assert_eq!(filter_models(&models, "large"), vec!["Beta-Large"]);
    assert!(filter_models(&models, "gamma").is_empty());
}
