use rab::tui::word_nav::{
    find_word_backward, find_word_backward_in, find_word_backward_with, find_word_forward,
    find_word_forward_in, find_word_forward_with, is_ascii_punctuation, WordNavigationOptions,
    WordSegment,
};

type Segmenter = fn(&str) -> Vec<WordSegment>;

#[test]
fn test_find_word_backward_basic() {
    let text = "hello world";
    assert_eq!(find_word_backward(text, 11), 6);
    assert_eq!(find_word_backward(text, 6), 0);
}

#[test]
fn test_find_word_backward_dotted() {
    let text = "foo.bar";
    assert_eq!(find_word_backward(text, 7), 4);
    assert_eq!(find_word_backward(text, 4), 3);
    assert_eq!(find_word_backward(text, 3), 0);
}

#[test]
fn test_find_word_backward_cursor_at_zero() {
    assert_eq!(find_word_backward("hello", 0), 0);
}

#[test]
fn test_find_word_backward_punctuation_run() {
    let text = "foo...bar";
    assert_eq!(find_word_backward(text, 9), 6);
    assert_eq!(find_word_backward(text, 6), 3);
    assert_eq!(find_word_backward(text, 3), 0);
}

#[test]
fn test_find_word_forward_basic() {
    let text = "hello world";
    assert_eq!(find_word_forward(text, 0), 5);
    assert_eq!(find_word_forward(text, 5), 11);
}

#[test]
fn test_find_word_forward_dotted() {
    let text = "foo.bar";
    assert_eq!(find_word_forward(text, 0), 3);
    assert_eq!(find_word_forward(text, 3), 4);
    assert_eq!(find_word_forward(text, 4), 7);
}

#[test]
fn test_find_word_forward_cursor_at_end() {
    assert_eq!(find_word_forward("hello", 5), 5);
}

#[test]
fn test_find_word_forward_punctuation_run() {
    let text = "foo...bar";
    assert_eq!(find_word_forward(text, 0), 3);
    assert_eq!(find_word_forward(text, 3), 6);
    assert_eq!(find_word_forward(text, 6), 9);
}

#[test]
fn test_find_word_backward_with_atomic_segment() {
    let options = WordNavigationOptions {
        segment: None::<Segmenter>,
        is_atomic_segment: Some(|s: &str| s.starts_with("[paste")),
    };
    let text = "hello [paste #1] world";
    let cursor = text.len();
    let result = find_word_backward_with(text, cursor, &options);
    assert!(result < cursor, "Should have moved backward");
}

#[test]
fn test_find_word_forward_with_atomic_segment() {
    let options = WordNavigationOptions {
        segment: None::<Segmenter>,
        is_atomic_segment: Some(|s: &str| s.starts_with("[paste")),
    };
    let text = "hello [paste #1] world";
    let cursor = 6;
    let result = find_word_forward_with(text, cursor, &options);
    assert!(result > cursor, "Should have moved forward past marker");
}

#[test]
fn test_punctuation_regex_matches() {
    assert!(is_ascii_punctuation('.'));
    assert!(is_ascii_punctuation(','));
    assert!(is_ascii_punctuation(';'));
    assert!(is_ascii_punctuation(':'));
    assert!(is_ascii_punctuation('!'));
    assert!(is_ascii_punctuation('?'));
    assert!(!is_ascii_punctuation('a'));
    assert!(!is_ascii_punctuation(' '));
}

#[test]
fn test_word_segment_empty() {
    let ws = WordSegment { text: "".to_string(), is_word: false };
    assert!(ws.is_empty());
    assert_eq!(ws.len(), 0);
}

fn seg(t: &str, w: bool) -> WordSegment {
    WordSegment { text: t.to_string(), is_word: w }
}

#[test]
fn word_moves_over_given_segments() {
    // "ab  " : the trailing whitespace and then the word are skipped
    let segs = vec![seg("ab", true), seg("  ", false)];
    assert_eq!(find_word_backward_in(&segs, &[false, false], 4), 0);
    // an atomic segment moves as one unit
    let segs = vec![seg("x ", false), seg("[paste #1]", false)];
    assert_eq!(find_word_backward_in(&segs, &[false, true], 12), 2);
    assert_eq!(find_word_forward_in(&segs, &[false, true], 0), 2);
    let segs = vec![seg("[paste #1]", false), seg(" y", false)];
    assert_eq!(find_word_forward_in(&segs, &[true, false], 5), 15);
}

#[test]
fn word_moves_count_bytes() {
    // "héllo wörld": é and ö take two bytes each
    let text = "h\u{e9}llo w\u{f6}rld";
    assert_eq!(text.len(), 13);
    assert_eq!(find_word_backward(text, 13), 7);
    assert_eq!(find_word_forward(text, 0), 6);
    // a cursor past the end is clamped
    assert_eq!(find_word_backward("abc", 99), 0);
    assert_eq!(find_word_forward("abc", 99), 3);
}

#[test]
fn default_options_agree_with_plain_calls() {
    let options: WordNavigationOptions<Segmenter, fn(&str) -> bool> = WordNavigationOptions::default();
    let text = "let x = foo.bar(1);";
    for c in 0..=text.len() {
        assert_eq!(find_word_backward_with(text, c, &options), find_word_backward(text, c));
        assert_eq!(find_word_forward_with(text, c, &options), find_word_forward(text, c));
    }
}

#[test]
fn custom_segmenter_is_used() {
    let split_all: Segmenter = |t: &str| t.chars().map(|c| WordSegment { text: c.to_string(), is_word: c.is_alphanumeric() }).collect();
    let options = WordNavigationOptions { segment: Some(split_all), is_atomic_segment: None::<fn(&str) -> bool> };
    // every character is its own segment: one word character at a time
    assert_eq!(find_word_backward_with("abc", 3, &options), 2);
    assert_eq!(find_word_forward_with("abc", 0, &options), 1);
}

#[test]
fn word_moves_stop_between_space_and_punctuation() {
    // backward from the end of "foo .": only the dot is skipped
    assert_eq!(find_word_backward("foo .", 5), 4);
    assert_eq!(find_word_backward("foo .", 4), 0);
    // forward from before ". bar": only the dot is skipped
    assert_eq!(find_word_forward(". bar", 0), 1);
    assert_eq!(find_word_forward(". bar", 1), 5);
    // a run of punctuation still moves as one
    assert_eq!(find_word_backward("a ...", 5), 2);
    assert_eq!(find_word_forward("... a", 0), 3);
}
