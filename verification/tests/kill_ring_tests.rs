use rab::tui::kill_ring::KillRing;

#[test]
fn test_push_and_peek() {
    let mut kr = KillRing::new();
    kr.push("hello", false, false);
    assert_eq!(kr.peek(), Some("hello"));
    assert_eq!(kr.len(), 1);
}

#[test]
fn test_push_empty_ignored() {
    let mut kr = KillRing::new();
    kr.push("", false, false);
    assert!(kr.is_empty());
}

#[test]
fn test_accumulate_append() {
    let mut kr = KillRing::new();
    kr.push("hello", false, false);
    kr.push(" world", false, true);
    assert_eq!(kr.peek(), Some("hello world"));
    assert_eq!(kr.len(), 1);
}

#[test]
fn test_accumulate_prepend() {
    let mut kr = KillRing::new();
    kr.push("world", false, false);
    kr.push("hello ", true, true);
    assert_eq!(kr.peek(), Some("hello world"));
}

#[test]
fn test_accumulate_without_entries() {
    let mut kr = KillRing::new();
    kr.push("hello", false, true);
    assert_eq!(kr.peek(), Some("hello"));
}

#[test]
fn test_rotate_single_entry() {
    let mut kr = KillRing::new();
    kr.push("only", false, false);
    kr.rotate();
    assert_eq!(kr.peek(), Some("only"));
}

#[test]
fn test_rotate_multiple() {
    let mut kr = KillRing::new();
    kr.push("first", false, false);
    kr.push("second", false, false);
    kr.push("third", false, false);
    assert_eq!(kr.peek(), Some("third"));
    kr.rotate();
    assert_eq!(kr.peek(), Some("second"));
    kr.rotate();
    assert_eq!(kr.peek(), Some("first"));
    kr.rotate();
    assert_eq!(kr.peek(), Some("third"));
}

#[test]
fn rotate_cycle_returns_to_start() {
    let mut kr = KillRing::new();
    for w in ["a", "b", "c", "d"] {
        kr.push(w, false, false);
    }
    for _ in 0..4 {
        kr.rotate();
    }
    assert_eq!(kr.peek(), Some("d"));
    assert_eq!(kr.len(), 4);
}

#[test]
fn peek_on_empty_ring() {
    let kr = KillRing::new();
    assert_eq!(kr.peek(), None);
}
