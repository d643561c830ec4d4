use rab::tui::components::cancellable_loader::CancellableLoader;
use rab::tui::components::dynamic_lines::DynamicLines;
use rab::tui::components::lines_component::LinesComponent;
use rab::tui::components::loader::Loader;
use rab::tui::components::select_list::{SelectItem, SelectList, SelectListTheme, SelectOutcome};
use rab::tui::components::spacer::Spacer;
use rab::tui::components::text::{StyledSegment, Text};
use rab::tui::components::truncated_text::TruncatedText;
use rab::tui::keys::{KeyCode, KeyEvent, KeyModifiers};
use rab::tui::render::resolve_scroll;
use rab::tui::theme::Style;
use rab::tui::util::visible_width;
use rab::ui::help::HelpOverlay;
use rab::ui::theme::RabTheme;

// ── text ──

#[test]
fn test_basic_render() {
    let mut text = Text::new("hello", 1, 0, None);
    let lines = text.render(20);
    assert!(!lines.is_empty());
    assert!(lines[0].contains("hello"));
}

#[test]
fn test_width_respected() {
    let mut text = Text::new("hello world this is a long line", 1, 0, None);
    let lines = text.render(10);
    for line in &lines {
        assert!(visible_width(line) <= 10);
    }
}

#[test]
fn text_test_padding() {
    let mut text = Text::new("hi", 2, 1, None);
    let lines = text.render(10);
    assert_eq!(lines.len(), 3);
}

#[test]
fn text_test_cache_hit() {
    let mut text = Text::new("hello", 1, 0, None);
    let a = text.render(20);
    let b = text.render(20);
    assert_eq!(a, b);
}

#[test]
fn test_styled_segment_render() {
    let style = Style::new().fg("\x1b[38;5;196m");
    let segment = StyledSegment { text: "red".to_string(), style: Some(style) };
    let result = segment.render();
    assert!(result.starts_with("\x1b[38"));
    assert!(result.contains("red"));
    assert!(result.ends_with("\x1b[39m"));
}

#[test]
fn test_unstyled_segment_render() {
    let segment = StyledSegment { text: "plain".to_string(), style: None };
    assert_eq!(segment.render(), "plain");
}

#[test]
fn test_from_segments() {
    let bold = Style::new().bold();
    let segments = vec![
        StyledSegment { text: "hello ".to_string(), style: None },
        StyledSegment { text: "world".to_string(), style: Some(bold) },
    ];
    let mut text = Text::from_segments(segments, 0, 0, None);
    let lines = text.render(20);
    assert!(!lines.is_empty());
    assert!(lines[0].contains("hello"));
    assert!(lines[0].contains("\x1b[1mworld\x1b[22m"));
}

#[test]
fn text_blank_content_renders_nothing() {
    let mut text = Text::new("  \t ", 1, 1, None);
    assert!(text.render(20).is_empty());
    let mut text = Text::new("a\tb", 0, 0, None);
    assert_eq!(text.render(10), vec!["a   b     ".to_string()]);
    text.set_text("xy");
    assert_eq!(text.render(4), vec!["xy  ".to_string()]);
}

// ── truncated text ──

#[test]
fn test_no_truncation() {
    let mut tt = TruncatedText::new("hello");
    let lines = tt.render(10);
    assert!(lines[0].starts_with("hello"));
    assert_eq!(visible_width(&lines[0]), 10);
}

#[test]
fn test_truncated() {
    let mut tt = TruncatedText::new("hello world");
    let lines = tt.render(8);
    assert!(visible_width(&lines[0]) <= 8);
    assert!(lines[0].contains("..."));
}

#[test]
fn truncated_text_test_padding() {
    let mut tt = TruncatedText::new("hello").with_padding(1, 1);
    let lines = tt.render(10);
    assert_eq!(lines.len(), 3, "Should have top pad + line + bottom pad");
    assert!(lines[0].chars().all(|c| c == ' '), "Top padding should be spaces");
    assert!(lines[1].contains("hello"), "Content should contain text");
    assert!(lines[2].chars().all(|c| c == ' '), "Bottom padding should be spaces");
}

#[test]
fn test_only_first_line() {
    let mut tt = TruncatedText::new("line1\nline2");
    let lines = tt.render(20);
    assert_eq!(lines.len(), 1);
    assert!(!lines[0].contains("line2"), "Should not contain second line");
}

#[test]
fn truncated_text_cache_follows_changes() {
    let mut tt = TruncatedText::new("abc");
    assert_eq!(tt.render(5), vec!["abc  ".to_string()]);
    assert_eq!(tt.render(5), vec!["abc  ".to_string()]);
    tt.set_text("abcdefgh");
    let l = tt.render(5);
    assert!(l[0].contains("..."));
    tt.set_ellipsis("~");
    assert!(tt.render(5)[0].contains('~'));
}

// ── select list ──

fn make_items() -> Vec<SelectItem> {
    vec![SelectItem::new("a", "Alpha"), SelectItem::new("b", "Beta"), SelectItem::new("c", "Gamma")]
}

#[test]
fn test_basic_navigation() {
    let mut list = SelectList::new(make_items(), 10, SelectListTheme::default());
    assert_eq!(list.selected_item().unwrap().value, "a");
    list.move_down();
    assert_eq!(list.selected_item().unwrap().value, "b");
    list.move_up();
    assert_eq!(list.selected_item().unwrap().value, "a");
}

#[test]
fn test_selection_wraps() {
    let mut list = SelectList::new(make_items(), 10, SelectListTheme::default());
    list.move_up();
    assert_eq!(list.selected_item().unwrap().value, "a");
    for _ in 0..5 {
        list.move_down();
    }
    assert_eq!(list.selected_item().unwrap().value, "c");
}

#[test]
fn select_list_test_render() {
    let list = SelectList::new(make_items(), 10, SelectListTheme::default());
    let lines = list.render(40);
    assert!(lines.len() >= 3);
}

#[test]
fn select_list_scrolls_and_selects() {
    let mut list = SelectList::new(make_items(), 2, SelectListTheme::default());
    let lines = list.render(40);
    // two items, the position and the hint
    assert_eq!(lines.len(), 4);
    assert_eq!(lines[2], "(1/3)");
    assert_eq!(lines[0], "\x1b[1m> \x1b[0m\x1b[1mAlpha\x1b[0m");
    assert_eq!(lines[1], "    Beta");
    list.move_down();
    list.move_down();
    let lines = list.render(40);
    assert_eq!(lines[0], "    Beta");
    assert_eq!(lines[2], "(3/3)");
    let enter = KeyEvent::new(KeyCode::Enter, KeyModifiers::none());
    assert!(list.handle_input(&enter));
    assert_eq!(list.take_outcome(), Some(SelectOutcome::Selected("c".to_string())));
    assert_eq!(list.take_outcome(), None);
    let esc = KeyEvent::new(KeyCode::Esc, KeyModifiers::none());
    assert!(list.handle_input(&esc));
    assert_eq!(list.take_outcome(), Some(SelectOutcome::Cancelled));
}

#[test]
fn select_list_search_filters() {
    let mut list = SelectList::new(make_items(), 10, SelectListTheme::default()).with_search();
    let g = KeyEvent::new(KeyCode::Char('m'), KeyModifiers::none());
    assert!(list.handle_input(&g));
    assert_eq!(list.selected_item().unwrap().value, "c");
    let z = KeyEvent::new(KeyCode::Char('z'), KeyModifiers::none());
    list.handle_input(&z);
    assert!(list.selected_item().is_none());
    assert_eq!(list.render(40), vec!["No matches".to_string()]);
    let bs = KeyEvent::new(KeyCode::Backspace, KeyModifiers::none());
    list.handle_input(&bs);
    assert_eq!(list.selected_item().unwrap().value, "c");
}

// ── loaders ──

#[test]
fn test_cancel_on_escape() {
    let mut cl = CancellableLoader::new("Working...");
    let escape = KeyEvent::new(KeyCode::Esc, KeyModifiers::none());
    assert!(!cl.is_cancelled());
    cl.handle_input(&escape);
    assert!(cl.is_cancelled());
}

#[test]
fn test_dispose_stops() {
    let mut cl = CancellableLoader::new("Working...");
    cl.start();
    cl.dispose();
    assert!(!cl.tick());
}

#[test]
fn loader_frames_advance_with_time() {
    let mut l = Loader::new();
    l.set_message("wait");
    assert_eq!(l.render(40), vec!["\u{280b} wait".to_string()]);
    assert!(!l.tick_after(1000));
    l.start();
    assert!(!l.tick_after(79));
    assert!(l.tick_after(80));
    assert_eq!(l.render(40), vec!["\u{2819} wait".to_string()]);
    // cut to the width in bytes: the frame takes three
    assert_eq!(l.render(5), vec!["\u{2819} w".to_string()]);
    l.set_frames(vec![]);
    assert_eq!(l.render(5), vec![String::new()]);
}

// ── simple components ──

#[test]
fn spacer_and_lines() {
    let mut s = Spacer::new(2);
    assert_eq!(s.render(10), vec![String::new(), String::new()]);
    s.set_lines(0);
    assert!(s.render(10).is_empty());
    let mut lc = LinesComponent::new();
    lc.push("a".to_string());
    lc.extend(vec!["b".to_string(), "c".to_string()]);
    assert_eq!(lc.render(5), vec!["a".to_string(), "b".to_string(), "c".to_string()]);
    lc.clear();
    assert!(lc.render(5).is_empty());
    let mut d = DynamicLines::new();
    d.set_lines(vec!["x".to_string()]);
    assert_eq!(d.cache_key(7).unwrap().state_hash, 0);
    assert_eq!(d.render(7), vec!["x".to_string()]);
    let k1 = d.cache_key(7).unwrap();
    d.render(7);
    assert_eq!(d.cache_key(7).unwrap(), k1);
}

#[test]
fn help_overlay_lists_commands() {
    let theme = RabTheme;
    let mut h = HelpOverlay::new(&theme);
    let plain = h.render(100);
    h.set_commands(vec![("model".to_string(), "Pick a model".to_string())]);
    let with = h.render(100);
    assert_eq!(with.len(), plain.len() + 4);
    assert!(with.iter().any(|l| l.contains("Slash Commands")));
    assert!(with.iter().all(|l| visible_width(l) >= 100));
}

// ── scrolling ──

#[test]
fn auto_scroll_follows_bottom() {
    let (scroll, auto) = resolve_scroll(5, 5, 0, true);
    assert_eq!(scroll, 0);
    assert!(auto);
    let (scroll, auto) = resolve_scroll(10, 5, 0, true);
    assert_eq!(scroll, 5);
    assert!(auto);
}

#[test]
fn manual_scroll_stays_put() {
    let (scroll, auto) = resolve_scroll(20, 5, 3, false);
    assert_eq!(scroll, 3);
    assert!(!auto);
}

#[test]
fn manual_scroll_clamped_to_max() {
    let (scroll, auto) = resolve_scroll(10, 5, 100, false);
    assert_eq!(scroll, 5);
    assert!(auto);
}

#[test]
fn snap_to_bottom_when_scrolled_to_end() {
    let (scroll, auto) = resolve_scroll(10, 5, 5, false);
    assert_eq!(scroll, 5);
    assert!(auto);
}

#[test]
fn snap_when_content_shrinks_below_viewport() {
    let (scroll, auto) = resolve_scroll(3, 5, 50, false);
    assert_eq!(scroll, 0);
    assert!(auto);
}

#[test]
fn auto_scroll_ignores_offset() {
    let (scroll, auto) = resolve_scroll(100, 5, 42, true);
    assert_eq!(scroll, 95);
    assert!(auto);
}

#[test]
fn empty_content() {
    let (scroll, auto) = resolve_scroll(0, 5, 0, true);
    assert_eq!(scroll, 0);
    assert!(auto);
}

#[test]
fn manual_scroll_survives_content_shrink() {
    let (scroll, auto) = resolve_scroll(50, 5, 30, false);
    assert_eq!(scroll, 30);
    assert!(!auto);
}

#[test]
fn manual_scroll_up_then_content_grows() {
    let (scroll, auto) = resolve_scroll(20, 5, 5, false);
    assert_eq!(scroll, 5);
    assert!(!auto);
}

#[test]
fn loader_cut_falls_between_characters() {
    // the frame takes three bytes: a width inside it keeps nothing of it
    let l = Loader::new();
    assert_eq!(l.render(1), vec![String::new()]);
    assert_eq!(l.render(2), vec![String::new()]);
    assert_eq!(l.render(3), vec!["\u{280b}".to_string()]);
    let cl = CancellableLoader::new("Working...");
    assert_eq!(cl.render(1), vec![String::new()]);
    assert_eq!(cl.render(4), vec!["\u{280b} ".to_string()]);
}

#[test]
fn plain_style_leaves_text_as_it_is() {
    let st = Style::new();
    assert_eq!(st.apply("plain"), "plain");
    assert_eq!(st.apply("a\x1b[0mb"), "a\x1b[0mb");
    assert_eq!(st.apply(""), "");
}
