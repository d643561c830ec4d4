use rab::tui::autocomplete::{AutocompleteItem, AutocompleteProvider, AutocompleteSuggestions, SlashCommand};
use rab::tui::components::editor::{Editor, EditorOptions, EditorTheme};
use rab::tui::components::editor_layout::layout_text;
use rab::tui::focusable::Focusable;
use rab::tui::keys::{KeyCode, KeyEvent, KeyModifiers};
use rab::tui::util::{visible_width, wrap_text_with_ansi};

// ── Mock autocomplete provider ──

struct MockSlashProvider {
    commands: Vec<SlashCommand>,
}

impl MockSlashProvider {
    fn new(commands: Vec<&str>) -> Self {
        Self {
            commands: commands
                .into_iter()
                .map(|name| SlashCommand {
                    name: name.to_string(),
                    description: Some(format!("The {} command", name)),
                    argument_hint: None,
                    argument_completions: None,
                    dynamic_arguments: false,
                })
                .collect(),
        }
    }
}

impl AutocompleteProvider for MockSlashProvider {
    fn trigger_characters(&self) -> Vec<char> {
        vec!['/', '@', '#']
    }

    fn get_suggestions(
        &self,
        lines: &[String],
        cursor_line: usize,
        cursor_col: usize,
        _force: bool,
    ) -> Option<AutocompleteSuggestions> {
        let line = lines.get(cursor_line)?;
        let before = &line[..cursor_col.min(line.len())];
        if before.starts_with('/') && !before.contains(' ') {
            let query = &before[1..].to_lowercase();
            let matching: Vec<AutocompleteItem> = self
                .commands
                .iter()
                .filter(|cmd| cmd.name.to_lowercase().starts_with(query))
                .map(|cmd| AutocompleteItem {
                    value: cmd.name.clone(),
                    label: format!("/{}", cmd.name),
                    description: cmd.description.clone(),
                })
                .collect();
            if matching.is_empty() {
                return None;
            }
            return Some(AutocompleteSuggestions { items: matching, prefix: before.to_string() });
        }
        None
    }

    fn apply_completion(
        &self,
        lines: &[String],
        cursor_line: usize,
        cursor_col: usize,
        item: &AutocompleteItem,
        prefix: &str,
    ) -> (Vec<String>, usize, usize) {
        let current_line = lines[cursor_line].clone();
        let prefix_start = cursor_col.saturating_sub(prefix.len());
        let before = &current_line[..prefix_start];
        let after = &current_line[cursor_col..];
        (
            vec![format!("{}/{} {}", before, item.value, after)],
            cursor_line,
            before.len() + 1 + item.value.len() + 1,
        )
    }

    fn should_trigger_file_completion(&self, lines: &[String], cursor_line: usize, cursor_col: usize) -> bool {
        match lines.get(cursor_line) {
            Some(text) => {
                let before = &text[..cursor_col.min(text.len())];
                !(before.starts_with('/') && !before.contains(' '))
            }
            None => false,
        }
    }
}

fn make_editor_with_slash_provider(commands: Vec<&str>) -> Editor<MockSlashProvider> {
    let editor = Editor::new(EditorTheme::default(), EditorOptions::default());
    editor.set_autocomplete_provider(MockSlashProvider::new(commands))
}

fn up_key() -> KeyEvent {
    KeyEvent::new(KeyCode::Up, KeyModifiers::none())
}
fn left_key() -> KeyEvent {
    KeyEvent::new(KeyCode::Left, KeyModifiers::none())
}
fn char_key(c: char) -> KeyEvent {
    KeyEvent::new(KeyCode::Char(c), KeyModifiers::none())
}
fn enter_key() -> KeyEvent {
    KeyEvent::new(KeyCode::Enter, KeyModifiers::none())
}
fn escape() -> KeyEvent {
    KeyEvent::new(KeyCode::Esc, KeyModifiers::none())
}
fn backspace() -> KeyEvent {
    KeyEvent::new(KeyCode::Backspace, KeyModifiers::none())
}

fn plain_text(v: &rab::tui::components::editor_layout::VisualLine) -> String {
    v.text.iter().collect()
}

// ── Autocomplete ──

#[test]
fn autocomplete_triggers_on_slash() {
    let mut editor = make_editor_with_slash_provider(vec!["help", "history"]);
    editor.handle_input(&char_key('/'));
    assert!(editor.autocomplete_active, "autocomplete should activate after typing /");
    let selected = editor.autocomplete_selected_value();
    assert_eq!(selected.as_deref(), Some("help"), "first item should be help");
}

#[test]
fn autocomplete_filters_as_user_types() {
    let mut editor = make_editor_with_slash_provider(vec!["help", "history", "model"]);
    editor.handle_input(&char_key('/'));
    assert!(editor.autocomplete_active);
    editor.handle_input(&char_key('h'));
    assert!(editor.autocomplete_active, "autocomplete should stay active after typing more letters");
    editor.handle_input(&char_key('e'));
    assert!(editor.autocomplete_active);
    let selected = editor.autocomplete_selected_value();
    assert_eq!(selected.as_deref(), Some("help"));
}

#[test]
fn autocomplete_stays_active_on_printable_chars() {
    let mut editor = make_editor_with_slash_provider(vec!["help", "history"]);
    editor.handle_input(&char_key('/'));
    assert!(editor.autocomplete_active);
    editor.handle_input(&char_key('h'));
    assert!(editor.autocomplete_active, "typing 'h' after '/' must keep autocomplete visible");
    editor.handle_input(&char_key('e'));
    assert!(editor.autocomplete_active, "typing 'e' after '/h' must keep autocomplete visible");
    let lines = editor.render(80);
    assert!(lines.len() > 3, "autocomplete lines should be rendered");
}

#[test]
fn escape_dismisses_autocomplete() {
    let mut editor = make_editor_with_slash_provider(vec!["help", "history"]);
    editor.handle_input(&char_key('/'));
    assert!(editor.autocomplete_active);
    editor.handle_input(&escape());
    assert!(!editor.autocomplete_active, "escape should dismiss autocomplete");
    assert_eq!(editor.get_text(), "/");
}

#[test]
fn backspace_removing_slash_dismisses_autocomplete() {
    let mut editor = make_editor_with_slash_provider(vec!["help", "history"]);
    editor.handle_input(&char_key('/'));
    assert!(editor.autocomplete_active, "after /");
    editor.handle_input(&backspace());
    assert!(!editor.autocomplete_active, "backspace removing / should dismiss autocomplete");
    assert_eq!(editor.get_text(), "", "text should be empty");
}

#[test]
fn autocomplete_updates_after_backspace_char() {
    let mut editor = make_editor_with_slash_provider(vec!["help", "history"]);
    editor.handle_input(&char_key('/'));
    editor.handle_input(&char_key('h'));
    editor.handle_input(&char_key('e'));
    assert!(editor.autocomplete_active);
    let val1 = editor.autocomplete_selected_value();
    assert_eq!(val1.as_deref(), Some("help"));
    editor.handle_input(&backspace());
    assert!(editor.autocomplete_active, "backspace should re-filter, not dismiss");
    assert!(!editor.autocomplete_is_empty());
    assert_eq!(editor.get_text(), "/h");
}

#[test]
fn autocomplete_updates_on_cursor_movement() {
    let mut editor = make_editor_with_slash_provider(vec!["help", "history"]);
    editor.handle_input(&char_key('/'));
    editor.handle_input(&char_key('h'));
    editor.handle_input(&char_key('e'));
    editor.handle_input(&char_key('l'));
    editor.handle_input(&char_key('p'));
    assert!(editor.autocomplete_active);
    editor.handle_input(&char_key(' '));
    assert!(!editor.autocomplete_active, "space after /cmd should dismiss slash autocomplete");
    editor.handle_input(&left_key());
}

#[test]
fn autocomplete_clears_when_provider_returns_none() {
    let mut editor = make_editor_with_slash_provider(vec!["help"]);
    editor.handle_input(&char_key('/'));
    assert!(editor.autocomplete_active);
    editor.handle_input(&char_key('z'));
    assert!(!editor.autocomplete_active, "typing /z with no matching command should dismiss autocomplete");
}

#[test]
fn autocomplete_does_not_interfere_with_normal_typing() {
    let mut editor = make_editor_with_slash_provider(vec!["help", "history"]);
    editor.handle_input(&char_key('h'));
    editor.handle_input(&char_key('e'));
    editor.handle_input(&char_key('l'));
    editor.handle_input(&char_key('l'));
    editor.handle_input(&char_key('o'));
    assert!(!editor.autocomplete_active, "no slash = no autocomplete");
    assert_eq!(editor.get_text(), "hello");
}

#[test]
fn autocomplete_renders_lines_below_editor() {
    let mut editor = make_editor_with_slash_provider(vec!["help", "history", "model"]);
    editor.handle_input(&char_key('/'));
    assert!(editor.autocomplete_active);
    let lines = editor.render(80);
    assert!(lines.len() >= 5, "should have border lines + autocomplete items");
    assert!(lines[2].contains('─'), "line 2 should be bottom border");
    let after_border = &lines[3..];
    let all_have_content = after_border.iter().any(|l| !l.trim().is_empty());
    assert!(all_have_content, "autocomplete lines should have content");
}

#[test]
fn autocomplete_stable_rendering_no_flash_on_extra_char() {
    let mut editor = make_editor_with_slash_provider(vec!["help", "history", "model"]);
    editor.handle_input(&char_key('/'));
    let lines_after_slash = editor.render(80).len();
    editor.handle_input(&char_key('h'));
    let lines_after_h = editor.render(80).len();
    let diff = lines_after_slash.abs_diff(lines_after_h);
    assert!(
        diff <= 1,
        "line count should not change dramatically: {} -> {} (diff {})",
        lines_after_slash,
        lines_after_h,
        diff
    );
}

#[test]
fn autocomplete_dismissed_on_submit() {
    let mut editor = make_editor_with_slash_provider(vec!["help"]);
    editor.handle_input(&char_key('/'));
    assert!(editor.autocomplete_active);
    editor.handle_input(&enter_key());
}

#[test]
fn tab_force_triggers_autocomplete() {
    let mut editor = make_editor_with_slash_provider(vec!["help", "history"]);
    editor.handle_input(&char_key('/'));
    assert!(editor.autocomplete_active);
}

#[test]
fn autocomplete_persists_across_multiple_chars() {
    let mut editor = make_editor_with_slash_provider(vec!["help", "history", "hello", "heavy"]);
    for ch in "/hel".chars() {
        editor.handle_input(&char_key(ch));
        assert!(editor.autocomplete_active, "autocomplete should stay active after '{}'", ch);
    }
    assert!(!editor.autocomplete_is_empty(), "should have matching items");
    assert_eq!(editor.get_text(), "/hel");
}

// ── Editing ──

#[test]
fn test_new_editor() {
    let editor = Editor::new(EditorTheme::default(), EditorOptions::default());
    assert_eq!(editor.get_text(), "");
}

#[test]
fn test_set_text() {
    let mut editor = Editor::new(EditorTheme::default(), EditorOptions::default());
    editor.set_text("hello world");
    assert_eq!(editor.get_text(), "hello world");
}

#[test]
fn test_insert_and_move() {
    let mut editor = Editor::new(EditorTheme::default(), EditorOptions::default());
    editor.insert_character("h");
    editor.insert_character("i");
    assert_eq!(editor.get_text(), "hi");
    editor.move_left();
    assert_eq!(editor.get_cursor().1, 1);
    editor.move_right();
    assert_eq!(editor.get_cursor().1, 2);
}

#[test]
fn editor_test_backspace() {
    let mut editor = Editor::new(EditorTheme::default(), EditorOptions::default());
    editor.set_text("hello");
    editor.backspace();
    assert_eq!(editor.get_text(), "hell");
}

#[test]
fn test_multiline() {
    let mut editor = Editor::new(EditorTheme::default(), EditorOptions::default());
    editor.set_text("line1\nline2");
    assert_eq!(editor.get_lines().len(), 2);
}

#[test]
fn editor_test_undo() {
    let mut editor = Editor::new(EditorTheme::default(), EditorOptions::default());
    editor.push_undo();
    editor.insert_text_internal("a");
    editor.push_undo();
    editor.insert_text_internal("b");
    assert_eq!(editor.get_text(), "ab");
    editor.undo();
    assert_eq!(editor.get_text(), "a");
    editor.undo();
    assert_eq!(editor.get_text(), "");
}

#[test]
fn test_submit_clears() {
    let mut editor = Editor::new(EditorTheme::default(), EditorOptions::default());
    editor.set_text("hello");
    editor.handle_input(&enter_key());
    let result = editor.take_submitted().join("\n");
    assert_eq!(result, "hello");
    assert_eq!(editor.get_text(), "");
}

#[test]
fn test_render_borders() {
    let mut editor = Editor::new(EditorTheme::default(), EditorOptions::default());
    let lines = editor.render(80);
    assert!(lines.len() >= 3);
    assert!(lines[0].contains('─'));
    assert!(lines.last().unwrap().contains('─'));
}

#[test]
fn test_scroll_indicator() {
    let mut editor = Editor::new(EditorTheme::default(), EditorOptions { padding_x: 1, max_visible_lines: 10 });
    editor.set_terminal_rows(6);
    editor.set_text("line1\nline2\nline3\nline4\nline5\nline6");
    editor.set_cursor(5, 5);
    let lines = editor.render(80);
    assert!(lines[0].contains("↑"), "Expected scroll-up indicator, got: {:?}", lines[0]);
}

#[test]
fn test_newline() {
    let mut editor = Editor::new(EditorTheme::default(), EditorOptions::default());
    editor.set_text("hello");
    editor.add_newline();
    assert_eq!(editor.get_text(), "hello\n");
    editor.insert_character("w");
    assert_eq!(editor.get_text(), "hello\nw");
}

#[test]
fn test_cursor_in_layout() {
    let editor = Editor::new(EditorTheme::default(), EditorOptions::default());
    let (l, c) = editor.get_cursor();
    let vl = layout_text(&editor.get_lines(), 80, l, c);
    assert!(vl[0].has_cursor);
    assert_eq!(vl[0].cursor_pos, Some(0));
}

#[test]
fn test_cursor_in_layout_with_text() {
    let mut editor = Editor::new(EditorTheme::default(), EditorOptions::default());
    editor.set_text("abc");
    editor.set_cursor(0, 1);
    let (l, c) = editor.get_cursor();
    let vl = layout_text(&editor.get_lines(), 80, l, c);
    assert!(vl[0].has_cursor);
    assert_eq!(vl[0].cursor_pos, Some(1));
}

// ── History and keys ──

#[test]
fn test_history_empty_up_does_nothing() {
    let mut editor = Editor::new(EditorTheme::default(), EditorOptions::default());
    editor.handle_input(&up_key());
    assert_eq!(editor.get_text(), "");
}

#[test]
fn test_history_up_shows_most_recent() {
    let mut editor = Editor::new(EditorTheme::default(), EditorOptions::default());
    editor.add_to_history("first");
    editor.add_to_history("second");
    editor.handle_input(&up_key());
    assert_eq!(editor.get_text(), "second");
}

#[test]
fn test_history_cycles() {
    let mut editor = Editor::new(EditorTheme::default(), EditorOptions::default());
    editor.add_to_history("first");
    editor.add_to_history("second");
    editor.add_to_history("third");
    editor.handle_input(&up_key());
    assert_eq!(editor.get_text(), "third");
    editor.handle_input(&up_key());
    assert_eq!(editor.get_text(), "second");
    editor.handle_input(&up_key());
    assert_eq!(editor.get_text(), "first");
    editor.handle_input(&up_key());
    assert_eq!(editor.get_text(), "first");
}

#[test]
fn test_history_exits_on_type() {
    let mut editor = Editor::new(EditorTheme::default(), EditorOptions::default());
    editor.add_to_history("old");
    editor.handle_input(&up_key());
    assert_eq!(editor.get_text(), "old");
    editor.handle_input(&char_key('x'));
    assert_eq!(editor.get_text(), "xold");
}

#[test]
fn test_backslash_enter_newline() {
    let mut editor = Editor::new(EditorTheme::default(), EditorOptions::default());
    editor.handle_input(&char_key('\\'));
    assert_eq!(editor.get_text(), "\\");
    editor.handle_input(&enter_key());
    assert_eq!(editor.get_text(), "\n");
}

#[test]
fn test_move_cursor_over_emoji() {
    let mut editor = Editor::new(EditorTheme::default(), EditorOptions::default());
    editor.set_text("a😀b");
    editor.set_cursor(0, 0);
    editor.move_right();
    assert_eq!(editor.get_cursor().1, 1);
    editor.move_right();
    assert_eq!(editor.get_cursor().1, 5);
    editor.move_right();
    assert_eq!(editor.get_cursor().1, 6);
}

#[test]
fn test_backspace_emoji() {
    let mut editor = Editor::new(EditorTheme::default(), EditorOptions::default());
    editor.set_text("a😀b");
    editor.set_cursor(0, 6);
    editor.backspace();
    assert_eq!(editor.get_text(), "a😀");
    editor.backspace();
    assert_eq!(editor.get_text(), "a");
}

// ── Rendering ──

#[test]
fn test_render_cursor_visible() {
    let mut editor = Editor::new(EditorTheme::default(), EditorOptions::default());
    editor.set_focused(true);
    editor.insert_character("x");
    let lines = editor.render(40);
    let content = &lines[1];
    assert!(content.contains("\x1b[7m"), "Cursor inverse not found");
}

#[test]
fn test_render_borders_always_present() {
    let mut editor = Editor::new(EditorTheme::default(), EditorOptions::default());
    let lines = editor.render(80);
    assert_eq!(lines.len(), 3, "Empty editor should have 3 lines");
    assert!(lines[0].contains('─'), "Top border missing");
    assert!(lines[2].contains('─'), "Bottom border missing");

    editor.insert_character("/");
    let lines = editor.render(80);
    assert_eq!(lines.len(), 3, "After typing / should still have 3 lines");
    assert!(lines[0].contains('─'), "Top border missing after /");
    assert!(lines[2].contains('─'), "Bottom border missing after /");

    editor.set_text("hello world this is text");
    let lines = editor.render(40);
    assert!(lines.len() >= 3, "Wrapped text: {}", lines.len());
    assert!(lines[0].contains('─'), "Top border");
    assert!(lines.last().unwrap().contains('─'), "Bottom border");
}

#[test]
fn test_content_width_respected() {
    let mut editor = Editor::new(EditorTheme::default(), EditorOptions { padding_x: 1, max_visible_lines: 10 });
    editor.set_text("hello world this is a test");
    let lines = editor.render(20);
    for line in &lines {
        let vw = visible_width(line);
        assert!(vw <= 20, "Width {} > 20: {:?}", vw, line);
    }
}

#[test]
fn test_no_duplicate_chunks_from_wrapping() {
    let texts = [
        "hello world this is a test of the wrapping system",
        "a b c d e f g h i j k l m n o p q r s t u v w x y z",
        "short",
        "",
        "abc abc abc abc abc abc abc abc",
        "  leading and trailing spaces  ",
        "hello   world   extra   spaces",
    ];
    for text in &texts {
        for width in [1, 2, 3, 5, 8, 12, 20, 40] {
            let wrapped = wrap_text_with_ansi(text, width);
            let total_vis_wrapped: usize = wrapped.iter().map(|c| visible_width(c)).sum();
            let total_vis_original = visible_width(text);
            assert!(
                total_vis_wrapped <= total_vis_original,
                "Width={}: wrapped visible {} > original visible {} for {:?}",
                width,
                total_vis_wrapped,
                total_vis_original,
                text
            );
            for a in &wrapped {
                if a.is_empty() {
                    continue;
                }
                let count_in_wrapped = wrapped.iter().filter(|c| *c == a).count();
                let count_in_original = text.matches(a.as_str()).count();
                assert!(
                    count_in_wrapped <= count_in_original || count_in_original == 0,
                    "Width={}: chunk '{}' appears {}x in wrapped but {}x in original for {:?}",
                    width,
                    a,
                    count_in_wrapped,
                    count_in_original,
                    text
                );
            }
        }
    }
}

#[test]
fn test_cursor_in_wrapped_text_first_chunk() {
    let mut editor = Editor::new(EditorTheme::default(), EditorOptions::default());
    let text = "hello world this is a test";
    editor.set_text(text);
    editor.set_cursor(0, 3);
    let (l, c) = editor.get_cursor();
    let vl = layout_text(&editor.get_lines(), 10, l, c);
    assert!(vl.len() > 1, "Text should wrap into multiple visual lines");
    assert!(vl[0].has_cursor, "Cursor at col 3 should be in first visual line");
    if let Some(pos) = vl[0].cursor_pos {
        assert_eq!(pos, 3, "Cursor byte offset in first chunk should be 3");
    }
}

#[test]
fn test_cursor_in_wrapped_text_middle_chunk() {
    let mut editor = Editor::new(EditorTheme::default(), EditorOptions::default());
    let text = "hello world this is a test";
    editor.set_text(text);
    editor.set_cursor(0, 16);
    let (l, c) = editor.get_cursor();
    let vl = layout_text(&editor.get_lines(), 10, l, c);
    assert!(vl.len() > 1, "Text should wrap");
    let cursor_vl = vl.iter().position(|v| v.has_cursor);
    assert!(cursor_vl.is_some(), "Cursor should be found in some visual line");
}

#[test]
fn test_cursor_last_chunk_on_boundary() {
    let mut editor = Editor::new(EditorTheme::default(), EditorOptions::default());
    let text = "hello world this is a test";
    editor.set_text(text);
    editor.set_cursor(0, text.len());
    let (l, c) = editor.get_cursor();
    let vl = layout_text(&editor.get_lines(), 10, l, c);
    assert!(vl.last().is_some_and(|v| v.has_cursor), "Cursor at end should be in last visual line");
}

#[test]
fn test_layout_text_each_chunk_unique() {
    let text = "hello world this is a test of the wrapping system";
    let vl = layout_text(&[text.to_string()], 12, 0, 0);
    let chunk_texts: Vec<String> = vl.iter().map(plain_text).collect();
    for i in 0..chunk_texts.len() {
        for j in (i + 1)..chunk_texts.len() {
            if chunk_texts[i] == chunk_texts[j] && !chunk_texts[i].is_empty() {
                panic!("Duplicate chunk text at positions {} and {}: '{}'", i, j, chunk_texts[i]);
            }
        }
    }
}

// ── Pastes ──

#[test]
fn test_large_paste_creates_marker() {
    let mut editor = Editor::new(EditorTheme::default(), EditorOptions::default());
    let large = "line1\nline2\nline3\nline4\nline5\nline6\nline7\nline8\nline9\nline10\nline11";
    editor.handle_paste(large);
    let text = editor.get_text();
    assert!(text.contains("[paste #"), "Should contain paste marker");
    assert!(!text.contains("line1"), "Should not contain original content");
    assert_eq!(editor.paste_count(), 1, "Should store one paste");
}

#[test]
fn test_small_paste_no_marker() {
    let mut editor = Editor::new(EditorTheme::default(), EditorOptions::default());
    editor.handle_paste("hello");
    let text = editor.get_text();
    assert!(!text.contains("[paste #"), "Small paste should not create marker");
    assert_eq!(text, "hello");
}

#[test]
fn test_expand_paste_markers() {
    let mut editor = Editor::new(EditorTheme::default(), EditorOptions::default());
    editor.handle_paste("line1\nline2\nline3\nline4\nline5\nline6\nline7\nline8\nline9\nline10\nline11");
    let expanded = editor.get_expanded_text();
    assert!(expanded.contains("line1"), "Expanded text should contain original content");
    assert!(!expanded.contains("[paste #"), "Expanded text should not contain markers");
}

#[test]
fn test_submit_expands_markers() {
    let mut editor = Editor::new(EditorTheme::default(), EditorOptions::default());
    editor.handle_paste("line1\nline2\nline3\nline4\nline5\nline6\nline7\nline8\nline9\nline10\nline11");
    let large_content = "line1\nline2\nline3\nline4\nline5\nline6\nline7\nline8\nline9\nline10\nline11";
    let raw = editor.get_lines().join("\n");
    let expanded = editor.expand_paste_markers(&raw);
    assert_eq!(expanded, large_content, "Submit should expand to original content");
}

#[test]
fn test_is_paste_marker() {
    assert!(Editor::is_paste_marker("[paste #1 +5 lines]"));
    assert!(Editor::is_paste_marker("[paste #123 456 chars]"));
    assert!(!Editor::is_paste_marker("normal text"));
    assert!(!Editor::is_paste_marker(""));
}

#[test]
fn test_get_expanded_text() {
    let mut editor = Editor::new(EditorTheme::default(), EditorOptions::default());
    editor.handle_paste("line1\nline2\nline3\nline4\nline5\nline6\nline7\nline8\nline9\nline10\nline11");
    let expanded = editor.get_expanded_text();
    assert!(expanded.contains("line1"), "get_expanded_text should expand markers");
    assert!(expanded.starts_with("line1"), "Should start with original content");
}

// ── Render duplication ──

#[test]
fn test_multiline_render_no_duplicate_content() {
    let mut editor = Editor::new(EditorTheme::default(), EditorOptions::default());
    editor.set_text("hello");
    editor.add_newline();
    editor.insert_character("w");
    editor.insert_character("o");
    editor.insert_character("r");
    editor.insert_character("l");
    editor.insert_character("d");
    assert_eq!(editor.get_text(), "hello\nworld");
    for width in [20, 40, 80] {
        let rendered = editor.render(width);
        let content_lines: Vec<&str> = rendered.iter().filter(|l| !l.contains('─')).map(|l| l.trim()).collect();
        assert!(
            content_lines.len() >= 2,
            "Width {}: expected >= 2 content lines, got {}: {:?}",
            width,
            content_lines.len(),
            rendered
        );
        let mut seen = std::collections::HashSet::new();
        for line in &content_lines {
            if !line.is_empty() {
                let plain = line.replace("\x1b_pi:c\x07", "").to_string();
                if !seen.insert(plain.clone()) {
                    panic!("Width {}: duplicate content line '{}' in {:?}", width, line, rendered);
                }
            }
        }
    }
}

#[test]
fn test_editor_add_newline_adds_one_visual_line() {
    let mut editor = Editor::new(EditorTheme::default(), EditorOptions::default());
    editor.set_text("hello");
    let before = editor.render(80).len();
    editor.add_newline();
    let after = editor.render(80).len();
    assert_eq!(
        after,
        before + 1,
        "Adding newline should increase rendered line count by exactly 1. before={}, after={}",
        before,
        after
    );
}

#[test]
fn test_layout_text_no_extra_empty_visual_line() {
    let lines: Vec<String> = vec![String::new()];
    let vl = layout_text(&lines, 80, 0, 0);
    assert_eq!(vl.len(), 1, "Empty text should have 1 visual line");
    assert!(vl[0].has_cursor);

    let lines = vec!["hello".to_string()];
    let vl = layout_text(&lines, 80, 0, 5);
    assert_eq!(vl.len(), 1, "Single line should have 1 visual line");
    assert!(vl[0].has_cursor);

    let lines = vec!["hello".to_string(), "".to_string()];
    let vl = layout_text(&lines, 80, 0, 5);
    assert_eq!(vl.len(), 2, "Two lines (one empty) should have 2 visual lines");
    assert!(vl[0].has_cursor);
    assert!(!vl[1].has_cursor);

    let lines = vec!["hello".to_string(), "".to_string()];
    let vl = layout_text(&lines, 80, 1, 0);
    assert_eq!(vl.len(), 2);
    assert!(!vl[0].has_cursor);
    assert!(vl[1].has_cursor);

    let lines = vec!["".to_string(), "hello".to_string()];
    let vl = layout_text(&lines, 80, 1, 5);
    assert_eq!(vl.len(), 2, "Two lines (one empty first) should have 2 visual lines");
    assert!(!vl[0].has_cursor);
    assert!(vl[1].has_cursor);
}

#[test]
fn test_wrap_edge_cases_no_empty_lines() {
    let cases = vec![
        ("  hello", 3, "leading spaces"),
        ("hello  ", 3, "trailing spaces"),
        ("  hello  ", 3, "leading and trailing spaces"),
        ("abc  def", 5, "double space in middle"),
        ("a   b", 4, "triple space"),
        ("a  b", 3, "double space at wrap boundary"),
    ];
    for (text, width, label) in &cases {
        let wrapped = wrap_text_with_ansi(text, *width);
        for chunk in &wrapped {
            if chunk.is_empty() {
                panic!("Case '{}' (width {}): empty chunk found in wrapped: {:?}", label, width, wrapped);
            }
            let vis = visible_width(chunk);
            assert!(
                vis > 0,
                "Case '{}' (width {}): chunk with visible width 0: {:?} (wrapped: {:?})",
                label,
                width,
                chunk,
                wrapped
            );
        }
    }
}

#[test]
fn test_wrap_long_word_no_duplicate_chunks() {
    let long = "aaaaa bbbbb ccccc ddddd";
    for width in [5, 6, 7, 8, 10, 12] {
        let wrapped = wrap_text_with_ansi(long, width);
        let mut seen = std::collections::HashSet::new();
        for chunk in &wrapped {
            let trimmed = chunk.trim();
            if !trimmed.is_empty() && !seen.insert(trimmed.to_string()) {
                panic!("Width {}: duplicate chunk '{}' in {:?}", width, chunk, wrapped);
            }
        }
    }
}

#[test]
fn test_wrap_typing_detailed_trace() {
    let mut editor = Editor::new(EditorTheme::default(), EditorOptions::default());
    let sentence = "hello world";
    let width = 10;
    for (i, ch) in sentence.chars().enumerate() {
        editor.handle_input(&char_key(ch));
        let (l, c) = editor.get_cursor();
        let vl = layout_text(&editor.get_lines(), width, l, c);
        let mut seen = std::collections::HashSet::new();
        for vis in &vl {
            let t = plain_text(vis);
            let trimmed = t.trim();
            if !trimmed.is_empty() && !seen.insert(trimmed.to_string()) {
                panic!("After char '{}' (pos {}): duplicate visual line '{}'", ch, i, t);
            }
        }
        let cursor_count = vl.iter().filter(|v| v.has_cursor).count();
        assert_eq!(cursor_count, 1, "After char '{}' (pos {}): expected exactly 1 cursor, got {}", ch, i, cursor_count);
    }
}

#[test]
fn test_wrap_long_continuous_string_no_duplicates() {
    let mut editor = Editor::new(EditorTheme::default(), EditorOptions::default());
    let url = "https://very-long-url-with-no-spaces.example.com/path/to/resource";
    for ch in url.chars() {
        editor.handle_input(&char_key(ch));
    }
    for width in [5, 10, 15, 20, 30] {
        let rendered = editor.render(width);
        let content: Vec<&str> =
            rendered.iter().filter(|l| !l.contains('─')).map(|l| l.trim()).filter(|l| !l.is_empty()).collect();
        let mut seen = std::collections::HashSet::new();
        for line in &content {
            let plain = line
                .replace("\x1b_pi:c\x07", "")
                .chars()
                .filter(|&c| c.is_ascii_graphic() || c == ' ')
                .collect::<String>()
                .trim()
                .to_string();
            if !plain.is_empty() && !seen.insert(plain.clone()) {
                panic!(
                    "Width {}: duplicate content line '{}' (plain: '{}')\nFull render: {:?}",
                    width, line, plain, rendered
                );
            }
        }
    }
}

#[test]
fn test_editor_typing_past_width_no_duplicate_render() {
    let mut editor = Editor::new(EditorTheme::default(), EditorOptions::default());
    let input = "hello world this is a test of the emergency broadcast system";
    for ch in input.chars() {
        editor.handle_input(&char_key(ch));
    }
    for width in [5, 8, 10, 12, 15, 20] {
        let rendered = editor.render(width);
        let content: Vec<&str> =
            rendered.iter().filter(|l| !l.contains('─')).map(|l| l.trim()).filter(|l| !l.is_empty()).collect();
        let mut seen = std::collections::HashSet::new();
        for line in &content {
            let plain = line
                .replace("\x1b_pi:c\x07", "")
                .chars()
                .filter(|&c| c.is_ascii_graphic() || c == ' ')
                .collect::<String>()
                .trim()
                .to_string();
            if !plain.is_empty() && !seen.insert(plain.clone()) {
                panic!(
                    "Width {}: duplicate content line '{}' (plain: '{}')\nFull render: {:?}",
                    width, line, plain, rendered
                );
            }
        }
        let content_plain: String = content.join(" ");
        let content_plain = content_plain
            .replace("\x1b_pi:c\x07", "")
            .chars()
            .filter(|&c| c.is_ascii_graphic() || c == ' ')
            .collect::<String>();
        assert!(!content_plain.is_empty(), "Width {}: no visible content in render: {:?}", width, rendered);
    }
}

// ── Own cases ──

#[test]
fn editor_paste_marker_counts_lines() {
    let mut editor = Editor::new(EditorTheme::default(), EditorOptions::default());
    editor.handle_paste("1\n2\n3\n4\n5\n6\n7\n8\n9\n10\n11");
    assert_eq!(editor.get_text(), "[paste #1 +11 lines]");
    editor.handle_paste(&"x".repeat(1001));
    assert_eq!(editor.get_text(), "[paste #1 +11 lines][paste #2 1001 chars]");
    assert_eq!(editor.get_expanded_text(), format!("1\n2\n3\n4\n5\n6\n7\n8\n9\n10\n11{}", "x".repeat(1001)));
}

#[test]
fn editor_paste_decodes_csi_u_controls() {
    let mut editor = Editor::new(EditorTheme::default(), EditorOptions::default());
    editor.handle_paste("a\x1b[98;5ub\x1b[66;5u\x1b[49;5u");
    assert_eq!(editor.get_text(), "ab[49;5u");
}

#[test]
fn editor_paste_path_gets_space_after_word() {
    let mut editor = Editor::new(EditorTheme::default(), EditorOptions::default());
    editor.set_text("see");
    editor.handle_paste("/tmp/file");
    assert_eq!(editor.get_text(), "see /tmp/file");
}

#[test]
fn editor_submit_hands_on_text_and_history_stays_separate() {
    let mut editor = Editor::new(EditorTheme::default(), EditorOptions::default());
    editor.set_text("one\ntwo");
    assert!(editor.handle_input(&enter_key()));
    assert_eq!(editor.take_submitted(), vec!["one\ntwo".to_string()]);
    assert_eq!(editor.get_text(), "");
    assert!(editor.just_submitted);
}

#[test]
fn editor_disable_submit_adds_line() {
    let mut editor = Editor::new(EditorTheme::default(), EditorOptions::default());
    editor.disable_submit = true;
    editor.set_text("a");
    editor.handle_input(&enter_key());
    assert_eq!(editor.get_text(), "a\n");
    assert!(editor.take_submitted().is_empty());
}

#[test]
fn editor_down_moves_between_lines_and_up_returns() {
    let mut editor = Editor::new(EditorTheme::default(), EditorOptions::default());
    editor.set_text("abcdef\nxy\nlonger line");
    editor.render(80);
    editor.set_cursor(0, 5);
    editor.handle_input(&KeyEvent::new(KeyCode::Down, KeyModifiers::none()));
    assert_eq!(editor.get_cursor(), (1, 2));
    editor.handle_input(&KeyEvent::new(KeyCode::Down, KeyModifiers::none()));
    assert_eq!(editor.get_cursor(), (2, 5));
    editor.handle_input(&up_key());
    assert_eq!(editor.get_cursor(), (1, 2));
}

#[test]
fn editor_page_scroll_and_indicators() {
    let mut editor = Editor::new(EditorTheme::default(), EditorOptions::default());
    editor.set_terminal_rows(10);
    editor.set_text("1\n2\n3\n4\n5\n6\n7\n8");
    let lines = editor.render(20);
    assert_eq!(lines[0], format!("─── ↑ 3 more {}", "─".repeat(7)));
    assert_eq!(lines.len(), 7);
    assert_eq!(lines[6], "─".repeat(20));
}

#[test]
fn editor_unfocused_cursor_is_reverse_space() {
    let mut editor = Editor::new(EditorTheme::default(), EditorOptions::default());
    editor.set_text("ab");
    let lines = editor.render(10);
    assert_eq!(lines[1], " ab\x1b[7m \x1b[0m      ");
    editor.set_focused(true);
    editor.set_cursor(0, 0);
    let lines = editor.render(10);
    assert_eq!(lines[1], " \x1b_pi:c\x07\x1b[7ma\x1b[0mb       ");
}

#[test]
fn editor_set_text_then_get_text() {
    let mut editor = Editor::new(EditorTheme::default(), EditorOptions::default());
    for t in ["", "one", "a\nb", "\n\n", "trailing\n"] {
        editor.set_text(t);
        assert_eq!(editor.get_text(), t);
    }
}

#[test]
fn editor_kill_to_end_then_yank_restores() {
    let mut editor = Editor::new(EditorTheme::default(), EditorOptions::default());
    editor.set_text("hello world");
    editor.set_cursor(0, 5);
    editor.delete_to_line_end();
    assert_eq!(editor.get_text(), "hello");
    editor.yank();
    assert_eq!(editor.get_text(), "hello world");
    assert_eq!(editor.get_cursor(), (0, 11));
}

#[test]
fn editor_undo_after_edit_restores() {
    let mut editor = Editor::new(EditorTheme::default(), EditorOptions::default());
    editor.set_text("abc");
    editor.set_cursor(0, 1);
    editor.delete_to_line_end();
    assert_eq!(editor.get_text(), "a");
    editor.undo();
    assert_eq!(editor.get_text(), "abc");
    assert_eq!(editor.get_cursor(), (0, 1));
}

#[test]
fn editor_reports_each_change_once_set_on() {
    let mut editor = Editor::new(EditorTheme::default(), EditorOptions::default());
    // nothing is kept before reporting is set on
    editor.set_text("a");
    assert!(editor.take_changes().is_empty());
    editor.set_on_change();
    editor.set_text("hi");
    assert_eq!(editor.take_changes(), vec!["hi".to_string()]);
    editor.handle_input(&char_key('x'));
    editor.handle_input(&left_key());
    editor.handle_input(&backspace());
    assert_eq!(editor.take_changes(), vec!["hix".to_string(), "hx".to_string()]);
    // a word kill at the start of the text changes nothing and reports nothing
    editor.set_text("");
    let _ = editor.take_changes();
    editor.handle_input(&KeyEvent::new(KeyCode::Char('w'), KeyModifiers::control()));
    assert!(editor.take_changes().is_empty());
    // a backslash before enter: the backslash goes, then a new line
    editor.set_text("a\\");
    let _ = editor.take_changes();
    editor.handle_input(&enter_key());
    assert_eq!(editor.take_changes(), vec!["a".to_string(), "a\n".to_string()]);
    // submitting reports the empty text
    editor.handle_input(&enter_key());
    assert_eq!(editor.take_changes(), vec!["".to_string()]);
}

#[test]
fn editor_confirm_completes_selected_command() {
    let mut editor = make_editor_with_slash_provider(vec!["help", "history"]);
    editor.set_on_change();
    editor.handle_input(&char_key('/'));
    assert!(editor.autocomplete_active);
    editor.handle_input(&enter_key());
    assert!(!editor.autocomplete_active);
    assert_eq!(editor.get_text(), "/help ");
}

#[test]
fn editor_insert_and_paste_report_changes() {
    let mut editor = Editor::new(EditorTheme::default(), EditorOptions::default());
    editor.set_on_change();
    editor.insert_text_at_cursor("ab");
    editor.handle_paste("cd");
    assert_eq!(editor.take_changes(), vec!["ab".to_string(), "abcd".to_string()]);
}
