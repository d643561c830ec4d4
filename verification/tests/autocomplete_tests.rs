use rab::tui::autocomplete::{
    find_unclosed_quote_prefix, parse_completion_prefix, score_entry, AutocompleteItem, AutocompleteProvider,
    CombinedAutocompleteProvider, FileSource, SlashCommand,
};

fn build_completion_value(path: &str, is_directory: bool, is_at_prefix: bool, is_quoted_prefix: bool) -> String {
    let needs_quotes = is_quoted_prefix || path.contains(' ');
    let at = if is_at_prefix { "@" } else { "" };
    let suffix = if is_directory { "/" } else { "" };
    if needs_quotes {
        format!("{}\"{}{}\"", at, path, suffix)
    } else {
        format!("{}{}{}", at, path, suffix)
    }
}

/// A file system with a root holding `tmp/` and `usr/`, and `tmp/`
/// holding `notes.txt` and `work/`.
struct FixedFiles;

impl FileSource for FixedFiles {
    fn read_dir(&self, dir: &str) -> Option<Vec<(String, bool)>> {
        match dir {
            "/" => Some(vec![("tmp".to_string(), true), ("usr".to_string(), true)]),
            "/tmp" | "/tmp/" => Some(vec![("notes.txt".to_string(), false), ("work".to_string(), true)]),
            _ => None,
        }
    }

    fn is_dir(&self, path: &str) -> bool {
        matches!(path, "/" | "/tmp" | "/tmp/" | "/usr")
    }

    fn home_dir(&self) -> String {
        "/tmp".to_string()
    }

    fn fd_walk(&self, _fd_path: &str, _base_dir: &str, _query: &str, _max_results: usize) -> Vec<(String, bool)> {
        Vec::new()
    }
}

fn command(name: &str, description: Option<&str>) -> SlashCommand {
    SlashCommand {
        name: name.into(),
        description: description.map(|d| d.to_string()),
        argument_hint: None,
        argument_completions: None,
        dynamic_arguments: false,
    }
}

#[test]
fn test_slash_suggestions() {
    let provider = CombinedAutocompleteProvider::new(
        vec![command("help", Some("Show help")), command("history", Some("Show history"))],
        "/tmp".into(),
    );
    let lines = vec!["/he".into()];
    let result = provider.get_suggestions(&lines, 0, 3, false);
    assert!(result.is_some());
    let suggestions = result.unwrap();
    assert_eq!(suggestions.items.len(), 1);
    assert_eq!(suggestions.items[0].value, "help");
}

#[test]
fn test_no_slash_matches() {
    let provider = CombinedAutocompleteProvider::new(vec![command("help", None)], "/tmp".into());
    let lines = vec!["/unknown".into()];
    let result = provider.get_suggestions(&lines, 0, 8, false);
    assert!(result.is_none());
}

#[test]
fn test_trigger_characters() {
    let provider = CombinedAutocompleteProvider::new(vec![], "/tmp".into());
    assert_eq!(provider.trigger_characters(), &['/', '@', '#']);
}

#[test]
fn test_apply_completion_slash() {
    let provider = CombinedAutocompleteProvider::new(vec![], "/tmp".into());
    let item = AutocompleteItem { value: "help".into(), label: "/help".into(), description: None };
    let lines = vec!["/".into()];
    let (new_lines, new_line, new_col) = provider.apply_completion(&lines, 0, 1, &item, "/");
    assert_eq!(new_lines[0], "/help ");
    assert_eq!(new_line, 0);
    assert_eq!(new_col, 6);
}

#[test]
fn test_find_unclosed_quote_prefix_basic() {
    assert!(find_unclosed_quote_prefix("hello \"world").is_some());
    assert!(find_unclosed_quote_prefix("hello \"world\"").is_none());
    assert!(find_unclosed_quote_prefix("no quotes").is_none());
}

#[test]
fn test_find_unclosed_quote_prefix_at() {
    let result = find_unclosed_quote_prefix("hello @\"path");
    assert!(result.is_some());
    let (_start, prefix) = result.unwrap();
    assert_eq!(&prefix[..1], "@");
}

#[test]
fn test_parse_completion_prefix() {
    let (q, at, quoted) = parse_completion_prefix("@\"path");
    assert_eq!(q, "path");
    assert!(at);
    assert!(quoted);

    let (q, at, quoted) = parse_completion_prefix("\"path");
    assert_eq!(q, "path");
    assert!(!at);
    assert!(quoted);

    let (q, at, quoted) = parse_completion_prefix("@path");
    assert_eq!(q, "path");
    assert!(at);
    assert!(!quoted);

    let (q, at, quoted) = parse_completion_prefix("path");
    assert_eq!(q, "path");
    assert!(!at);
    assert!(!quoted);
}

#[test]
fn test_build_completion_value() {
    let v = build_completion_value("foo.rs", false, true, false);
    assert_eq!(v, "@foo.rs");
    let v = build_completion_value("foo.rs", false, false, false);
    assert_eq!(v, "foo.rs");
    let v = build_completion_value("my dir/file.rs", false, true, false);
    assert_eq!(v, "@\"my dir/file.rs\"");
}

#[test]
fn test_score_entry() {
    let s = score_entry("src/main.rs", "main", false);
    assert!(s > 0, "Should score positive for matching name");
    let s = score_entry("src/main.rs", "nomatch", false);
    assert_eq!(s, 0, "Should score zero for no match");
}

#[test]
fn test_apply_completion_absolute_path_no_double_slash() {
    let provider = CombinedAutocompleteProvider::new(vec![], "/tmp".into());
    let item = AutocompleteItem { value: "/tmp/".into(), label: "tmp/".into(), description: None };
    let lines = vec!["/".into()];
    let (new_lines, _new_line, _new_col) = provider.apply_completion(&lines, 0, 1, &item, "/");
    assert_eq!(new_lines[0], "/tmp/", "Absolute path completion must not add extra slash");
}

#[test]
fn test_apply_completion_slash_command_still_works() {
    let provider = CombinedAutocompleteProvider::new(vec![], "/tmp".into());
    let item = AutocompleteItem { value: "help".into(), label: "/help".into(), description: None };
    let lines = vec!["/".into()];
    let (new_lines, _new_line, new_col) = provider.apply_completion(&lines, 0, 1, &item, "/");
    assert_eq!(new_lines[0], "/help ");
    assert_eq!(new_col, 6);
}

#[test]
fn test_get_file_suggestions_absolute_path() {
    let provider = CombinedAutocompleteProvider::new(vec![], "/tmp".into()).with_files(FixedFiles);
    let lines = vec!["/tmp".into()];
    let result = provider.get_suggestions(&lines, 0, 4, false);
    assert!(result.is_some(), "Absolute path /tmp should produce suggestions");
    let suggestions = result.unwrap();
    assert!(!suggestions.items.is_empty(), "Should have entries from /tmp");
    assert_eq!(suggestions.prefix, "/tmp");
}

#[test]
fn test_get_suggestions_slash_falls_through_to_file_completion() {
    let provider =
        CombinedAutocompleteProvider::new(vec![command("help", None)], "/tmp".into()).with_files(FixedFiles);
    let lines = vec!["/tmp".into()];
    let result = provider.get_suggestions(&lines, 0, 4, false);
    assert!(result.is_some(), "/tmp should fall through to file completion");
}

#[test]
fn test_get_suggestions_slash_command_still_works() {
    let provider = CombinedAutocompleteProvider::new(vec![command("help", Some("Show help"))], "/tmp".into());
    let lines = vec!["/he".into()];
    let result = provider.get_suggestions(&lines, 0, 3, false);
    assert!(result.is_some());
    let suggestions = result.unwrap();
    assert_eq!(suggestions.items.len(), 1);
    assert_eq!(suggestions.items[0].value, "help");
}

// ── Own cases ──

#[test]
fn autocomplete_slash_description_combines_hint() {
    let mut c = command("model", Some("Pick a model"));
    c.argument_hint = Some("<name>".into());
    let provider = CombinedAutocompleteProvider::new(vec![c], "/tmp".into());
    let s = provider.get_slash_suggestions("mo").unwrap();
    assert_eq!(s.prefix, "/mo");
    assert_eq!(s.items[0].label, "/model");
    assert_eq!(s.items[0].description.as_deref(), Some("<name> - Pick a model"));
}

#[test]
fn autocomplete_file_entries_directories_first() {
    let provider = CombinedAutocompleteProvider::new(vec![], "/tmp".into()).with_files(FixedFiles);
    let s = provider.get_file_suggestions("/tmp/").unwrap();
    let values: Vec<&str> = s.items.iter().map(|i| i.value.as_str()).collect();
    assert_eq!(values, vec!["/tmp/work/", "/tmp/notes.txt"]);
}

#[test]
fn autocomplete_argument_completions_filter() {
    let mut c = command("theme", None);
    c.argument_completions = Some(vec![
        AutocompleteItem { value: "dark".into(), label: "dark".into(), description: None },
        AutocompleteItem { value: "light".into(), label: "light".into(), description: None },
    ]);
    let provider = CombinedAutocompleteProvider::new(vec![c], "/tmp".into());
    let lines = vec!["/theme d".into()];
    let s = provider.get_suggestions(&lines, 0, 8, false).unwrap();
    assert_eq!(s.items.len(), 1);
    assert_eq!(s.items[0].value, "dark");
    assert_eq!(s.prefix, "d");
}

#[test]
fn autocomplete_tab_blocked_in_known_command() {
    let provider = CombinedAutocompleteProvider::new(vec![command("help", None)], "/tmp".into());
    let lines: Vec<String> = vec!["/he".into()];
    assert!(!provider.should_trigger_file_completion(&lines, 0, 3));
    let lines: Vec<String> = vec!["/".into()];
    assert!(!provider.should_trigger_file_completion(&lines, 0, 1));
    let lines: Vec<String> = vec!["/usr".into()];
    assert!(provider.should_trigger_file_completion(&lines, 0, 4));
    assert!(score_entry("docs/main", "main", true) == 110);
}

/// A source whose `theme` command computes completions for its argument.
struct ThemeArgs;

impl FileSource for ThemeArgs {
    fn read_dir(&self, _dir: &str) -> Option<Vec<(String, bool)>> {
        None
    }
    fn is_dir(&self, _path: &str) -> bool {
        false
    }
    fn home_dir(&self) -> String {
        "/tmp".to_string()
    }
    fn fd_walk(&self, _fd_path: &str, _base_dir: &str, _query: &str, _max_results: usize) -> Vec<(String, bool)> {
        Vec::new()
    }
    fn command_arguments(&self, command: &str, arg: &str) -> Vec<AutocompleteItem> {
        if command != "theme" {
            return Vec::new();
        }
        ["amber", "azure", "slate"]
            .iter()
            .filter(|n| n.starts_with(arg))
            .map(|n| AutocompleteItem { value: n.to_string(), label: n.to_string(), description: None })
            .collect()
    }
}

#[test]
fn command_computes_argument_completions() {
    let mut theme = SlashCommand::new("theme");
    theme.dynamic_arguments = true;
    theme.argument_completions = Some(vec![AutocompleteItem { value: "fixed".into(), label: "fixed".into(), description: None }]);
    let provider = CombinedAutocompleteProvider::new(vec![theme], "/tmp".into()).with_files(ThemeArgs);
    let lines = vec!["/theme a".to_string()];
    let s = provider.get_suggestions(&lines, 0, 8, false).unwrap();
    let values: Vec<&str> = s.items.iter().map(|i| i.value.as_str()).collect();
    assert_eq!(values, vec!["amber", "azure"]);
    assert_eq!(s.prefix, "a");
    // nothing computed: the fixed completions are filtered instead
    let lines = vec!["/theme f".to_string()];
    let s = provider.get_suggestions(&lines, 0, 8, false).unwrap();
    let values: Vec<&str> = s.items.iter().map(|i| i.value.as_str()).collect();
    assert_eq!(values, vec!["fixed"]);
}

#[test]
fn command_without_computed_arguments_is_not_asked() {
    let theme = SlashCommand::new("theme");
    let provider = CombinedAutocompleteProvider::new(vec![theme], "/tmp".into()).with_files(ThemeArgs);
    let lines = vec!["/theme a".to_string()];
    assert!(provider.get_suggestions(&lines, 0, 8, false).is_none());
}
