use rab::tui::autocomplete::{build_fd_path_query, AutocompleteItem, AutocompleteProvider, CombinedAutocompleteProvider, FileSource};

/// A directory tree held in memory:
///   /work/
///     src/
///       autocomplete/
///         mod.rs
///       editor.rs
///       components/
///         select_list.rs
struct TreeFiles {
    paths: Vec<(String, bool)>,
}

fn tree() -> TreeFiles {
    let list = [
        ("/work", true),
        ("/work/src", true),
        ("/work/src/autocomplete", true),
        ("/work/src/autocomplete/mod.rs", false),
        ("/work/src/editor.rs", false),
        ("/work/src/components", true),
        ("/work/src/components/select_list.rs", false),
    ];
    TreeFiles { paths: list.iter().map(|(p, d)| (p.to_string(), *d)).collect() }
}

fn normalized(path: &str) -> String {
    let t = path.trim_end_matches('/');
    if t.is_empty() { "/".to_string() } else { t.to_string() }
}

impl FileSource for TreeFiles {
    fn read_dir(&self, dir: &str) -> Option<Vec<(String, bool)>> {
        let d = normalized(dir);
        if !self.is_dir(&d) {
            return None;
        }
        let mut out = Vec::new();
        for (p, is_dir) in &self.paths {
            if let Some(rest) = p.strip_prefix(&format!("{}/", d)) {
                if !rest.contains('/') {
                    out.push((rest.to_string(), *is_dir));
                }
            }
        }
        Some(out)
    }

    fn is_dir(&self, path: &str) -> bool {
        let d = normalized(path);
        self.paths.iter().any(|(p, is_dir)| *is_dir && *p == d)
    }

    fn home_dir(&self) -> String {
        "/home/nobody".to_string()
    }

    fn fd_walk(&self, _fd_path: &str, _base_dir: &str, _query: &str, _max_results: usize) -> Vec<(String, bool)> {
        Vec::new()
    }
}

fn provider() -> CombinedAutocompleteProvider<TreeFiles> {
    CombinedAutocompleteProvider::new(vec![], "/work".to_string()).with_files(tree())
}

fn values(items: &[AutocompleteItem]) -> Vec<&str> {
    items.iter().map(|i| i.value.as_str()).collect()
}

fn item(value: &str, label: &str) -> AutocompleteItem {
    AutocompleteItem { value: value.into(), label: label.into(), description: None }
}

#[test]
fn test_build_fd_path_query() {
    assert_eq!(build_fd_path_query("hello"), "hello");
    assert_eq!(build_fd_path_query("src/main.rs"), "src[\\\\/]main\\.rs");
    assert!(build_fd_path_query("src/").ends_with("[\\\\/]"));
}

#[test]
fn fd_path_query_escapes_every_meta_character() {
    assert_eq!(build_fd_path_query("a/(x)+[y]{z}"), "a[\\\\/]\\(x\\)\\+\\[y\\]\\{z\\}");
    assert_eq!(build_fd_path_query("a/b-c~d#e&f^g$h|i?j*k"), "a[\\\\/]b\\-c\\~d\\#e\\&f\\^g\\$h\\|i\\?j\\*k");
    // characters without a meaning of their own stay as they are
    assert_eq!(build_fd_path_query("a/%!\"e"), "a[\\\\/]%!\"e");
}

#[test]
fn test_get_file_suggestions_relative_path_with_folder() {
    let provider = provider();
    let result = provider.get_file_suggestions("src/au");
    assert!(result.is_some(), "src/au should produce suggestions");
    let suggestions = result.unwrap();
    assert_eq!(suggestions.prefix, "src/au", "prefix should be the typed text");
    assert!(!suggestions.items.is_empty(), "should have at least one item");
    assert!(values(&suggestions.items).contains(&"src/autocomplete/"));
}

#[test]
fn test_get_file_suggestions_relative_path_trailing_slash() {
    let provider = provider();
    let result = provider.get_file_suggestions("src/");
    assert!(result.is_some(), "src/ should produce suggestions");
    let suggestions = result.unwrap();
    assert_eq!(suggestions.prefix, "src/", "prefix should be src/");
    let vs = values(&suggestions.items);
    assert!(vs.contains(&"src/autocomplete/"), "got: {:?}", vs);
    assert!(vs.contains(&"src/editor.rs"), "got: {:?}", vs);
    assert!(vs.contains(&"src/components/"), "got: {:?}", vs);
}

#[test]
fn test_get_file_suggestions_deep_path() {
    let provider = provider();
    let result = provider.get_file_suggestions("src/components/s");
    assert!(result.is_some(), "src/components/s should produce suggestions");
    let suggestions = result.unwrap();
    assert_eq!(suggestions.prefix, "src/components/s");
    assert!(values(&suggestions.items).contains(&"src/components/select_list.rs"));
}

#[test]
fn test_get_suggestions_force_triggers_file_completion() {
    let provider = provider();
    let lines = vec!["src/au".to_string()];
    let result = provider.get_suggestions(&lines, 0, 6, true);
    assert!(result.is_some(), "Force should trigger file completion for src/au");
    let suggestions = result.unwrap();
    assert_eq!(suggestions.prefix, "src/au");
    assert!(values(&suggestions.items).contains(&"src/autocomplete/"));
}

#[test]
fn test_get_suggestions_at_prefix_file_completion() {
    let provider = provider();
    let lines = vec!["@src/au".to_string()];
    let result = provider.get_suggestions(&lines, 0, 7, false);
    assert!(result.is_some(), "@src/au should produce suggestions");
    let suggestions = result.unwrap();
    assert_eq!(suggestions.prefix, "src/au", "prefix should not include @");
    assert!(values(&suggestions.items).contains(&"src/autocomplete/"));
}

#[test]
fn test_apply_completion_relative_path_with_folder() {
    let provider = provider();
    let lines = vec!["src/au".to_string()];
    let (new_lines, new_line, new_col) =
        provider.apply_completion(&lines, 0, 6, &item("src/autocomplete/", "autocomplete/"), "src/au");
    assert_eq!(new_lines[0], "src/autocomplete/");
    assert_eq!(new_line, 0);
    assert_eq!(new_col, 17);
}

#[test]
fn test_apply_completion_relative_path_trailing_slash() {
    let provider = provider();
    let lines = vec!["src/".to_string()];
    let (new_lines, new_line, new_col) =
        provider.apply_completion(&lines, 0, 4, &item("src/autocomplete/", "autocomplete/"), "src/");
    assert_eq!(new_lines[0], "src/autocomplete/");
    assert_eq!(new_line, 0);
    assert_eq!(new_col, 17);
}

#[test]
fn test_apply_completion_at_prefix() {
    let provider = provider();
    let lines = vec!["@src/au".to_string()];
    let (new_lines, new_line, new_col) =
        provider.apply_completion(&lines, 0, 7, &item("src/autocomplete/", "autocomplete/"), "src/au");
    assert_eq!(new_lines[0], "@src/autocomplete/");
    assert_eq!(new_line, 0);
    assert_eq!(new_col, 18);
}

#[test]
fn test_apply_completion_deep_path() {
    let provider = provider();
    let lines = vec!["src/components/s".to_string()];
    let (new_lines, new_line, new_col) = provider.apply_completion(
        &lines,
        0,
        16,
        &item("src/components/select_list.rs", "select_list.rs"),
        "src/components/s",
    );
    assert_eq!(new_lines[0], "src/components/select_list.rs ");
    assert_eq!(new_line, 0);
    assert_eq!(new_col, 30);
}

#[test]
fn test_apply_completion_at_prefix_deep_path() {
    let provider = provider();
    let lines = vec!["@src/components/s".to_string()];
    let (new_lines, new_line, new_col) = provider.apply_completion(
        &lines,
        0,
        17,
        &item("src/components/select_list.rs", "select_list.rs"),
        "src/components/s",
    );
    assert_eq!(new_lines[0], "@src/components/select_list.rs ");
    assert_eq!(new_line, 0);
    assert_eq!(new_col, 31);
}

#[test]
fn test_apply_completion_after_folder_completion_then_deeper() {
    let provider = provider();
    let lines = vec!["src/".to_string()];
    let (new_lines, _, _) = provider.apply_completion(&lines, 0, 4, &item("src/autocomplete/", "autocomplete/"), "src/");
    assert_eq!(new_lines[0], "src/autocomplete/");

    let text = format!("{}m", new_lines[0]);
    let cursor_col = text.len();
    let lines2 = vec![text];
    let result = provider.get_suggestions(&lines2, 0, cursor_col, true);
    assert!(result.is_some(), "src/autocomplete/m should produce suggestions");
    let suggestions = result.unwrap();
    assert_eq!(suggestions.prefix, "src/autocomplete/m");
    assert!(values(&suggestions.items).contains(&"src/autocomplete/mod.rs"));

    let (final_lines, _, _) =
        provider.apply_completion(&lines2, 0, cursor_col, &item("src/autocomplete/mod.rs", "mod.rs"), "src/autocomplete/m");
    assert_eq!(final_lines[0], "src/autocomplete/mod.rs ");
}

#[test]
fn test_file_suggestions_roundtrip() {
    let provider = provider();
    let result = provider.get_file_suggestions("src/au").unwrap();
    assert_eq!(result.prefix, "src/au");
    for it in &result.items {
        let lines = vec!["src/au".to_string()];
        let (new_lines, _, _) = provider.apply_completion(&lines, 0, 6, it, "src/au");
        assert!(new_lines[0].starts_with(it.value.trim_end_matches(' ')));
    }
}

#[test]
fn test_at_suggestions_roundtrip() {
    let provider = provider();
    let lines = vec!["@src/au".to_string()];
    let result = provider.get_suggestions(&lines, 0, 7, false).unwrap();
    assert_eq!(result.prefix, "src/au");
    for it in &result.items {
        let lines = vec!["@src/au".to_string()];
        let (new_lines, _, _) = provider.apply_completion(&lines, 0, 7, it, "src/au");
        assert!(new_lines[0].starts_with('@'));
        let after_at = &new_lines[0][1..];
        assert_eq!(after_at.trim_end_matches(' '), it.value);
    }
}

#[test]
fn path_completion_lists_directories_first() {
    let provider = provider();
    let s = provider.get_file_suggestions("src/").unwrap();
    assert_eq!(values(&s.items), vec!["src/autocomplete/", "src/components/", "src/editor.rs"]);
    // a path into a directory that is not there gives nothing
    assert!(provider.get_file_suggestions("nowhere/x").is_none());
}
