use rab::tui::autocomplete::{dir_and_file_prefix_of, file_suggestions_from, fuzzy_suggestions_from};
use rab::tui::components::markdown::path_to_language;

fn entries(list: &[(&str, bool)]) -> Vec<(String, bool)> {
    list.iter().map(|(n, d)| (n.to_string(), *d)).collect()
}

#[test]
fn dir_and_prefix_of_typed_paths() {
    assert_eq!(
        dir_and_file_prefix_of("src/ma", "/home/u", "/proj"),
        ("/proj/src".to_string(), "ma".to_string())
    );
    assert_eq!(
        dir_and_file_prefix_of("~/docs/", "/home/u", "/proj"),
        ("/home/u/docs/".to_string(), String::new())
    );
    assert_eq!(dir_and_file_prefix_of("/etc/ho", "/home/u", "/proj"), ("/etc".to_string(), "ho".to_string()));
    assert_eq!(dir_and_file_prefix_of("~", "/home/u", "/proj"), ("/home".to_string(), "u".to_string()));
}

#[test]
fn file_suggestions_listed_directories_first() {
    let es = entries(&[("main.rs", false), ("Makefile", false), ("macros", true), (".hidden", false), ("lib.rs", false)]);
    let s = file_suggestions_from("src/ma", "/proj/src", "ma", &es).unwrap();
    let values: Vec<&str> = s.items.iter().map(|i| i.value.as_str()).collect();
    let labels: Vec<&str> = s.items.iter().map(|i| i.label.as_str()).collect();
    assert_eq!(values, vec!["src/macros/", "src/main.rs", "src/Makefile"]);
    assert_eq!(labels, vec!["macros/", "main.rs", "Makefile"]);
    assert_eq!(s.prefix, "src/ma");
}

#[test]
fn file_suggestions_hidden_only_for_dot_and_never_git() {
    let es = entries(&[(".git", true), (".env", false), ("env.rs", false)]);
    let s = file_suggestions_from(".", "/proj", ".", &es).unwrap();
    let values: Vec<&str> = s.items.iter().map(|i| i.value.as_str()).collect();
    assert_eq!(values, vec![".env"]);
    assert!(file_suggestions_from("x", "/proj", "x", &es).is_none());
}

#[test]
fn file_suggestions_home_and_absolute_display() {
    let es = entries(&[("notes.md", false)]);
    let s = file_suggestions_from("~/do", "/home/u", "no", &es).unwrap();
    assert_eq!(s.items[0].value, "~/notes.md");
    let s = file_suggestions_from("/tmp/", "/tmp/", "", &es).unwrap();
    assert_eq!(s.items[0].value, "/tmp/notes.md");
    let s = file_suggestions_from("./src/n", "/p/src", "n", &es).unwrap();
    assert_eq!(s.items[0].value, "./src/notes.md");
}

#[test]
fn fuzzy_suggestions_best_first_at_most_twenty() {
    let mut list: Vec<(String, bool)> = Vec::new();
    for i in 0..30 {
        list.push((format!("dir/file{}.rs", i), false));
    }
    let s = fuzzy_suggestions_from("q", "", "", &list).unwrap();
    assert_eq!(s.items.len(), 20);
    assert_eq!(s.items[0].value, "dir/file0.rs");
    assert_eq!(s.items[0].label, "file0.rs/");
    assert_eq!(s.items[0].description.as_deref(), Some("dir/file0.rs"));

    let es = entries(&[("a/other.txt", false), ("b/main", true)]);
    let s = fuzzy_suggestions_from("src/main", "main", "src/", &es).unwrap();
    assert_eq!(s.items.len(), 1);
    assert_eq!(s.items[0].value, "src/b/main/");
    assert_eq!(s.prefix, "src/main");
    assert!(fuzzy_suggestions_from("zzz", "zzz", "", &es).is_none());
}

#[test]
fn path_to_language_by_extension() {
    assert_eq!(path_to_language("src/main.rs"), Some("rust"));
    assert_eq!(path_to_language("App.TSX"), Some("typescript"));
    assert_eq!(path_to_language("a.b.yml"), Some("yaml"));
    assert_eq!(path_to_language("Makefile"), None);
    assert_eq!(path_to_language("archive.tar.gz"), None);
    assert_eq!(path_to_language("go"), Some("go"));
}
