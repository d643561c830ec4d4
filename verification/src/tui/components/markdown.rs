//! Markdown support that stands apart from rendering: the language of a
//! source file, for highlighting its code. Reading Markdown into a document
//! takes a parser, which this library does not carry; given the cells of a
//! table or the items of a list, `table` and `list` lay them out.
use crate::tui::autocomplete::{lowercase, str_lowercase};
use crate::tui::image::chars_eq;
use crate::tui::strs::str_chars;
use vstd::prelude::*;

verus! {

/// File extensions and the languages they are highlighted as.
pub open spec fn language_table() -> Seq<(Seq<char>, Seq<char>)> {
    seq![
        ("ts"@, "typescript"@),
        ("tsx"@, "typescript"@),
        ("js"@, "javascript"@),
        ("jsx"@, "javascript"@),
        ("mjs"@, "javascript"@),
        ("cjs"@, "javascript"@),
        ("py"@, "python"@),
        ("rb"@, "ruby"@),
        ("rs"@, "rust"@),
        ("go"@, "go"@),
        ("java"@, "java"@),
        ("kt"@, "kotlin"@),
        ("swift"@, "swift"@),
        ("c"@, "c"@),
        ("h"@, "c"@),
        ("cpp"@, "cpp"@),
        ("cc"@, "cpp"@),
        ("cxx"@, "cpp"@),
        ("hpp"@, "cpp"@),
        ("cs"@, "csharp"@),
        ("php"@, "php"@),
        ("sh"@, "bash"@),
        ("bash"@, "bash"@),
        ("zsh"@, "bash"@),
        ("ps1"@, "powershell"@),
        ("sql"@, "sql"@),
        ("html"@, "html"@),
        ("htm"@, "html"@),
        ("css"@, "css"@),
        ("scss"@, "css"@),
        ("sass"@, "css"@),
        ("less"@, "css"@),
        ("json"@, "json"@),
        ("yaml"@, "yaml"@),
        ("yml"@, "yaml"@),
        ("toml"@, "toml"@),
        ("xml"@, "xml"@),
        ("md"@, "markdown"@),
        ("markdown"@, "markdown"@),
        ("clj"@, "clojure"@),
        ("cljs"@, "clojure"@),
        ("cljc"@, "clojure"@),
        ("ex"@, "elixir"@),
        ("exs"@, "elixir"@),
        ("hs"@, "haskell"@),
        ("lua"@, "lua"@),
    ]
}

/// The language of the first entry for `ext`.
pub open spec fn table_lookup(t: Seq<(Seq<char>, Seq<char>)>, ext: Seq<char>) -> Option<Seq<char>>
    decreases t.len(),
{
    if t.len() == 0 {
        None
    } else if t[0].0 == ext {
        Some(t[0].1)
    } else {
        table_lookup(t.drop_first(), ext)
    }
}

/// The text after the last `.`, or all of it without one.
pub open spec fn last_part(s: Seq<char>) -> Seq<char>
    decreases s.len(),
{
    if s.len() == 0 {
        s
    } else if s.last() == '.' {
        seq![]
    } else {
        last_part(s.drop_last()).push(s.last())
    }
}

/// The language a path's extension (case aside) is highlighted as.
pub open spec fn language_of(path: Seq<char>) -> Option<Seq<char>> {
    table_lookup(language_table(), lowercase(last_part(path)))
}

fn language_entries() -> (v: Vec<(&'static str, &'static str)>)
    ensures
        v@.map_values(|p: (&'static str, &'static str)| (p.0@, p.1@)) == language_table(),
{
    let v = vec![
        ("ts", "typescript"),
        ("tsx", "typescript"),
        ("js", "javascript"),
        ("jsx", "javascript"),
        ("mjs", "javascript"),
        ("cjs", "javascript"),
        ("py", "python"),
        ("rb", "ruby"),
        ("rs", "rust"),
        ("go", "go"),
        ("java", "java"),
        ("kt", "kotlin"),
        ("swift", "swift"),
        ("c", "c"),
        ("h", "c"),
        ("cpp", "cpp"),
        ("cc", "cpp"),
        ("cxx", "cpp"),
        ("hpp", "cpp"),
        ("cs", "csharp"),
        ("php", "php"),
        ("sh", "bash"),
        ("bash", "bash"),
        ("zsh", "bash"),
        ("ps1", "powershell"),
        ("sql", "sql"),
        ("html", "html"),
        ("htm", "html"),
        ("css", "css"),
        ("scss", "css"),
        ("sass", "css"),
        ("less", "css"),
        ("json", "json"),
        ("yaml", "yaml"),
        ("yml", "yaml"),
        ("toml", "toml"),
        ("xml", "xml"),
        ("md", "markdown"),
        ("markdown", "markdown"),
        ("clj", "clojure"),
        ("cljs", "clojure"),
        ("cljc", "clojure"),
        ("ex", "elixir"),
        ("exs", "elixir"),
        ("hs", "haskell"),
        ("lua", "lua"),
    ];
    assert(v@.map_values(|p: (&'static str, &'static str)| (p.0@, p.1@)) =~= language_table());
    v
}

/// Map a file path to a language identifier for syntax highlighting, by
/// its extension (case aside); `None` for an unknown one.
pub fn path_to_language(path: &str) -> (r: Option<&'static str>)
    ensures
        match r {
            Some(l) => language_of(path@) == Some(l@),
            None => language_of(path@) is None,
        },
{
    let p = str_chars(path);
    let mut start = p.len();
    assert(p@.take(p@.len() as int) =~= p@);
    assert(p@.skip(p@.len() as int) =~= Seq::<char>::empty());
    assert(last_part(p@) + Seq::<char>::empty() =~= last_part(p@));
    while start > 0 && p[start - 1] != '.'
        invariant
            start <= p@.len(),
            last_part(p@) == last_part(p@.take(start as int)) + p@.skip(start as int),
        decreases start,
    {
        proof {
            let t = p@.take(start as int);
            assert(t.drop_last() =~= p@.take(start - 1));
            assert(t.last() == p@[start - 1]);
            assert(last_part(t) == last_part(t.drop_last()).push(t.last()));
            assert(last_part(t.drop_last()).push(t.last()) + p@.skip(start as int) =~= last_part(t.drop_last())
                + p@.skip(start - 1));
        }
        start = start - 1;
    }
    proof {
        if start > 0 {
            assert(last_part(p@.take(start as int)) == Seq::<char>::empty());
        } else {
            assert(p@.take(0) =~= Seq::<char>::empty());
        }
        assert(Seq::<char>::empty() + p@.skip(start as int) =~= p@.skip(start as int));
    }
    let mut ext = String::new();
    crate::tui::strs::push_chars(&mut ext, &crate::tui::strs::sub_chars(&p, start, p.len()));
    assert(ext@ =~= last_part(path@));
    let lower = str_chars(str_lowercase(ext.as_str()).as_str());
    let table = language_entries();
    let ghost tv = table@.map_values(|q: (&'static str, &'static str)| (q.0@, q.1@));
    let mut i: usize = 0;
    assert(tv.skip(0) =~= tv);
    while i < table.len()
        invariant
            i <= table@.len(),
            tv == table@.map_values(|q: (&'static str, &'static str)| (q.0@, q.1@)),
            tv == language_table(),
            lower@ == lowercase(last_part(path@)),
            table_lookup(tv, lower@) == table_lookup(tv.skip(i as int), lower@),
        decreases table.len() - i,
    {
        let (e, lang) = table[i];
        proof {
            assert(tv.skip(i as int)[0] == (e@, lang@));
            assert(tv.skip(i as int).drop_first() =~= tv.skip(i + 1));
        }
        if chars_eq(&lower, &str_chars(e)) {
            return Some(lang);
        }
        i = i + 1;
    }
    assert(tv.skip(i as int).len() == 0);
    None
}

} // verus!
