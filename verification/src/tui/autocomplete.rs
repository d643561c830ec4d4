//! Autocomplete: the items a provider suggests, and the provider interface
//! the editor asks for suggestions and completions.
use crate::tui::components::select_list::SelectItem;
use crate::tui::strs::{
    byte_len, push_char, push_str, seq_contains, seq_starts_with, str_byte_len, str_chars, string_from_chars,
    string_from_str, sub_chars, trim_bounds, trim_ws,
};
use crate::tui::word_nav::{chars_within, prefix_bytes, suffix_bytes};
use vstd::prelude::*;

verus! {

/// A suggestion item for autocomplete.
#[derive(Clone, Debug)]
pub struct AutocompleteItem {
    pub value: String,
    pub label: String,
    pub description: Option<String>,
}

impl From<AutocompleteItem> for SelectItem {
    fn from(item: AutocompleteItem) -> (r: SelectItem) {
        SelectItem { value: item.value, label: item.label, description: item.description }
    }
}

impl vstd::std_specs::convert::FromSpecImpl<AutocompleteItem> for SelectItem {
    open spec fn obeys_from_spec() -> bool {
        true
    }

    open spec fn from_spec(item: AutocompleteItem) -> SelectItem {
        SelectItem { value: item.value, label: item.label, description: item.description }
    }
}

/// Suggestions returned by an autocomplete provider: the items and the
/// prefix they were matched against.
#[derive(Clone, Debug)]
pub struct AutocompleteSuggestions {
    pub items: Vec<AutocompleteItem>,
    pub prefix: String,
}

/// A slash command: its name, description, argument hint, and the
/// completions its argument offers.
#[derive(Clone, Debug)]
pub struct SlashCommand {
    pub name: String,
    pub description: Option<String>,
    pub argument_hint: Option<String>,
    pub argument_completions: Option<Vec<AutocompleteItem>>,
    /// Whether the command computes completions for its argument as it is
    /// typed; the provider asks its source (`FileSource::command_arguments`),
    /// and what comes back, where not empty, goes before the fixed ones.
    pub dynamic_arguments: bool,
}

impl SlashCommand {
    /// A command with a name and nothing else.
    pub fn new(name: &str) -> (c: Self)
        ensures
            c.name@ == name@,
            c.description is None,
            c.argument_hint is None,
            c.argument_completions is None,
    {
        SlashCommand {
            name: string_from_str(name),
            description: None,
            argument_hint: None,
            argument_completions: None,
            dynamic_arguments: false,
        }
    }
}

/// Generates autocomplete suggestions for the editor. Implemented by the
/// users of the editor; the editor relies on nothing of what it returns.
pub trait AutocompleteProvider {
    /// Characters that trigger this provider at token boundaries.
    fn trigger_characters(&self) -> Vec<char>;

    /// Suggestions for the text and cursor (byte column), or `None`.
    fn get_suggestions(&self, lines: &[String], cursor_line: usize, cursor_col: usize, force: bool) -> Option<
        AutocompleteSuggestions,
    >;

    /// The lines and cursor (line, byte column) after completing with `item`.
    fn apply_completion(
        &self,
        lines: &[String],
        cursor_line: usize,
        cursor_col: usize,
        item: &AutocompleteItem,
        prefix: &str,
    ) -> (Vec<String>, usize, usize);

    /// Whether Tab should complete file names here.
    fn should_trigger_file_completion(&self, lines: &[String], cursor_line: usize, cursor_col: usize) -> bool;
}

/// The provider of an editor without autocomplete: it suggests nothing.
pub struct NoAutocomplete;

impl AutocompleteProvider for NoAutocomplete {
    fn trigger_characters(&self) -> Vec<char> {
        Vec::new()
    }

    fn get_suggestions(&self, lines: &[String], cursor_line: usize, cursor_col: usize, force: bool) -> Option<
        AutocompleteSuggestions,
    > {
        None
    }

    /// The lines and the cursor as they are.
    fn apply_completion(
        &self,
        lines: &[String],
        cursor_line: usize,
        cursor_col: usize,
        item: &AutocompleteItem,
        prefix: &str,
    ) -> (r: (Vec<String>, usize, usize))
        ensures
            r.0@.map_values(|l: String| l@) == lines@.map_values(|l: String| l@),
            r.1 == cursor_line,
            r.2 == cursor_col,
    {
        let mut out: Vec<String> = Vec::new();
        let mut i: usize = 0;
        while i < lines.len()
            invariant
                0 <= i <= lines.len(),
                out@.map_values(|l: String| l@) =~= lines@.map_values(|l: String| l@).take(i as int),
            decreases lines.len() - i,
        {
            let ghost b = out@.map_values(|l: String| l@);
            out.push(string_from_str(lines[i].as_str()));
            assert(out@.map_values(|l: String| l@) =~= b.push(lines@[i as int]@));
            assert(lines@.map_values(|l: String| l@).take(i + 1) =~= lines@.map_values(|l: String| l@).take(i as int).push(lines@[i as int]@));
            i = i + 1;
        }
        assert(lines@.map_values(|l: String| l@).take(lines.len() as int) =~= lines@.map_values(|l: String| l@));
        (out, cursor_line, cursor_col)
    }

    fn should_trigger_file_completion(&self, lines: &[String], cursor_line: usize, cursor_col: usize) -> bool {
        false
    }
}


// ---------------------------------------------------------------------------
// Values
// ---------------------------------------------------------------------------

/// An item as values: value, label, description.
pub type ItemView = (Seq<char>, Seq<char>, Option<Seq<char>>);

/// The item as values.
pub open spec fn item_view(i: AutocompleteItem) -> ItemView {
    (
        i.value@,
        i.label@,
        match i.description {
            Some(d) => Some(d@),
            None => None,
        },
    )
}

/// The items as values.
pub open spec fn items_view(s: Seq<AutocompleteItem>) -> Seq<ItemView> {
    s.map_values(|i: AutocompleteItem| item_view(i))
}

/// The text as `str::to_lowercase` gives it.
pub uninterp spec fn lowercase(s: Seq<char>) -> Seq<char>;

/// `str::to_lowercase`. Trusted: the result is the named lower-casing of
/// the text; nothing more is stated of it.
#[verifier::external_body]
pub(crate) fn str_lowercase(s: &str) -> (r: String)
    ensures
        r@ == lowercase(s@),
{
    s.to_lowercase()
}

/// What `std::path::Path::file_name` gives for a path, as text.
pub uninterp spec fn path_file_name(p: Seq<char>) -> Option<Seq<char>>;

/// `Path::file_name` (lossily as text). Trusted: the result is the named
/// last component of the path.
#[verifier::external_body]
fn file_name_of(p: &str) -> (r: Option<String>)
    ensures
        r matches Some(f) ==> path_file_name(p@) == Some(f@),
        r is None ==> path_file_name(p@) is None,
{
    std::path::Path::new(p).file_name().map(|f| f.to_string_lossy().to_string())
}

/// What `std::path::Path::parent` gives for a path, as text.
pub uninterp spec fn path_parent(p: Seq<char>) -> Option<Seq<char>>;

/// `Path::parent` (lossily as text). Trusted: the result is the named
/// parent of the path.
#[verifier::external_body]
fn parent_of(p: &str) -> (r: Option<String>)
    ensures
        r matches Some(f) ==> path_parent(p@) == Some(f@),
        r is None ==> path_parent(p@) is None,
{
    std::path::Path::new(p).parent().map(|f| f.to_string_lossy().to_string())
}

/// A character with a meaning of its own in a regular expression:
/// `\ . + * ? ( ) | [ ] { } ^ $ # & - ~`.
pub open spec fn regex_meta(c: char) -> bool {
    c == '\\' || c == '.' || c == '+' || c == '*' || c == '?' || c == '(' || c == ')' || c == '|' || c == '['
        || c == ']' || c == '{' || c == '}' || c == '^' || c == '$' || c == '#' || c == '&' || c == '-' || c == '~'
}

/// The text with a backslash put before each regex meta character.
pub open spec fn regex_escaped(s: Seq<char>) -> Seq<char>
    decreases s.len(),
{
    if s.len() == 0 {
        seq![]
    } else {
        regex_escaped(s.drop_last()) + if regex_meta(s.last()) {
            seq!['\\', s.last()]
        } else {
            seq![s.last()]
        }
    }
}

/// `regex::escape`, which goes through the text and puts a backslash before
/// each meta character. Trusted: the result is `regex_escaped` of the text.
#[verifier::external_body]
fn escape_regex(s: &str) -> (r: String)
    ensures
        r@ == regex_escaped(s@),
{
    regex::escape(s)
}

/// The file system the provider completes paths from. Implemented where
/// the files are read; the provider relies on nothing of what it returns.
pub trait FileSource {
    /// The entries of a directory: names and whether each is a directory;
    /// `None` where it cannot be read.
    fn read_dir(&self, dir: &str) -> Option<Vec<(String, bool)>>;

    /// Whether the path is a directory.
    fn is_dir(&self, path: &str) -> bool;

    /// The home directory.
    fn home_dir(&self) -> String;

    /// Up to `max_results` entries (paths relative to `base_dir`, whether a
    /// directory) that the `fd` program at `fd_path` finds for `query`.
    fn fd_walk(&self, fd_path: &str, base_dir: &str, query: &str, max_results: usize) -> Vec<(String, bool)>;

    /// The completions that command `command` computes for the argument
    /// `arg` typed so far; none by default.
    fn command_arguments(&self, command: &str, arg: &str) -> Vec<AutocompleteItem> {
        Vec::new()
    }
}

/// No files at all.
pub struct NoFiles;

impl FileSource for NoFiles {
    fn read_dir(&self, dir: &str) -> Option<Vec<(String, bool)>> {
        None
    }

    fn is_dir(&self, path: &str) -> bool {
        false
    }

    fn home_dir(&self) -> String {
        string_from_str("/tmp")
    }

    fn fd_walk(&self, fd_path: &str, base_dir: &str, query: &str, max_results: usize) -> Vec<(String, bool)> {
        Vec::new()
    }
}

// ---------------------------------------------------------------------------
// Prefix helpers
// ---------------------------------------------------------------------------

/// A character that ends a path token.
pub open spec fn path_delimiter(c: char) -> bool {
    c == ' ' || c == '\t' || c == '"' || c == '\'' || c == '='
}

/// Whether the quotes of `t[..i]` are open, and where the last opening
/// one is.
pub open spec fn quote_scan(t: Seq<char>, i: int) -> (bool, int)
    decreases i,
{
    if i <= 0 || i > t.len() {
        (false, 0)
    } else {
        let (open, start) = quote_scan(t, i - 1);
        if t[i - 1] == '"' {
            if !open { (true, i - 1) } else { (false, start) }
        } else {
            (open, start)
        }
    }
}

/// The start (a character index) of an unclosed `"` or `@"` that begins a
/// token in `t`, if any.
pub open spec fn unclosed_quote_start(t: Seq<char>) -> Option<int> {
    let (open, q) = quote_scan(t, t.len() as int);
    if !open {
        None
    } else if q > 0 && t[q - 1] == '@' && (q - 1 == 0 || path_delimiter(t[q - 2])) {
        Some(q - 1)
    } else if q == 0 || path_delimiter(t[q - 1]) {
        Some(q)
    } else {
        None
    }
}

/// Find an unclosed `"` or `@"` that starts a token: its byte index and the
/// text from it on.
pub fn find_unclosed_quote_prefix(text: &str) -> (r: Option<(usize, String)>)
    ensures
        match unclosed_quote_start(text@) {
            Some(k) => r matches Some((b, p)) && b == byte_len(text@.take(k)) && p@ == text@.skip(k),
            None => r is None,
        },
{
    let t = str_chars(text);
    let _n = str_byte_len(text);
    let mut open = false;
    let mut q: usize = 0;
    let mut i: usize = 0;
    while i < t.len()
        invariant
            0 <= i <= t.len(),
            t@ == text@,
            (open, q as int) == quote_scan(t@, i as int),
            q <= i,
        decreases t.len() - i,
    {
        if t[i] == '"' {
            if !open {
                q = i;
            }
            open = !open;
        }
        i = i + 1;
    }
    if !open {
        return None;
    }
    let k: usize = if q > 0 && t[q - 1] == '@' && (q - 1 == 0 || (t[q - 2] == ' ' || t[q - 2] == '\t' || t[q - 2] == '"' || t[q - 2] == '\'' || t[q - 2] == '=')) {
        q - 1
    } else if q == 0 || (t[q - 1] == ' ' || t[q - 1] == '\t' || t[q - 1] == '"' || t[q - 1] == '\'' || t[q - 1] == '=') {
        q
    } else {
        return None;
    };
    let head = sub_chars(&t, 0, k);
    assert(head@ =~= text@.take(k as int));
    proof {
        crate::tui::strs::lemma_byte_len_prefix_le(text@, k as int);
    }
    let b = crate::tui::strs::chars_byte_len(&head);
    let rest = sub_chars(&t, k, t.len());
    assert(rest@ =~= text@.skip(k as int));
    Some((b, string_from_chars(&rest)))
}

/// The query of a completion prefix, and whether it had `@` and a quote.
pub open spec fn completion_prefix_parts(p: Seq<char>) -> (Seq<char>, bool, bool) {
    if p.len() >= 2 && p[0] == '@' && p[1] == '"' {
        (p.skip(2), true, true)
    } else if p.len() >= 1 && p[0] == '"' {
        (p.skip(1), false, true)
    } else if p.len() >= 1 && p[0] == '@' {
        (p.skip(1), true, false)
    } else {
        (p, false, false)
    }
}

/// Split a completion prefix (`@"`, `"`, `@` or none) into its query,
/// whether it had `@`, and whether it was quoted.
pub fn parse_completion_prefix(prefix: &str) -> (r: (String, bool, bool))
    ensures
        (r.0@, r.1, r.2) == completion_prefix_parts(prefix@),
{
    let p = str_chars(prefix);
    let (k, at, quoted): (usize, bool, bool) = if p.len() >= 2 && p[0] == '@' && p[1] == '"' {
        (2, true, true)
    } else if p.len() >= 1 && p[0] == '"' {
        (1, false, true)
    } else if p.len() >= 1 && p[0] == '@' {
        (1, true, false)
    } else {
        (0, false, false)
    };
    let q = sub_chars(&p, k, p.len());
    assert(q@ =~= p@.skip(k as int));
    assert(p@.skip(0) =~= p@);
    (string_from_chars(&q), at, quoted)
}

/// How well an entry matches a query: 100 for its name, 80 for a name
/// that starts with it, 50 for a name that holds it, 30 for a path that
/// holds it (case aside), 0 otherwise; directories that match get 10 more.
pub open spec fn entry_score(path: Seq<char>, query: Seq<char>, is_dir: bool) -> nat {
    let name = lowercase(match path_file_name(path) {
        Some(f) => f,
        None => seq![],
    });
    let q = lowercase(query);
    let s: nat = if name == q {
        100
    } else if seq_starts_with(name, q) {
        80
    } else if seq_contains(name, q) {
        50
    } else if seq_contains(lowercase(path), q) {
        30
    } else {
        0
    };
    if is_dir && s > 0 { s + 10 } else { s }
}

/// The lower-cased file name of an entry's path, as the score reads it.
pub open spec fn entry_name(path: Seq<char>) -> Seq<char> {
    lowercase(match path_file_name(path) {
        Some(f) => f,
        None => seq![],
    })
}

/// For a query that is not empty (lower-cased), an entry whose file name
/// starts with it (and is longer) scores 80, one whose file name holds it
/// only further on scores 50, each 10 more for a directory: a name that
/// starts with the query ranks above one that merely holds it.
pub proof fn law_prefix_outranks_substring(
    p1: Seq<char>,
    p2: Seq<char>,
    query: Seq<char>,
    at: int,
    dir1: bool,
    dir2: bool,
)
    requires
        lowercase(query).len() > 0,
        entry_name(p1).len() > lowercase(query).len(),
        entry_name(p1).take(lowercase(query).len() as int) == lowercase(query),
        0 < at,
        at + lowercase(query).len() <= entry_name(p2).len(),
        entry_name(p2).subrange(at, at + lowercase(query).len()) == lowercase(query),
        entry_name(p2).take(lowercase(query).len() as int) != lowercase(query),
    ensures
        entry_score(p1, query, dir1) == if dir1 { 90nat } else { 80nat },
        entry_score(p2, query, dir2) == if dir2 { 60nat } else { 50nat },
        entry_score(p1, query, dir1) > entry_score(p2, query, dir2),
{
    let q = lowercase(query);
    let n1 = entry_name(p1);
    let n2 = entry_name(p2);
    assert(n1 != q);
    assert(seq_starts_with(n1, q));
    assert(n2 != q) by {
        if n2 == q {
            assert(n2.take(q.len() as int) =~= n2);
        }
    }
    assert(!seq_starts_with(n2, q));
    assert(crate::tui::strs::occurs_at(n2, q, at));
    assert(seq_contains(n2, q));
}

/// An entry whose file name is the query (case aside) scores 100, 10 more
/// for a directory: above any entry whose file name only starts with it.
pub proof fn law_exact_name_outranks_prefix(p1: Seq<char>, p2: Seq<char>, query: Seq<char>, dir1: bool, dir2: bool)
    requires
        entry_name(p1) == lowercase(query),
        entry_name(p2).len() > lowercase(query).len(),
        entry_name(p2).take(lowercase(query).len() as int) == lowercase(query),
    ensures
        entry_score(p1, query, dir1) == if dir1 { 110nat } else { 100nat },
        entry_score(p1, query, dir1) > entry_score(p2, query, dir2),
{
    let q = lowercase(query);
    let n2 = entry_name(p2);
    assert(n2 != q);
    assert(seq_starts_with(n2, q));
}

/// Score an entry against the query.
pub fn score_entry(file_path: &str, query: &str, is_directory: bool) -> (r: usize)
    ensures
        r == entry_score(file_path@, query@, is_directory),
{
    let name = match file_name_of(file_path) {
        Some(f) => f,
        None => String::new(),
    };
    let ln = str_chars(str_lowercase(name.as_str()).as_str());
    let lq = str_chars(str_lowercase(query).as_str());
    let s: usize = if crate::tui::image::chars_eq(&ln, &lq) {
        100
    } else if crate::tui::strs::chars_start_with(&ln, &lq) {
        80
    } else if crate::tui::strs::chars_contain(&ln, &lq) {
        50
    } else {
        let lp = str_chars(str_lowercase(file_path).as_str());
        if crate::tui::strs::chars_contain(&lp, &lq) {
            30
        } else {
            0
        }
    };
    if is_directory && s > 0 { s + 10 } else { s }
}


// ---------------------------------------------------------------------------
// The combined provider: slash commands and file paths
// ---------------------------------------------------------------------------

/// The description shown for a command: its argument hint and description.
pub open spec fn slash_desc(c: SlashCommand) -> Option<Seq<char>> {
    match (c.description, c.argument_hint) {
        (Some(d), Some(h)) => Some(h@ + " - "@ + d@),
        (Some(d), None) => Some(d@),
        (None, Some(h)) => Some(h@),
        (None, None) => None,
    }
}

/// The items of the commands whose lower-cased name starts with `lp`.
pub open spec fn slash_matches(cmds: Seq<SlashCommand>, lp: Seq<char>) -> Seq<ItemView>
    decreases cmds.len(),
{
    if cmds.len() == 0 {
        seq![]
    } else {
        let prev = slash_matches(cmds.drop_last(), lp);
        let c = cmds.last();
        if seq_starts_with(lowercase(c.name@), lp) {
            prev.push((c.name@, seq!['/'] + c.name@, slash_desc(c)))
        } else {
            prev
        }
    }
}

/// The line after completing `value` for `prefix` at byte column `cc`: a
/// slash command is put after `/` with a space after it; a path as it is,
/// with a space after a file. The second part is the new byte column.
pub open spec fn completed_line(line: Seq<char>, cc: int, value: Seq<char>, prefix: Seq<char>) -> (Seq<char>, int) {
    let pb = if cc >= byte_len(prefix) { cc - byte_len(prefix) } else { 0 };
    let before = prefix_bytes(line, pb);
    let after = suffix_bytes(line, cc);
    let is_slash = prefix.len() > 0 && prefix[0] == '/' && !(value.len() > 0 && (value[0] == '/' || value[0] == '~'
        || value[0] == '.'));
    let head = if is_slash {
        before + seq!['/'] + value + seq![' ']
    } else if value.len() > 0 && value.last() == '/' {
        before + value
    } else {
        before + value + seq![' ']
    };
    (head + after, byte_len(head) as int)
}

/// The text of line `cl` before byte column `cc` (rounded down to a character).
pub open spec fn text_before(lines: Seq<Seq<char>>, cl: int, cc: int) -> Seq<char> {
    prefix_bytes(lines[cl], cc)
}

/// Tab completes files here: anywhere but in a slash command typed on
/// the first line (a lone `/`, or the start of a known command).
pub open spec fn file_completion_wanted(cmds: Seq<SlashCommand>, lines: Seq<Seq<char>>, cl: int, cc: int) -> bool {
    if cl < 0 || cl >= lines.len() {
        false
    } else {
        let t = text_before(lines, cl, cc);
        if t.len() > 0 && t[0] == '/' && !t.contains(' ') && cl == 0 {
            let ci = trim_ws(t.skip(1));
            !(ci.len() == 0 || exists|k: int| 0 <= k < cmds.len() && seq_starts_with(#[trigger] cmds[k].name@, ci))
        } else {
            true
        }
    }
}

/// Whether `s` holds `c`.
fn holds(s: &[char], c: char) -> (r: bool)
    ensures
        r == s@.contains(c),
{
    let mut i: usize = 0;
    while i < s.len()
        invariant
            0 <= i <= s.len(),
            forall|k: int| 0 <= k < i ==> s@[k] != c,
        decreases s.len() - i,
    {
        if s[i] == c {
            return true;
        }
        i = i + 1;
    }
    false
}

/// The last index of `s` holding `a` or `b`, if any.
fn last_of(s: &[char], a: char, b: char) -> (r: Option<usize>)
    ensures
        match r {
            Some(k) => k < s.len() && (s@[k as int] == a || s@[k as int] == b) && forall|j: int|
                k < j < s.len() ==> s@[j] != a && s@[j] != b,
            None => forall|j: int| 0 <= j < s.len() ==> s@[j] != a && s@[j] != b,
        },
{
    let mut i = s.len();
    while i > 0
        invariant
            i <= s.len(),
            forall|j: int| i <= j < s.len() ==> s@[j] != a && s@[j] != b,
        decreases i,
    {
        if s[i - 1] == a || s[i - 1] == b {
            return Some(i - 1);
        }
        i = i - 1;
    }
    None
}

/// The characters of `text` before byte column `cc`.
fn chars_before(text: &str, cc: usize) -> (r: Vec<char>)
    ensures
        r@ == prefix_bytes(text@, cc as int),
{
    let t = str_chars(text);
    let k = crate::tui::components::line_ops::char_index_of_byte(&t, cc);
    let r = sub_chars(&t, 0, k);
    assert(r@ =~= prefix_bytes(text@, cc as int));
    r
}

/// `text` with each backslash a slash.
fn slashes(t: &[char]) -> (r: Vec<char>)
    ensures
        r@.len() == t@.len(),
        forall|i: int| 0 <= i < t@.len() ==> r@[i] == (if t@[i] == '\\' { '/' } else { t@[i] }),
{
    let mut r: Vec<char> = Vec::new();
    let mut i: usize = 0;
    while i < t.len()
        invariant
            0 <= i <= t.len(),
            r@.len() == i,
            forall|k: int| 0 <= k < i ==> r@[k] == (if t@[k] == '\\' { '/' } else { t@[k] }),
        decreases t.len() - i,
    {
        r.push(if t[i] == '\\' { '/' } else { t[i] });
        i = i + 1;
    }
    r
}

/// Whether a text ends with `/`.
pub open spec fn ends_slash(s: Seq<char>) -> bool {
    s.len() > 0 && s.last() == '/'
}

/// Lexicographic order of character sequences.
pub open spec fn lex_lt(a: Seq<char>, b: Seq<char>) -> bool
    decreases a.len(),
{
    if a.len() == 0 || b.len() == 0 {
        a.len() < b.len()
    } else if a[0] != b[0] {
        a[0] < b[0]
    } else {
        lex_lt(a.drop_first(), b.drop_first())
    }
}

/// Directories (values ending in `/`) come first, then labels in
/// lower-cased order.
pub open spec fn listed_before(a: ItemView, b: ItemView) -> bool {
    if ends_slash(a.0) && !ends_slash(b.0) {
        true
    } else if !ends_slash(a.0) && ends_slash(b.0) {
        false
    } else {
        lex_lt(lowercase(a.1), lowercase(b.1))
    }
}

/// Where `x` goes when inserted into `s` from position `pos` back: after
/// every item it does not come before.
pub open spec fn insert_pos(s: Seq<ItemView>, x: ItemView, pos: int) -> int
    decreases pos,
{
    if pos > 0 && listed_before(x, s[pos - 1]) {
        insert_pos(s, x, pos - 1)
    } else {
        pos
    }
}

/// `x` inserted into the listed items `s` in its place; an item listed
/// as equal goes after those already there.
pub open spec fn insert_listed(s: Seq<ItemView>, x: ItemView) -> Seq<ItemView> {
    s.insert(insert_pos(s, x, s.len() as int), x)
}

/// The directory to list and the start of the name to complete, for a
/// typed path: `~/` and `~` mean the home directory, a path that does not
/// start with `/` is relative to `base`.
pub open spec fn dir_and_file_prefix(prefix: Seq<char>, home: Seq<char>, base: Seq<char>) -> (Seq<char>, Seq<char>) {
    let expanded = if seq_starts_with(prefix, "~/"@) {
        home + seq!['/'] + prefix.skip(2)
    } else if prefix == "~"@ {
        home
    } else if seq_starts_with(prefix, "/"@) {
        prefix
    } else {
        base + seq!['/'] + prefix
    };
    if ends_slash(expanded) {
        (expanded, seq![])
    } else {
        let parent = match path_parent(expanded) {
            Some(x) => x,
            None => "/"@,
        };
        (
            if parent.len() == 0 { "/"@ } else { parent },
            match path_file_name(expanded) {
                Some(x) => x,
                None => seq![],
            },
        )
    }
}

/// Whether a directory entry is offered: never `.git`, hidden entries only
/// for a name start that begins with a dot, and only names that start
/// with the name start, case aside.
pub open spec fn entry_offered(file_prefix: Seq<char>, name: Seq<char>) -> bool {
    &&& name != ".git"@
    &&& !(seq_starts_with(name, "."@) && !seq_starts_with(file_prefix, "."@))
    &&& seq_starts_with(lowercase(name), lowercase(file_prefix))
}

/// What a chosen entry completes the typed path to, without the `/` of a
/// directory: the entry under the path as it was typed.
pub open spec fn entry_base(prefix: Seq<char>, dir: Seq<char>) -> Seq<char> {
    if seq_starts_with(prefix, "/"@) {
        if ends_slash(dir) { dir } else { dir + seq!['/'] }
    } else if seq_starts_with(prefix, "~/"@) {
        let rel = prefix.skip(2);
        if ends_slash(rel) {
            "~/"@ + rel
        } else {
            let pp = match path_parent(rel) {
                Some(x) => x,
                None => seq![],
            };
            if rel.len() == 0 || pp.len() == 0 || pp == "."@ { "~/"@ } else { "~/"@ + pp + seq!['/'] }
        }
    } else if prefix == "~"@ {
        "~/"@
    } else if ends_slash(prefix) {
        prefix
    } else if prefix.contains('/') {
        let parent = match path_parent(prefix) {
            Some(x) => x,
            None => seq![],
        };
        let base = if parent.len() == 0 || parent == "."@ { seq![] } else { parent + seq!['/'] };
        if seq_starts_with(prefix, "./"@) && !seq_starts_with(base, "./"@) {
            "./"@ + base
        } else {
            base
        }
    } else {
        seq![]
    }
}

/// The item for a directory entry.
pub open spec fn entry_item(prefix: Seq<char>, dir: Seq<char>, name: Seq<char>, is_dir: bool) -> ItemView {
    let suffix = if is_dir { seq!['/'] } else { seq![] };
    (entry_base(prefix, dir) + name + suffix, name + suffix, None)
}

/// The items for the entries of `dir`, in listed order.
pub open spec fn entry_items(prefix: Seq<char>, dir: Seq<char>, file_prefix: Seq<char>, entries: Seq<(Seq<char>, bool)>) -> Seq<ItemView>
    decreases entries.len(),
{
    if entries.len() == 0 {
        seq![]
    } else {
        let before = entry_items(prefix, dir, file_prefix, entries.drop_last());
        let (name, is_dir) = entries.last();
        if entry_offered(file_prefix, name) {
            insert_listed(before, entry_item(prefix, dir, name, is_dir))
        } else {
            before
        }
    }
}

/// The entries as they are.
pub open spec fn entries_view_of(es: Seq<(Seq<char>, bool)>) -> Seq<(Seq<char>, bool)> {
    es
}

/// The entries as values.
pub open spec fn entries_view(es: Seq<(String, bool)>) -> Seq<(Seq<char>, bool)> {
    es.map_values(|e: (String, bool)| (e.0@, e.1))
}

/// Lexicographic order of characters.
fn lex_less(a: &[char], b: &[char]) -> (r: bool)
    ensures
        r == lex_lt(a@, b@),
{
    let mut i: usize = 0;
    assert(a@.skip(0) =~= a@);
    assert(b@.skip(0) =~= b@);
    while i < a.len() && i < b.len()
        invariant
            i <= a.len(),
            i <= b.len(),
            lex_lt(a@, b@) == lex_lt(a@.skip(i as int), b@.skip(i as int)),
        decreases a.len() - i,
    {
        if a[i] != b[i] {
            return a[i] < b[i];
        }
        proof {
            assert(a@.skip(i as int).drop_first() =~= a@.skip(i + 1));
            assert(b@.skip(i as int).drop_first() =~= b@.skip(i + 1));
        }
        i = i + 1;
    }
    a.len() < b.len()
}

/// Items are listed directories first, then by lower-cased label.
fn item_before(a: &AutocompleteItem, b: &AutocompleteItem) -> (r: bool)
    ensures
        r == listed_before(item_view(*a), item_view(*b)),
{
    let av = str_chars(a.value.as_str());
    let bv = str_chars(b.value.as_str());
    let a_dir = av.len() > 0 && av[av.len() - 1] == '/';
    let b_dir = bv.len() > 0 && bv[bv.len() - 1] == '/';
    if a_dir && !b_dir {
        true
    } else if !a_dir && b_dir {
        false
    } else {
        let al = str_chars(str_lowercase(a.label.as_str()).as_str());
        let bl = str_chars(str_lowercase(b.label.as_str()).as_str());
        lex_less(&al, &bl)
    }
}

/// Inserts an item in its listed place.
fn insert_listed_item(items: &mut Vec<AutocompleteItem>, item: AutocompleteItem)
    ensures
        items_view(final(items)@) == insert_listed(items_view(old(items)@), item_view(item)),
{
    let ghost v = items_view(items@);
    let ghost x = item_view(item);
    let mut pos = items.len();
    while pos > 0 && item_before(&item, &items[pos - 1])
        invariant
            pos <= items@.len(),
            v == items_view(items@),
            x == item_view(item),
            insert_pos(v, x, v.len() as int) == insert_pos(v, x, pos as int),
        decreases pos,
    {
        pos = pos - 1;
    }
    items.insert(pos, item);
    assert(items_view(items@) =~= v.insert(pos as int, x));
}

/// The directory to list and the start of the name to complete for a
/// typed path, with the home directory and the base directory given.
pub fn dir_and_file_prefix_of(prefix: &str, home: &str, base: &str) -> (r: (String, String))
    ensures
        (r.0@, r.1@) == dir_and_file_prefix(prefix@, home@, base@),
{
    let p = str_chars(prefix);
    proof {
        reveal_strlit("~/");
        reveal_strlit("~");
        reveal_strlit("/");
    }
    let ghost pv = prefix@;
    let ghost exp_spec = if seq_starts_with(pv, "~/"@) {
        home@ + seq!['/'] + pv.skip(2)
    } else if pv == "~"@ {
        home@
    } else if seq_starts_with(pv, "/"@) {
        pv
    } else {
        base@ + seq!['/'] + pv
    };
    let mut expanded = String::new();
    if p.len() >= 2 && p[0] == '~' && p[1] == '/' {
        push_str(&mut expanded, home);
        push_char(&mut expanded, '/');
        crate::tui::strs::push_chars(&mut expanded, &sub_chars(&p, 2, p.len()));
        assert(p@.take(2) =~= "~/"@);
        assert(expanded@ =~= exp_spec);
    } else if p.len() == 1 && p[0] == '~' {
        push_str(&mut expanded, home);
        assert(p@ =~= "~"@);
        assert(!seq_starts_with(pv, "~/"@));
        assert(expanded@ =~= exp_spec);
    } else if p.len() >= 1 && p[0] == '/' {
        push_str(&mut expanded, prefix);
        assert(p@.take(1) =~= "/"@);
        assert(!seq_starts_with(pv, "~/"@)) by {
            if seq_starts_with(pv, "~/"@) {
                assert(pv.take(2)[0] == '~');
            }
        }
        assert(pv != "~"@);
        assert(expanded@ =~= exp_spec);
    } else {
        push_str(&mut expanded, base);
        push_char(&mut expanded, '/');
        push_str(&mut expanded, prefix);
        assert(!seq_starts_with(pv, "~/"@)) by {
            if seq_starts_with(pv, "~/"@) {
                assert(pv.take(2)[0] == '~');
                assert(pv.take(2)[1] == '/');
            }
        }
        assert(pv != "~"@) by {
            if pv == "~"@ {
                assert(pv[0] == '~');
            }
        }
        assert(!seq_starts_with(pv, "/"@)) by {
            if seq_starts_with(pv, "/"@) {
                assert(pv.take(1)[0] == '/');
            }
        }
        assert(expanded@ =~= exp_spec);
    }
    let ex = str_chars(expanded.as_str());
    if ex.len() > 0 && ex[ex.len() - 1] == '/' {
        (expanded, String::new())
    } else {
        let parent = match parent_of(expanded.as_str()) {
            Some(x) => x,
            None => string_from_str("/"),
        };
        let file = match file_name_of(expanded.as_str()) {
            Some(x) => x,
            None => String::new(),
        };
        let parent = if str_chars(parent.as_str()).len() == 0 { string_from_str("/") } else { parent };
        (parent, file)
    }
}

/// Whether a directory entry is offered for a name start.
fn entry_offered_exec(file_prefix: &str, name: &str) -> (r: bool)
    ensures
        r == entry_offered(file_prefix@, name@),
{
    let fp = str_chars(file_prefix);
    let nc = str_chars(name);
    proof {
        reveal_strlit(".git");
        reveal_strlit(".");
    }
    let is_git = nc.len() == 4 && nc[0] == '.' && nc[1] == 'g' && nc[2] == 'i' && nc[3] == 't';
    let hidden = nc.len() > 0 && nc[0] == '.';
    let wants_hidden = fp.len() > 0 && fp[0] == '.';
    proof {
        if is_git {
            assert(nc@ =~= ".git"@);
        }
        if nc@ == ".git"@ {
            assert(nc@[0] == '.' && nc@[1] == 'g' && nc@[2] == 'i' && nc@[3] == 't');
        }
        if hidden {
            assert(nc@.take(1) =~= "."@);
        }
        if seq_starts_with(nc@, "."@) {
            assert(nc@.take(1)[0] == '.');
        }
        if wants_hidden {
            assert(fp@.take(1) =~= "."@);
        }
        if seq_starts_with(fp@, "."@) {
            assert(fp@.take(1)[0] == '.');
        }
    }
    if is_git || (hidden && !wants_hidden) {
        return false;
    }
    let ln = str_chars(str_lowercase(name).as_str());
    let lp = str_chars(str_lowercase(file_prefix).as_str());
    crate::tui::strs::chars_start_with(&ln, &lp)
}

/// The completion base for the entries of `dir` under a typed path.
fn entry_base_of(prefix: &str, dir: &str) -> (r: String)
    ensures
        r@ == entry_base(prefix@, dir@),
{
    let p = str_chars(prefix);
    let d = str_chars(dir);
    let ghost pv = prefix@;
    proof {
        reveal_strlit("~/");
        reveal_strlit("~");
        reveal_strlit("/");
        reveal_strlit("./");
        reveal_strlit(".");
    }
    let mut out = String::new();
    if p.len() >= 1 && p[0] == '/' {
        assert(p@.take(1) =~= "/"@);
        push_str(&mut out, dir);
        if !(d.len() > 0 && d[d.len() - 1] == '/') {
            push_char(&mut out, '/');
        }
        return out;
    }
    assert(!seq_starts_with(pv, "/"@)) by {
        if seq_starts_with(pv, "/"@) {
            assert(pv.take(1)[0] == '/');
        }
    }
    if p.len() >= 2 && p[0] == '~' && p[1] == '/' {
        assert(p@.take(2) =~= "~/"@);
        let rel = sub_chars(&p, 2, p.len());
        assert(rel@ =~= pv.skip(2));
        push_str(&mut out, "~/");
        if rel.len() > 0 && rel[rel.len() - 1] == '/' {
            crate::tui::strs::push_chars(&mut out, &rel);
        } else {
            let rs = string_from_chars(&rel);
            let parent_path = match parent_of(rs.as_str()) {
                Some(x) => x,
                None => String::new(),
            };
            let pp = str_chars(parent_path.as_str());
            if !(rel.len() == 0 || pp.len() == 0 || (pp.len() == 1 && pp[0] == '.')) {
                assert(pp@ != "."@) by {
                    if pp@ == "."@ {
                        assert(pp@[0] == '.');
                    }
                }
                push_str(&mut out, parent_path.as_str());
                push_char(&mut out, '/');
            } else {
                assert(pp.len() == 1 && pp[0] == '.' ==> pp@ =~= "."@);
            }
        }
        return out;
    }
    assert(!seq_starts_with(pv, "~/"@)) by {
        if seq_starts_with(pv, "~/"@) {
            assert(pv.take(2)[0] == '~');
            assert(pv.take(2)[1] == '/');
        }
    }
    if p.len() == 1 && p[0] == '~' {
        assert(p@ =~= "~"@);
        push_str(&mut out, "~/");
        return out;
    }
    assert(pv != "~"@) by {
        if pv == "~"@ {
            assert(pv[0] == '~');
        }
    }
    if p.len() > 0 && p[p.len() - 1] == '/' {
        push_str(&mut out, prefix);
        return out;
    }
    if holds(&p, '/') {
        let parent = match parent_of(prefix) {
            Some(x) => x,
            None => String::new(),
        };
        let pc = str_chars(parent.as_str());
        let mut base = String::new();
        if !(pc.len() == 0 || (pc.len() == 1 && pc[0] == '.')) {
            assert(pc@ != "."@) by {
                if pc@ == "."@ {
                    assert(pc@[0] == '.');
                }
            }
            push_str(&mut base, parent.as_str());
            push_char(&mut base, '/');
        } else {
            assert(pc.len() == 1 && pc[0] == '.' ==> pc@ =~= "."@);
        }
        let bc = str_chars(base.as_str());
        let dot_slash = p.len() >= 2 && p[0] == '.' && p[1] == '/';
        let base_dot = bc.len() >= 2 && bc[0] == '.' && bc[1] == '/';
        proof {
            if dot_slash {
                assert(p@.take(2) =~= "./"@);
            }
            if seq_starts_with(pv, "./"@) {
                assert(pv.take(2)[0] == '.');
                assert(pv.take(2)[1] == '/');
            }
            if base_dot {
                assert(bc@.take(2) =~= "./"@);
            }
            if seq_starts_with(bc@, "./"@) {
                assert(bc@.take(2)[0] == '.');
                assert(bc@.take(2)[1] == '/');
            }
        }
        let ghost parent_spec = match path_parent(pv) {
            Some(x) => x,
            None => Seq::<char>::empty(),
        };
        assert(parent@ == parent_spec);
        assert(base@ =~= (if parent_spec.len() == 0 || parent_spec == "."@ { Seq::<char>::empty() } else { parent_spec + seq!['/'] }));
        if dot_slash && !base_dot {
            push_str(&mut out, "./");
        }
        push_str(&mut out, base.as_str());
        assert(out@ =~= (if seq_starts_with(pv, "./"@) && !seq_starts_with(base@, "./"@) { "./"@ + base@ } else { base@ }));
        assert(pv.contains('/'));
        return out;
    }
    assert(out@ =~= Seq::<char>::empty());
    out
}

/// The item for a directory entry.
fn entry_item_of(prefix: &str, dir: &str, name: &str, is_dir: bool) -> (r: AutocompleteItem)
    ensures
        item_view(r) == entry_item(prefix@, dir@, name@, is_dir),
{
    let mut value = entry_base_of(prefix, dir);
    push_str(&mut value, name);
    let mut label = string_from_str(name);
    if is_dir {
        push_char(&mut value, '/');
        push_char(&mut label, '/');
    }
    proof {
        let suffix = if is_dir { seq!['/'] } else { Seq::<char>::empty() };
        assert(value@ =~= entry_base(prefix@, dir@) + name@ + suffix);
        assert(label@ =~= name@ + suffix);
    }
    AutocompleteItem { value, label, description: None }
}

/// Path suggestions from the entries of the directory the typed path
/// points into: those offered for the name start, as items in listed
/// order, and `None` where there are none.
pub fn file_suggestions_from(prefix: &str, dir: &str, file_prefix: &str, entries: &Vec<(String, bool)>) -> (r: Option<
    AutocompleteSuggestions,
>)
    ensures
        match r {
            Some(s) => {
                &&& items_view(s.items@) == entry_items(prefix@, dir@, file_prefix@, entries_view(entries@))
                &&& s.items@.len() > 0
                &&& s.prefix@ == prefix@
            },
            None => entry_items(prefix@, dir@, file_prefix@, entries_view(entries@)).len() == 0,
        },
{
    let ghost ev = entries_view(entries@);
    let mut items: Vec<AutocompleteItem> = Vec::new();
    let mut i: usize = 0;
    assert(ev.take(0) =~= Seq::<(Seq<char>, bool)>::empty());
    assert(items_view(items@) =~= Seq::<ItemView>::empty());
    while i < entries.len()
        invariant
            i <= entries@.len(),
            ev == entries_view(entries@),
            items_view(items@) == entry_items(prefix@, dir@, file_prefix@, ev.take(i as int)),
        decreases entries.len() - i,
    {
        let (ref name, is_dir) = entries[i];
        proof {
            assert(ev.take(i + 1).drop_last() =~= ev.take(i as int));
            assert(ev.take(i + 1).last() == (name@, is_dir));
        }
        if entry_offered_exec(file_prefix, name.as_str()) {
            let item = entry_item_of(prefix, dir, name.as_str(), is_dir);
            insert_listed_item(&mut items, item);
        }
        i = i + 1;
    }
    assert(ev.take(entries@.len() as int) =~= ev);
    if items.len() == 0 {
        return None;
    }
    Some(AutocompleteSuggestions { items, prefix: string_from_str(prefix) })
}

/// A scored `fd` entry: path, whether a directory, score.
pub type Scored = (Seq<char>, bool, nat);

/// Where a scored entry goes in `s` from position `pos` back: after every
/// entry that scores at least as much.
pub open spec fn score_pos(s: Seq<Scored>, x: Scored, pos: int) -> int
    decreases pos,
{
    if pos > 0 && s[pos - 1].2 < x.2 {
        score_pos(s, x, pos - 1)
    } else {
        pos
    }
}

/// The `fd` entries that match the query, best score first and in their
/// order among equal scores; an empty query keeps every entry.
pub open spec fn scored_entries(query: Seq<char>, entries: Seq<(Seq<char>, bool)>) -> Seq<Scored>
    decreases entries.len(),
{
    if entries.len() == 0 {
        seq![]
    } else {
        let before = scored_entries(query, entries.drop_last());
        let (path, is_dir) = entries.last();
        let sc: nat = if query.len() == 0 { 1 } else { entry_score(path, query, is_dir) };
        if sc > 0 {
            before.insert(score_pos(before, (path, is_dir, sc), before.len() as int), (path, is_dir, sc))
        } else {
            before
        }
    }
}

/// The item for an `fd` entry shown under `display_base`: the path (with
/// `/` for a directory), the file name with `/`, and the shown path.
pub open spec fn fuzzy_item(display_base: Seq<char>, e: Scored) -> ItemView {
    let name = match path_file_name(e.0) {
        Some(f) => f,
        None => seq![],
    };
    let display = display_base + e.0;
    (if e.1 { display + seq!['/'] } else { display }, name + seq!['/'], Some(display))
}

/// The items for the best (at most 20) matching entries.
pub open spec fn fuzzy_items(query: Seq<char>, display_base: Seq<char>, entries: Seq<(Seq<char>, bool)>) -> Seq<ItemView> {
    let sc = scored_entries(query, entries);
    let n = if sc.len() < 20 { sc.len() } else { 20 };
    sc.take(n as int).map_values(|e: Scored| fuzzy_item(display_base, e))
}

/// Suggestions from what `fd` found for a query: the best matching entries
/// (at most 20), shown under the directory part typed; `None` where none
/// match.
pub fn fuzzy_suggestions_from(query: &str, fd_query: &str, display_base: &str, entries: &Vec<(String, bool)>) -> (r: Option<
    AutocompleteSuggestions,
>)
    ensures
        match r {
            Some(s) => {
                &&& items_view(s.items@) == fuzzy_items(fd_query@, display_base@, entries_view(entries@))
                &&& s.items@.len() > 0
                &&& s.prefix@ == query@
            },
            None => fuzzy_items(fd_query@, display_base@, entries_view(entries@)).len() == 0,
        },
{
    let ghost ev = entries_view(entries@);
    let q_empty = str_chars(fd_query).len() == 0;
    let mut scored: Vec<(String, bool, usize)> = Vec::new();
    let mut i: usize = 0;
    assert(ev.take(0) =~= Seq::<(Seq<char>, bool)>::empty());
    assert(scored_view(scored@) =~= Seq::<Scored>::empty());
    while i < entries.len()
        invariant
            i <= entries@.len(),
            ev == entries_view(entries@),
            q_empty == (fd_query@.len() == 0),
            scored_view(scored@) == scored_entries(fd_query@, ev.take(i as int)),
        decreases entries.len() - i,
    {
        let (ref path, is_dir) = entries[i];
        proof {
            assert(ev.take(i + 1).drop_last() =~= ev.take(i as int));
            assert(ev.take(i + 1).last() == (path@, is_dir));
        }
        let sc = if q_empty { 1 } else { score_entry(path.as_str(), fd_query, is_dir) };
        if sc > 0 {
            let ghost sv = scored_view(scored@);
            let ghost x: Scored = (path@, is_dir, sc as nat);
            let mut pos = scored.len();
            while pos > 0 && scored[pos - 1].2 < sc
                invariant
                    pos <= scored@.len(),
                    sv == scored_view(scored@),
                    x == (path@, is_dir, sc as nat),
                    score_pos(sv, x, sv.len() as int) == score_pos(sv, x, pos as int),
                decreases pos,
            {
                pos = pos - 1;
            }
            scored.insert(pos, (string_from_str(path.as_str()), is_dir, sc));
            assert(scored_view(scored@) =~= sv.insert(pos as int, x));
        }
        i = i + 1;
    }
    assert(ev.take(entries@.len() as int) =~= ev);
    if scored.len() == 0 {
        return None;
    }
    let ghost sc_all = scored_view(scored@);
    let n = if scored.len() < 20 { scored.len() } else { 20 };
    let mut items: Vec<AutocompleteItem> = Vec::new();
    let mut k: usize = 0;
    while k < n
        invariant
            k <= n,
            n <= scored@.len(),
            sc_all == scored_view(scored@),
            items_view(items@) == sc_all.take(k as int).map_values(|e: Scored| fuzzy_item(display_base@, e)),
        decreases n - k,
    {
        let (ref path, is_dir, _) = scored[k];
        let name = match file_name_of(path.as_str()) {
            Some(f) => f,
            None => String::new(),
        };
        let mut display = string_from_str(display_base);
        push_str(&mut display, path.as_str());
        let mut value = string_from_str(display.as_str());
        if is_dir {
            push_char(&mut value, '/');
        }
        let mut label = name;
        push_char(&mut label, '/');
        let item = AutocompleteItem { value, label, description: Some(display) };
        proof {
            assert(item_view(item) == fuzzy_item(display_base@, sc_all[k as int]));
        }
        let ghost old_items = items_view(items@);
        items.push(item);
        k = k + 1;
        proof {
            let target = sc_all.take(k as int).map_values(|e: Scored| fuzzy_item(display_base@, e));
            assert(sc_all.len() == scored@.len());
            assert(old_items.len() == sc_all.take(k - 1).len());
            assert(old_items.len() == k - 1);
            assert(items@.len() == k);
            assert(target.len() == k);
            assert(items_view(items@).len() == target.len());
            assert forall|j: int| 0 <= j < target.len() implies items_view(items@)[j] == target[j] by {
                if j < k - 1 {
                    assert(old_items[j] == fuzzy_item(display_base@, sc_all[j]));
                }
            }
            assert(items_view(items@) =~= target);
        }
    }
    Some(AutocompleteSuggestions { items, prefix: string_from_str(query) })
}

/// Scored entries as values.
pub open spec fn scored_view(s: Seq<(String, bool, usize)>) -> Seq<Scored> {
    s.map_values(|e: (String, bool, usize)| (e.0@, e.1, e.2 as nat))
}

/// What the text before the cursor asks to complete where it is no slash
/// command: nothing, a command's argument from its completions, the paths
/// for a typed prefix, or the paths `fd` finds for a query (else those for
/// the prefix).
pub enum CompletionRequest {
    Nothing,
    Args(Seq<ItemView>, Seq<char>),
    Paths(Seq<char>),
    FuzzyFirst(Seq<char>),
}

/// The last index holding `a` or `b`.
pub open spec fn last_index_of2(s: Seq<char>, a: char, b: char) -> Option<int>
    decreases s.len(),
{
    if s.len() == 0 {
        None
    } else if s.last() == a || s.last() == b {
        Some(s.len() - 1)
    } else {
        last_index_of2(s.drop_last(), a, b)
    }
}

/// Whether index `pos` of `t` starts a token.
pub open spec fn starts_token(t: Seq<char>, pos: int) -> bool {
    pos == 0 || t[pos - 1] == ' ' || t[pos - 1] == '\t'
}

/// The index of the first command named `name`, from `i` on.
pub open spec fn command_index(cmds: Seq<SlashCommand>, name: Seq<char>, i: int) -> Option<int>
    decreases cmds.len() - i,
{
    if i < 0 || i >= cmds.len() {
        None
    } else if cmds[i].name@ == name {
        Some(i)
    } else {
        command_index(cmds, name, i + 1)
    }
}

/// The completions whose value starts with the argument, case aside.
pub open spec fn filtered_args(comps: Seq<ItemView>, arg: Seq<char>) -> Seq<ItemView> {
    comps.filter(|c: ItemView| seq_starts_with(lowercase(c.0), lowercase(arg)))
}

/// Where the word before the end of `t` starts.
pub open spec fn word_start(t: Seq<char>) -> int
    decreases t.len(),
{
    if t.len() == 0 || crate::tui::unicode::white_space(t.last()) {
        t.len() as int
    } else {
        word_start(t.drop_last())
    }
}

/// The request for the text `t` before the cursor, with the commands,
/// whether completion is forced (Tab), whether `fd` is there, whether Tab
/// completes file names here, and what a command that computes completions
/// for its argument gave (`dynamic`).
pub open spec fn completion_request(
    cmds: Seq<SlashCommand>,
    t: Seq<char>,
    force: bool,
    fd_on: bool,
    tab_ok: bool,
    dynamic: Seq<ItemView>,
) -> CompletionRequest {
    let sp = crate::tui::sgr::first_index_of(t, ' ');
    if sp < t.len() && sp == 0 {
        CompletionRequest::Nothing
    } else if sp < t.len() && command_index(cmds, t.subrange(1, sp), 0) is Some {
        let c = cmds[command_index(cmds, t.subrange(1, sp), 0).unwrap()];
        let arg = t.skip(sp + 1);
        let f = match c.argument_completions {
            Some(comps) => filtered_args(items_view(comps@), arg),
            None => seq![],
        };
        if c.dynamic_arguments && dynamic.len() > 0 {
            CompletionRequest::Args(dynamic, arg)
        } else if f.len() > 0 {
            CompletionRequest::Args(f, arg)
        } else if force || arg.contains('/') || arg.contains('.') || arg.len() == 0 {
            CompletionRequest::Paths(arg)
        } else {
            CompletionRequest::Nothing
        }
    } else if unclosed_quote_start(t) is Some {
        let q = completion_prefix_parts(t.skip(unclosed_quote_start(t).unwrap())).0;
        if !q.contains('/') && !q.contains('.') && fd_on && q.len() > 0 {
            CompletionRequest::FuzzyFirst(q)
        } else {
            CompletionRequest::Paths(q)
        }
    } else if last_index_of2(t, '@', '#') is Some && starts_token(t, last_index_of2(t, '@', '#').unwrap()) {
        let path = t.skip(last_index_of2(t, '@', '#').unwrap() + 1);
        if !path.contains('/') && fd_on && path.len() > 0 {
            CompletionRequest::FuzzyFirst(path)
        } else {
            CompletionRequest::Paths(path)
        }
    } else if last_index_of2(t, '~', '~') is Some && starts_token(t, last_index_of2(t, '~', '~').unwrap()) {
        CompletionRequest::Paths(t.skip(last_index_of2(t, '~', '~').unwrap()))
    } else if t.len() > 1 && t[0] == '/' && !t.contains(' ') {
        CompletionRequest::Paths(t)
    } else if force && tab_ok && word_start(t) < t.len() {
        CompletionRequest::Paths(t.skip(word_start(t)))
    } else {
        CompletionRequest::Nothing
    }
}

/// Suggestions for a path typed as `q`: the entries of the directory it
/// points into whose names start with its last part, as `entry_items` lists
/// them, for some home directory and some listing of that directory.
pub open spec fn path_answer(q: Seq<char>, base: Seq<char>, s: AutocompleteSuggestions) -> bool {
    &&& s.prefix@ == q
    &&& s.items@.len() > 0
    &&& exists|home: Seq<char>, entries: Seq<(Seq<char>, bool)>|
        #![trigger dir_and_file_prefix(q, home, base), entries_view_of(entries)]
        items_view(s.items@) == entry_items(
            q,
            dir_and_file_prefix(q, home, base).0,
            dir_and_file_prefix(q, home, base).1,
            entries_view_of(entries),
        )
}

/// What `fd` is asked for a path query `q`: where the query has a directory
/// part and that directory is searched (`scoped`), the rest of the query and
/// the directory part as typed; otherwise the whole query and no directory.
pub open spec fn fd_request(q: Seq<char>, home: Seq<char>, base: Seq<char>, scoped: bool) -> (Seq<char>, Seq<char>) {
    match fd_scope(q, home, base) {
        Some((_dir, rest, typed)) => if scoped {
            (rest, typed)
        } else {
            (q, seq![])
        },
        None => (q, seq![]),
    }
}

/// Suggestions that an `fd` search makes for a path query `q`: at most
/// twenty, ranked by `fuzzy_items` from what `fd` listed for the request.
pub open spec fn fuzzy_answer(q: Seq<char>, base: Seq<char>, s: AutocompleteSuggestions) -> bool {
    &&& s.prefix@ == q
    &&& 0 < s.items@.len() <= 20
    &&& exists|home: Seq<char>, scoped: bool, entries: Seq<(Seq<char>, bool)>|
        #![trigger fuzzy_items(fd_request(q, home, base, scoped).0, fd_request(q, home, base, scoped).1, entries)]
        items_view(s.items@) == fuzzy_items(fd_request(q, home, base, scoped).0, fd_request(q, home, base, scoped).1, entries)
}

/// Whether suggestions answer a request made with base directory `base`:
/// exactly the argument completions; for paths, none or a directory
/// listing's entries; where an `fd` search comes first, none, its results,
/// or a directory listing's entries.
pub open spec fn answers(req: CompletionRequest, base: Seq<char>, r: Option<AutocompleteSuggestions>) -> bool {
    match req {
        CompletionRequest::Nothing => r is None,
        CompletionRequest::Args(items, arg) => r matches Some(s) && items_view(s.items@) == items && s.prefix@ == arg,
        CompletionRequest::Paths(q) => r matches Some(s) ==> path_answer(q, base, s),
        CompletionRequest::FuzzyFirst(q) => r matches Some(s) ==> fuzzy_answer(q, base, s) || path_answer(q, base, s),
    }
}

/// The text with backslashes as slashes.
pub open spec fn slashed(t: Seq<char>) -> Seq<char> {
    Seq::new(t.len(), |i: int| if t[i] == '\\' { '/' } else { t[i] })
}

/// The scope of a path query with a directory part: the directory to
/// search (home expanded, relative to `base`), the rest of the query, and
/// the directory part as typed (up to its last slash).
pub open spec fn fd_scope(raw: Seq<char>, home: Seq<char>, base: Seq<char>) -> Option<(Seq<char>, Seq<char>, Seq<char>)> {
    let n = slashed(raw);
    match last_index_of2(n, '/', '/') {
        None => None,
        Some(k) => {
            let db = n.take(k + 1);
            let dir = if seq_starts_with(db, "~/"@) {
                home + seq!['/'] + db.skip(2)
            } else if seq_starts_with(db, "/"@) {
                db
            } else {
                base + seq!['/'] + db
            };
            Some((dir, n.skip(k + 1), db))
        },
    }
}

/// Combined provider: slash commands and file path completion.
pub struct CombinedAutocompleteProvider<F> {
    slash_commands: Vec<SlashCommand>,
    base_path: String,
    fd_path: Option<String>,
    files: F,
}

impl CombinedAutocompleteProvider<NoFiles> {
    /// A provider for these commands, completing paths relative to
    /// `base_path`; it sees no files until given a file source.
    pub fn new(slash_commands: Vec<SlashCommand>, base_path: String) -> (p: Self)
        ensures
            p.commands() == slash_commands@,
            p.base()@ == base_path@,
            p.fd() is None,
    {
        CombinedAutocompleteProvider { slash_commands, base_path, fd_path: None, files: NoFiles }
    }
}

impl<F: FileSource> CombinedAutocompleteProvider<F> {
    /// The commands.
    pub closed spec fn commands(&self) -> Seq<SlashCommand> {
        self.slash_commands@
    }

    /// The directory paths are completed from.
    pub closed spec fn base(&self) -> String {
        self.base_path
    }

    /// Where the `fd` program is, if anywhere.
    pub closed spec fn fd(&self) -> Option<String> {
        self.fd_path
    }

    /// The request for the text `t` before the cursor at (`cursor_line`,
    /// `cursor_col`) of `lines`, `dynamic` being what a command computed for
    /// its argument.
    pub open spec fn request_for(
        &self,
        lines: Seq<String>,
        cursor_line: int,
        cursor_col: int,
        t: Seq<char>,
        force: bool,
        dynamic: Seq<ItemView>,
    ) -> CompletionRequest {
        completion_request(
            self.commands(),
            t,
            force,
            self.fd() is Some,
            file_completion_wanted(self.commands(), lines.map_values(|l: String| l@), cursor_line, cursor_col),
            dynamic,
        )
    }

    /// `r` answers the request for `t`, whatever a command computed for its
    /// argument (`dynamic`) came back.
    pub open spec fn answered(
        &self,
        lines: Seq<String>,
        cursor_line: int,
        cursor_col: int,
        t: Seq<char>,
        force: bool,
        r: Option<AutocompleteSuggestions>,
    ) -> bool {
        exists|dynamic: Seq<ItemView>|
            #![trigger self.request_for(lines, cursor_line, cursor_col, t, force, dynamic)]
            answers(self.request_for(lines, cursor_line, cursor_col, t, force, dynamic), self.base()@, r)
    }

    /// Read files from `files`.
    pub fn with_files<G: FileSource>(self, files: G) -> (p: CombinedAutocompleteProvider<G>)
        ensures
            p.commands() == self.commands(),
            p.base() == self.base(),
            p.fd() == self.fd(),
    {
        CombinedAutocompleteProvider { slash_commands: self.slash_commands, base_path: self.base_path, fd_path: self.fd_path, files }
    }

    /// Search with the `fd` program at this path.
    pub fn with_fd_path(self, fd_path: Option<String>) -> (p: Self)
        ensures
            p.commands() == self.commands(),
            p.base() == self.base(),
            p.fd() == fd_path,
    {
        CombinedAutocompleteProvider { fd_path, ..self }
    }

    /// The commands whose name starts with `prefix` (case aside), with
    /// `/` and the prefix as the matched prefix; `None` for none.
    pub fn get_slash_suggestions(&self, prefix: &str) -> (r: Option<AutocompleteSuggestions>)
        ensures
            match r {
                Some(s) => items_view(s.items@) == slash_matches(self.commands(), lowercase(prefix@))
                    && s.items@.len() > 0 && s.prefix@ == seq!['/'] + prefix@,
                None => slash_matches(self.commands(), lowercase(prefix@)).len() == 0,
            },
    {
        let lp = str_chars(str_lowercase(prefix).as_str());
        let mut items: Vec<AutocompleteItem> = Vec::new();
        let mut i: usize = 0;
        while i < self.slash_commands.len()
            invariant
                0 <= i <= self.slash_commands.len(),
                lp@ == lowercase(prefix@),
                items_view(items@) == slash_matches(self.slash_commands@.take(i as int), lp@),
            decreases self.slash_commands.len() - i,
        {
            let c = &self.slash_commands[i];
            assert(self.slash_commands@.take(i + 1).drop_last() =~= self.slash_commands@.take(i as int));
            assert(self.slash_commands@.take(i + 1).last() == *c);
            let ln = str_chars(str_lowercase(c.name.as_str()).as_str());
            if crate::tui::strs::chars_start_with(&ln, &lp) {
                let desc = match (&c.description, &c.argument_hint) {
                    (Some(d), Some(h)) => {
                        let mut t = string_from_str(h.as_str());
                        push_str(&mut t, " - ");
                        push_str(&mut t, d.as_str());
                        proof {
                            reveal_strlit(" - ");
                        }
                        Some(t)
                    },
                    (Some(d), None) => Some(string_from_str(d.as_str())),
                    (None, Some(h)) => Some(string_from_str(h.as_str())),
                    (None, None) => None,
                };
                let mut label = String::new();
                push_char(&mut label, '/');
                push_str(&mut label, c.name.as_str());
                let ghost before = items_view(items@);
                let it = AutocompleteItem { value: string_from_str(c.name.as_str()), label, description: desc };
                items.push(it);
                assert(items_view(items@) =~= before.push(item_view(it)));
            }
            i = i + 1;
        }
        assert(self.slash_commands@.take(self.slash_commands.len() as int) =~= self.slash_commands@);
        if items.len() == 0 {
            return None;
        }
        let mut p = String::new();
        push_char(&mut p, '/');
        push_str(&mut p, prefix);
        Some(AutocompleteSuggestions { items, prefix: p })
    }

    /// Where to search for a path query with a directory part: the
    /// directory (home expanded, relative to the base), the rest of the
    /// query, and the directory as typed; `None` without a directory part
    /// or where the directory does not exist.
    fn resolve_scoped_fd_query(&self, raw_query: &str) -> (r: Option<(String, String, String)>)
        ensures
            last_index_of2(slashed(raw_query@), '/', '/') is None ==> r is None,
            r matches Some((b, q, d)) ==> exists|home: Seq<char>|
                #[trigger] fd_scope(raw_query@, home, self.base()@) == Some((b@, q@, d@)),
    {
        let n = slashes(&str_chars(raw_query));
        assert(n@ =~= slashed(raw_query@));
        let idx_opt = last_of(&n, '/', '/');
        proof {
            lemma_last_index2(n@, '/', '/', idx_opt);
        }
        let idx = match idx_opt {
            Some(k) => k,
            None => {
                return None;
            },
        };
        let display_base = sub_chars(&n, 0, idx + 1);
        let query = sub_chars(&n, idx + 1, n.len());
        assert(display_base@ =~= n@.take(idx + 1));
        assert(query@ =~= n@.skip(idx + 1));
        let ghost db = display_base@;
        proof {
            reveal_strlit("~/");
            reveal_strlit("/");
        }
        let mut base_dir = String::new();
        let mut home = String::new();
        if display_base.len() >= 2 && display_base[0] == '~' && display_base[1] == '/' {
            home = self.files.home_dir();
            push_str(&mut base_dir, home.as_str());
            push_char(&mut base_dir, '/');
            let rest = sub_chars(&display_base, 2, display_base.len());
            crate::tui::strs::push_chars(&mut base_dir, &rest);
            assert(db.take(2) =~= "~/"@);
            assert(rest@ =~= db.skip(2));
            assert(base_dir@ =~= home@ + seq!['/'] + db.skip(2));
        } else if display_base.len() >= 1 && display_base[0] == '/' {
            crate::tui::strs::push_chars(&mut base_dir, &display_base);
            assert(db.take(1) =~= "/"@);
            assert(!seq_starts_with(db, "~/"@)) by {
                if seq_starts_with(db, "~/"@) {
                    assert(db.take(2)[0] == '~');
                }
            }
            assert(base_dir@ =~= db);
        } else {
            push_str(&mut base_dir, self.base_path.as_str());
            push_char(&mut base_dir, '/');
            crate::tui::strs::push_chars(&mut base_dir, &display_base);
            assert(!seq_starts_with(db, "~/"@)) by {
                if seq_starts_with(db, "~/"@) {
                    assert(db.take(2)[0] == '~');
                    assert(db.take(2)[1] == '/');
                }
            }
            assert(!seq_starts_with(db, "/"@)) by {
                if seq_starts_with(db, "/"@) {
                    assert(db.take(1)[0] == '/');
                }
            }
            assert(base_dir@ =~= self.base()@ + seq!['/'] + db);
        }
        assert(fd_scope(raw_query@, home@, self.base()@) == Some((base_dir@, query@, db)));
        if !self.files.is_dir(base_dir.as_str()) {
            return None;
        }
        Some((base_dir, string_from_chars(&query), string_from_chars(&display_base)))
    }

    /// Files anywhere under the base directory (or a typed directory) that
    /// `fd` finds for the query, best matches first, at most 20: whatever
    /// `fd` answers, what `fuzzy_suggestions_from` makes of some entries.
    fn get_fuzzy_file_suggestions(&self, query: &str) -> (r: Option<AutocompleteSuggestions>)
        ensures
            r matches Some(s) ==> fuzzy_answer(query@, self.base()@, s),
    {
        let fd = match &self.fd_path {
            Some(f) => f,
            None => {
                return None;
            },
        };
        let resolved = self.resolve_scoped_fd_query(query);
        let ghost home: Seq<char> = if resolved is Some {
            choose|h: Seq<char>| #[trigger] fd_scope(query@, h, self.base()@) == Some(((resolved->0).0@, (resolved->0).1@, (resolved->0).2@))
        } else {
            seq![]
        };
        let ghost scoped = resolved is Some;
        let (base_dir, fd_query, display_base) = match resolved {
            Some(t) => t,
            None => (string_from_str(self.base_path.as_str()), string_from_str(query), String::new()),
        };
        assert(fd_request(query@, home, self.base()@, scoped) == (fd_query@, display_base@));
        let entries = self.files.fd_walk(fd.as_str(), base_dir.as_str(), fd_query.as_str(), 100);
        let r = fuzzy_suggestions_from(query, fd_query.as_str(), display_base.as_str(), &entries);
        proof {
            if r is Some {
                let s = r->0;
                assert(items_view(s.items@) == fuzzy_items(fd_query@, display_base@, entries_view(entries@)));
                let sc = scored_entries(fd_query@, entries_view(entries@));
                let n = if sc.len() < 20 { sc.len() } else { 20 };
                assert(fuzzy_items(fd_query@, display_base@, entries_view(entries@)).len() == n);
                assert(items_view(s.items@).len() == s.items@.len());
                assert(s.items@.len() <= 20);
                assert(items_view(s.items@) == fuzzy_items(
                    fd_request(query@, home, self.base()@, scoped).0,
                    fd_request(query@, home, self.base()@, scoped).1,
                    entries_view(entries@),
                ));
            }
        }
        r
    }

    /// The entries of the directory a path prefix points into whose names
    /// start with its last part (case aside), directories first; hidden
    /// entries only for a prefix that starts with a dot, `.git` never.
    /// Whatever the file source answers, the result is the suggestions
    /// that `file_suggestions_from` makes of some directory listing, for the
    /// directory and name start that `dir_and_file_prefix_of` gives with
    /// some home directory.
    pub fn get_file_suggestions(&self, prefix: &str) -> (r: Option<AutocompleteSuggestions>)
        ensures
            r matches Some(s) ==> path_answer(prefix@, self.base()@, s),
    {
        let p = str_chars(prefix);
        let needs_home = (p.len() >= 2 && p[0] == '~' && p[1] == '/') || (p.len() == 1 && p[0] == '~');
        let home = if needs_home { self.files.home_dir() } else { String::new() };
        let (dir, file_prefix) = dir_and_file_prefix_of(prefix, home.as_str(), self.base_path.as_str());
        if !self.files.is_dir(dir.as_str()) {
            return None;
        }
        let entries = match self.files.read_dir(dir.as_str()) {
            Some(e) => e,
            None => Vec::new(),
        };
        let r = file_suggestions_from(prefix, dir.as_str(), file_prefix.as_str(), &entries);
        proof {
            assert(entries_view_of(entries_view(entries@)) == entries_view(entries@));
            assert(dir_and_file_prefix(prefix@, home@, self.base()@) == (dir@, file_prefix@));
            if r is Some {
                let s = r->0;
                assert(items_view(s.items@) == entry_items(
                    prefix@,
                    dir_and_file_prefix(prefix@, home@, self.base()@).0,
                    dir_and_file_prefix(prefix@, home@, self.base()@).1,
                    entries_view_of(entries_view(entries@)),
                ));
            }
        }
        r
    }

    /// Suggestions for what is not a slash command: a command's argument,
    /// a quoted path, a path after `@` or `#`, a home or absolute path, or
    /// (forced) the word before the cursor.
    fn other_suggestions(&self, lines: &[String], cursor_line: usize, cursor_col: usize, force: bool, t: &Vec<char>) -> (r: Option<
        AutocompleteSuggestions,
    >)
        ensures
            self.answered(lines@, cursor_line as int, cursor_col as int, t@, force, r),
    {
        let ghost req = self.request_for(lines@, cursor_line as int, cursor_col as int, t@, force, seq![]);        let has_space = holds(&t, ' ');
        // A slash command's argument.
        let mut sp: usize = 0;
        while sp < t.len() && t[sp] != ' '
            invariant
                sp <= t@.len(),
                forall|k: int| 0 <= k < sp ==> t@[k] != ' ',
            decreases t.len() - sp,
        {
            sp = sp + 1;
        }
        proof {
            lemma_first_index_at(t@, ' ', sp as int);
        }
        if sp < t.len() {
            if sp == 0 {
                return None;
            }
            let cmd_name = sub_chars(&t, 1, sp);
            let arg = sub_chars(&t, sp + 1, t.len());
            assert(arg@ =~= t@.skip(sp + 1));
            let arg_s = string_from_chars(&arg);
            let mut i: usize = 0;
            while i < self.slash_commands.len()
                invariant
                    i <= self.slash_commands@.len(),
                    cmd_name@ == t@.subrange(1, sp as int),
                    arg@ == t@.skip(sp + 1),
                    arg_s@ == t@.skip(sp + 1),
                    0 < sp < t@.len(),
                    crate::tui::sgr::first_index_of(t@, ' ') == sp,
                    command_index(self.commands(), cmd_name@, 0) == command_index(self.commands(), cmd_name@, i as int),
                decreases self.slash_commands.len() - i,
            {
                assert(self.request_for(lines@, cursor_line as int, cursor_col as int, t@, force, seq![]) == completion_request(
                    self.commands(),
                    t@,
                    force,
                    self.fd() is Some,
                    file_completion_wanted(self.commands(), lines@.map_values(|l: String| l@), cursor_line as int, cursor_col as int),
                    seq![],
                ));
                let c = &self.slash_commands[i];
                if crate::tui::image::chars_eq(&str_chars(c.name.as_str()), &cmd_name) {
                    proof {
                        assert(command_index(self.commands(), cmd_name@, i as int) == Some(i as int));
                        assert(command_index(self.commands(), t@.subrange(1, sp as int), 0) == Some(i as int));
                        assert(self.commands()[i as int] == *c);
                    }
                    if c.dynamic_arguments {
                        let items = self.files.command_arguments(c.name.as_str(), arg_s.as_str());
                        if items.len() > 0 {
                            let r = Some(AutocompleteSuggestions { items, prefix: string_from_chars(&arg) });
                            proof {
                                let d = items_view(r->0.items@);
                                assert(d.len() > 0);
                                assert(answers(
                                    self.request_for(lines@, cursor_line as int, cursor_col as int, t@, force, d),
                                    self.base()@,
                                    r,
                                ));
                            }
                            return r;
                        }
                    }
                    match &c.argument_completions {
                        Some(comps) => {
                            let filtered = filter_args(comps, arg_s.as_str());
                            assert(items_view(filtered@).len() == filtered@.len());
                            assert(arg_s@ == t@.skip(sp + 1));
                            if filtered.len() > 0 {
                                return Some(AutocompleteSuggestions { items: filtered, prefix: string_from_chars(&arg) });
                            }
                        },
                        None => {},
                    }
                    if force || holds(&arg, '/') || holds(&arg, '.') || arg.len() == 0 {
                        return self.get_file_suggestions(arg_s.as_str());
                    }
                    return None;
                }
                i = i + 1;
            }
            assert(command_index(self.commands(), cmd_name@, 0) is None);
        }
        // A quoted path.
        let ts = string_from_chars(&t);
        match find_unclosed_quote_prefix(ts.as_str()) {
            Some((_start, full)) => {
                let (query, _at, _quoted) = parse_completion_prefix(full.as_str());
                let qc = str_chars(query.as_str());
                if !holds(&qc, '/') && !holds(&qc, '.') && self.fd_path.is_some() && qc.len() > 0 {
                    match self.get_fuzzy_file_suggestions(query.as_str()) {
                        Some(sg) => {
                            return Some(sg);
                        },
                        None => {},
                    }
                }
                return self.get_file_suggestions(query.as_str());
            },
            None => {},
        }
        // An attachment or path after `@` or `#`.
        let at = last_of(&t, '@', '#');
        proof {
            lemma_last_index2(t@, '@', '#', at);
        }
        match at {
            Some(pos) => {
                let token_start = pos == 0 || t[pos - 1] == ' ' || t[pos - 1] == '\t';
                if token_start {
                    let path = sub_chars(&t, pos + 1, t.len());
                    assert(path@ =~= t@.skip(pos + 1));
                    let ps = string_from_chars(&path);
                    if !holds(&path, '/') && self.fd_path.is_some() && path.len() > 0 {
                        match self.get_fuzzy_file_suggestions(ps.as_str()) {
                            Some(sg) => {
                                return Some(sg);
                            },
                            None => {},
                        }
                    }
                    return self.get_file_suggestions(ps.as_str());
                }
            },
            None => {},
        }
        // A path from the home directory.
        let tilde = last_of(&t, '~', '~');
        proof {
            lemma_last_index2(t@, '~', '~', tilde);
        }
        match tilde {
            Some(pos) => {
                let token_start = pos == 0 || t[pos - 1] == ' ' || t[pos - 1] == '\t';
                if token_start {
                    let path = sub_chars(&t, pos, t.len());
                    assert(path@ =~= t@.skip(pos as int));
                    return self.get_file_suggestions(string_from_chars(&path).as_str());
                }
            },
            None => {},
        }
        // An absolute path that is no command.
        if t.len() > 1 && t[0] == '/' && !has_space {
            return self.get_file_suggestions(ts.as_str());
        }
        // Tab: the word before the cursor as a path.
        if force && self.should_trigger_file_completion(lines, cursor_line, cursor_col) {
            let mut k = t.len();
            assert(t@.take(t@.len() as int) =~= t@);
            while k > 0 && !crate::tui::unicode::is_whitespace(t[k - 1])
                invariant
                    k <= t@.len(),
                    word_start(t@) == word_start(t@.take(k as int)),
                decreases k,
            {
                proof {
                    assert(t@.take(k as int).drop_last() =~= t@.take(k - 1));
                }
                k = k - 1;
            }
            proof {
                if k > 0 {
                    assert(t@.take(k as int).last() == t@[k - 1]);
                }
            }
            let token = sub_chars(&t, k, t.len());
            if token.len() > 0 {
                assert(token@ =~= t@.skip(k as int));
                return self.get_file_suggestions(string_from_chars(&token).as_str());
            }
        }
        None
    }
}

/// A copy of an item.
fn copy_item(i: &AutocompleteItem) -> (r: AutocompleteItem)
    ensures
        item_view(r) == item_view(*i),
{
    AutocompleteItem {
        value: string_from_str(i.value.as_str()),
        label: string_from_str(i.label.as_str()),
        description: match &i.description {
            Some(d) => Some(string_from_str(d.as_str())),
            None => None,
        },
    }
}

/// The completions whose value starts with the argument, case aside.
fn filter_args(comps: &Vec<AutocompleteItem>, arg: &str) -> (r: Vec<AutocompleteItem>)
    ensures
        items_view(r@) == filtered_args(items_view(comps@), arg@),
{
    let ghost cv = items_view(comps@);
    let lower = str_chars(str_lowercase(arg).as_str());
    let mut filtered: Vec<AutocompleteItem> = Vec::new();
    let mut j: usize = 0;
    assert(cv.take(0) =~= Seq::<ItemView>::empty());
    proof {
        reveal(Seq::filter);
        assert(cv.take(0).filter(|c: ItemView| seq_starts_with(lowercase(c.0), lowercase(arg@))) =~= Seq::<ItemView>::empty());
    }
    assert(items_view(filtered@) =~= Seq::<ItemView>::empty());
    while j < comps.len()
        invariant
            j <= comps@.len(),
            cv == items_view(comps@),
            lower@ == lowercase(arg@),
            items_view(filtered@) == cv.take(j as int).filter(|c: ItemView| seq_starts_with(lowercase(c.0), lowercase(arg@))),
        decreases comps.len() - j,
    {
        let lv = str_chars(str_lowercase(comps[j].value.as_str()).as_str());
        let ghost before = items_view(filtered@);
        let keep = crate::tui::strs::chars_start_with(&lv, &lower);
        if keep {
            filtered.push(copy_item(&comps[j]));
            assert(items_view(filtered@) =~= before.push(cv[j as int]));
        }
        proof {
            reveal(Seq::filter);
            assert(cv.take(j + 1).drop_last() =~= cv.take(j as int));
            assert(cv.take(j + 1).last() == cv[j as int]);
        }
        j = j + 1;
    }
    assert(cv.take(comps@.len() as int) =~= cv);
    filtered
}

proof fn lemma_first_index_at(s: Seq<char>, c: char, k: int)
    requires
        0 <= k <= s.len(),
        k < s.len() ==> s[k] == c,
        forall|j: int| 0 <= j < k ==> s[j] != c,
    ensures
        crate::tui::sgr::first_index_of(s, c) == k,
    decreases k,
{
    if k > 0 {
        lemma_first_index_at(s.drop_first(), c, k - 1);
    }
}

proof fn lemma_last_index2(s: Seq<char>, a: char, b: char, r: Option<usize>)
    requires
        match r {
            Some(k) => k < s.len() && (s[k as int] == a || s[k as int] == b) && forall|j: int|
                k < j < s.len() ==> s[j] != a && s[j] != b,
            None => forall|j: int| 0 <= j < s.len() ==> s[j] != a && s[j] != b,
        },
    ensures
        last_index_of2(s, a, b) == match r {
            Some(k) => Some(k as int),
            None => None,
        },
    decreases s.len(),
{
    if s.len() > 0 {
        match r {
            Some(k) => {
                if k < s.len() - 1 {
                    lemma_last_index2(s.drop_last(), a, b, r);
                }
            },
            None => {
                lemma_last_index2(s.drop_last(), a, b, None);
            },
        }
    }
}

impl<F: FileSource> AutocompleteProvider for CombinedAutocompleteProvider<F> {
    fn trigger_characters(&self) -> (r: Vec<char>)
        ensures
            r@ == seq!['/', '@', '#'],
    {
        let r = vec!['/', '@', '#'];
        assert(r@ =~= seq!['/', '@', '#']);
        r
    }

    fn get_suggestions(&self, lines: &[String], cursor_line: usize, cursor_col: usize, force: bool) -> (r: Option<
        AutocompleteSuggestions,
    >)
        ensures
            cursor_line >= lines@.len() ==> r is None,
            ({
                let t = if cursor_line < lines@.len() { prefix_bytes(lines@[cursor_line as int]@, cursor_col as int) } else { seq![] };
                (cursor_line < lines@.len() && t.len() > 0 && t[0] == '/' && !t.contains(' ') && slash_matches(
                    self.commands(),
                    lowercase(t.skip(1)),
                ).len() > 0) ==> (r matches Some(s) && items_view(s.items@) == slash_matches(self.commands(), lowercase(t.skip(1)))
                    && s.prefix@ == t)
            }),
            ({
                let t = if cursor_line < lines@.len() { prefix_bytes(lines@[cursor_line as int]@, cursor_col as int) } else { seq![] };
                (cursor_line < lines@.len() && !(t.len() > 0 && t[0] == '/' && !t.contains(' ') && slash_matches(
                    self.commands(),
                    lowercase(t.skip(1)),
                ).len() > 0)) ==> self.answered(lines@, cursor_line as int, cursor_col as int, t, force, r)
            }),
    {
        if cursor_line >= lines.len() {
            return None;
        }
        let t = chars_before(lines[cursor_line].as_str(), cursor_col);
        let has_space = holds(&t, ' ');
        if t.len() > 0 && t[0] == '/' && !has_space {
            let cmd = string_from_chars(&sub_chars(&t, 1, t.len()));
            assert(cmd@ =~= t@.skip(1));
            match self.get_slash_suggestions(cmd.as_str()) {
                Some(sg) => {
                    assert(seq!['/'] + t@.skip(1) =~= t@);
                    return Some(sg);
                },
                None => {},
            }
        }
        let r = self.other_suggestions(lines, cursor_line, cursor_col, force, &t);
        proof {
            let tt = if cursor_line < lines@.len() { prefix_bytes(lines@[cursor_line as int]@, cursor_col as int) } else { seq![] };
            assert(tt == t@);
            assert(self.answered(lines@, cursor_line as int, cursor_col as int, tt, force, r));
        }
        r
    }

    fn apply_completion(
        &self,
        lines: &[String],
        cursor_line: usize,
        cursor_col: usize,
        item: &AutocompleteItem,
        prefix: &str,
    ) -> (r: (Vec<String>, usize, usize))
        ensures
            cursor_line < lines@.len() ==> {
                let (nl, col) = completed_line(lines@[cursor_line as int]@, cursor_col as int, item.value@, prefix@);
                &&& r.0@.map_values(|l: String| l@) == lines@.map_values(|l: String| l@).update(cursor_line as int, nl)
                &&& r.1 == cursor_line
                &&& r.2 == col
            },
    {
        let mut out: Vec<String> = Vec::new();
        let mut i: usize = 0;
        while i < lines.len()
            invariant
                0 <= i <= lines.len(),
                out@.map_values(|l: String| l@) =~= lines@.map_values(|l: String| l@).take(i as int),
            decreases lines.len() - i,
        {
            let ghost b = out@.map_values(|l: String| l@);
            out.push(string_from_str(lines[i].as_str()));
            assert(out@.map_values(|l: String| l@) =~= b.push(lines@[i as int]@));
            assert(lines@.map_values(|l: String| l@).take(i + 1) =~= lines@.map_values(|l: String| l@).take(i as int).push(lines@[i as int]@));
            i = i + 1;
        }
        assert(lines@.map_values(|l: String| l@).take(lines.len() as int) =~= lines@.map_values(|l: String| l@));
        if cursor_line >= lines.len() {
            return (out, cursor_line, cursor_col);
        }
        let line = lines[cursor_line].as_str();
        let pl = str_byte_len(prefix);
        let pb = if cursor_col >= pl { cursor_col - pl } else { 0 };
        let before = chars_before(line, pb);
        let lc = str_chars(line);
        let k = crate::tui::components::line_ops::char_index_of_byte(&lc, cursor_col);
        let after = sub_chars(&lc, k, lc.len());
        assert(after@ =~= suffix_bytes(line@, cursor_col as int));
        let v = str_chars(item.value.as_str());
        let pc = str_chars(prefix);
        let is_slash = pc.len() > 0 && pc[0] == '/' && !(v.len() > 0 && (v[0] == '/' || v[0] == '~' || v[0] == '.'));
        let mut head = String::new();
        crate::tui::strs::push_chars(&mut head, &before);
        if is_slash {
            push_char(&mut head, '/');
            push_str(&mut head, item.value.as_str());
            push_char(&mut head, ' ');
        } else if v.len() > 0 && v[v.len() - 1] == '/' {
            push_str(&mut head, item.value.as_str());
        } else {
            push_str(&mut head, item.value.as_str());
            push_char(&mut head, ' ');
        }
        let col = str_byte_len(head.as_str());
        let mut nl = string_from_str(head.as_str());
        crate::tui::strs::push_chars(&mut nl, &after);
        let ghost want = completed_line(line@, cursor_col as int, item.value@, prefix@);
        let ghost bs = prefix_bytes(line@, pb as int);
        let ghost hs = if is_slash {
            bs + seq!['/'] + item.value@ + seq![' ']
        } else if v@.len() > 0 && v@.last() == '/' {
            bs + item.value@
        } else {
            bs + item.value@ + seq![' ']
        };
        assert(head@ =~= hs);
        assert(nl@ =~= want.0);
        assert(col == want.1);
        let ghost b = out@.map_values(|l: String| l@);
        out.set(cursor_line, nl);
        assert(out@.map_values(|l: String| l@) =~= b.update(cursor_line as int, want.0));
        (out, cursor_line, col)
    }

    fn should_trigger_file_completion(&self, lines: &[String], cursor_line: usize, cursor_col: usize) -> (r: bool)
        ensures
            r == file_completion_wanted(self.commands(), lines@.map_values(|l: String| l@), cursor_line as int, cursor_col as int),
    {
        if cursor_line >= lines.len() {
            return false;
        }
        let t = chars_before(lines[cursor_line].as_str(), cursor_col);
        assert(lines@.map_values(|l: String| l@)[cursor_line as int] == lines@[cursor_line as int]@);
        if t.len() > 0 && t[0] == '/' && !holds(&t, ' ') && cursor_line == 0 {
            let rest = sub_chars(&t, 1, t.len());
            assert(rest@ =~= t@.skip(1));
            let (a, b) = trim_bounds(&rest);
            let ci = sub_chars(&rest, a, b);
            assert(ci@ == trim_ws(t@.skip(1)));
            assert(t@ == text_before(lines@.map_values(|l: String| l@), cursor_line as int, cursor_col as int));
            if ci.len() == 0 {
                return false;
            }
            let mut i: usize = 0;
            while i < self.slash_commands.len()
                invariant
                    0 <= i <= self.slash_commands.len(),
                    ci@ == trim_ws(t@.skip(1)),
                    ci@.len() > 0,
                    cursor_line == 0,
                    cursor_line < lines@.len(),
                    t@.len() > 0 && t@[0] == '/' && !t@.contains(' '),
                    t@ == text_before(lines@.map_values(|l: String| l@), cursor_line as int, cursor_col as int),
                    forall|k: int| 0 <= k < i ==> !seq_starts_with(#[trigger] self.slash_commands@[k].name@, ci@),
                decreases self.slash_commands.len() - i,
            {
                if crate::tui::strs::chars_start_with(&str_chars(self.slash_commands[i].name.as_str()), &ci) {
                    assert(seq_starts_with(self.commands()[i as int].name@, ci@));
                    return false;
                }
                i = i + 1;
            }
            return true;
        }
        true
    }
}


/// An `fd` output line as an entry: backslashes as slashes, a trailing
/// slash marking a directory (and dropped); `.git` and what is inside it
/// left out.
pub open spec fn fd_entry(line: Seq<char>) -> Option<(Seq<char>, bool)> {
    let d = Seq::new(line.len(), |i: int| if line[i] == '\\' { '/' } else { line[i] });
    if d == ".git"@ || seq_starts_with(d, ".git/"@) || seq_contains(d, "/.git/"@) {
        None
    } else if d.len() > 0 && d.last() == '/' {
        Some((d.drop_last(), true))
    } else {
        Some((d, false))
    }
}

/// The entries of `fd` output lines `ls[..k]`, empty lines left out.
pub open spec fn fd_entries_upto(ls: Seq<Seq<char>>, k: int) -> Seq<(Seq<char>, bool)>
    decreases k,
{
    if k <= 0 || k > ls.len() {
        seq![]
    } else {
        let prev = fd_entries_upto(ls, k - 1);
        if ls[k - 1].len() == 0 {
            prev
        } else {
            match fd_entry(ls[k - 1]) {
                Some(e) => prev.push(e),
                None => prev,
            }
        }
    }
}

/// The entries of the output of `fd`: one per non-empty line.
pub fn parse_fd_output(text: &str) -> (r: Vec<(String, bool)>)
    ensures
        r@.map_values(|e: (String, bool)| (e.0@, e.1)) == fd_entries_upto(
            crate::tui::components::diff::str_lines(text@),
            crate::tui::components::diff::str_lines(text@).len() as int,
        ),
{
    let ls = crate::tui::components::diff::lines_of_text(text);
    let ghost lv = crate::tui::unicode::views(ls@);
    let git = str_chars(".git");
    let git_slash = str_chars(".git/");
    let inner = str_chars("/.git/");
    proof {
        reveal_strlit(".git");
        reveal_strlit(".git/");
        reveal_strlit("/.git/");
    }
    let mut out: Vec<(String, bool)> = Vec::new();
    let mut i: usize = 0;
    while i < ls.len()
        invariant
            0 <= i <= ls.len(),
            lv == crate::tui::unicode::views(ls@),
            git@ == ".git"@,
            git_slash@ == ".git/"@,
            inner@ == "/.git/"@,
            out@.map_values(|e: (String, bool)| (e.0@, e.1)) == fd_entries_upto(lv, i as int),
        decreases ls.len() - i,
    {
        assert(lv[i as int] == ls@[i as int]@);
        let ghost before = out@.map_values(|e: (String, bool)| (e.0@, e.1));
        if ls[i].len() > 0 {
            let d = slashes(&ls[i]);
            assert(d@ =~= Seq::new(ls@[i as int]@.len(), |k: int| if ls@[i as int]@[k] == '\\' { '/' } else { ls@[i as int]@[k] }));
            let skip = crate::tui::image::chars_eq(&d, &git) || crate::tui::strs::chars_start_with(&d, &git_slash)
                || crate::tui::strs::chars_contain(&d, &inner);
            if !skip {
                if d.len() > 0 && d[d.len() - 1] == '/' {
                    let name = sub_chars(&d, 0, d.len() - 1);
                    assert(name@ =~= d@.drop_last());
                    out.push((string_from_chars(&name), true));
                } else {
                    out.push((string_from_chars(&d), false));
                }
                assert(out@.map_values(|e: (String, bool)| (e.0@, e.1)) =~= before.push(fd_entry(lv[i as int]).unwrap()));
            }
        }
        i = i + 1;
    }
    out
}


/// `s` without leading and trailing slashes.
pub open spec fn trim_slashes(s: Seq<char>) -> Seq<char>
    decreases s.len(),
{
    if s.len() > 0 && s[0] == '/' {
        trim_slashes(s.drop_first())
    } else if s.len() > 0 && s.last() == '/' {
        trim_slashes(s.drop_last())
    } else {
        s
    }
}

/// The `fd` pattern for segments `segs[..k]`: each escaped, joined by a
/// pattern for either slash.
pub open spec fn fd_pattern(segs: Seq<Seq<char>>, k: int) -> Seq<char>
    decreases k,
{
    if k <= 0 || k > segs.len() {
        seq![]
    } else if k == 1 {
        regex_escaped(segs[0])
    } else {
        fd_pattern(segs, k - 1) + "[\\\\/]"@ + regex_escaped(segs[k - 1])
    }
}

/// The non-empty parts of `s` between slashes.
pub open spec fn path_segments(s: Seq<char>) -> Seq<Seq<char>> {
    crate::tui::sgr::split_on(s, '/').filter(|p: Seq<char>| p.len() > 0)
}

/// The `fd` query for a typed path: a plain name as it is; a path as its
/// escaped segments joined by a pattern for either slash (and one more at
/// the end after a trailing slash).
pub open spec fn fd_path_query(q: Seq<char>) -> Seq<char> {
    let n = Seq::new(q.len(), |i: int| if q[i] == '\\' { '/' } else { q[i] });
    if !n.contains('/') {
        n
    } else if trim_slashes(n).len() == 0 {
        n
    } else {
        let segs = path_segments(trim_slashes(n));
        fd_pattern(segs, segs.len() as int) + if n.last() == '/' { "[\\\\/]"@ } else { seq![] }
    }
}

/// Build the `fd` query from a path prefix the user typed.
#[verifier::spinoff_prover]
#[verifier::rlimit(40)]
pub fn build_fd_path_query(query: &str) -> (r: String)
    ensures
        r@ == fd_path_query(query@),
{
    let n = slashes(&str_chars(query));
    assert(n@ =~= Seq::new(query@.len(), |i: int| if query@[i] == '\\' { '/' } else { query@[i] }));
    if !holds(&n, '/') {
        return string_from_chars(&n);
    }
    let mut a: usize = 0;
    let mut b: usize = n.len();
    assert(n@.subrange(0, n@.len() as int) =~= n@);
    while a < b && (n[a] == '/' || n[b - 1] == '/')
        invariant
            a <= b <= n.len(),
            trim_slashes(n@) == trim_slashes(n@.subrange(a as int, b as int)),
        decreases b - a,
    {
        if n[a] == '/' {
            assert(n@.subrange(a as int, b as int).drop_first() =~= n@.subrange(a + 1, b as int));
            a = a + 1;
        } else {
            assert(n@.subrange(a as int, b as int).drop_last() =~= n@.subrange(a as int, b - 1));
            b = b - 1;
        }
    }
    let trimmed = sub_chars(&n, a, b);
    proof {
        if a < b {
            assert(trimmed@[0] == n@[a as int]);
            assert(trimmed@.last() == n@[b - 1]);
        }
    }
    assert(trimmed@ =~= trim_slashes(n@));
    if trimmed.len() == 0 {
        return string_from_chars(&n);
    }
    let parts = crate::tui::sgr::split_chars(&trimmed, '/');
    let ghost pv = crate::tui::unicode::views(parts@);
    let ghost segs = path_segments(trimmed@);
    let sep = "[\\\\/]";
    proof {
        reveal_strlit("[\\\\/]");
    }
    let mut out = String::new();
    let mut count: usize = 0;
    let mut i: usize = 0;
    proof {
        reveal(Seq::filter);
        assert(pv.take(0) =~= Seq::<Seq<char>>::empty());
    }
    while i < parts.len()
        invariant
            0 <= i <= parts.len(),
            pv == crate::tui::unicode::views(parts@),
            pv == crate::tui::sgr::split_on(trimmed@, '/'),
            sep@ == "[\\\\/]"@,
            count == pv.take(i as int).filter(|p: Seq<char>| p.len() > 0).len(),
            out@ == fd_pattern(pv.take(i as int).filter(|p: Seq<char>| p.len() > 0), count as int),
            count <= i,
        decreases parts.len() - i,
    {
        let ghost f0 = pv.take(i as int).filter(|p: Seq<char>| p.len() > 0);
        proof {
            reveal(Seq::filter);
            assert(pv.take(i + 1).drop_last() =~= pv.take(i as int));
            assert(pv.take(i + 1).last() == parts@[i as int]@);
        }
        if parts[i].len() > 0 {
            let ghost f1 = pv.take(i + 1).filter(|p: Seq<char>| p.len() > 0);
            assert(f1 == f0.push(parts@[i as int]@));
            proof {
                assert(f1.take(count as int) =~= f0);
                lemma_fd_pattern_prefix(f1, count as int);
            }
            if count > 0 {
                push_str(&mut out, sep);
            }
            let e = escape_regex(string_from_chars(&parts[i]).as_str());
            push_str(&mut out, e.as_str());
            count = count + 1;
        }
        i = i + 1;
    }
    assert(pv.take(parts.len() as int) =~= pv);
    if n[n.len() - 1] == '/' {
        push_str(&mut out, sep);
    }
    out
}

proof fn lemma_fd_pattern_prefix(segs: Seq<Seq<char>>, k: int)
    requires
        0 <= k < segs.len(),
    ensures
        fd_pattern(segs, k) == fd_pattern(segs.take(k), k),
        fd_pattern(segs, k + 1) == if k == 0 { regex_escaped(segs[0]) } else { fd_pattern(segs, k) + "[\\\\/]"@ + regex_escaped(segs[k]) },
    decreases k,
{
    if k > 0 {
        lemma_fd_pattern_prefix(segs, k - 1);
        assert(segs.take(k).take(k - 1) =~= segs.take(k - 1));
        lemma_fd_pattern_prefix(segs.take(k), k - 1);
    }
}

} // verus!
