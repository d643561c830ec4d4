//! A scrollable list to pick one item from, with optional search.
use crate::tui::components::pad::concat3;
use crate::tui::keybindings::strs_view;
use crate::tui::keys::{key_matches, matches_key, Key, KeyCode, KeyEvent};
use crate::tui::strs::{decimal, push_char, push_decimal, push_str, str_chars, string_from_chars, string_from_str, sub_chars, trim_bounds, trim_ws};
use crate::tui::unicode::{ascii_lower, to_ascii_lowercase};
use crate::tui::util::{truncate_to_width, truncated, visible_width_checked, visible_width_of};
use vstd::prelude::*;

verus! {

broadcast use vstd::string::group_string_axioms;

/// An item of a select list.
#[derive(Clone, Debug)]
pub struct SelectItem {
    pub value: String,
    pub label: String,
    pub description: Option<String>,
}

impl SelectItem {
    pub fn new(value: &str, label: &str) -> (i: Self)
        ensures
            i.value@ == value@,
            i.label@ == label@,
            i.description is None,
    {
        SelectItem { value: string_from_str(value), label: string_from_str(label), description: None }
    }

    pub fn with_description(self, description: &str) -> (i: Self)
        ensures
            i.value@ == self.value@,
            i.label@ == self.label@,
            i.description matches Some(d) && d@ == description@,
    {
        let mut i = self;
        i.description = Some(string_from_str(description));
        i
    }
}

/// Text put before and after a piece of text to style it.
pub struct Decoration {
    pub before: String,
    pub after: String,
}

/// A decoration applied to a text.
pub open spec fn decorated(d: Decoration, t: Seq<char>) -> Seq<char> {
    d.before@ + t + d.after@
}

impl Decoration {
    pub fn new(before: &str, after: &str) -> (d: Self)
        ensures
            d.before@ == before@,
            d.after@ == after@,
    {
        Decoration { before: string_from_str(before), after: string_from_str(after) }
    }

    /// The text, decorated.
    pub fn apply(&self, t: &str) -> (r: String)
        ensures
            r@ == decorated(*self, t@),
    {
        concat3(self.before.as_str(), t, self.after.as_str())
    }
}

/// How the parts of a select list are styled.
pub struct SelectListTheme {
    pub selected_prefix: Decoration,
    pub selected_text: Decoration,
    pub normal_text: Decoration,
    pub description: Decoration,
    pub scroll_info: Decoration,
    pub no_match: Decoration,
    pub hint: Decoration,
}

impl Default for SelectListTheme {
    /// Bold `> ` and bold text for the selection, two spaces before other
    /// items, four before descriptions.
    fn default() -> (t: Self)
        ensures
            t.selected_prefix.before@ == "\x1b[1m> "@ && t.selected_prefix.after@ == "\x1b[0m"@,
            t.selected_text.before@ == "\x1b[1m"@ && t.selected_text.after@ == "\x1b[0m"@,
            t.normal_text.before@ == "  "@ && t.normal_text.after@ == ""@,
            t.description.before@ == "    "@ && t.description.after@ == ""@,
            t.scroll_info.before@ == ""@ && t.scroll_info.after@ == ""@,
            t.no_match.before@ == ""@ && t.no_match.after@ == ""@,
            t.hint.before@ == ""@ && t.hint.after@ == ""@,
    {
        SelectListTheme {
            selected_prefix: Decoration::new("\x1b[1m> ", "\x1b[0m"),
            selected_text: Decoration::new("\x1b[1m", "\x1b[0m"),
            normal_text: Decoration::new("  ", ""),
            description: Decoration::new("    ", ""),
            scroll_info: Decoration::new("", ""),
            no_match: Decoration::new("", ""),
            hint: Decoration::new("", ""),
        }
    }
}

/// What a select list was last told by a key: pick a value, or cancel.
#[derive(PartialEq, Eq, Clone, Debug)]
pub enum SelectOutcome {
    Selected(String),
    Cancelled,
}

/// An outcome as values.
pub enum OutcomeView {
    Selected(Seq<char>),
    Cancelled,
}

/// The view of an outcome.
pub open spec fn outcome_view(o: Option<SelectOutcome>) -> Option<OutcomeView> {
    match o {
        Some(SelectOutcome::Selected(v)) => Some(OutcomeView::Selected(v@)),
        Some(SelectOutcome::Cancelled) => Some(OutcomeView::Cancelled),
        None => None,
    }
}

/// `query`'s characters occur in `label` in order, ignoring ASCII case.
pub open spec fn fuzzy_matches(label: Seq<char>, query: Seq<char>) -> bool
    decreases label.len(),
{
    if query.len() == 0 {
        true
    } else if label.len() == 0 {
        false
    } else if ascii_lower(label[0]) == ascii_lower(query[0]) {
        fuzzy_matches(label.drop_first(), query.drop_first())
    } else {
        fuzzy_matches(label.drop_first(), query)
    }
}

/// Indices of the items whose labels match the query, in order; all of
/// them for a blank query.
pub open spec fn filtered(items: Seq<SelectItem>, query: Seq<char>) -> Seq<usize>
    decreases items.len(),
{
    if items.len() == 0 {
        seq![]
    } else {
        let prev = filtered(items.drop_last(), query);
        if trim_ws(query).len() == 0 || fuzzy_matches(items.last().label@, query) {
            prev.push((items.len() - 1) as usize)
        } else {
            prev
        }
    }
}

/// The state of a select list.
pub struct SelectView {
    pub items: Seq<SelectItem>,
    pub selected_index: nat,
    pub max_visible: nat,
    pub scroll_offset: nat,
    pub search_query: Seq<char>,
    pub search_enabled: bool,
    pub filtered: Seq<usize>,
    pub outcome: Option<OutcomeView>,
}

/// Scrollable list with optional search and selection.
pub struct SelectList {
    items: Vec<SelectItem>,
    selected_index: usize,
    max_visible: usize,
    scroll_offset: usize,
    search_query: String,
    search_enabled: bool,
    filtered_indices: Vec<usize>,
    theme: SelectListTheme,
    outcome: Option<SelectOutcome>,
}

/// The line fitted to the width, where its width can be measured.
pub open spec fn fitted(line: Seq<char>, width: nat) -> Seq<char> {
    if visible_width_of(line) <= usize::MAX {
        truncated(line, width, seq![], false)
    } else {
        line
    }
}

fn fit(line: &str, width: usize) -> (r: String)
    ensures
        r@ == fitted(line@, width as nat),
{
    let cs = str_chars(line);
    match visible_width_checked(&cs) {
        Some(_) => {
            proof {
                reveal_strlit("");
            }
            assert(""@ =~= Seq::<char>::empty());
            truncate_to_width(line, width, "", false)
        },
        None => string_from_str(line),
    }
}

/// The line of the item at position `i` of the filtered list.
pub open spec fn item_line(v: SelectView, th: SelectListTheme, i: int) -> Seq<char> {
    let item = v.items[v.filtered[i] as int];
    let sel = i == v.selected_index;
    let prefix = if sel { decorated(th.selected_prefix, seq![]) } else { seq![' ', ' '] };
    let label = if sel { decorated(th.selected_text, item.label@) } else { decorated(th.normal_text, item.label@) };
    let desc = match item.description {
        Some(d) => seq![' '] + decorated(th.description, d@),
        None => seq![],
    };
    prefix + label + desc
}

/// The hint under the list.
pub open spec fn hint_text() -> Seq<char> {
    "↑↓ navigate • enter select • esc cancel"@
}

/// The visible window of the filtered list.
pub open spec fn window_end(v: SelectView) -> int {
    if v.scroll_offset + v.max_visible < v.filtered.len() {
        (v.scroll_offset + v.max_visible) as int
    } else {
        v.filtered.len() as int
    }
}

/// What `SelectList::render` returns: "No matches" for a search that found
/// nothing; otherwise the visible items, the position where the list
/// scrolls, and the hint.
pub open spec fn select_render(v: SelectView, th: SelectListTheme, width: nat) -> Seq<Seq<char>> {
    if v.filtered.len() == 0 {
        if v.search_query.len() > 0 {
            seq![decorated(th.no_match, "No matches"@)]
        } else {
            seq![]
        }
    } else {
        let items = Seq::new(
            (window_end(v) - v.scroll_offset) as nat,
            |k: int| fitted(item_line(v, th, v.scroll_offset + k), width),
        );
        let info = if v.filtered.len() > v.max_visible {
            seq![
                decorated(
                    th.scroll_info,
                    seq!['('] + decimal(v.selected_index + 1) + seq!['/'] + decimal(v.filtered.len()) + seq![')'],
                ),
            ]
        } else {
            seq![]
        };
        items + info + seq![decorated(th.hint, hint_text())]
    }
}

/// The window follows the selection: the selected item is on screen.
pub open spec fn window_ok(v: SelectView) -> bool {
    &&& v.max_visible >= 1
    &&& (v.filtered.len() == 0 ==> v.selected_index == 0 && v.scroll_offset == 0)
    &&& (v.filtered.len() > 0 ==> v.selected_index < v.filtered.len() && v.scroll_offset <= v.selected_index
        < v.scroll_offset + v.max_visible)
    &&& forall|i: int| 0 <= i < v.filtered.len() ==> (#[trigger] v.filtered[i]) < v.items.len()
}

impl View for SelectList {
    type V = SelectView;

    closed spec fn view(&self) -> SelectView {
        SelectView {
            items: self.items@,
            selected_index: self.selected_index as nat,
            max_visible: self.max_visible as nat,
            scroll_offset: self.scroll_offset as nat,
            search_query: self.search_query@,
            search_enabled: self.search_enabled,
            filtered: self.filtered_indices@,
            outcome: outcome_view(self.outcome),
        }
    }
}

fn all_indices(n: usize) -> (v: Vec<usize>)
    ensures
        v@.len() == n,
        forall|i: int| 0 <= i < n ==> v@[i] == i,
{
    let mut v: Vec<usize> = Vec::new();
    let mut i: usize = 0;
    while i < n
        invariant
            0 <= i <= n,
            v@.len() == i,
            forall|j: int| 0 <= j < i ==> v@[j] == j,
        decreases n - i,
    {
        v.push(i);
        i = i + 1;
    }
    v
}

proof fn lemma_filtered_blank(items: Seq<SelectItem>, query: Seq<char>)
    requires
        trim_ws(query).len() == 0,
        items.len() <= usize::MAX,
    ensures
        filtered(items, query).len() == items.len(),
        forall|i: int| 0 <= i < items.len() ==> filtered(items, query)[i] == i,
    decreases items.len(),
{
    if items.len() > 0 {
        lemma_filtered_blank(items.drop_last(), query);
    }
}

proof fn lemma_filtered_bound(items: Seq<SelectItem>, query: Seq<char>)
    requires
        items.len() <= usize::MAX,
    ensures
        forall|i: int| 0 <= i < filtered(items, query).len() ==> (#[trigger] filtered(items, query)[i]) < items.len(),
    decreases items.len(),
{
    if items.len() > 0 {
        lemma_filtered_bound(items.drop_last(), query);
        let prev = filtered(items.drop_last(), query);
        assert forall|i: int| 0 <= i < filtered(items, query).len() implies (#[trigger] filtered(items, query)[i])
            < items.len() by {
            if i < prev.len() {
                assert(filtered(items, query)[i] == prev[i]);
            }
        }
    }
}

fn fuzzy_matches_exec(label: &[char], query: &[char]) -> (r: bool)
    ensures
        r == fuzzy_matches(label@, query@),
{
    let mut i: usize = 0;
    let mut j: usize = 0;
    assert(label@.skip(0) =~= label@);
    assert(query@.skip(0) =~= query@);
    while j < query.len() && i < label.len()
        invariant
            0 <= i <= label.len(),
            0 <= j <= query.len(),
            fuzzy_matches(label@, query@) == fuzzy_matches(label@.skip(i as int), query@.skip(j as int)),
        decreases label.len() - i,
    {
        assert(label@.skip(i as int).drop_first() =~= label@.skip(i + 1));
        assert(query@.skip(j as int).drop_first() =~= query@.skip(j + 1));
        if to_ascii_lowercase(label[i]) == to_ascii_lowercase(query[j]) {
            j = j + 1;
        }
        i = i + 1;
    }
    proof {
        if j < query.len() {
            assert(label@.skip(i as int).len() == 0);
            assert(query@.skip(j as int).len() > 0);
        } else {
            assert(query@.skip(j as int).len() == 0);
        }
    }
    j >= query.len()
}

impl SelectList {
    pub closed spec fn theme(&self) -> SelectListTheme {
        self.theme
    }

    /// A list of the items, showing at most `max_visible` (at least one) at once.
    pub fn new(items: Vec<SelectItem>, max_visible: usize, theme: SelectListTheme) -> (l: Self)
        ensures
            window_ok(l@),
            l@.items == items@,
            l@.selected_index == 0,
            l@.scroll_offset == 0,
            l@.max_visible == (if max_visible > 1 { max_visible } else { 1 }),
            l@.search_query.len() == 0,
            !l@.search_enabled,
            l@.filtered.len() == items@.len(),
            forall|i: int| 0 <= i < items@.len() ==> l@.filtered[i] == i,
            l@.outcome is None,
            l.theme() == theme,
    {
        let filtered_indices = all_indices(items.len());
        SelectList {
            items,
            selected_index: 0,
            max_visible: if max_visible > 1 { max_visible } else { 1 },
            scroll_offset: 0,
            search_query: String::new(),
            search_enabled: false,
            filtered_indices,
            theme,
            outcome: None,
        }
    }

    /// Let typing filter the list.
    pub fn with_search(self) -> (l: Self)
        ensures
            l@ == (SelectView { search_enabled: true, ..self@ }),
            l.theme() == self.theme(),
    {
        let mut l = self;
        l.search_enabled = true;
        l
    }

    /// Replace the items; the selection, scrolling and search start over.
    pub fn set_items(&mut self, items: Vec<SelectItem>)
        requires
            window_ok(old(self)@),
        ensures
            window_ok(final(self)@),
            final(self)@ == (SelectView {
                items: items@,
                selected_index: 0,
                scroll_offset: 0,
                search_query: seq![],
                filtered: final(self)@.filtered,
                ..old(self)@
            }),
            final(self)@.filtered.len() == items@.len(),
            forall|i: int| 0 <= i < items@.len() ==> final(self)@.filtered[i] == i,
            final(self).theme() == old(self).theme(),
    {
        self.filtered_indices = all_indices(items.len());
        self.items = items;
        self.selected_index = 0;
        self.scroll_offset = 0;
        self.search_query = String::new();
        assert(self.search_query@ =~= Seq::<char>::empty());
    }

    /// The selected item, if any.
    pub fn selected_item(&self) -> (r: Option<&SelectItem>)
        requires
            window_ok(self@),
        ensures
            r == (if self@.filtered.len() > 0 {
                Some(&self@.items[self@.filtered[self@.selected_index as int] as int])
            } else {
                None
            }),
    {
        if self.selected_index < self.filtered_indices.len() {
            let idx = self.filtered_indices[self.selected_index];
            Some(&self.items[idx])
        } else {
            None
        }
    }

    /// What the last key asked for, taken out.
    pub fn take_outcome(&mut self) -> (r: Option<SelectOutcome>)
        ensures
            outcome_view(r) == old(self)@.outcome,
            final(self)@ == (SelectView { outcome: None, ..old(self)@ }),
            final(self).theme() == old(self).theme(),
    {
        let r = self.outcome.take();
        r
    }

    fn apply_search(&mut self)
        requires
            window_ok(old(self)@),
        ensures
            window_ok(final(self)@),
            final(self)@ == (SelectView {
                filtered: filtered(old(self)@.items, old(self)@.search_query),
                selected_index: 0,
                scroll_offset: 0,
                ..old(self)@
            }),
            final(self).theme() == old(self).theme(),
    {
        let q = str_chars(self.search_query.as_str());
        let (a, b) = trim_bounds(&q);
        let mut f: Vec<usize> = Vec::new();
        let mut i: usize = 0;
        while i < self.items.len()
            invariant
                0 <= i <= self.items.len(),
                q@ == self.search_query@,
                a <= b <= q.len(),
                q@.subrange(a as int, b as int) == trim_ws(q@),
                f@ == filtered(self.items@.take(i as int), self.search_query@),
            decreases self.items.len() - i,
        {
            assert(self.items@.take(i + 1).drop_last() =~= self.items@.take(i as int));
            let label = str_chars(self.items[i].label.as_str());
            if a == b || fuzzy_matches_exec(&label, &q) {
                f.push(i);
            }
            i = i + 1;
        }
        assert(self.items@.take(self.items.len() as int) =~= self.items@);
        proof {
            lemma_filtered_bound(self.items@, self.search_query@);
        }
        self.filtered_indices = f;
        self.selected_index = 0;
        self.scroll_offset = 0;
    }

    fn adjust_scroll(&mut self)
        requires
            old(self)@.max_visible >= 1,
        ensures
            final(self)@ == (SelectView {
                scroll_offset: if old(self)@.selected_index < old(self)@.scroll_offset {
                    old(self)@.selected_index
                } else if old(self)@.selected_index >= old(self)@.scroll_offset + old(self)@.max_visible {
                    (old(self)@.selected_index - old(self)@.max_visible + 1) as nat
                } else {
                    old(self)@.scroll_offset
                },
                ..old(self)@
            }),
            final(self).theme() == old(self).theme(),
    {
        if self.selected_index < self.scroll_offset {
            self.scroll_offset = self.selected_index;
        } else if self.selected_index - self.scroll_offset >= self.max_visible {
            self.scroll_offset = self.selected_index - self.max_visible + 1;
        }
    }

    /// Select the item at position `i` of the list (the last one where `i`
    /// is past the end), scrolled into view.
    pub fn set_selected_index(&mut self, i: usize)
        requires
            window_ok(old(self)@),
        ensures
            window_ok(final(self)@),
            final(self)@.selected_index == (if old(self)@.filtered.len() == 0 {
                0
            } else if i < old(self)@.filtered.len() {
                i as nat
            } else {
                (old(self)@.filtered.len() - 1) as nat
            }),
            final(self)@.items == old(self)@.items,
            final(self)@.filtered == old(self)@.filtered,
            final(self)@.search_query == old(self)@.search_query,
            final(self)@.outcome == old(self)@.outcome,
            final(self).theme() == old(self).theme(),
    {
        if self.filtered_indices.len() == 0 {
            return;
        }
        self.selected_index = if i < self.filtered_indices.len() { i } else { self.filtered_indices.len() - 1 };
        self.adjust_scroll();
    }

    /// The number of items.
    pub fn len(&self) -> (n: usize)
        ensures
            n == self@.items.len(),
    {
        self.items.len()
    }

    /// Select the previous item, if there is one.
    pub fn move_up(&mut self)
        requires
            window_ok(old(self)@),
        ensures
            window_ok(final(self)@),
            final(self)@.selected_index == (if old(self)@.selected_index > 0 {
                old(self)@.selected_index - 1
            } else {
                0
            }),
            final(self)@.items == old(self)@.items,
            final(self)@.filtered == old(self)@.filtered,
            final(self)@.search_query == old(self)@.search_query,
            final(self).theme() == old(self).theme(),
    {
        if self.selected_index > 0 {
            self.selected_index = self.selected_index - 1;
        }
        self.adjust_scroll();
    }

    /// Select the next item, if there is one.
    pub fn move_down(&mut self)
        requires
            window_ok(old(self)@),
        ensures
            window_ok(final(self)@),
            final(self)@.selected_index == (if old(self)@.selected_index + 1 < old(self)@.filtered.len() {
                old(self)@.selected_index + 1
            } else {
                old(self)@.selected_index
            }),
            final(self)@.items == old(self)@.items,
            final(self)@.filtered == old(self)@.filtered,
            final(self)@.search_query == old(self)@.search_query,
            final(self).theme() == old(self).theme(),
    {
        if self.selected_index < self.filtered_indices.len() && self.filtered_indices.len() - self.selected_index > 1 {
            self.selected_index = self.selected_index + 1;
        }
        self.adjust_scroll();
    }

    /// The visible items, the scroll position where the list scrolls, and
    /// the hint; "No matches" for a search that found nothing.
    pub fn render(&self, width: usize) -> (r: Vec<String>)
        requires
            window_ok(self@),
        ensures
            strs_view(r@) == select_render(self@, self.theme(), width as nat),
    {
        let mut lines: Vec<String> = Vec::new();
        if self.filtered_indices.len() == 0 {
            if str_chars(self.search_query.as_str()).len() > 0 {
                lines.push(self.theme.no_match.apply("No matches"));
            }
            assert(strs_view(lines@) =~= select_render(self@, self.theme, width as nat));
            return lines;
        }
        let end = if self.max_visible < self.filtered_indices.len() - self.scroll_offset {
            self.scroll_offset + self.max_visible
        } else {
            self.filtered_indices.len()
        };
        let ghost v = self@;
        let mut i = self.scroll_offset;
        while i < end
            invariant
                v == self@,
                window_ok(v),
                v.filtered.len() > 0,
                end == window_end(v),
                v.scroll_offset <= i <= end,
                strs_view(lines@) =~= Seq::new(
                    (i - v.scroll_offset) as nat,
                    |k: int| fitted(item_line(v, self.theme, v.scroll_offset + k), width as nat),
                ),
            decreases end - i,
        {
            let item = &self.items[self.filtered_indices[i]];
            let sel = i == self.selected_index;
            let prefix = if sel { self.theme.selected_prefix.apply("") } else { string_from_str("  ") };
            let label = if sel { self.theme.selected_text.apply(item.label.as_str()) } else { self.theme.normal_text.apply(item.label.as_str()) };
            let mut desc = String::new();
            match &item.description {
                Some(d) => {
                    push_char(&mut desc, ' ');
                    let dd = self.theme.description.apply(d.as_str());
                    push_str(&mut desc, dd.as_str());
                },
                None => {},
            }
            let line = concat3(prefix.as_str(), label.as_str(), desc.as_str());
            proof {
                reveal_strlit("");
                reveal_strlit("  ");
                assert(prefix@ =~= (if sel { decorated(self.theme.selected_prefix, seq![]) } else { seq![' ', ' '] }));
                assert(line@ =~= item_line(v, self.theme, i as int));
            }
            let fitted_line = fit(line.as_str(), width);
            let ghost before = strs_view(lines@);
            lines.push(fitted_line);
            assert(strs_view(lines@) =~= before.push(fitted_line@));
            i = i + 1;
        }
        let ghost items_part = strs_view(lines@);
        assert(items_part =~= Seq::new(
            (window_end(v) - v.scroll_offset) as nat,
            |k: int| fitted(item_line(v, self.theme, v.scroll_offset + k), width as nat),
        ));
        let ghost info: Seq<Seq<char>> = if v.filtered.len() > v.max_visible {
            seq![
                decorated(
                    self.theme.scroll_info,
                    seq!['('] + decimal(v.selected_index + 1) + seq!['/'] + decimal(v.filtered.len()) + seq![')'],
                ),
            ]
        } else {
            seq![]
        };
        if self.filtered_indices.len() > self.max_visible {
            let mut ind = String::new();
            push_char(&mut ind, '(');
            push_decimal(&mut ind, self.selected_index + 1);
            push_char(&mut ind, '/');
            push_decimal(&mut ind, self.filtered_indices.len());
            push_char(&mut ind, ')');
            assert(ind@ =~= seq!['('] + decimal(v.selected_index + 1) + seq!['/'] + decimal(v.filtered.len()) + seq![')']);
            let il = self.theme.scroll_info.apply(ind.as_str());
            lines.push(il);
            assert(strs_view(lines@) =~= items_part + info);
        } else {
            assert(strs_view(lines@) =~= items_part + info);
        }
        let ghost with_info = strs_view(lines@);
        let h = self.theme.hint.apply("↑↓ navigate • enter select • esc cancel");
        lines.push(h);
        assert(strs_view(lines@) =~= with_info.push(h@));
        assert(strs_view(lines@) =~= items_part + info + seq![decorated(self.theme.hint, hint_text())]);
        lines
    }

    /// Up and down move the selection, enter selects, escape cancels; with
    /// search on, characters and backspace edit the query.
    pub fn handle_input(&mut self, key: &KeyEvent) -> (consumed: bool)
        requires
            window_ok(old(self)@),
        ensures
            window_ok(final(self)@),
            final(self).theme() == old(self).theme(),
            key_matches(*key, Key::Up) ==> consumed,
            key_matches(*key, Key::Down) ==> consumed,
            key_matches(*key, Key::Enter) ==> consumed && final(self)@.outcome == (if old(self)@.filtered.len() > 0 {
                Some(OutcomeView::Selected(
                    old(self)@.items[old(self)@.filtered[old(self)@.selected_index as int] as int].value@,
                ))
            } else {
                old(self)@.outcome
            }),
            key_matches(*key, Key::Escape) ==> consumed && final(self)@.outcome == Some(OutcomeView::Cancelled),
            !consumed ==> final(self)@ == old(self)@,
    {
        if matches_key(key, &Key::Up) {
            self.move_up();
            return true;
        }
        if matches_key(key, &Key::Down) {
            self.move_down();
            return true;
        }
        if matches_key(key, &Key::Enter) {
            if self.selected_index < self.filtered_indices.len() {
                let idx = self.filtered_indices[self.selected_index];
                let v = string_from_str(self.items[idx].value.as_str());
                self.outcome = Some(SelectOutcome::Selected(v));
            }
            return true;
        }
        if matches_key(key, &Key::Escape) {
            self.outcome = Some(SelectOutcome::Cancelled);
            return true;
        }
        if self.search_enabled {
            match key.code {
                KeyCode::Char(c) => {
                    if !key.modifiers.control && !key.modifiers.alt {
                        push_char(&mut self.search_query, c);
                        self.apply_search();
                        return true;
                    }
                },
                _ => {},
            }
            if matches_key(key, &Key::Backspace) {
                let q = str_chars(self.search_query.as_str());
                if q.len() > 0 {
                    self.search_query = string_from_chars(&sub_chars(&q, 0, q.len() - 1));
                }
                self.apply_search();
                return true;
            }
        }
        false
    }
}

} // verus!
