//! Keybindings: which key identifiers trigger which action.
use crate::tui::keys::{key_id_matches, match_key_id, KeyEvent};
use crate::tui::strs::{str_chars, string_from_str};
use crate::tui::image::chars_eq;
use vstd::prelude::*;

verus! {

broadcast use vstd::string::group_string_axioms;

pub const ACTION_EDITOR_CURSOR_LEFT: &'static str = "tui.editor.cursorLeft";
pub const ACTION_EDITOR_CURSOR_RIGHT: &'static str = "tui.editor.cursorRight";
pub const ACTION_EDITOR_CURSOR_UP: &'static str = "tui.editor.cursorUp";
pub const ACTION_EDITOR_CURSOR_DOWN: &'static str = "tui.editor.cursorDown";
pub const ACTION_EDITOR_CURSOR_LINE_START: &'static str = "tui.editor.cursorLineStart";
pub const ACTION_EDITOR_CURSOR_LINE_END: &'static str = "tui.editor.cursorLineEnd";
pub const ACTION_EDITOR_CURSOR_WORD_LEFT: &'static str = "tui.editor.cursorWordLeft";
pub const ACTION_EDITOR_CURSOR_WORD_RIGHT: &'static str = "tui.editor.cursorWordRight";
pub const ACTION_EDITOR_DELETE_CHAR_BACKWARD: &'static str = "tui.editor.deleteCharBackward";
pub const ACTION_EDITOR_DELETE_CHAR_FORWARD: &'static str = "tui.editor.deleteCharForward";
pub const ACTION_EDITOR_DELETE_WORD_BACKWARD: &'static str = "tui.editor.deleteWordBackward";
pub const ACTION_EDITOR_DELETE_WORD_FORWARD: &'static str = "tui.editor.deleteWordForward";
pub const ACTION_EDITOR_DELETE_TO_LINE_START: &'static str = "tui.editor.deleteToLineStart";
pub const ACTION_EDITOR_DELETE_TO_LINE_END: &'static str = "tui.editor.deleteToLineEnd";
pub const ACTION_EDITOR_YANK: &'static str = "tui.editor.yank";
pub const ACTION_EDITOR_YANK_POP: &'static str = "tui.editor.yankPop";
pub const ACTION_EDITOR_UNDO: &'static str = "tui.editor.undo";
pub const ACTION_EDITOR_PAGE_UP: &'static str = "tui.editor.pageUp";
pub const ACTION_EDITOR_PAGE_DOWN: &'static str = "tui.editor.pageDown";
pub const ACTION_EDITOR_JUMP_FORWARD: &'static str = "tui.editor.jumpForward";
pub const ACTION_EDITOR_JUMP_BACKWARD: &'static str = "tui.editor.jumpBackward";

pub const ACTION_INPUT_SUBMIT: &'static str = "tui.input.submit";
pub const ACTION_INPUT_TAB: &'static str = "tui.input.tab";
pub const ACTION_INPUT_NEW_LINE: &'static str = "tui.input.newLine";
pub const ACTION_INPUT_COPY: &'static str = "tui.input.copy";

pub const ACTION_SELECT_UP: &'static str = "tui.select.up";
pub const ACTION_SELECT_DOWN: &'static str = "tui.select.down";
pub const ACTION_SELECT_CONFIRM: &'static str = "tui.select.confirm";
pub const ACTION_SELECT_CANCEL: &'static str = "tui.select.cancel";

pub const ACTION_APP_ESCAPE: &'static str = "app.escape";
pub const ACTION_APP_INTERRUPT: &'static str = "app.interrupt";
pub const ACTION_APP_EXIT: &'static str = "app.exit";
pub const ACTION_APP_MODEL_SELECTOR: &'static str = "app.modelSelector";
pub const ACTION_APP_TOGGLE_THINKING: &'static str = "app.toggleThinking";
pub const ACTION_APP_TOGGLE_COLLAPSE: &'static str = "app.toggleCollapse";
pub const ACTION_APP_HELP: &'static str = "app.help";
pub const ACTION_APP_HISTORY_UP: &'static str = "app.historyUp";
pub const ACTION_APP_HISTORY_DOWN: &'static str = "app.historyDown";

/// The character sequences of a list of strings.
pub open spec fn strs_view(v: Seq<String>) -> Seq<Seq<char>> {
    v.map_values(|s: String| s@)
}

/// The first binding of `action` in a list of bindings.
pub open spec fn lookup(es: Seq<(Seq<char>, Seq<Seq<char>>)>, action: Seq<char>) -> Option<Seq<Seq<char>>>
    decreases es.len(),
{
    if es.len() == 0 {
        None
    } else if es[0].0 == action {
        Some(es[0].1)
    } else {
        lookup(es.drop_first(), action)
    }
}

/// A list of bindings as a map from action to key identifiers.
pub open spec fn bindings_map(es: Seq<(Seq<char>, Seq<Seq<char>>)>) -> Map<Seq<char>, Seq<Seq<char>>> {
    Map::new(|a: Seq<char>| lookup(es, a) is Some, |a: Seq<char>| lookup(es, a).unwrap())
}

/// The event matches a key bound to `action` in the map.
pub open spec fn key_id_matches_any(m: Map<Seq<char>, Seq<Seq<char>>>, e: KeyEvent, action: Seq<char>) -> bool {
    m.contains_key(action) && exists|i: int| 0 <= i < m[action].len() && key_id_matches(e, #[trigger] m[action][i])
}

/// The pi-compatible default bindings.
pub open spec fn default_entries() -> Seq<(Seq<char>, Seq<Seq<char>>)> {
    seq![
        (ACTION_EDITOR_CURSOR_LEFT@, seq!["left"@, "ctrl+b"@]),
        (ACTION_EDITOR_CURSOR_RIGHT@, seq!["right"@, "ctrl+f"@]),
        (ACTION_EDITOR_CURSOR_UP@, seq!["up"@]),
        (ACTION_EDITOR_CURSOR_DOWN@, seq!["down"@]),
        (ACTION_EDITOR_CURSOR_LINE_START@, seq!["home"@, "ctrl+a"@]),
        (ACTION_EDITOR_CURSOR_LINE_END@, seq!["end"@, "ctrl+e"@]),
        (ACTION_EDITOR_CURSOR_WORD_LEFT@, seq!["ctrl+left"@, "alt+b"@]),
        (ACTION_EDITOR_CURSOR_WORD_RIGHT@, seq!["ctrl+right"@, "alt+f"@]),
        (ACTION_EDITOR_DELETE_CHAR_BACKWARD@, seq!["backspace"@, "ctrl+h"@]),
        (ACTION_EDITOR_DELETE_CHAR_FORWARD@, seq!["delete"@, "ctrl+d"@]),
        (ACTION_EDITOR_DELETE_WORD_BACKWARD@, seq!["ctrl+w"@]),
        (ACTION_EDITOR_DELETE_WORD_FORWARD@, seq!["alt+d"@]),
        (ACTION_EDITOR_DELETE_TO_LINE_START@, seq!["ctrl+u"@]),
        (ACTION_EDITOR_DELETE_TO_LINE_END@, seq!["ctrl+k"@]),
        (ACTION_EDITOR_YANK@, seq!["ctrl+y"@]),
        (ACTION_EDITOR_YANK_POP@, seq!["alt+y"@]),
        (ACTION_EDITOR_UNDO@, seq!["ctrl+z"@]),
        (ACTION_EDITOR_PAGE_UP@, seq!["pageUp"@]),
        (ACTION_EDITOR_PAGE_DOWN@, seq!["pageDown"@]),
        (ACTION_INPUT_SUBMIT@, seq!["enter"@]),
        (ACTION_INPUT_TAB@, seq!["tab"@]),
        (ACTION_INPUT_NEW_LINE@, seq!["ctrl+j"@]),
        (ACTION_INPUT_COPY@, seq!["ctrl+c"@]),
        (ACTION_SELECT_UP@, seq!["up"@]),
        (ACTION_SELECT_DOWN@, seq!["down"@]),
        (ACTION_SELECT_CONFIRM@, seq!["enter"@]),
        (ACTION_SELECT_CANCEL@, seq!["escape"@]),
        (ACTION_APP_ESCAPE@, seq!["escape"@]),
        (ACTION_APP_INTERRUPT@, seq!["ctrl+c"@]),
        (ACTION_APP_EXIT@, seq!["ctrl+d"@]),
        (ACTION_APP_MODEL_SELECTOR@, seq!["ctrl+l"@]),
        (ACTION_APP_TOGGLE_THINKING@, seq!["ctrl+t"@]),
        (ACTION_APP_TOGGLE_COLLAPSE@, seq!["ctrl+o"@]),
        (ACTION_APP_HELP@, seq!["f1"@]),
        (ACTION_APP_HISTORY_UP@, seq!["up"@]),
        (ACTION_APP_HISTORY_DOWN@, seq!["down"@]),
    ]
}

/// Mapping from action id to the key ids that trigger it.
#[derive(Clone, Debug)]
pub struct Keybindings {
    bindings: Vec<(String, Vec<String>)>,
}

impl View for Keybindings {
    type V = Map<Seq<char>, Seq<Seq<char>>>;

    open spec fn view(&self) -> Map<Seq<char>, Seq<Seq<char>>> {
        bindings_map(self.entries())
    }
}

fn s(t: &str) -> (r: String)
    ensures
        r@ == t@,
{
    string_from_str(t)
}

fn one(a: &str) -> (v: Vec<String>)
    ensures
        strs_view(v@) == seq![a@],
{
    let v = vec![s(a)];
    assert(strs_view(v@) =~= seq![a@]);
    v
}

fn two(a: &str, b: &str) -> (v: Vec<String>)
    ensures
        strs_view(v@) == seq![a@, b@],
{
    let v = vec![s(a), s(b)];
    assert(strs_view(v@) =~= seq![a@, b@]);
    v
}

impl Keybindings {
    /// The bindings, in order; the first binding of an action counts.
    pub closed spec fn entries(&self) -> Seq<(Seq<char>, Seq<Seq<char>>)> {
        self.bindings@.map_values(|e: (String, Vec<String>)| (e.0@, strs_view(e.1@)))
    }

    /// No bindings.
    pub fn new() -> (kb: Self)
        ensures
            kb@ == Map::<Seq<char>, Seq<Seq<char>>>::empty(),
    {
        let kb = Keybindings { bindings: Vec::new() };
        assert(kb@ =~= Map::<Seq<char>, Seq<Seq<char>>>::empty());
        kb
    }

    /// The pi-compatible default bindings.
    pub fn with_defaults() -> (kb: Self)
        ensures
            kb@ == bindings_map(default_entries()),
    {
        let mut b: Vec<(String, Vec<String>)> = Vec::new();
        b.push((s(ACTION_EDITOR_CURSOR_LEFT), two("left", "ctrl+b")));
        b.push((s(ACTION_EDITOR_CURSOR_RIGHT), two("right", "ctrl+f")));
        b.push((s(ACTION_EDITOR_CURSOR_UP), one("up")));
        b.push((s(ACTION_EDITOR_CURSOR_DOWN), one("down")));
        b.push((s(ACTION_EDITOR_CURSOR_LINE_START), two("home", "ctrl+a")));
        b.push((s(ACTION_EDITOR_CURSOR_LINE_END), two("end", "ctrl+e")));
        b.push((s(ACTION_EDITOR_CURSOR_WORD_LEFT), two("ctrl+left", "alt+b")));
        b.push((s(ACTION_EDITOR_CURSOR_WORD_RIGHT), two("ctrl+right", "alt+f")));
        b.push((s(ACTION_EDITOR_DELETE_CHAR_BACKWARD), two("backspace", "ctrl+h")));
        b.push((s(ACTION_EDITOR_DELETE_CHAR_FORWARD), two("delete", "ctrl+d")));
        b.push((s(ACTION_EDITOR_DELETE_WORD_BACKWARD), one("ctrl+w")));
        b.push((s(ACTION_EDITOR_DELETE_WORD_FORWARD), one("alt+d")));
        b.push((s(ACTION_EDITOR_DELETE_TO_LINE_START), one("ctrl+u")));
        b.push((s(ACTION_EDITOR_DELETE_TO_LINE_END), one("ctrl+k")));
        b.push((s(ACTION_EDITOR_YANK), one("ctrl+y")));
        b.push((s(ACTION_EDITOR_YANK_POP), one("alt+y")));
        b.push((s(ACTION_EDITOR_UNDO), one("ctrl+z")));
        b.push((s(ACTION_EDITOR_PAGE_UP), one("pageUp")));
        b.push((s(ACTION_EDITOR_PAGE_DOWN), one("pageDown")));
        b.push((s(ACTION_INPUT_SUBMIT), one("enter")));
        b.push((s(ACTION_INPUT_TAB), one("tab")));
        b.push((s(ACTION_INPUT_NEW_LINE), one("ctrl+j")));
        b.push((s(ACTION_INPUT_COPY), one("ctrl+c")));
        b.push((s(ACTION_SELECT_UP), one("up")));
        b.push((s(ACTION_SELECT_DOWN), one("down")));
        b.push((s(ACTION_SELECT_CONFIRM), one("enter")));
        b.push((s(ACTION_SELECT_CANCEL), one("escape")));
        b.push((s(ACTION_APP_ESCAPE), one("escape")));
        b.push((s(ACTION_APP_INTERRUPT), one("ctrl+c")));
        b.push((s(ACTION_APP_EXIT), one("ctrl+d")));
        b.push((s(ACTION_APP_MODEL_SELECTOR), one("ctrl+l")));
        b.push((s(ACTION_APP_TOGGLE_THINKING), one("ctrl+t")));
        b.push((s(ACTION_APP_TOGGLE_COLLAPSE), one("ctrl+o")));
        b.push((s(ACTION_APP_HELP), one("f1")));
        b.push((s(ACTION_APP_HISTORY_UP), one("up")));
        b.push((s(ACTION_APP_HISTORY_DOWN), one("down")));
        let kb = Keybindings { bindings: b };
        assert(kb.entries() =~= default_entries());
        kb
    }

    /// Index of the first binding of `action`, or the number of bindings.
    fn find(&self, action: &[char]) -> (i: usize)
        ensures
            i <= self.bindings.len(),
            i < self.bindings.len() ==> self.entries()[i as int].0 == action@,
            forall|j: int| 0 <= j < i ==> self.entries()[j].0 != action@,
    {
        let mut i: usize = 0;
        while i < self.bindings.len()
            invariant
                0 <= i <= self.bindings.len(),
                forall|j: int| 0 <= j < i ==> self.entries()[j].0 != action@,
            decreases self.bindings.len() - i,
        {
            let name = str_chars(self.bindings[i].0.as_str());
            if chars_eq(&name, action) {
                return i;
            }
            i = i + 1;
        }
        i
    }

    /// Bind `action` to `keys`, in place of what it was bound to.
    pub fn set(&mut self, action: &str, keys: Vec<String>)
        ensures
            final(self)@ == old(self)@.insert(action@, strs_view(keys@)),
    {
        let name = str_chars(action);
        let i = self.find(&name);
        let ghost es = self.entries();
        let ghost ks = strs_view(keys@);
        if i < self.bindings.len() {
            self.bindings.set(i, (s(action), keys));
            proof {
                let es2 = self.entries();
                assert(es2 =~= es.update(i as int, (action@, ks)));
                lemma_lookup_update(es, i as int, action@, ks);
            }
        } else {
            self.bindings.push((s(action), keys));
            proof {
                let es2 = self.entries();
                assert(es2 =~= es.push((action@, ks)));
                lemma_lookup_push(es, action@, ks);
            }
        }
        assert(self@ =~= old(self)@.insert(action@, strs_view(keys@)));
    }

    /// Merge `other` into these bindings; its bindings win.
    pub fn merge(&mut self, other: Keybindings)
        ensures
            final(self)@ == old(self)@.union_prefer_right(other@),
    {
        let ghost oe = other.entries();
        let mut j = other.bindings.len();
        let mut rest = other.bindings;
        assert(oe.subrange(j as int, j as int) =~= Seq::<(Seq<char>, Seq<Seq<char>>)>::empty());
        assert(bindings_map(oe.subrange(j as int, j as int)) =~= Map::<Seq<char>, Seq<Seq<char>>>::empty());
        assert(old(self)@.union_prefer_right(Map::<Seq<char>, Seq<Seq<char>>>::empty()) =~= old(self)@);
        while j > 0
            invariant
                0 <= j <= oe.len(),
                rest@.len() == j,
                forall|k: int| 0 <= k < j ==> (rest@[k].0@, strs_view(rest@[k].1@)) == #[trigger] oe[k],
                self@ == old(self)@.union_prefer_right(bindings_map(oe.subrange(j as int, oe.len() as int))),
            decreases j,
        {
            let (action, keys) = rest.pop().unwrap();
            assert((action@, strs_view(keys@)) == oe[j - 1]);
            self.set(action.as_str(), keys);
            proof {
                let tail = oe.subrange(j as int, oe.len() as int);
                let tail2 = oe.subrange(j - 1, oe.len() as int);
                assert(tail2.drop_first() =~= tail);
                lemma_lookup_cons(tail2);
                assert(bindings_map(tail2) =~= bindings_map(tail).insert(oe[j - 1].0, oe[j - 1].1));
                assert(old(self)@.union_prefer_right(bindings_map(tail2)) =~= old(self)@.union_prefer_right(
                    bindings_map(tail),
                ).insert(oe[j - 1].0, oe[j - 1].1));
            }
            j = j - 1;
        }
        assert(oe.subrange(0, oe.len() as int) =~= oe);
    }

    /// Whether the event matches a key bound to `action_id`.
    pub fn matches(&self, event: &KeyEvent, action_id: &str) -> (r: bool)
        ensures
            r == key_id_matches_any(self@, *event, action_id@),
    {
        let name = str_chars(action_id);
        let i = self.find(&name);
        proof {
            lemma_lookup_first(self.entries(), i as int, action_id@);
        }
        if i >= self.bindings.len() {
            return false;
        }
        let keys = &self.bindings[i].1;
        let ghost kv = strs_view(keys@);
        assert(self@[action_id@] == kv);
        let mut k: usize = 0;
        while k < keys.len()
            invariant
                0 <= k <= keys.len(),
                kv == strs_view(keys@),
                self@.contains_key(action_id@),
                self@[action_id@] == kv,
                forall|m: int| 0 <= m < k ==> !key_id_matches(*event, #[trigger] kv[m]),
            decreases keys.len() - k,
        {
            if match_key_id(event, keys[k].as_str()) {
                assert(key_id_matches(*event, kv[k as int]));
                return true;
            }
            k = k + 1;
        }
        false
    }

    /// The key ids bound to `action_id` (none where it is unbound).
    pub fn get_keys(&self, action_id: &str) -> (r: &[String])
        ensures
            strs_view(r@) == (if self@.contains_key(action_id@) { self@[action_id@] } else { Seq::empty() }),
    {
        let name = str_chars(action_id);
        let i = self.find(&name);
        proof {
            lemma_lookup_first(self.entries(), i as int, action_id@);
        }
        if i >= self.bindings.len() {
            let e: &[String] = &[];
            assert(strs_view(e@) =~= Seq::<Seq<char>>::empty());
            return e;
        }
        self.bindings[i].1.as_slice()
    }

    /// The bindings as (action, key ids) pairs, for saving.
    pub fn to_pairs(&self) -> (r: Vec<(String, Vec<String>)>)
        ensures
            r@.map_values(|e: (String, Vec<String>)| (e.0@, strs_view(e.1@))) == self.entries(),
    {
        let mut r: Vec<(String, Vec<String>)> = Vec::new();
        let mut i: usize = 0;
        while i < self.bindings.len()
            invariant
                0 <= i <= self.bindings.len(),
                r@.map_values(|e: (String, Vec<String>)| (e.0@, strs_view(e.1@))) =~= self.entries().take(i as int),
            decreases self.bindings.len() - i,
        {
            let (a, ks) = &self.bindings[i];
            let a2 = s(a.as_str());
            let ks2 = clone_strings(ks);
            let ghost before = r@;
            r.push((a2, ks2));
            assert(r@.map_values(|e: (String, Vec<String>)| (e.0@, strs_view(e.1@))) =~= before.map_values(
                |e: (String, Vec<String>)| (e.0@, strs_view(e.1@)),
            ).push(self.entries()[i as int]));
            assert(self.entries().take(i + 1) =~= self.entries().take(i as int).push(self.entries()[i as int]));
            i = i + 1;
        }
        assert(self.entries().take(self.bindings.len() as int) =~= self.entries());
        r
    }

    /// Bindings from (action, key ids) pairs, the first pair of an action counting.
    pub fn from_pairs(pairs: Vec<(String, Vec<String>)>) -> (kb: Self)
        ensures
            kb.entries() == pairs@.map_values(|e: (String, Vec<String>)| (e.0@, strs_view(e.1@))),
    {
        Keybindings { bindings: pairs }
    }
}

impl Default for Keybindings {
    fn default() -> (kb: Self)
        ensures
            kb@ == bindings_map(default_entries()),
    {
        Keybindings::with_defaults()
    }
}

fn clone_strings(v: &Vec<String>) -> (r: Vec<String>)
    ensures
        strs_view(r@) == strs_view(v@),
{
    let mut r: Vec<String> = Vec::new();
    let mut i: usize = 0;
    while i < v.len()
        invariant
            0 <= i <= v.len(),
            strs_view(r@) =~= strs_view(v@).take(i as int),
        decreases v.len() - i,
    {
        let ghost before = r@;
        r.push(s(v[i].as_str()));
        assert(strs_view(r@) =~= strs_view(before).push(v@[i as int]@));
        assert(strs_view(v@).take(i + 1) =~= strs_view(v@).take(i as int).push(v@[i as int]@));
        i = i + 1;
    }
    assert(strs_view(v@).take(v.len() as int) =~= strs_view(v@));
    r
}

proof fn lemma_lookup_first(es: Seq<(Seq<char>, Seq<Seq<char>>)>, i: int, a: Seq<char>)
    requires
        0 <= i <= es.len(),
        i < es.len() ==> es[i].0 == a,
        forall|j: int| 0 <= j < i ==> es[j].0 != a,
    ensures
        lookup(es, a) == (if i < es.len() { Some(es[i].1) } else { None::<Seq<Seq<char>>> }),
    decreases i,
{
    if i > 0 {
        assert forall|j: int| 0 <= j < i - 1 implies es.drop_first()[j].0 != a by {
            assert(es.drop_first()[j] == es[j + 1]);
        }
        lemma_lookup_first(es.drop_first(), i - 1, a);
    }
}

proof fn lemma_lookup_update(es: Seq<(Seq<char>, Seq<Seq<char>>)>, i: int, a: Seq<char>, ks: Seq<Seq<char>>)
    requires
        0 <= i < es.len(),
        es[i].0 == a,
        forall|j: int| 0 <= j < i ==> es[j].0 != a,
    ensures
        forall|b: Seq<char>| lookup(es.update(i, (a, ks)), b) == (if b == a { Some(ks) } else { lookup(es, b) }),
    decreases i,
{
    let u = es.update(i, (a, ks));
    if i == 0 {
        assert(u.drop_first() =~= es.drop_first());
        assert(u[0] == (a, ks));
    } else {
        assert forall|j: int| 0 <= j < i - 1 implies es.drop_first()[j].0 != a by {
            assert(es.drop_first()[j] == es[j + 1]);
        }
        lemma_lookup_update(es.drop_first(), i - 1, a, ks);
        assert(u.drop_first() =~= es.drop_first().update(i - 1, (a, ks)));
        assert(u[0] == es[0]);
        assert(es[0].0 != a);
    }
    assert forall|b: Seq<char>| lookup(u, b) == (if b == a { Some(ks) } else { lookup(es, b) }) by {
        assert(lookup(u, b) == (if u[0].0 == b { Some(u[0].1) } else { lookup(u.drop_first(), b) }));
        assert(lookup(es, b) == (if es[0].0 == b { Some(es[0].1) } else { lookup(es.drop_first(), b) }));
    }
}

proof fn lemma_lookup_push(es: Seq<(Seq<char>, Seq<Seq<char>>)>, a: Seq<char>, ks: Seq<Seq<char>>)
    requires
        forall|j: int| 0 <= j < es.len() ==> es[j].0 != a,
    ensures
        forall|b: Seq<char>| lookup(es.push((a, ks)), b) == (if b == a { Some(ks) } else { lookup(es, b) }),
    decreases es.len(),
{
    let u = es.push((a, ks));
    if es.len() == 0 {
        assert(u.drop_first() =~= Seq::<(Seq<char>, Seq<Seq<char>>)>::empty());
        assert(u[0] == (a, ks));
    } else {
        assert forall|j: int| 0 <= j < es.len() - 1 implies es.drop_first()[j].0 != a by {
            assert(es.drop_first()[j] == es[j + 1]);
        }
        lemma_lookup_push(es.drop_first(), a, ks);
        assert(u.drop_first() =~= es.drop_first().push((a, ks)));
        assert(u[0] == es[0]);
        assert(es[0].0 != a);
    }
    assert forall|b: Seq<char>| lookup(u, b) == (if b == a { Some(ks) } else { lookup(es, b) }) by {
        assert(lookup(u, b) == (if u[0].0 == b { Some(u[0].1) } else { lookup(u.drop_first(), b) }));
        if es.len() > 0 {
            assert(lookup(es, b) == (if es[0].0 == b { Some(es[0].1) } else { lookup(es.drop_first(), b) }));
        }
    }
}

proof fn lemma_lookup_cons(es: Seq<(Seq<char>, Seq<Seq<char>>)>)
    requires
        es.len() > 0,
    ensures
        forall|b: Seq<char>| lookup(es, b) == (if b == es[0].0 { Some(es[0].1) } else { lookup(es.drop_first(), b) }),
{
}

/// Binding an action and then asking for its keys gives those keys, and
/// leaves every other action as it was.
pub proof fn law_set_then_get(before: Map<Seq<char>, Seq<Seq<char>>>, after: Map<Seq<char>, Seq<Seq<char>>>, action: Seq<char>, keys: Seq<Seq<char>>, other: Seq<char>)
    requires
        after == before.insert(action, keys),
        other != action,
    ensures
        after.contains_key(action) && after[action] == keys,
        after.contains_key(other) == before.contains_key(other),
        before.contains_key(other) ==> after[other] == before[other],
{
}

} // verus!
