//! Single-line text input: Emacs-style movement and kills, a kill ring,
//! undo with word coalescing, bracketed paste, and horizontal scrolling.
use crate::tui::components::line_ops::{
    byte_offset_of, char_index_of_byte, cluster_after, cluster_before, find_cluster_after,
    find_cluster_before, next_cluster, next_cluster_len, splice, splice_chars,
};
use crate::tui::components::pad::padded_to;
use crate::tui::focusable::{Focusable, CURSOR_MARKER};
use crate::tui::keybindings::{
    bindings_map, default_entries, key_id_matches_any, Keybindings, ACTION_EDITOR_CURSOR_LEFT,
    ACTION_EDITOR_CURSOR_LINE_END, ACTION_EDITOR_CURSOR_LINE_START, ACTION_EDITOR_CURSOR_RIGHT,
    ACTION_EDITOR_CURSOR_WORD_LEFT, ACTION_EDITOR_CURSOR_WORD_RIGHT, ACTION_EDITOR_DELETE_CHAR_BACKWARD,
    ACTION_EDITOR_DELETE_CHAR_FORWARD, ACTION_EDITOR_DELETE_TO_LINE_END, ACTION_EDITOR_DELETE_TO_LINE_START,
    ACTION_EDITOR_DELETE_WORD_BACKWARD, ACTION_EDITOR_DELETE_WORD_FORWARD, ACTION_EDITOR_UNDO,
    ACTION_EDITOR_YANK, ACTION_EDITOR_YANK_POP, ACTION_INPUT_SUBMIT, ACTION_SELECT_CANCEL,
};
use crate::tui::keys::{is_printable, key_event_to_string, key_text, KeyCode, KeyEvent};
use crate::tui::kill_ring::{pushed, rotated, KillRing};
use crate::tui::strs::{byte_len, lemma_byte_len_concat, push_chars, push_str, str_chars, string_from_chars, string_from_str, sub_chars};
use crate::tui::undo_stack::UndoStack;
use crate::tui::util::{column_slice, slice_by_column_chars, visible_width_checked, visible_width_of};
use crate::tui::word_nav::{chars_within, default_word_backward, default_word_forward, find_word_backward, find_word_forward};
use vstd::prelude::*;

verus! {

broadcast use vstd::string::group_string_axioms;

/// What the last edit was, for undo coalescing and kill accumulation.
#[derive(PartialEq, Eq, Structural, Clone, Copy, Debug)]
pub enum EditAction {
    TypeWord,
    Kill,
    Yank,
}

/// What an input reports to its owner.
#[derive(PartialEq, Eq, Clone, Debug)]
pub enum InputEvent {
    /// Enter, with the text submitted.
    Submit(String),
    /// Escape.
    Escape,
    /// The text after a change.
    Change(String),
}

/// An event as values.
pub enum InputEventView {
    Submit(Seq<char>),
    Escape,
    Change(Seq<char>),
}

/// The view of an event.
pub open spec fn event_view(e: InputEvent) -> InputEventView {
    match e {
        InputEvent::Submit(s) => InputEventView::Submit(s@),
        InputEvent::Escape => InputEventView::Escape,
        InputEvent::Change(s) => InputEventView::Change(s@),
    }
}

/// The state of an input; the cursor is a character index.
pub struct InputView {
    pub value: Seq<char>,
    pub cursor: nat,
    pub prompt: Seq<char>,
    pub kill: Seq<Seq<char>>,
    pub undo: Seq<Seq<char>>,
    pub focused: bool,
    pub last: Option<EditAction>,
    pub on_submit: bool,
    pub on_escape: bool,
    pub on_change: bool,
    pub events: Seq<InputEventView>,
    pub bindings: Map<Seq<char>, Seq<Seq<char>>>,
}

/// The cursor as a byte offset.
pub open spec fn byte_cursor(v: InputView) -> int {
    byte_len(v.value.take(v.cursor as int)) as int
}

/// The text saved for undo.
pub open spec fn saved(v: InputView) -> InputView {
    InputView { undo: v.undo.push(v.value), ..v }
}

/// With the last action forgotten.
pub open spec fn fresh(v: InputView) -> InputView {
    InputView { last: None, ..v }
}

/// The change reported, where someone listens.
pub open spec fn changed(v: InputView) -> InputView {
    if v.on_change {
        InputView { events: v.events.push(InputEventView::Change(v.value)), ..v }
    } else {
        v
    }
}

/// A space or a tab.
pub open spec fn ws_text(t: Seq<char>) -> bool {
    t == seq![' '] || t == seq!['\t']
}

/// After typing `t`: a space, a tab, or the first of a run of typing saves for undo.
pub open spec fn typed(v: InputView, t: Seq<char>) -> InputView {
    let v1 = if ws_text(t) || v.last != Some(EditAction::TypeWord) { saved(v) } else { v };
    InputView {
        value: splice(v.value, v.cursor as int, v.cursor as int, t),
        cursor: v.cursor + t.len(),
        last: Some(EditAction::TypeWord),
        ..v1
    }
}

/// Pasted text with line breaks removed and tabs as four spaces.
pub open spec fn clean_paste(p: Seq<char>) -> Seq<char>
    decreases p.len(),
{
    if p.len() == 0 {
        seq![]
    } else {
        let prev = clean_paste(p.drop_last());
        let c = p.last();
        if c == '\r' || c == '\n' {
            prev
        } else if c == '\t' {
            prev + seq![' ', ' ', ' ', ' ']
        } else {
            prev.push(c)
        }
    }
}

/// After a paste.
pub open spec fn pasted(v: InputView, p: Seq<char>) -> InputView {
    let v1 = saved(fresh(v));
    let cl = clean_paste(p);
    InputView { value: splice(v.value, v.cursor as int, v.cursor as int, cl), cursor: v.cursor + cl.len(), ..v1 }
}

/// After backspace: the cluster before the cursor goes.
pub open spec fn deleted_before(v: InputView) -> InputView {
    if v.cursor == 0 {
        v
    } else {
        let v1 = saved(fresh(v));
        match cluster_before(v.value, v.cursor as int) {
            Some((a, b)) => InputView { value: splice(v.value, a, b, seq![]), cursor: a as nat, ..v1 },
            None => v1,
        }
    }
}

/// After delete: the cluster after the cursor goes.
pub open spec fn deleted_after(v: InputView) -> InputView {
    if v.cursor >= v.value.len() {
        v
    } else {
        let v1 = saved(fresh(v));
        match cluster_after(v.value, v.cursor as int) {
            Some((a, b)) => InputView { value: splice(v.value, a, b, seq![]), ..v1 },
            None => v1,
        }
    }
}

/// After moving one cluster left.
pub open spec fn moved_left(v: InputView) -> InputView {
    let v0 = fresh(v);
    if v.cursor == 0 {
        v0
    } else {
        match cluster_before(v.value, v.cursor as int) {
            Some((a, b)) => InputView { cursor: a as nat, ..v0 },
            None => v0,
        }
    }
}

/// After moving one cluster right.
pub open spec fn moved_right(v: InputView) -> InputView {
    let v0 = fresh(v);
    if v.cursor >= v.value.len() {
        v0
    } else {
        InputView { cursor: (v.cursor + next_cluster_len(v.value, v.cursor as int)) as nat, ..v0 }
    }
}

/// Where one word backward lands, as a character index.
pub open spec fn word_left(v: InputView) -> int {
    chars_within(v.value, default_word_backward(v.value, byte_cursor(v)))
}

/// Where one word forward lands, as a character index.
pub open spec fn word_right(v: InputView) -> int {
    chars_within(v.value, default_word_forward(v.value, byte_cursor(v)))
}

/// Killing `value[a..b]` into the ring (`prepend` for backward kills).
pub open spec fn killed(v: InputView, a: int, b: int, prepend: bool) -> InputView {
    let v1 = saved(v);
    InputView {
        kill: pushed(v.kill, v.value.subrange(a, b), prepend, v.last == Some(EditAction::Kill)),
        value: splice(v.value, a, b, seq![]),
        cursor: if prepend { a as nat } else { v.cursor },
        last: Some(EditAction::Kill),
        ..v1
    }
}

/// After killing the word before the cursor.
pub open spec fn killed_word_back(v: InputView) -> InputView {
    let nb = word_left(v);
    if nb < v.cursor { killed(v, nb, v.cursor as int, true) } else { v }
}

/// After killing the word after the cursor.
pub open spec fn killed_word_fwd(v: InputView) -> InputView {
    let nf = word_right(v);
    if nf > v.cursor { killed(v, v.cursor as int, nf, false) } else { v }
}

/// After killing to the start.
pub open spec fn killed_to_start(v: InputView) -> InputView {
    if v.cursor > 0 { killed(v, 0, v.cursor as int, true) } else { v }
}

/// After killing to the end.
pub open spec fn killed_to_end(v: InputView) -> InputView {
    if v.cursor < v.value.len() { killed(v, v.cursor as int, v.value.len() as int, false) } else { v }
}

/// After yanking the most recent kill.
pub open spec fn yanked(v: InputView) -> InputView {
    if v.kill.len() > 0 {
        let t = v.kill.last();
        let v1 = saved(v);
        InputView {
            value: splice(v.value, v.cursor as int, v.cursor as int, t),
            cursor: v.cursor + t.len(),
            last: Some(EditAction::Yank),
            ..v1
        }
    } else {
        InputView { last: Some(EditAction::Yank), ..v }
    }
}

/// Yank-pop removes the text before the cursor as long (in bytes) as the
/// last yank; that cut must fall on a character boundary, as a string
/// cannot be cut inside a character.
pub open spec fn yank_pop_ok(v: InputView) -> bool {
    v.kill.len() > 1 && byte_cursor(v) >= byte_len(v.kill.last()) ==> crate::tui::word_nav::char_boundary(
        v.value,
        byte_cursor(v) - byte_len(v.kill.last()),
    )
}

/// After yank-pop: the last yank is replaced by the next older kill.
pub open spec fn yank_popped(v: InputView) -> InputView {
    if v.kill.len() <= 1 {
        v
    } else {
        let prev = v.kill.last();
        let v1 = saved(v);
        let a = if byte_cursor(v) >= byte_len(prev) {
            chars_within(v.value, byte_cursor(v) - byte_len(prev))
        } else {
            v.cursor as int
        };
        let val2 = splice(v.value, a, v.cursor as int, seq![]);
        let k2 = rotated(v.kill);
        let t = k2.last();
        InputView { value: splice(val2, a, a, t), cursor: (a + t.len()) as nat, kill: k2, ..v1 }
    }
}

/// After undo: the last saved text comes back; the byte cursor is kept
/// within it, rounded down to a character.
pub open spec fn undone(v: InputView) -> InputView {
    if v.undo.len() > 0 {
        let prev = v.undo.last();
        let b = if byte_len(prev) < byte_cursor(v) { byte_len(prev) as int } else { byte_cursor(v) };
        InputView { value: prev, cursor: chars_within(prev, b) as nat, last: None, undo: v.undo.drop_last(), ..v }
    } else {
        v
    }
}

/// After a submit.
pub open spec fn submitted(v: InputView) -> InputView {
    if v.on_submit {
        InputView { events: v.events.push(InputEventView::Submit(v.value)), value: seq![], cursor: 0, last: None, ..v }
    } else {
        v
    }
}

/// After escape.
pub open spec fn escaped(v: InputView) -> InputView {
    if v.on_escape {
        InputView { events: v.events.push(InputEventView::Escape), ..v }
    } else {
        v
    }
}

/// What a key does to an input, and whether it is consumed.
pub open spec fn input_step(v: InputView, key: KeyEvent) -> (InputView, bool) {
    let m = |a: Seq<char>| key_id_matches_any(v.bindings, key, a);
    if key.code is Char && !key.modifiers.control && !key.modifiers.alt && key_text(key) is Some {
        (changed(typed(v, key_text(key).unwrap())), true)
    } else if m(ACTION_INPUT_SUBMIT@) {
        (submitted(v), true)
    } else if m(ACTION_SELECT_CANCEL@) {
        (escaped(v), true)
    } else if m(ACTION_EDITOR_DELETE_CHAR_BACKWARD@) {
        (changed(deleted_before(v)), true)
    } else if m(ACTION_EDITOR_DELETE_CHAR_FORWARD@) {
        (changed(deleted_after(v)), true)
    } else if m(ACTION_EDITOR_CURSOR_LEFT@) {
        (moved_left(v), true)
    } else if m(ACTION_EDITOR_CURSOR_RIGHT@) {
        (moved_right(v), true)
    } else if m(ACTION_EDITOR_CURSOR_LINE_START@) {
        (InputView { cursor: 0, ..fresh(v) }, true)
    } else if m(ACTION_EDITOR_CURSOR_LINE_END@) {
        (InputView { cursor: v.value.len(), ..fresh(v) }, true)
    } else if m(ACTION_EDITOR_DELETE_WORD_BACKWARD@) {
        (changed(killed_word_back(v)), true)
    } else if m(ACTION_EDITOR_DELETE_TO_LINE_START@) {
        (changed(killed_to_start(v)), true)
    } else if m(ACTION_EDITOR_DELETE_TO_LINE_END@) {
        (changed(killed_to_end(v)), true)
    } else if m(ACTION_EDITOR_YANK@) {
        (changed(yanked(v)), true)
    } else if m(ACTION_EDITOR_YANK_POP@) {
        (changed(yank_popped(v)), true)
    } else if m(ACTION_EDITOR_UNDO@) {
        (changed(undone(v)), true)
    } else if m(ACTION_EDITOR_DELETE_WORD_FORWARD@) {
        (changed(killed_word_fwd(v)), true)
    } else if m(ACTION_EDITOR_CURSOR_WORD_LEFT@) {
        (InputView { cursor: word_left(v) as nat, ..v }, true)
    } else if m(ACTION_EDITOR_CURSOR_WORD_RIGHT@) {
        (InputView { cursor: word_right(v) as nat, ..v }, true)
    } else {
        (v, false)
    }
}

/// The key reaches yank-pop: no earlier binding takes it.
pub open spec fn reaches_yank_pop(v: InputView, key: KeyEvent) -> bool {
    let m = |a: Seq<char>| key_id_matches_any(v.bindings, key, a);
    &&& !(key.code is Char && !key.modifiers.control && !key.modifiers.alt && key_text(key) is Some)
    &&& !m(ACTION_INPUT_SUBMIT@)
    &&& !m(ACTION_SELECT_CANCEL@)
    &&& !m(ACTION_EDITOR_DELETE_CHAR_BACKWARD@)
    &&& !m(ACTION_EDITOR_DELETE_CHAR_FORWARD@)
    &&& !m(ACTION_EDITOR_CURSOR_LEFT@)
    &&& !m(ACTION_EDITOR_CURSOR_RIGHT@)
    &&& !m(ACTION_EDITOR_CURSOR_LINE_START@)
    &&& !m(ACTION_EDITOR_CURSOR_LINE_END@)
    &&& !m(ACTION_EDITOR_DELETE_WORD_BACKWARD@)
    &&& !m(ACTION_EDITOR_DELETE_TO_LINE_START@)
    &&& !m(ACTION_EDITOR_DELETE_TO_LINE_END@)
    &&& !m(ACTION_EDITOR_YANK@)
    &&& m(ACTION_EDITOR_YANK_POP@)
}

/// Where the view starts, in columns, for a value of width `tw` with the
/// cursor at column `cw` in `avail` columns: the end shows when the cursor
/// is at the end, otherwise the cursor sits in the middle.
pub open spec fn scroll_of(tw: int, cw: int, avail: int, at_end: bool) -> int {
    let sat = |x: int| if x > 0 { x } else { 0int };
    if tw < avail {
        0
    } else if at_end {
        sat(sat(tw - avail) - 1)
    } else {
        let half = avail / 2;
        if cw < half {
            0
        } else if cw > sat(tw - half) {
            sat(tw - avail)
        } else {
            cw - half
        }
    }
}

/// The line an input renders, where every width fits and every column
/// slice is defined.
pub open spec fn input_line(v: InputView, width: int) -> Option<Seq<char>> {
    let pw = visible_width_of(v.prompt) as int;
    let avail = if width > pw { width - pw } else { 0 };
    let tw = visible_width_of(v.value) as int;
    let cw = visible_width_of(v.value.take(v.cursor as int)) as int;
    if pw > usize::MAX || tw > usize::MAX || cw > usize::MAX {
        None
    } else if avail == 0 {
        Some(v.prompt)
    } else {
        let scroll = scroll_of(tw, cw, avail, v.cursor == v.value.len());
        if scroll + avail > usize::MAX || avail + 1 + avail > usize::MAX {
            None
        } else {
            match column_slice(v.value, scroll, avail) {
                None => None,
                Some(visible) => {
                    let vis_w = visible_width_of(visible) as int;
                    let cvp = if cw > scroll { cw - scroll } else { 0 };
                    if vis_w > usize::MAX || cvp + 1 + avail > usize::MAX {
                        None
                    } else if v.focused && cvp < vis_w {
                        match (column_slice(visible, 0, cvp), column_slice(visible, cvp, 1), column_slice(visible, cvp + 1, avail)) {
                            (Some(before), Some(at), Some(after)) => Some(
                                v.prompt + CURSOR_MARKER@ + before + "\x1b[7m"@ + (if at.len() == 0 { seq![' '] } else { at })
                                    + "\x1b[27m"@ + after,
                            ),
                            _ => None,
                        }
                    } else if v.focused && vis_w < avail {
                        Some(v.prompt + CURSOR_MARKER@ + visible + "\x1b[7m \x1b[27m"@)
                    } else {
                        Some(v.prompt + visible + (if v.focused { CURSOR_MARKER@ } else { seq![] }))
                    }
                },
            }
        }
    }
}

/// Single-line text input.
pub struct Input {
    value: Vec<char>,
    cursor: usize,
    prompt: String,
    kill_ring: KillRing,
    undo_stack: UndoStack<Vec<char>>,
    focused: bool,
    last_action: Option<EditAction>,
    on_submit: bool,
    on_escape: bool,
    on_change: bool,
    events: Vec<InputEvent>,
    keybindings: Keybindings,
}

impl View for Input {
    type V = InputView;

    closed spec fn view(&self) -> InputView {
        InputView {
            value: self.value@,
            cursor: self.cursor as nat,
            prompt: self.prompt@,
            kill: self.kill_ring@,
            undo: self.undo_stack@.map_values(|s: Vec<char>| s@),
            focused: self.focused,
            last: self.last_action,
            on_submit: self.on_submit,
            on_escape: self.on_escape,
            on_change: self.on_change,
            events: self.events@.map_values(|e: InputEvent| event_view(e)),
            bindings: self.keybindings@,
        }
    }
}

/// The cursor lies within the text.
pub open spec fn input_wf(v: InputView) -> bool {
    v.cursor <= v.value.len()
}

pub proof fn lemma_chars_within_take(s: Seq<char>, k: int)
    requires
        0 <= k <= s.len(),
    ensures
        chars_within(s, byte_len(s.take(k)) as int) == k,
    decreases k,
{
    if k > 0 {
        lemma_chars_within_take(s.drop_first(), k - 1);
        crate::tui::strs::lemma_byte_len_ge_len(s.take(k));
        assert(s.take(k) =~= seq![s[0]] + s.drop_first().take(k - 1));
        lemma_byte_len_concat(seq![s[0]], s.drop_first().take(k - 1));
        let one = seq![s[0]];
        assert(one.drop_last() =~= Seq::<char>::empty());
        assert(byte_len(Seq::<char>::empty()) == 0);
        assert(byte_len(one) == byte_len(one.drop_last()) + crate::tui::strs::utf8_width(one.last()));
    } else {
        assert(s.take(0) =~= Seq::<char>::empty());
        if s.len() > 0 {
            assert(crate::tui::strs::utf8_width(s[0]) > 0);
        }
    }
}

pub proof fn lemma_chars_within_mono(s: Seq<char>, x: int, y: int)
    requires
        x <= y,
    ensures
        chars_within(s, x) <= chars_within(s, y),
        chars_within(s, x) <= s.len(),
    decreases s.len(),
{
    if s.len() > 0 && crate::tui::strs::utf8_width(s[0]) <= x {
        lemma_chars_within_mono(s.drop_first(), x - crate::tui::strs::utf8_width(s[0]), y - crate::tui::strs::utf8_width(s[0]));
    } else if s.len() > 0 && crate::tui::strs::utf8_width(s[0]) <= y {
        lemma_chars_within_mono(s.drop_first(), 0, y - crate::tui::strs::utf8_width(s[0]));
    }
}

/// The byte offset of a character index is a character boundary.
pub proof fn lemma_byte_cursor_boundary(s: Seq<char>, k: int)
    requires
        0 <= k <= s.len(),
    ensures
        crate::tui::word_nav::char_boundary(s, byte_len(s.take(k)) as int),
        byte_len(s.take(k)) <= byte_len(s),
{
    lemma_chars_within_take(s, k);
    crate::tui::strs::lemma_byte_len_prefix_le(s, k);
}

fn copy_chars(v: &Vec<char>) -> (r: Vec<char>)
    ensures
        r@ == v@,
{
    sub_chars(v, 0, v.len())
}

impl Input {
    /// An empty input with the `> ` prompt and the default keybindings.
    pub fn new() -> (i: Self)
        ensures
            input_wf(i@),
            i@ == (InputView {
                value: seq![],
                cursor: 0,
                prompt: "> "@,
                kill: seq![],
                undo: seq![],
                focused: false,
                last: None,
                on_submit: false,
                on_escape: false,
                on_change: false,
                events: seq![],
                bindings: bindings_map(default_entries()),
            }),
    {
        let i = Input {
            value: Vec::new(),
            cursor: 0,
            prompt: string_from_str("> "),
            kill_ring: KillRing::new(),
            undo_stack: UndoStack::new(),
            focused: false,
            last_action: None,
            on_submit: false,
            on_escape: false,
            on_change: false,
            events: Vec::new(),
            keybindings: Keybindings::with_defaults(),
        };
        assert(i@.undo =~= Seq::<Seq<char>>::empty());
        assert(i@.events =~= Seq::<InputEventView>::empty());
        i
    }

    pub fn with_prompt(self, prompt: &str) -> (i: Self)
        ensures
            i@ == (InputView { prompt: prompt@, ..self@ }),
    {
        let mut i = self;
        i.prompt = string_from_str(prompt);
        i
    }

    /// The text.
    pub fn get_value(&self) -> (r: String)
        ensures
            r@ == self@.value,
    {
        string_from_chars(&self.value)
    }

    /// The cursor as a byte offset.
    pub fn cursor(&self) -> (r: usize)
        requires
            input_wf(self@),
            byte_len(self@.value) <= usize::MAX,
        ensures
            r == byte_cursor(self@),
    {
        byte_offset_of(&self.value, self.cursor)
    }

    /// Report submits (and let enter take the text).
    pub fn set_on_submit(&mut self)
        ensures
            final(self)@ == (InputView { on_submit: true, ..old(self)@ }),
    {
        self.on_submit = true;
    }

    /// Report escapes.
    pub fn set_on_escape(&mut self)
        ensures
            final(self)@ == (InputView { on_escape: true, ..old(self)@ }),
    {
        self.on_escape = true;
    }

    /// Report changes.
    pub fn set_on_change(&mut self)
        ensures
            final(self)@ == (InputView { on_change: true, ..old(self)@ }),
    {
        self.on_change = true;
    }

    /// Use these keybindings.
    pub fn set_keybindings(&mut self, kb: Keybindings)
        ensures
            final(self)@ == (InputView { bindings: kb@, ..old(self)@ }),
    {
        self.keybindings = kb;
    }

    /// The reported events, taken out.
    pub fn take_events(&mut self) -> (r: Vec<InputEvent>)
        ensures
            r@.map_values(|e: InputEvent| event_view(e)) == old(self)@.events,
            final(self)@ == (InputView { events: seq![], ..old(self)@ }),
    {
        let mut r: Vec<InputEvent> = Vec::new();
        std::mem::swap(&mut r, &mut self.events);
        assert(self@.events =~= Seq::<InputEventView>::empty());
        r
    }

    fn save_undo(&mut self)
        ensures
            final(self)@ == saved(old(self)@),
    {
        let ghost before = self.undo_stack@;
        self.undo_stack.push(&self.value);
        proof {
            let last = self.undo_stack@.last();
            assert(last@ =~= self.value@);
            assert(self.undo_stack@ =~= before.push(last));
        }
        assert(self@.undo =~= old(self)@.undo.push(old(self)@.value));
    }

    fn notify_change(&mut self)
        ensures
            final(self)@ == changed(old(self)@),
    {
        if self.on_change {
            let ghost before = self.events@;
            self.events.push(InputEvent::Change(string_from_chars(&self.value)));
            assert(self@.events =~= old(self)@.events.push(InputEventView::Change(old(self)@.value)));
        }
    }

    /// Replace the text; the cursor goes to its end.
    pub fn set_value(&mut self, value: &str)
        requires
            input_wf(old(self)@),
        ensures
            input_wf(final(self)@),
            final(self)@ == changed(InputView { value: value@, cursor: value@.len(), ..saved(fresh(old(self)@)) }),
    {
        self.last_action = None;
        self.save_undo();
        self.value = str_chars(value);
        self.cursor = self.value.len();
        self.notify_change();
    }

    /// Insert typed text at the cursor.
    pub fn insert_text(&mut self, text: &str)
        requires
            input_wf(old(self)@),
        ensures
            input_wf(final(self)@),
            final(self)@ == typed(old(self)@, text@),
    {
        let t = str_chars(text);
        let ws = t.len() == 1 && (t[0] == ' ' || t[0] == '\t');
        proof {
            if t@ == seq![' '] || t@ == seq!['\t'] {
                assert(t@.len() == 1);
            }
            if ws {
                assert(t@ =~= seq![t@[0]]);
            }
        }
        if ws || self.last_action != Some(EditAction::TypeWord) {
            self.save_undo();
        }
        self.last_action = Some(EditAction::TypeWord);
        let r = splice_chars(&self.value, self.cursor, self.cursor, &t);
        assert(r@.len() == self.cursor + t@.len() + (self.value@.len() - self.cursor));
        let _rl = r.len();
        self.value = r;
        self.cursor = self.cursor + t.len();
    }

    /// Insert pasted text: line breaks dropped, tabs as four spaces.
    pub fn handle_paste(&mut self, pasted_text: &str)
        requires
            input_wf(old(self)@),
        ensures
            input_wf(final(self)@),
            final(self)@ == pasted(old(self)@, pasted_text@),
    {
        self.last_action = None;
        self.save_undo();
        let p = str_chars(pasted_text);
        let mut clean: Vec<char> = Vec::new();
        let mut i: usize = 0;
        while i < p.len()
            invariant
                0 <= i <= p.len(),
                clean@ == clean_paste(p@.take(i as int)),
            decreases p.len() - i,
        {
            assert(p@.take(i + 1).drop_last() =~= p@.take(i as int));
            let c = p[i];
            if c == '\r' || c == '\n' {
            } else if c == '\t' {
                clean.push(' ');
                clean.push(' ');
                clean.push(' ');
                clean.push(' ');
                assert(clean@ =~= clean_paste(p@.take(i as int)) + seq![' ', ' ', ' ', ' ']);
            } else {
                clean.push(c);
            }
            i = i + 1;
        }
        assert(p@.take(p.len() as int) =~= p@);
        let r = splice_chars(&self.value, self.cursor, self.cursor, &clean);
        assert(r@.len() == self.cursor + clean@.len() + (self.value@.len() - self.cursor));
        let _rl = r.len();
        self.value = r;
        self.cursor = self.cursor + clean.len();
    }

    /// Backspace: remove the cluster before the cursor.
    pub fn delete_before_cursor(&mut self)
        requires
            input_wf(old(self)@),
        ensures
            input_wf(final(self)@),
            final(self)@ == deleted_before(old(self)@),
    {
        if self.cursor == 0 {
            return;
        }
        self.last_action = None;
        self.save_undo();
        match find_cluster_before(&self.value, self.cursor) {
            Some((a, b)) => {
                self.value = splice_chars(&self.value, a, b, &[]);
                self.cursor = a;
            },
            None => {},
        }
    }

    /// Delete: remove the cluster after the cursor.
    pub fn delete_after_cursor(&mut self)
        requires
            input_wf(old(self)@),
        ensures
            input_wf(final(self)@),
            final(self)@ == deleted_after(old(self)@),
    {
        if self.cursor >= self.value.len() {
            return;
        }
        self.last_action = None;
        self.save_undo();
        match find_cluster_after(&self.value, self.cursor) {
            Some((a, b)) => {
                self.value = splice_chars(&self.value, a, b, &[]);

            },
            None => {},
        }
    }

    /// Move one cluster left.
    pub fn move_cursor_left(&mut self)
        requires
            input_wf(old(self)@),
        ensures
            input_wf(final(self)@),
            final(self)@ == moved_left(old(self)@),
    {
        self.last_action = None;
        if self.cursor == 0 {
            return;
        }
        match find_cluster_before(&self.value, self.cursor) {
            Some((a, _b)) => {
                self.cursor = a;
            },
            None => {},
        }
    }

    /// Move one cluster right.
    pub fn move_cursor_right(&mut self)
        requires
            input_wf(old(self)@),
        ensures
            input_wf(final(self)@),
            final(self)@ == moved_right(old(self)@),
    {
        self.last_action = None;
        if self.cursor >= self.value.len() {
            return;
        }
        let n = next_cluster(&self.value, self.cursor);
        self.cursor = self.cursor + n;
    }

    /// Move to the start.
    pub fn move_to_start(&mut self)
        requires
            input_wf(old(self)@),
        ensures
            input_wf(final(self)@),
            final(self)@ == (InputView { cursor: 0, ..fresh(old(self)@) }),
    {
        self.last_action = None;
        self.cursor = 0;
    }

    /// Move to the end.
    pub fn move_to_end(&mut self)
        requires
            input_wf(old(self)@),
        ensures
            input_wf(final(self)@),
            final(self)@ == (InputView { cursor: old(self)@.value.len(), ..fresh(old(self)@) }),
    {
        self.last_action = None;
        self.cursor = self.value.len();
    }

    fn text_string(&self) -> (r: String)
        ensures
            r@ == self@.value,
    {
        string_from_chars(&self.value)
    }

    fn byte_cursor_exec(&self) -> (b: usize)
        requires
            input_wf(self@),
        ensures
            b == byte_cursor(self@),
            crate::tui::word_nav::char_boundary(self@.value, b as int),
    {
        let s = self.text_string();
        let _n = crate::tui::strs::str_byte_len(s.as_str());
        proof {
            lemma_byte_cursor_boundary(self.value@, self.cursor as int);
        }
        byte_offset_of(&self.value, self.cursor)
    }

    fn word_left_exec(&self) -> (k: usize)
        requires
            input_wf(self@),
        ensures
            k == word_left(self@),
            k <= self@.value.len(),
    {
        let s = self.text_string();
        let b = self.byte_cursor_exec();
        let r = find_word_backward(s.as_str(), b);
        char_index_of_byte(&self.value, r)
    }

    fn word_right_exec(&self) -> (k: usize)
        requires
            input_wf(self@),
        ensures
            k == word_right(self@),
            k <= self@.value.len(),
    {
        let s = self.text_string();
        let b = self.byte_cursor_exec();
        let r = find_word_forward(s.as_str(), b);
        char_index_of_byte(&self.value, r)
    }

    fn kill_range(&mut self, a: usize, b: usize, prepend: bool)
        requires
            input_wf(old(self)@),
            a <= b <= old(self)@.value.len(),
            prepend ==> b == old(self)@.cursor,
            !prepend ==> a == old(self)@.cursor,
        ensures
            input_wf(final(self)@),
            final(self)@ == killed(old(self)@, a as int, b as int, prepend),
    {
        self.save_undo();
        let piece = string_from_chars(&sub_chars(&self.value, a, b));
        let accumulate = self.last_action == Some(EditAction::Kill);
        self.kill_ring.push(piece.as_str(), prepend, accumulate);
        self.value = splice_chars(&self.value, a, b, &[]);
        if prepend {
            self.cursor = a;
        }
        self.last_action = Some(EditAction::Kill);
    }

    /// Kill the word before the cursor.
    pub fn kill_word_backward(&mut self)
        requires
            input_wf(old(self)@),
        ensures
            input_wf(final(self)@),
            final(self)@ == killed_word_back(old(self)@),
    {
        let nb = self.word_left_exec();
        if nb < self.cursor {
            self.kill_range(nb, self.cursor, true);
        }
    }

    /// Kill the word after the cursor.
    pub fn kill_word_forward(&mut self)
        requires
            input_wf(old(self)@),
        ensures
            input_wf(final(self)@),
            final(self)@ == killed_word_fwd(old(self)@),
    {
        let nf = self.word_right_exec();
        if nf > self.cursor {
            self.kill_range(self.cursor, nf, false);
        }
    }

    /// Kill from the start to the cursor.
    pub fn kill_to_start(&mut self)
        requires
            input_wf(old(self)@),
        ensures
            input_wf(final(self)@),
            final(self)@ == killed_to_start(old(self)@),
    {
        if self.cursor > 0 {
            self.kill_range(0, self.cursor, true);
        }
    }

    /// Kill from the cursor to the end.
    pub fn kill_to_end(&mut self)
        requires
            input_wf(old(self)@),
        ensures
            input_wf(final(self)@),
            final(self)@ == killed_to_end(old(self)@),
    {
        if self.cursor < self.value.len() {
            self.kill_range(self.cursor, self.value.len(), false);
        }
    }

    /// Insert the most recent kill at the cursor.
    pub fn yank(&mut self)
        requires
            input_wf(old(self)@),
        ensures
            input_wf(final(self)@),
            final(self)@ == yanked(old(self)@),
    {
        match self.kill_ring.peek() {
            Some(t) => {
                let tc = str_chars(t);
                self.save_undo();
                let r = splice_chars(&self.value, self.cursor, self.cursor, &tc);
                assert(r@.len() == self.cursor + tc@.len() + (self.value@.len() - self.cursor));
                let _rl = r.len();
                self.value = r;
                self.cursor = self.cursor + tc.len();
            },
            None => {},
        }
        self.last_action = Some(EditAction::Yank);
    }

    /// Replace the last yank with the next older kill.
    pub fn yank_pop(&mut self)
        requires
            input_wf(old(self)@),
            yank_pop_ok(old(self)@),
        ensures
            input_wf(final(self)@),
            final(self)@ == yank_popped(old(self)@),
    {
        if self.kill_ring.len() <= 1 {
            return;
        }
        let pb = match self.kill_ring.peek() {
            Some(t) => crate::tui::strs::str_byte_len(t),
            None => 0,
        };
        let b = self.byte_cursor_exec();
        self.save_undo();
        let a = if b >= pb {
            char_index_of_byte(&self.value, b - pb)
        } else {
            self.cursor
        };
        proof {
            if b >= pb {
                let v = old(self)@;
                assert(crate::tui::word_nav::char_boundary(v.value, b - pb));
                lemma_chars_within_mono(v.value, (b - pb) as int, b as int);
                lemma_chars_within_take(v.value, v.cursor as int);
            }
        }
        self.value = splice_chars(&self.value, a, self.cursor, &[]);
        self.cursor = a;
        self.kill_ring.rotate();
        match self.kill_ring.peek() {
            Some(t) => {
                let tc = str_chars(t);
                let r = splice_chars(&self.value, self.cursor, self.cursor, &tc);
                assert(r@.len() == self.cursor + tc@.len() + (self.value@.len() - self.cursor));
                let _rl = r.len();
                self.value = r;
                self.cursor = self.cursor + tc.len();
            },
            None => {},
        }
    }

    /// Restore the last saved text.
    pub fn undo(&mut self)
        requires
            input_wf(old(self)@),
        ensures
            input_wf(final(self)@),
            final(self)@ == undone(old(self)@),
    {
        let b = self.byte_cursor_exec();
        let ghost before = self.undo_stack@;
        match self.undo_stack.pop() {
            Some(prev) => {
                let s = string_from_chars(&prev);
                let pb = crate::tui::strs::str_byte_len(s.as_str());
                let target = if pb < b { pb } else { b };
                self.cursor = char_index_of_byte(&prev, target);
                self.value = prev;
                self.last_action = None;
                assert(self@.undo =~= old(self)@.undo.drop_last());
            },
            None => {},
        }
    }
}


impl Input {
    /// Handle a key: typing, submit, escape, editing, movement, kills,
    /// yanks and undo, as the keybindings say.
    pub fn handle_input(&mut self, key: &KeyEvent) -> (consumed: bool)
        requires
            input_wf(old(self)@),
            reaches_yank_pop(old(self)@, *key) ==> yank_pop_ok(old(self)@),
        ensures
            input_wf(final(self)@),
            (final(self)@, consumed) == input_step(old(self)@, *key),
    {
        if is_printable(key) {
            match key_event_to_string(key) {
                Some(s) => {
                    self.insert_text(s.as_str());
                    self.notify_change();
                    return true;
                },
                None => {},
            }
        }
        if self.keybindings.matches(key, ACTION_INPUT_SUBMIT) {
            if self.on_submit {
                let v = string_from_chars(&self.value);
                self.value = Vec::new();
                self.cursor = 0;
                self.last_action = None;
                self.events.push(InputEvent::Submit(v));
                assert(self@.events =~= old(self)@.events.push(InputEventView::Submit(old(self)@.value)));
            }
            return true;
        }
        if self.keybindings.matches(key, ACTION_SELECT_CANCEL) {
            if self.on_escape {
                self.events.push(InputEvent::Escape);
                assert(self@.events =~= old(self)@.events.push(InputEventView::Escape));
            }
            return true;
        }
        if self.keybindings.matches(key, ACTION_EDITOR_DELETE_CHAR_BACKWARD) {
            self.delete_before_cursor();
            self.notify_change();
            return true;
        }
        if self.keybindings.matches(key, ACTION_EDITOR_DELETE_CHAR_FORWARD) {
            self.delete_after_cursor();
            self.notify_change();
            return true;
        }
        if self.keybindings.matches(key, ACTION_EDITOR_CURSOR_LEFT) {
            self.move_cursor_left();
            return true;
        }
        if self.keybindings.matches(key, ACTION_EDITOR_CURSOR_RIGHT) {
            self.move_cursor_right();
            return true;
        }
        if self.keybindings.matches(key, ACTION_EDITOR_CURSOR_LINE_START) {
            self.move_to_start();
            return true;
        }
        if self.keybindings.matches(key, ACTION_EDITOR_CURSOR_LINE_END) {
            self.move_to_end();
            return true;
        }
        if self.keybindings.matches(key, ACTION_EDITOR_DELETE_WORD_BACKWARD) {
            self.kill_word_backward();
            self.notify_change();
            return true;
        }
        if self.keybindings.matches(key, ACTION_EDITOR_DELETE_TO_LINE_START) {
            self.kill_to_start();
            self.notify_change();
            return true;
        }
        if self.keybindings.matches(key, ACTION_EDITOR_DELETE_TO_LINE_END) {
            self.kill_to_end();
            self.notify_change();
            return true;
        }
        if self.keybindings.matches(key, ACTION_EDITOR_YANK) {
            self.yank();
            self.notify_change();
            return true;
        }
        if self.keybindings.matches(key, ACTION_EDITOR_YANK_POP) {
            self.yank_pop();
            self.notify_change();
            return true;
        }
        if self.keybindings.matches(key, ACTION_EDITOR_UNDO) {
            self.undo();
            self.notify_change();
            return true;
        }
        if self.keybindings.matches(key, ACTION_EDITOR_DELETE_WORD_FORWARD) {
            self.kill_word_forward();
            self.notify_change();
            return true;
        }
        if self.keybindings.matches(key, ACTION_EDITOR_CURSOR_WORD_LEFT) {
            self.cursor = self.word_left_exec();
            return true;
        }
        if self.keybindings.matches(key, ACTION_EDITOR_CURSOR_WORD_RIGHT) {
            self.cursor = self.word_right_exec();
            return true;
        }
        false
    }
}

impl Input {
    /// One line: the prompt, then the part of the text around the cursor
    /// that fits, the cursor in inverse video where focused; padded to the width.
    pub fn render(&self, width: usize) -> (r: Vec<String>)
        requires
            input_wf(self@),
            input_line(self@, width as int) is Some,
        ensures
            crate::tui::keybindings::strs_view(r@) == seq![padded_to(input_line(self@, width as int).unwrap(), width as nat)],
    {
        let v = &self.value;
        let prompt = str_chars(self.prompt.as_str());
        let pw = match visible_width_checked(&prompt) { Some(w) => w, None => 0 };
        let avail = if width > pw { width - pw } else { 0 };
        let tw = match visible_width_checked(v) { Some(w) => w, None => 0 };
        let before_cursor = sub_chars(v, 0, self.cursor);
        assert(before_cursor@ =~= self@.value.take(self.cursor as int));
        let cw = match visible_width_checked(&before_cursor) { Some(w) => w, None => 0 };
        let mut line: Vec<char> = prompt.clone();
        assert(line@ == prompt@);
        if avail == 0 {
            let out = crate::tui::components::pad::pad_to_width(string_from_chars(&line), width);
            let r = vec![out];
            assert(crate::tui::keybindings::strs_view(r@) =~= seq![out@]);
            return r;
        }
        let scroll = if tw < avail {
            0
        } else if self.cursor == v.len() {
            let a = if tw > avail { tw - avail } else { 0 };
            if a > 1 { a - 1 } else { 0 }
        } else {
            let half = avail / 2;
            let th = if tw > half { tw - half } else { 0 };
            if cw < half {
                0
            } else if cw > th {
                if tw > avail { tw - avail } else { 0 }
            } else {
                cw - half
            }
        };
        assert(scroll == scroll_of(tw as int, cw as int, avail as int, self@.cursor == self@.value.len()));
        let visible = slice_by_column_chars(v, scroll, avail);
        let vis_w = match visible_width_checked(&visible) { Some(w) => w, None => 0 };
        let cvp = if cw > scroll { cw - scroll } else { 0 };
        if self.focused && cvp < vis_w {
            let before = slice_by_column_chars(&visible, 0, cvp);
            let at = slice_by_column_chars(&visible, cvp, 1);
            let after = slice_by_column_chars(&visible, cvp + 1, avail);
            crate::tui::util::append_chars(&mut line, &str_chars(CURSOR_MARKER));
            crate::tui::util::append_chars(&mut line, &before);
            crate::tui::util::append_chars(&mut line, &str_chars("\x1b[7m"));
            if at.len() == 0 {
                line.push(' ');
            } else {
                crate::tui::util::append_chars(&mut line, &at);
            }
            crate::tui::util::append_chars(&mut line, &str_chars("\x1b[27m"));
            crate::tui::util::append_chars(&mut line, &after);
            proof {
                if at@.len() == 0 {
                    assert(seq![' '] =~= (if at@.len() == 0 { seq![' '] } else { at@ }));
                }
            }
            assert(line@ =~= input_line(self@, width as int).unwrap());
        } else if self.focused && vis_w < avail {
            crate::tui::util::append_chars(&mut line, &str_chars(CURSOR_MARKER));
            crate::tui::util::append_chars(&mut line, &visible);
            crate::tui::util::append_chars(&mut line, &str_chars("\x1b[7m \x1b[27m"));
            assert(line@ =~= input_line(self@, width as int).unwrap());
        } else {
            crate::tui::util::append_chars(&mut line, &visible);
            if self.focused {
                crate::tui::util::append_chars(&mut line, &str_chars(CURSOR_MARKER));
            }
            assert(line@ =~= input_line(self@, width as int).unwrap());
        }
        let out = crate::tui::components::pad::pad_to_width(string_from_chars(&line), width);
        let r = vec![out];
        assert(crate::tui::keybindings::strs_view(r@) =~= seq![out@]);
        r
    }
}

impl Focusable for Input {
    fn set_focused(&mut self, focused: bool) {
        self.focused = focused;
    }

    fn focused(&self) -> bool {
        self.focused
    }
}

impl Default for Input {
    fn default() -> (i: Self)
        ensures
            input_wf(i@),
            i@.value.len() == 0,
    {
        Input::new()
    }
}

} // verus!
