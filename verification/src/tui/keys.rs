//! Keyboard input: key events (as the terminal reports them), pi-compatible
//! key identifier strings such as `ctrl+shift+p`, and the `Key` matcher.
use crate::tui::sgr::{first_index_of, parse_u8, parse_u8_chars, split_chars, split_on};
use crate::tui::image::chars_eq;
use crate::tui::strs::{decimal, push_char, push_decimal, push_str, str_chars, string_from_chars, string_from_str, sub_chars};
use crate::tui::unicode::{ascii_lower, to_ascii_lowercase, views};
use vstd::prelude::*;

verus! {

/// A key, as the terminal reports it.
#[derive(PartialEq, Eq, Structural, Clone, Copy, Debug)]
pub enum KeyCode {
    Backspace,
    Enter,
    Left,
    Right,
    Up,
    Down,
    Home,
    End,
    PageUp,
    PageDown,
    Tab,
    BackTab,
    Delete,
    Insert,
    F(u8),
    Char(char),
    Null,
    Esc,
    CapsLock,
    ScrollLock,
    NumLock,
    PrintScreen,
    Pause,
    Menu,
    KeypadBegin,
    Media,
    Modifier,
}

/// The modifier keys held with a key.
#[derive(PartialEq, Eq, Structural, Clone, Copy, Debug)]
pub struct KeyModifiers {
    pub shift: bool,
    pub control: bool,
    pub alt: bool,
    pub super_key: bool,
    pub hyper: bool,
    pub meta: bool,
}

/// Whether a key was pressed, repeated or released.
#[derive(PartialEq, Eq, Structural, Clone, Copy, Debug)]
pub enum KeyEventKind {
    Press,
    Repeat,
    Release,
}

/// A key event: the key, its modifiers and its kind.
#[derive(PartialEq, Eq, Structural, Clone, Copy, Debug)]
pub struct KeyEvent {
    pub code: KeyCode,
    pub modifiers: KeyModifiers,
    pub kind: KeyEventKind,
}

impl KeyModifiers {
    /// No modifier.
    pub fn none() -> (m: Self)
        ensures
            m == (KeyModifiers { shift: false, control: false, alt: false, super_key: false, hyper: false, meta: false }),
    {
        KeyModifiers { shift: false, control: false, alt: false, super_key: false, hyper: false, meta: false }
    }

    /// Shift alone.
    pub fn shift() -> (m: Self)
        ensures
            m == (KeyModifiers { shift: true, ..Self::none_spec() }),
    {
        KeyModifiers { shift: true, control: false, alt: false, super_key: false, hyper: false, meta: false }
    }

    /// Control alone.
    pub fn control() -> (m: Self)
        ensures
            m == (KeyModifiers { control: true, ..Self::none_spec() }),
    {
        KeyModifiers { shift: false, control: true, alt: false, super_key: false, hyper: false, meta: false }
    }

    /// Alt alone.
    pub fn alt() -> (m: Self)
        ensures
            m == (KeyModifiers { alt: true, ..Self::none_spec() }),
    {
        KeyModifiers { shift: false, control: false, alt: true, super_key: false, hyper: false, meta: false }
    }

    /// Super alone.
    pub fn super_key() -> (m: Self)
        ensures
            m == (KeyModifiers { super_key: true, ..Self::none_spec() }),
    {
        KeyModifiers { shift: false, control: false, alt: false, super_key: true, hyper: false, meta: false }
    }

    /// No modifier, as a value.
    pub open spec fn none_spec() -> Self {
        KeyModifiers { shift: false, control: false, alt: false, super_key: false, hyper: false, meta: false }
    }

    /// The modifiers held in either.
    pub fn union(self, other: Self) -> (m: Self)
        ensures
            m == (KeyModifiers {
                shift: self.shift || other.shift,
                control: self.control || other.control,
                alt: self.alt || other.alt,
                super_key: self.super_key || other.super_key,
                hyper: self.hyper || other.hyper,
                meta: self.meta || other.meta,
            }),
    {
        KeyModifiers {
            shift: self.shift || other.shift,
            control: self.control || other.control,
            alt: self.alt || other.alt,
            super_key: self.super_key || other.super_key,
            hyper: self.hyper || other.hyper,
            meta: self.meta || other.meta,
        }
    }

    /// No modifier is held.
    pub fn is_empty(&self) -> (r: bool)
        ensures
            r == (*self == Self::none_spec()),
    {
        !self.shift && !self.control && !self.alt && !self.super_key && !self.hyper && !self.meta
    }
}

impl KeyEvent {
    /// A key press.
    pub fn new(code: KeyCode, modifiers: KeyModifiers) -> (e: Self)
        ensures
            e == (KeyEvent { code, modifiers, kind: KeyEventKind::Press }),
    {
        KeyEvent { code, modifiers, kind: KeyEventKind::Press }
    }
}

/// `f` and the number.
pub open spec fn f_key_name(n: u8) -> Seq<char> {
    seq!['f'] + decimal(n as nat)
}

fn f_key_name_exec(n: u8) -> (r: String)
    ensures
        r@ == f_key_name(n),
{
    let mut r = String::new();
    push_char(&mut r, 'f');
    push_decimal(&mut r, n as usize);
    r
}

/// The F-key number of a name such as `f1` or `F12` (1 to 24).
pub open spec fn parse_f_key(name: Seq<char>) -> Option<u8> {
    if name.len() > 0 && (name[0] == 'f' || name[0] == 'F') {
        match parse_u8(name.drop_first()) {
            Some(n) => if 1 <= n && n <= 24 {
                Some(n)
            } else {
                None
            },
            None => None,
        }
    } else {
        None
    }
}

fn parse_f_key_exec(name: &[char]) -> (r: Option<u8>)
    ensures
        r == parse_f_key(name@),
{
    if name.len() > 0 && (name[0] == 'f' || name[0] == 'F') {
        let rest = sub_chars(name, 1, name.len());
        assert(rest@ =~= name@.drop_first());
        match parse_u8_chars(&rest) {
            Some(n) => if 1 <= n && n <= 24 {
                Some(n)
            } else {
                None
            },
            None => None,
        }
    } else {
        None
    }
}

/// `+`-joined modifier names (ctrl, shift, alt, super) and the key name.
pub open spec fn format_key_id(name: Seq<char>, m: KeyModifiers) -> Seq<char> {
    let mods = (if m.control { "ctrl+"@ } else { seq![] }) + (if m.shift { "shift+"@ } else { seq![] })
        + (if m.alt { "alt+"@ } else { seq![] }) + (if m.super_key { "super+"@ } else { seq![] });
    mods + name
}

fn format_key_id_exec(name: &str, m: KeyModifiers) -> (r: String)
    ensures
        r@ == format_key_id(name@, m),
{
    let mut r = String::new();
    if m.control {
        push_str(&mut r, "ctrl+");
    }
    if m.shift {
        push_str(&mut r, "shift+");
    }
    if m.alt {
        push_str(&mut r, "alt+");
    }
    if m.super_key {
        push_str(&mut r, "super+");
    }
    push_str(&mut r, name);
    assert(r@ =~= format_key_id(name@, m));
    r
}

/// The key identifier of an event; `None` for keys that give no input.
pub open spec fn key_id_of(e: KeyEvent) -> Option<Seq<char>> {
    let m = e.modifiers;
    match e.code {
        KeyCode::Enter => Some(format_key_id("enter"@, m)),
        KeyCode::Esc => Some("escape"@),
        KeyCode::Tab => if m.shift {
            Some("shift+tab"@)
        } else {
            Some(format_key_id("tab"@, m))
        },
        KeyCode::Backspace => Some(format_key_id("backspace"@, m)),
        KeyCode::Delete => Some(format_key_id("delete"@, m)),
        KeyCode::Home => Some(format_key_id("home"@, m)),
        KeyCode::End => Some(format_key_id("end"@, m)),
        KeyCode::PageUp => Some(format_key_id("pageUp"@, m)),
        KeyCode::PageDown => Some(format_key_id("pageDown"@, m)),
        KeyCode::Up => Some(format_key_id("up"@, m)),
        KeyCode::Down => Some(format_key_id("down"@, m)),
        KeyCode::Left => Some(format_key_id("left"@, m)),
        KeyCode::Right => Some(format_key_id("right"@, m)),
        KeyCode::BackTab => Some("shift+tab"@),
        KeyCode::Insert => Some(format_key_id("insert"@, m)),
        KeyCode::F(n) => Some(format_key_id(f_key_name(n), m)),
        KeyCode::Char(c) => {
            if m == KeyModifiers::none_spec() || m == (KeyModifiers { shift: true, ..KeyModifiers::none_spec() }) {
                Some(seq![c])
            } else if m.control && !m.alt {
                Some("ctrl"@ + (if m.shift { "+shift"@ } else { seq![] }) + (if m.super_key { "+super"@ } else { seq![] }) + seq!['+', ascii_lower(c)])
            } else if m.alt {
                Some((if m.control { "ctrl+"@ } else { seq![] }) + "alt"@ + (if m.shift { "+shift"@ } else { seq![] })
                    + (if m.super_key { "+super"@ } else { seq![] }) + seq!['+', c])
            } else {
                Some(seq![c])
            }
        },
        _ => None,
    }
}

fn named_id(name: &str, m: KeyModifiers) -> (r: Option<String>)
    ensures
        r matches Some(s) && s@ == format_key_id(name@, m),
{
    Some(format_key_id_exec(name, m))
}

fn fixed_id(name: &str) -> (r: Option<String>)
    ensures
        r matches Some(s) && s@ == name@,
{
    Some(string_from_str(name))
}

/// Convert a key event to a pi-compatible key identifier string, e.g.
/// `enter`, `escape`, `ctrl+c`, `shift+tab`, `alt+left`, `ctrl+shift+p`.
pub fn key_event_to_id(event: &KeyEvent) -> (r: Option<String>)
    ensures
        r matches Some(s) ==> key_id_of(*event) == Some(s@),
        r is None ==> key_id_of(*event) is None,
{
    let m = event.modifiers;
    match event.code {
        KeyCode::Enter => named_id("enter", m),
        KeyCode::Esc => fixed_id("escape"),
        KeyCode::Tab => if m.shift {
            fixed_id("shift+tab")
        } else {
            named_id("tab", m)
        },
        KeyCode::Backspace => named_id("backspace", m),
        KeyCode::Delete => named_id("delete", m),
        KeyCode::Home => named_id("home", m),
        KeyCode::End => named_id("end", m),
        KeyCode::PageUp => named_id("pageUp", m),
        KeyCode::PageDown => named_id("pageDown", m),
        KeyCode::Up => named_id("up", m),
        KeyCode::Down => named_id("down", m),
        KeyCode::Left => named_id("left", m),
        KeyCode::Right => named_id("right", m),
        KeyCode::BackTab => fixed_id("shift+tab"),
        KeyCode::Insert => named_id("insert", m),
        KeyCode::F(n) => {
            let name = f_key_name_exec(n);
            named_id(name.as_str(), m)
        },
        KeyCode::Char(c) => {
            let only_shift = m.shift && !m.control && !m.alt && !m.super_key && !m.hyper && !m.meta;
            if m.is_empty() || only_shift {
                let mut s = String::new();
                push_char(&mut s, c);
                Some(s)
            } else if m.control && !m.alt {
                let mut s = String::new();
                push_str(&mut s, "ctrl");
                if m.shift {
                    push_str(&mut s, "+shift");
                }
                if m.super_key {
                    push_str(&mut s, "+super");
                }
                push_char(&mut s, '+');
                push_char(&mut s, to_ascii_lowercase(c));
                assert(s@ =~= key_id_of(*event).unwrap());
                Some(s)
            } else if m.alt {
                let mut s = String::new();
                if m.control {
                    push_str(&mut s, "ctrl+");
                }
                push_str(&mut s, "alt");
                if m.shift {
                    push_str(&mut s, "+shift");
                }
                if m.super_key {
                    push_str(&mut s, "+super");
                }
                push_char(&mut s, '+');
                push_char(&mut s, c);
                assert(s@ =~= key_id_of(*event).unwrap());
                Some(s)
            } else {
                let mut s = String::new();
                push_char(&mut s, c);
                Some(s)
            }
        },
        _ => None,
    }
}

/// Whether a key event is a release.
pub fn is_key_release(event: &KeyEvent) -> (r: bool)
    ensures
        r == (event.kind == KeyEventKind::Release),
{
    match event.kind {
        KeyEventKind::Release => true,
        _ => false,
    }
}

/// Whether a key event is a repeat.
pub fn is_key_repeat(event: &KeyEvent) -> (r: bool)
    ensures
        r == (event.kind == KeyEventKind::Repeat),
{
    match event.kind {
        KeyEventKind::Repeat => true,
        _ => false,
    }
}

/// The printable character of a key event without control or alt.
pub open spec fn kitty_printable(e: KeyEvent) -> Option<Seq<char>> {
    match e.code {
        KeyCode::Char(c) => if !e.modifiers.control && !e.modifiers.alt {
            Some(seq![c])
        } else {
            None
        },
        _ => None,
    }
}

/// Decode a printable character from a key event.
pub fn decode_kitty_printable(event: &KeyEvent) -> (r: Option<String>)
    ensures
        r matches Some(s) ==> kitty_printable(*event) == Some(s@),
        r is None ==> kitty_printable(*event) is None,
{
    match event.code {
        KeyCode::Char(c) => if !event.modifiers.control && !event.modifiers.alt {
            let mut s = String::new();
            push_char(&mut s, c);
            Some(s)
        } else {
            None
        },
        _ => None,
    }
}

/// The text a printable key event types: the character (plain or shifted),
/// a newline for enter, a tab for tab.
pub open spec fn key_text(e: KeyEvent) -> Option<Seq<char>> {
    match e.code {
        KeyCode::Char(c) => if e.modifiers == KeyModifiers::none_spec() || e.modifiers == (KeyModifiers { shift: true, ..KeyModifiers::none_spec() }) {
            Some(seq![c])
        } else {
            None
        },
        KeyCode::Enter => Some(seq!['\n']),
        KeyCode::Tab => Some(seq!['\t']),
        _ => None,
    }
}

/// Convert a printable key event to the text it types.
pub fn key_event_to_string(event: &KeyEvent) -> (r: Option<String>)
    ensures
        r matches Some(s) ==> key_text(*event) == Some(s@),
        r is None ==> key_text(*event) is None,
{
    let m = event.modifiers;
    match event.code {
        KeyCode::Char(c) => {
            let only_shift = m.shift && !m.control && !m.alt && !m.super_key && !m.hyper && !m.meta;
            if m.is_empty() || only_shift {
                let mut s = String::new();
                push_char(&mut s, c);
                Some(s)
            } else {
                None
            }
        },
        KeyCode::Enter => {
            let mut s = String::new();
            push_char(&mut s, '\n');
            Some(s)
        },
        KeyCode::Tab => {
            let mut s = String::new();
            push_char(&mut s, '\t');
            Some(s)
        },
        _ => None,
    }
}

/// Whether a key event is a printable character (no control or alt).
pub fn is_printable(event: &KeyEvent) -> (r: bool)
    ensures
        r == (event.code is Char && !event.modifiers.control && !event.modifiers.alt),
{
    match event.code {
        KeyCode::Char(_) => !event.modifiers.control && !event.modifiers.alt,
        _ => false,
    }
}


/// The parts of a key identifier: the key name and the requested modifiers.
#[derive(PartialEq, Eq, Structural, Clone, Copy, Debug)]
pub struct KeyIdMods {
    pub ctrl: bool,
    pub shift: bool,
    pub alt: bool,
    pub super_key: bool,
}

/// `ctrl`, `shift`, `alt` or `super`.
pub open spec fn is_modifier_name(p: Seq<char>) -> bool {
    p == "ctrl"@ || p == "shift"@ || p == "alt"@ || p == "super"@
}

/// Some part before the key name is `name`.
pub open spec fn has_part(mods: Seq<Seq<char>>, name: Seq<char>) -> bool {
    exists|i: int| 0 <= i < mods.len() && mods[i] == name
}

/// A key identifier split at `+`: the last part is the key name, every
/// other part must be a modifier name; `None` for an empty identifier or an
/// unknown modifier.
pub open spec fn parse_key_id(id: Seq<char>) -> Option<(Seq<char>, KeyIdMods)> {
    let parts = split_on(id, '+');
    let mods = parts.drop_last();
    if id.len() == 0 || parts.len() == 0 {
        None
    } else if forall|i: int| 0 <= i < mods.len() ==> is_modifier_name(#[trigger] mods[i]) {
        Some((parts.last(), KeyIdMods {
            ctrl: has_part(mods, "ctrl"@),
            shift: has_part(mods, "shift"@),
            alt: has_part(mods, "alt"@),
            super_key: has_part(mods, "super"@),
        }))
    } else {
        None
    }
}

/// The characters equal those of `w`.
fn is_word(k: &[char], w: &str) -> (r: bool)
    ensures
        r == (k@ == w@),
{
    let wc = str_chars(w);
    chars_eq(k, &wc)
}

fn parse_key_id_exec(id: &[char]) -> (r: Option<(Vec<char>, KeyIdMods)>)
    ensures
        match r {
            Some((k, m)) => parse_key_id(id@) == Some((k@, m)),
            None => parse_key_id(id@) is None,
        },
{
    if id.len() == 0 {
        return None;
    }
    proof {
        reveal_strlit("ctrl");
        reveal_strlit("shift");
        reveal_strlit("alt");
        reveal_strlit("super");
        assert("shift"@[1] != "super"@[1]);
    }
    let parts = split_chars(id, '+');
    let ghost pv = views(parts@);
    if parts.len() == 0 {
        return None;
    }
    let n = parts.len() - 1;
    let ghost mods = pv.drop_last();
    let mut m = KeyIdMods { ctrl: false, shift: false, alt: false, super_key: false };
    let mut i: usize = 0;
    while i < n
        invariant
            0 <= i <= n,
            n + 1 == parts.len(),
            pv == views(parts@),
            pv == split_on(id@, '+'),
            id.len() > 0,
            mods == pv.drop_last(),
            forall|j: int| 0 <= j < i ==> is_modifier_name(#[trigger] mods[j]),
            m.ctrl == (exists|j: int| 0 <= j < i && mods[j] == "ctrl"@),
            m.shift == (exists|j: int| 0 <= j < i && mods[j] == "shift"@),
            m.alt == (exists|j: int| 0 <= j < i && mods[j] == "alt"@),
            m.super_key == (exists|j: int| 0 <= j < i && mods[j] == "super"@),
        decreases n - i,
    {
        proof {
            reveal_strlit("ctrl");
            reveal_strlit("shift");
            reveal_strlit("alt");
            reveal_strlit("super");
            assert("shift"@[1] != "super"@[1]);
        }
        let p = &parts[i];
        assert(p@ == mods[i as int]);
        if is_word(p, "ctrl") {
            m.ctrl = true;
        } else if is_word(p, "shift") {
            m.shift = true;
        } else if is_word(p, "alt") {
            m.alt = true;
        } else if is_word(p, "super") {
            m.super_key = true;
        } else {
            assert(!is_modifier_name(mods[i as int]));
            return None;
        }
        i = i + 1;
    }
    let key = parts[n].clone();
    assert(key@ == pv.last());
    Some((key, m))
}

/// `!@#$%^&*()_+|~{}:"<>?`: the symbols typed with shift.
pub open spec fn shifted_symbol(c: char) -> bool {
    c == '!' || c == '@' || c == '#' || c == '$' || c == '%' || c == '^' || c == '&' || c == '*'
        || c == '(' || c == ')' || c == '_' || c == '+' || c == '|' || c == '~' || c == '{'
        || c == '}' || c == ':' || c == '"' || c == '<' || c == '>' || c == '?'
}

/// A key name that shift may produce: one uppercase letter, digit or shifted symbol.
pub open spec fn shiftable(key: Seq<char>) -> bool {
    key.len() == 1 && (('A' <= key[0] && key[0] <= 'Z') || ('0' <= key[0] && key[0] <= '9')
        || shifted_symbol(key[0]))
}

/// One character that takes one byte.
pub open spec fn one_ascii(s: Seq<char>) -> bool {
    s.len() == 1 && (s[0] as u32) < 128
}

/// A key code answers to a key name.
pub open spec fn matches_key_name(code: KeyCode, name: Seq<char>) -> bool {
    match code {
        KeyCode::Enter => name == "enter"@ || name == "return"@,
        KeyCode::Esc => name == "escape"@ || name == "esc"@,
        KeyCode::Tab | KeyCode::BackTab => name == "tab"@,
        KeyCode::Backspace => name == "backspace"@,
        KeyCode::Delete => name == "delete"@,
        KeyCode::Home => name == "home"@,
        KeyCode::End => name == "end"@,
        KeyCode::PageUp => name == "pageUp"@ || name == "pageup"@,
        KeyCode::PageDown => name == "pageDown"@ || name == "pagedown"@,
        KeyCode::Up => name == "up"@,
        KeyCode::Down => name == "down"@,
        KeyCode::Left => name == "left"@,
        KeyCode::Right => name == "right"@,
        KeyCode::Insert => name == "insert"@,
        KeyCode::F(n) => parse_f_key(name) == Some(n),
        KeyCode::Char(c) => one_ascii(name) && ascii_lower(c) == ascii_lower(name[0]),
        _ => false,
    }
}

fn matches_key_name_exec(code: KeyCode, name: &[char]) -> (r: bool)
    ensures
        r == matches_key_name(code, name@),
{
    match code {
        KeyCode::Enter => is_word(name, "enter") || is_word(name, "return"),
        KeyCode::Esc => is_word(name, "escape") || is_word(name, "esc"),
        KeyCode::Tab | KeyCode::BackTab => is_word(name, "tab"),
        KeyCode::Backspace => is_word(name, "backspace"),
        KeyCode::Delete => is_word(name, "delete"),
        KeyCode::Home => is_word(name, "home"),
        KeyCode::End => is_word(name, "end"),
        KeyCode::PageUp => is_word(name, "pageUp") || is_word(name, "pageup"),
        KeyCode::PageDown => is_word(name, "pageDown") || is_word(name, "pagedown"),
        KeyCode::Up => is_word(name, "up"),
        KeyCode::Down => is_word(name, "down"),
        KeyCode::Left => is_word(name, "left"),
        KeyCode::Right => is_word(name, "right"),
        KeyCode::Insert => is_word(name, "insert"),
        KeyCode::F(n) => parse_f_key_exec(name) == Some(n),
        KeyCode::Char(c) => {
            if name.len() == 1 && (name[0] as u32) < 128 {
                to_ascii_lowercase(c) == to_ascii_lowercase(name[0])
            } else {
                false
            }
        },
        _ => false,
    }
}

/// Shift held on a key whose identity it does not change: any key but a
/// character or tab, or a character whose name is one shift produces.
pub open spec fn shift_keeps_key(code: KeyCode, key: Seq<char>) -> bool {
    match code {
        KeyCode::Char(_) => shiftable(key),
        KeyCode::Tab | KeyCode::BackTab => false,
        _ => true,
    }
}

/// Whether an event answers to a key identifier. A modifier the identifier
/// names must be held (for `tab`, a back-tab counts as shift). Ctrl, alt or
/// super that it does not name must not be; shift that it does not name may
/// be, where it leaves the key as it is (so `enter` answers to Shift+Enter,
/// `P` to Shift+P, but `p` not to Shift+P). A back-tab answers only to
/// identifiers that name shift.
pub open spec fn key_id_matches(e: KeyEvent, id: Seq<char>) -> bool {
    match parse_key_id(id) {
        None => false,
        Some((key, w)) => {
            let m = e.modifiers;
            let backtab = e.code == KeyCode::BackTab;
            let wanted_shift = m.shift || (backtab && key == "tab"@);
            &&& (w.ctrl ==> m.control)
            &&& (w.shift ==> wanted_shift)
            &&& (w.alt ==> m.alt)
            &&& (w.super_key ==> m.super_key)
            &&& (!w.ctrl ==> !m.control)
            &&& (!w.alt ==> !m.alt)
            &&& (!w.super_key ==> !m.super_key)
            &&& (!w.shift && m.shift && !backtab ==> shift_keeps_key(e.code, key))
            &&& (backtab ==> w.shift)
            &&& matches_key_name(e.code, key)
        },
    }
}

/// Match a key event against a key identifier such as `ctrl+c` or `shift+tab`.
pub fn match_key_id(event: &KeyEvent, key_id: &str) -> (r: bool)
    ensures
        r == key_id_matches(*event, key_id@),
{
    let id = str_chars(key_id);
    let parsed = parse_key_id_exec(&id);
    let (key, w) = match parsed {
        None => return false,
        Some(p) => p,
    };
    let m = event.modifiers;
    let backtab = event.code == KeyCode::BackTab;
    let wants_tab = is_word(&key, "tab");
    let wanted_shift = m.shift || (backtab && wants_tab);
    if w.ctrl && !m.control {
        return false;
    }
    if w.shift && !wanted_shift {
        return false;
    }
    if w.alt && !m.alt {
        return false;
    }
    if w.super_key && !m.super_key {
        return false;
    }
    if !w.ctrl && m.control {
        return false;
    }
    if !w.alt && m.alt {
        return false;
    }
    if !w.super_key && m.super_key {
        return false;
    }
    let is_char = match event.code {
        KeyCode::Char(_) => true,
        _ => false,
    };
    let is_tab = event.code == KeyCode::Tab;
    if !w.shift && m.shift && !backtab && is_tab {
        return false;
    }
    if !w.shift && m.shift && !backtab && is_char {
        let ok = key.len() == 1 && {
            let c = key[0];
            ('A' <= c && c <= 'Z') || ('0' <= c && c <= '9') || c == '!' || c == '@' || c == '#'
                || c == '$' || c == '%' || c == '^' || c == '&' || c == '*' || c == '(' || c == ')'
                || c == '_' || c == '+' || c == '|' || c == '~' || c == '{' || c == '}' || c == ':'
                || c == '"' || c == '<' || c == '>' || c == '?'
        };
        if !ok {
            return false;
        }
    }
    if backtab && !w.shift {
        return false;
    }
    matches_key_name_exec(event.code, &key)
}

/// A key to match events against: `Key::Enter`, `Key::Ctrl('c')`,
/// `Key::CtrlShift('p')` and so on.
#[derive(PartialEq, Eq, Structural, Clone, Copy, Debug)]
pub enum Key {
    Enter,
    Escape,
    Tab,
    Backspace,
    Delete,
    Home,
    End,
    PageUp,
    PageDown,
    Up,
    Down,
    Left,
    Right,
    Space,
    /// A printable character.
    Char(char),
    /// Ctrl and a character.
    Ctrl(char),
    /// Alt and a character.
    Alt(char),
    /// Shift and tab.
    ShiftTab,
    /// Ctrl, shift and a character.
    CtrlShift(char),
    AltLeft,
    AltRight,
    CtrlLeft,
    CtrlRight,
}

impl Key {
    pub fn enter() -> (k: Self)
        ensures
            k == Key::Enter,
    {
        Key::Enter
    }

    pub fn escape() -> (k: Self)
        ensures
            k == Key::Escape,
    {
        Key::Escape
    }

    pub fn tab() -> (k: Self)
        ensures
            k == Key::Tab,
    {
        Key::Tab
    }

    pub fn space() -> (k: Self)
        ensures
            k == Key::Space,
    {
        Key::Space
    }

    pub fn backspace() -> (k: Self)
        ensures
            k == Key::Backspace,
    {
        Key::Backspace
    }

    pub fn delete() -> (k: Self)
        ensures
            k == Key::Delete,
    {
        Key::Delete
    }

    pub fn home() -> (k: Self)
        ensures
            k == Key::Home,
    {
        Key::Home
    }

    pub fn end() -> (k: Self)
        ensures
            k == Key::End,
    {
        Key::End
    }

    pub fn up() -> (k: Self)
        ensures
            k == Key::Up,
    {
        Key::Up
    }

    pub fn down() -> (k: Self)
        ensures
            k == Key::Down,
    {
        Key::Down
    }

    pub fn left() -> (k: Self)
        ensures
            k == Key::Left,
    {
        Key::Left
    }

    pub fn right() -> (k: Self)
        ensures
            k == Key::Right,
    {
        Key::Right
    }

    pub fn page_up() -> (k: Self)
        ensures
            k == Key::PageUp,
    {
        Key::PageUp
    }

    pub fn page_down() -> (k: Self)
        ensures
            k == Key::PageDown,
    {
        Key::PageDown
    }

    /// Ctrl and the character, lowercased.
    pub fn ctrl(c: char) -> (k: Self)
        ensures
            k == Key::Ctrl(ascii_lower(c)),
    {
        Key::Ctrl(to_ascii_lowercase(c))
    }

    pub fn alt(c: char) -> (k: Self)
        ensures
            k == Key::Alt(c),
    {
        Key::Alt(c)
    }

    pub fn shift_tab() -> (k: Self)
        ensures
            k == Key::ShiftTab,
    {
        Key::ShiftTab
    }

    /// Ctrl, shift and the character, lowercased.
    pub fn ctrl_shift(c: char) -> (k: Self)
        ensures
            k == Key::CtrlShift(ascii_lower(c)),
    {
        Key::CtrlShift(to_ascii_lowercase(c))
    }

    pub fn alt_left() -> (k: Self)
        ensures
            k == Key::AltLeft,
    {
        Key::AltLeft
    }

    pub fn alt_right() -> (k: Self)
        ensures
            k == Key::AltRight,
    {
        Key::AltRight
    }

    pub fn ctrl_left() -> (k: Self)
        ensures
            k == Key::CtrlLeft,
    {
        Key::CtrlLeft
    }

    pub fn ctrl_right() -> (k: Self)
        ensures
            k == Key::CtrlRight,
    {
        Key::CtrlRight
    }
}

/// Whether an event answers to a `Key`.
pub open spec fn key_matches(e: KeyEvent, k: Key) -> bool {
    let m = e.modifiers;
    match k {
        Key::Enter => e.code == KeyCode::Enter,
        Key::Escape => e.code == KeyCode::Esc,
        Key::Tab => e.code == KeyCode::Tab,
        Key::Backspace => e.code == KeyCode::Backspace,
        Key::Delete => e.code == KeyCode::Delete,
        Key::Home => e.code == KeyCode::Home,
        Key::End => e.code == KeyCode::End,
        Key::PageUp => e.code == KeyCode::PageUp,
        Key::PageDown => e.code == KeyCode::PageDown,
        Key::Up => e.code == KeyCode::Up,
        Key::Down => e.code == KeyCode::Down,
        Key::Left => e.code == KeyCode::Left,
        Key::Right => e.code == KeyCode::Right,
        Key::Space => e.code == KeyCode::Char(' '),
        Key::Char(c) => e.code == KeyCode::Char(c) && !m.control && !m.alt,
        Key::Ctrl(c) => e.code == KeyCode::Char(ascii_lower(c)) && m.control && !m.alt,
        Key::Alt(c) => e.code == KeyCode::Char(c) && m.alt && !m.control,
        Key::ShiftTab => e.code == KeyCode::BackTab || (e.code == KeyCode::Tab && m.shift),
        Key::CtrlShift(c) => e.code == KeyCode::Char(ascii_lower(c)) && m.control && m.shift,
        Key::AltLeft => e.code == KeyCode::Left && m.alt,
        Key::AltRight => e.code == KeyCode::Right && m.alt,
        Key::CtrlLeft => e.code == KeyCode::Left && m.control,
        Key::CtrlRight => e.code == KeyCode::Right && m.control,
    }
}

/// Check whether a key event matches a `Key`.
pub fn matches_key(event: &KeyEvent, key: &Key) -> (r: bool)
    ensures
        r == key_matches(*event, *key),
{
    let m = event.modifiers;
    let code = event.code;
    match *key {
        Key::Enter => code == KeyCode::Enter,
        Key::Escape => code == KeyCode::Esc,
        Key::Tab => code == KeyCode::Tab,
        Key::Backspace => code == KeyCode::Backspace,
        Key::Delete => code == KeyCode::Delete,
        Key::Home => code == KeyCode::Home,
        Key::End => code == KeyCode::End,
        Key::PageUp => code == KeyCode::PageUp,
        Key::PageDown => code == KeyCode::PageDown,
        Key::Up => code == KeyCode::Up,
        Key::Down => code == KeyCode::Down,
        Key::Left => code == KeyCode::Left,
        Key::Right => code == KeyCode::Right,
        Key::Space => code == KeyCode::Char(' '),
        Key::Char(c) => code == KeyCode::Char(c) && !m.control && !m.alt,
        Key::Ctrl(c) => code == KeyCode::Char(to_ascii_lowercase(c)) && m.control && !m.alt,
        Key::Alt(c) => code == KeyCode::Char(c) && m.alt && !m.control,
        Key::ShiftTab => code == KeyCode::BackTab || (code == KeyCode::Tab && m.shift),
        Key::CtrlShift(c) => code == KeyCode::Char(to_ascii_lowercase(c)) && m.control && m.shift,
        Key::AltLeft => code == KeyCode::Left && m.alt,
        Key::AltRight => code == KeyCode::Right && m.alt,
        Key::CtrlLeft => code == KeyCode::Left && m.control,
        Key::CtrlRight => code == KeyCode::Right && m.control,
    }
}


proof fn lemma_first_index_absent(s: Seq<char>, c: char)
    requires
        forall|i: int| 0 <= i < s.len() ==> s[i] != c,
    ensures
        first_index_of(s, c) == s.len(),
    decreases s.len(),
{
    if s.len() > 0 {
        assert forall|i: int| 0 <= i < s.drop_first().len() implies s.drop_first()[i] != c by {
            assert(s.drop_first()[i] == s[i + 1]);
        }
        lemma_first_index_absent(s.drop_first(), c);
    }
}

/// An identifier without `+` is a key name with no modifier asked for.
proof fn lemma_plain_key_id(id: Seq<char>)
    requires
        id.len() > 0,
        forall|i: int| 0 <= i < id.len() ==> id[i] != '+',
    ensures
        parse_key_id(id) == Some((id, KeyIdMods { ctrl: false, shift: false, alt: false, super_key: false })),
{
    lemma_first_index_absent(id, '+');
    assert(split_on(id, '+') == seq![id]);
    let mods = split_on(id, '+').drop_last();
    assert(mods.len() == 0);
}

/// An identifier that names only a key (no `+`) matches an event with no
/// modifier held, other than a back-tab, exactly when it names the event's key.
pub proof fn law_plain_key_id(e: KeyEvent, id: Seq<char>)
    requires
        id.len() > 0,
        forall|i: int| 0 <= i < id.len() ==> id[i] != '+',
        !e.modifiers.shift,
        !e.modifiers.control,
        !e.modifiers.alt,
        !e.modifiers.super_key,
        e.code != KeyCode::BackTab,
    ensures
        key_id_matches(e, id) == matches_key_name(e.code, id),
{
    lemma_plain_key_id(id);
}

/// A key with a name answers, with no modifier held, to each of its names:
/// Escape to `escape` and `esc`, Enter to `enter` and `return`, Page Up to
/// `pageUp` and `pageup`, Page Down to `pageDown` and `pagedown`, and Tab,
/// Backspace, Delete, Home, End, the arrows and Insert to theirs.
pub proof fn law_key_names(e: KeyEvent)
    requires
        !e.modifiers.shift,
        !e.modifiers.control,
        !e.modifiers.alt,
        !e.modifiers.super_key,
    ensures
        e.code == KeyCode::Esc ==> key_id_matches(e, "escape"@) && key_id_matches(e, "esc"@),
        e.code == KeyCode::Enter ==> key_id_matches(e, "enter"@) && key_id_matches(e, "return"@),
        e.code == KeyCode::PageUp ==> key_id_matches(e, "pageUp"@) && key_id_matches(e, "pageup"@),
        e.code == KeyCode::PageDown ==> key_id_matches(e, "pageDown"@) && key_id_matches(e, "pagedown"@),
        e.code == KeyCode::Tab ==> key_id_matches(e, "tab"@),
        e.code == KeyCode::Backspace ==> key_id_matches(e, "backspace"@),
        e.code == KeyCode::Delete ==> key_id_matches(e, "delete"@),
        e.code == KeyCode::Home ==> key_id_matches(e, "home"@),
        e.code == KeyCode::End ==> key_id_matches(e, "end"@),
        e.code == KeyCode::Up ==> key_id_matches(e, "up"@),
        e.code == KeyCode::Down ==> key_id_matches(e, "down"@),
        e.code == KeyCode::Left ==> key_id_matches(e, "left"@),
        e.code == KeyCode::Right ==> key_id_matches(e, "right"@),
        e.code == KeyCode::Insert ==> key_id_matches(e, "insert"@),
{
    reveal_strlit("escape");
    reveal_strlit("esc");
    reveal_strlit("enter");
    reveal_strlit("return");
    reveal_strlit("pageUp");
    reveal_strlit("pageup");
    reveal_strlit("pageDown");
    reveal_strlit("pagedown");
    reveal_strlit("tab");
    reveal_strlit("backspace");
    reveal_strlit("delete");
    reveal_strlit("home");
    reveal_strlit("end");
    reveal_strlit("up");
    reveal_strlit("down");
    reveal_strlit("left");
    reveal_strlit("right");
    reveal_strlit("insert");
    if e.code != KeyCode::BackTab {
        law_plain_key_id(e, "escape"@);
        law_plain_key_id(e, "esc"@);
        law_plain_key_id(e, "enter"@);
        law_plain_key_id(e, "return"@);
        law_plain_key_id(e, "pageUp"@);
        law_plain_key_id(e, "pageup"@);
        law_plain_key_id(e, "pageDown"@);
        law_plain_key_id(e, "pagedown"@);
        law_plain_key_id(e, "tab"@);
        law_plain_key_id(e, "backspace"@);
        law_plain_key_id(e, "delete"@);
        law_plain_key_id(e, "home"@);
        law_plain_key_id(e, "end"@);
        law_plain_key_id(e, "up"@);
        law_plain_key_id(e, "down"@);
        law_plain_key_id(e, "left"@);
        law_plain_key_id(e, "right"@);
        law_plain_key_id(e, "insert"@);
    }
}

} // verus!
