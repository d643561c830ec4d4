//! The help overlay: keyboard shortcuts and slash commands.
use crate::tui::components::pad::{pad_to_width, padded_to};
use crate::tui::keybindings::strs_view;
use crate::tui::keys::KeyEvent;
use crate::tui::strs::{push_repeat, push_str, repeat_char, str_chars, string_from_str};
use crate::tui::theme::Theme;
use crate::ui::theme::{rab_fg_code, wrapped_in, RabTheme};
use vstd::prelude::*;

verus! {

broadcast use vstd::string::group_string_axioms;

/// Bold text in the accent colour.
pub open spec fn emphasized(t: Seq<char>) -> Seq<char> {
    wrapped_in(seq!['1'], wrapped_in(rab_fg_code(seq!['a', 'c', 'c', 'e', 'n', 't']), t, seq!['3', '9']), seq!['2', '2'])
}

/// Text in the dim colour.
pub open spec fn dimmed(t: Seq<char>) -> Seq<char> {
    wrapped_in(rab_fg_code(seq!['d', 'i', 'm']), t, seq!['3', '9'])
}

/// `s` padded with spaces to `n` characters (as `format!("{:n}")` does).
pub open spec fn pad_chars(s: Seq<char>, n: nat) -> Seq<char> {
    if s.len() < n {
        s + repeat_char(' ', (n - s.len()) as nat)
    } else {
        s
    }
}

/// A shortcut line: the key, emphasized and padded to 20 characters, and
/// its description, dimmed.
pub open spec fn shortcut_line(key: Seq<char>, desc: Seq<char>) -> Seq<char> {
    seq![' ', ' '] + pad_chars(emphasized(key), 20) + seq![' '] + dimmed(desc)
}

/// A command line: `/`, the name emphasized and padded to 19 characters,
/// and its description, dimmed.
pub open spec fn command_line(name: Seq<char>, desc: Seq<char>) -> Seq<char> {
    seq![' ', ' ', '/'] + pad_chars(emphasized(name), 19) + seq![' '] + dimmed(desc)
}

/// The keyboard shortcut lines the help lists.
pub open spec fn shortcut_lines() -> Seq<Seq<char>> {
    seq![
        shortcut_line("Enter"@, "Submit message"@),
        shortcut_line("Ctrl+J"@, "Newline"@),
        shortcut_line("Ctrl+C"@, "Interrupt / clear editor"@),
        shortcut_line("Ctrl+D"@, "Quit (empty) / interrupt"@),
        shortcut_line("Escape"@, "Clear editor"@),
        shortcut_line("Ctrl+L"@, "Open model selector"@),
        shortcut_line("!<command>"@, "Run bash inline"@),
        shortcut_line("!!<command>"@, "Run bash (excluded from context)"@),
        shortcut_line("Ctrl+T"@, "Toggle thinking visibility"@),
        shortcut_line("Ctrl+O"@, "Toggle tool output"@),
        shortcut_line("F1"@, "Show this help"@),
        shortcut_line("↑↓"@, "History (editor empty)"@),
        shortcut_line("PgUp / PgDn"@, "Scroll messages"@),
    ]
}

/// The help text before padding: a title, the shortcuts, the slash
/// commands where there are any, and a closing hint.
pub open spec fn help_lines(cmds: Seq<(Seq<char>, Seq<char>)>) -> Seq<Seq<char>> {
    let head = seq![seq![' ', ' '] + emphasized("Keyboard Shortcuts"@), seq![]];
    let keys = shortcut_lines();
    let commands = if cmds.len() > 0 {
        seq![seq![], seq![' ', ' '] + emphasized("Slash Commands"@), seq![]] + cmds.map_values(
            |p: (Seq<char>, Seq<char>)| command_line(p.0, p.1),
        )
    } else {
        seq![]
    };
    head + keys + commands + seq![seq![], dimmed("  Press any key to close help."@)]
}

/// Help with keyboard shortcuts and slash commands.
pub struct HelpOverlay {
    theme: RabTheme,
    commands: Vec<(String, String)>,
}

fn emphasize(th: &RabTheme, t: &str) -> (r: String)
    ensures
        r@ == emphasized(t@),
{
    let a = th.accent(t);
    th.bold(a.as_str())
}

fn pad_to_chars(s: String, n: usize) -> (r: String)
    ensures
        r@ == pad_chars(s@, n as nat),
{
    let k = str_chars(s.as_str()).len();
    if k < n {
        let mut r = s;
        push_repeat(&mut r, ' ', n - k);
        r
    } else {
        s
    }
}

fn shortcut_block(th: &RabTheme) -> (lines: Vec<String>)
    ensures
        strs_view(lines@) == shortcut_lines(),
{
    let mut lines: Vec<String> = Vec::new();
    assert(strs_view(lines@) =~= Seq::<Seq<char>>::empty());
    push_shortcut(&mut lines, th, "Enter", "Submit message");
    push_shortcut(&mut lines, th, "Ctrl+J", "Newline");
    push_shortcut(&mut lines, th, "Ctrl+C", "Interrupt / clear editor");
    push_shortcut(&mut lines, th, "Ctrl+D", "Quit (empty) / interrupt");
    push_shortcut(&mut lines, th, "Escape", "Clear editor");
    push_shortcut(&mut lines, th, "Ctrl+L", "Open model selector");
    push_shortcut(&mut lines, th, "!<command>", "Run bash inline");
    push_shortcut(&mut lines, th, "!!<command>", "Run bash (excluded from context)");
    push_shortcut(&mut lines, th, "Ctrl+T", "Toggle thinking visibility");
    push_shortcut(&mut lines, th, "Ctrl+O", "Toggle tool output");
    push_shortcut(&mut lines, th, "F1", "Show this help");
    push_shortcut(&mut lines, th, "↑↓", "History (editor empty)");
    push_shortcut(&mut lines, th, "PgUp / PgDn", "Scroll messages");
    lines
}

fn push_shortcut(lines: &mut Vec<String>, th: &RabTheme, key: &str, desc: &str)
    ensures
        strs_view(final(lines)@) == strs_view(old(lines)@).push(shortcut_line(key@, desc@)),
{
    let mut l = string_from_str("  ");
    let k = pad_to_chars(emphasize(th, key), 20);
    push_str(&mut l, k.as_str());
    push_str(&mut l, " ");
    let d = th.dim(desc);
    push_str(&mut l, d.as_str());
    proof {
        reveal_strlit("  ");
        reveal_strlit(" ");
    }
    assert(l@ =~= shortcut_line(key@, desc@));
    let ghost before = strs_view(lines@);
    lines.push(l);
    assert(strs_view(lines@) =~= before.push(shortcut_line(key@, desc@)));
}

/// The views of a list of string pairs.
pub open spec fn pairs_view(v: Seq<(String, String)>) -> Seq<(Seq<char>, Seq<char>)> {
    v.map_values(|p: (String, String)| (p.0@, p.1@))
}

impl HelpOverlay {
    /// The slash commands listed.
    pub closed spec fn commands(&self) -> Seq<(Seq<char>, Seq<char>)> {
        pairs_view(self.commands@)
    }

    pub fn new(theme: &RabTheme) -> (h: Self)
        ensures
            h.commands().len() == 0,
    {
        HelpOverlay { theme: *theme, commands: Vec::new() }
    }

    pub fn set_commands(&mut self, commands: Vec<(String, String)>)
        ensures
            final(self).commands() == pairs_view(commands@),
    {
        self.commands = commands;
    }

    /// The help lines, each padded to the width.
    pub fn render(&self, width: usize) -> (r: Vec<String>)
        ensures
            strs_view(r@) == help_lines(self.commands()).map_values(|l: Seq<char>| padded_to(l, width as nat)),
    {
        let th = &self.theme;
        let mut lines: Vec<String> = Vec::new();
        proof {
            reveal_strlit("  ");
        }
        assert("  "@ =~= seq![' ', ' ']);
        let mut title = string_from_str("  ");
        let e = emphasize(th, "Keyboard Shortcuts");
        push_str(&mut title, e.as_str());
        assert(title@ =~= seq![' ', ' '] + emphasized("Keyboard Shortcuts"@));
        lines.push(title);
        let e0 = String::new();
        assert(e0@ =~= Seq::<char>::empty());
        lines.push(e0);
        let ghost head = seq![seq![' ', ' '] + emphasized("Keyboard Shortcuts"@), Seq::<char>::empty()];
        assert(strs_view(lines@) =~= head);
        let mut block = shortcut_block(th);
        lines.append(&mut block);
        let ghost keys = shortcut_lines();
        assert(strs_view(lines@) =~= head + keys);
        let ghost cv = self.commands();
        if self.commands.len() > 0 {
            let ghost s0 = strs_view(lines@);
            let e1 = String::new();
            assert(e1@ =~= Seq::<char>::empty());
            lines.push(e1);
            let mut t2 = string_from_str("  ");
            let e2 = emphasize(th, "Slash Commands");
            push_str(&mut t2, e2.as_str());
            assert(t2@ =~= seq![' ', ' '] + emphasized("Slash Commands"@));
            lines.push(t2);
            let e3 = String::new();
            assert(e3@ =~= Seq::<char>::empty());
            lines.push(e3);
            assert(strs_view(lines@) =~= s0.push(Seq::<char>::empty()).push(t2@).push(Seq::<char>::empty()));
            let ghost base = strs_view(lines@);
            assert(base =~= head + keys + seq![seq![], seq![' ', ' '] + emphasized("Slash Commands"@), seq![]]);
            let mut i: usize = 0;
            while i < self.commands.len()
                invariant
                    0 <= i <= self.commands.len(),
                    cv == pairs_view(self.commands@),
                    strs_view(lines@) =~= base + cv.take(i as int).map_values(
                        |p: (Seq<char>, Seq<char>)| command_line(p.0, p.1),
                    ),
                decreases self.commands.len() - i,
            {
                let (name, desc) = &self.commands[i];
                let mut l = string_from_str("  /");
                let k = pad_to_chars(emphasize(th, name.as_str()), 19);
                push_str(&mut l, k.as_str());
                push_str(&mut l, " ");
                let d = th.dim(desc.as_str());
                push_str(&mut l, d.as_str());
                proof {
                    reveal_strlit("  /");
                    reveal_strlit(" ");
                }
                assert(l@ =~= command_line(cv[i as int].0, cv[i as int].1));
                let ghost before = strs_view(lines@);
                lines.push(l);
                assert(strs_view(lines@) =~= before.push(l@));
                assert(cv.take(i + 1) =~= cv.take(i as int).push(cv[i as int]));
                i = i + 1;
            }
            assert(cv.take(self.commands.len() as int) =~= cv);
        }
        let ghost s1 = strs_view(lines@);
        let e4 = String::new();
        assert(e4@ =~= Seq::<char>::empty());
        lines.push(e4);
        let last = th.dim("  Press any key to close help.");
        lines.push(last);
        assert(strs_view(lines@) =~= s1.push(Seq::<char>::empty()).push(last@));
        assert(strs_view(lines@) =~= help_lines(cv));
        let ghost hl = help_lines(cv);
        let mut out: Vec<String> = Vec::new();
        let mut j: usize = 0;
        while j < lines.len()
            invariant
                0 <= j <= lines.len(),
                strs_view(lines@) == hl,
                strs_view(out@) =~= hl.take(j as int).map_values(|l: Seq<char>| padded_to(l, width as nat)),
            decreases lines.len() - j,
        {
            let p = pad_to_width(string_from_str(lines[j].as_str()), width);
            let ghost before = strs_view(out@);
            out.push(p);
            assert(strs_view(out@) =~= before.push(p@));
            assert(hl.take(j + 1) =~= hl.take(j as int).push(hl[j as int]));
            j = j + 1;
        }
        assert(hl.take(lines.len() as int) =~= hl);
        out
    }

    /// Any key closes the help.
    pub fn handle_input(&mut self, key: &KeyEvent) -> (consumed: bool)
        ensures
            consumed,
            final(self).commands() == old(self).commands(),
    {
        true
    }
}

} // verus!
