//! What the terminal is sent: the control sequences for raw-mode sessions,
//! the cursor, clearing, the title and the progress indicator. Each
//! operation appends its bytes to an output buffer; writing that buffer to
//! the terminal, raw mode itself and reading input are the caller's part.
use crate::tui::keys::KeyEvent;
use crate::tui::screen::emit;
use crate::tui::strs::{decimal, push_decimal, push_str};
use vstd::prelude::*;

verus! {

broadcast use vstd::string::group_string_axioms;

/// Events from the terminal that the application loop handles: key
/// sequences, bracketed pastes and resizes.
#[derive(Debug, Clone)]
pub enum TerminalEvent {
    Key(KeyEvent),
    Paste(String),
    Resize(u16, u16),
}

/// The bytes of `s` appended to `out`.
pub open spec fn sent(out: Seq<u8>, s: Seq<char>) -> Seq<u8> {
    out + vstd::utf8::encode_utf8(s)
}

/// Cursor down `n` rows (`CSI n B`) for positive `n`, up for negative,
/// nothing for zero.
pub open spec fn move_by_seq(lines: int) -> Seq<char> {
    if lines > 0 {
        "\x1b["@ + decimal(lines as nat) + seq!['B']
    } else if lines < 0 {
        "\x1b["@ + decimal((-lines) as nat) + seq!['A']
    } else {
        seq![]
    }
}

/// The window title sequence (OSC 0).
pub open spec fn title_seq(title: Seq<char>) -> Seq<char> {
    "\x1b]0;"@ + title + "\x07"@
}

/// The progress indicator sequence (OSC 9;4): indeterminate while active,
/// cleared otherwise.
pub open spec fn progress_seq(active: bool) -> Seq<char> {
    if active { "\x1b]9;4;3\x07"@ } else { "\x1b]9;4;0;\x07"@ }
}

/// Colour-scheme change notifications on or off (mode 2031).
pub open spec fn color_scheme_seq(enabled: bool) -> Seq<char> {
    if enabled { "\x1b[?2031h"@ } else { "\x1b[?2031l"@ }
}

/// Appends a string's bytes.
fn send(out: &mut Vec<u8>, s: &str)
    ensures
        final(out)@ == sent(old(out)@, s@),
{
    let mut buf = String::new();
    push_str(&mut buf, s);
    emit(out, &buf);
}

/// The terminal of this process, as far as its state decides what is sent:
/// whether raw mode was entered and whether the Kitty keyboard protocol is
/// on.
pub struct ProcessTerminal {
    was_raw: bool,
    kitty_active: bool,
}

impl ProcessTerminal {
    /// Whether raw mode was entered and not yet left.
    pub closed spec fn raw_on(&self) -> bool {
        self.was_raw
    }

    /// Whether the Kitty keyboard protocol is on.
    pub closed spec fn kitty_on(&self) -> bool {
        self.kitty_active
    }

    pub fn new() -> (t: Self)
        ensures
            !t.raw_on(),
            !t.kitty_on(),
    {
        ProcessTerminal { was_raw: false, kitty_active: false }
    }

    pub fn kitty_protocol_active(&self) -> (r: bool)
        ensures
            r == self.kitty_on(),
    {
        self.kitty_active
    }

    /// Whether raw mode is on and has to be left on exit.
    pub fn raw_mode_enabled(&self) -> (r: bool)
        ensures
            r == self.raw_on(),
    {
        self.was_raw
    }

    /// Bracketed paste on (`CSI ? 2004 h`).
    pub fn enable_bracketed_paste(&self, out: &mut Vec<u8>)
        ensures
            final(out)@ == sent(old(out)@, "\x1b[?2004h"@),
    {
        send(out, "\x1b[?2004h");
    }

    /// Bracketed paste off (`CSI ? 2004 l`).
    pub fn disable_bracketed_paste(&self, out: &mut Vec<u8>)
        ensures
            final(out)@ == sent(old(out)@, "\x1b[?2004l"@),
    {
        send(out, "\x1b[?2004l");
    }

    /// Turns the Kitty keyboard protocol off where it is on (`CSI < u`).
    pub fn disable_kitty_protocol(&mut self, out: &mut Vec<u8>)
        ensures
            !final(self).kitty_on(),
            final(self).raw_on() == old(self).raw_on(),
            final(out)@ == if old(self).kitty_on() {
                sent(old(out)@, "\x1b[<u"@)
            } else {
                old(out)@
            },
    {
        if self.kitty_active {
            send(out, "\x1b[<u");
            self.kitty_active = false;
        }
    }

    /// Starts a session on a terminal that was just put in raw mode:
    /// records that raw mode is on and turns bracketed paste on. (The
    /// Kitty keyboard protocol stays off.)
    pub fn start(&mut self, out: &mut Vec<u8>)
        ensures
            final(self).raw_on(),
            final(self).kitty_on() == old(self).kitty_on(),
            final(out)@ == sent(old(out)@, "\x1b[?2004h"@),
    {
        self.was_raw = true;
        self.enable_bracketed_paste(out);
    }

    /// Ends a session: the Kitty protocol and bracketed paste off. Returns
    /// whether raw mode was on, which the caller then leaves.
    pub fn stop(&mut self, out: &mut Vec<u8>) -> (leave_raw: bool)
        ensures
            leave_raw == old(self).raw_on(),
            !final(self).raw_on(),
            !final(self).kitty_on(),
            final(out)@ == sent(
                if old(self).kitty_on() { sent(old(out)@, "\x1b[<u"@) } else { old(out)@ },
                "\x1b[?2004l"@,
            ),
    {
        self.disable_kitty_protocol(out);
        self.disable_bracketed_paste(out);
        if self.was_raw {
            self.was_raw = false;
            true
        } else {
            false
        }
    }

    /// Sends `data` as it is.
    pub fn write(&self, out: &mut Vec<u8>, data: &str)
        ensures
            final(out)@ == sent(old(out)@, data@),
    {
        send(out, data);
    }

    /// Moves the cursor by `lines` rows, down where positive.
    pub fn move_by(&self, out: &mut Vec<u8>, lines: i32)
        requires
            lines > i32::MIN,
        ensures
            final(out)@ == sent(old(out)@, move_by_seq(lines as int)),
    {
        let mut buf = String::new();
        if lines > 0 {
            push_str(&mut buf, "\x1b[");
            push_decimal(&mut buf, lines as usize);
            push_str(&mut buf, "B");
            proof {
                reveal_strlit("B");
            }
        } else if lines < 0 {
            push_str(&mut buf, "\x1b[");
            push_decimal(&mut buf, (-lines) as usize);
            push_str(&mut buf, "A");
            proof {
                reveal_strlit("A");
            }
        }
        emit(out, &buf);
        assert(buf@ =~= move_by_seq(lines as int));
    }

    /// Hides the cursor (`CSI ? 25 l`).
    pub fn hide_cursor(&self, out: &mut Vec<u8>)
        ensures
            final(out)@ == sent(old(out)@, "\x1b[?25l"@),
    {
        send(out, "\x1b[?25l");
    }

    /// Shows the cursor (`CSI ? 25 h`).
    pub fn show_cursor(&self, out: &mut Vec<u8>)
        ensures
            final(out)@ == sent(old(out)@, "\x1b[?25h"@),
    {
        send(out, "\x1b[?25h");
    }

    /// Clears the cursor's line (`CSI 2 K`).
    pub fn clear_line(&self, out: &mut Vec<u8>)
        ensures
            final(out)@ == sent(old(out)@, "\x1b[2K"@),
    {
        send(out, "\x1b[2K");
    }

    /// Clears from the cursor to the end of the screen (`CSI J`).
    pub fn clear_from_cursor(&self, out: &mut Vec<u8>)
        ensures
            final(out)@ == sent(old(out)@, "\x1b[J"@),
    {
        send(out, "\x1b[J");
    }

    /// Clears the screen and homes the cursor.
    pub fn clear_screen(&self, out: &mut Vec<u8>)
        ensures
            final(out)@ == sent(old(out)@, "\x1b[2J\x1b[H"@),
    {
        send(out, "\x1b[2J\x1b[H");
    }

    /// Sets the window title.
    pub fn set_title(&self, out: &mut Vec<u8>, title: &str)
        ensures
            final(out)@ == sent(old(out)@, title_seq(title@)),
    {
        let mut buf = String::new();
        push_str(&mut buf, "\x1b]0;");
        push_str(&mut buf, title);
        push_str(&mut buf, "\x07");
        emit(out, &buf);
    }

    /// Shows or clears the progress indicator.
    pub fn set_progress(&self, out: &mut Vec<u8>, active: bool)
        ensures
            final(out)@ == sent(old(out)@, progress_seq(active)),
    {
        if active {
            send(out, "\x1b]9;4;3\x07");
        } else {
            send(out, "\x1b]9;4;0;\x07");
        }
    }

    /// Turns colour-scheme change notifications on or off; when on, the
    /// terminal reports a change as `\x1b]10;rgb:RRRR/GGGG/BBBB\x07`.
    pub fn set_color_scheme_notifications(&self, out: &mut Vec<u8>, enabled: bool)
        ensures
            final(out)@ == sent(old(out)@, color_scheme_seq(enabled)),
    {
        if enabled {
            send(out, "\x1b[?2031h");
        } else {
            send(out, "\x1b[?2031l");
        }
    }
}

impl Default for ProcessTerminal {
    fn default() -> (t: Self)
        ensures
            !t.raw_on(),
            !t.kitty_on(),
    {
        Self::new()
    }
}

/// crossterm's `cursor::MoveTo(col, row)` as ANSI text: `CSI row+1 ; col+1 H`
/// (its `write_ansi` writes the two coordinates plus one, in decimal).
#[verifier::external_body]
fn move_to_ansi(row: u16, col: u16) -> (s: String)
    requires
        row < u16::MAX,
        col < u16::MAX,
    ensures
        s@ == "\x1b["@ + decimal(row as nat + 1) + seq![';'] + decimal(col as nat + 1) + seq!['H'],
{
    let mut s = String::new();
    let _ = crossterm::Command::write_ansi(&crossterm::cursor::MoveTo(col, row), &mut s);
    s
}

/// crossterm's `cursor::Show` as ANSI text: `CSI ? 25 h`.
#[verifier::external_body]
fn show_cursor_ansi() -> (s: String)
    ensures
        s@ == "\x1b[?25h"@,
{
    let mut s = String::new();
    let _ = crossterm::Command::write_ansi(&crossterm::cursor::Show, &mut s);
    s
}

/// crossterm's `cursor::Hide` as ANSI text: `CSI ? 25 l`.
#[verifier::external_body]
fn hide_cursor_ansi() -> (s: String)
    ensures
        s@ == "\x1b[?25l"@,
{
    let mut s = String::new();
    let _ = crossterm::Command::write_ansi(&crossterm::cursor::Hide, &mut s);
    s
}

/// crossterm's `terminal::Clear`, for the current line (`CSI 2 K`) or the
/// whole screen (`CSI 2 J`), as ANSI text.
#[verifier::external_body]
fn clear_ansi(whole_screen: bool) -> (s: String)
    ensures
        s@ == (if whole_screen { "\x1b[2J"@ } else { "\x1b[2K"@ }),
{
    let kind = if whole_screen {
        crossterm::terminal::ClearType::All
    } else {
        crossterm::terminal::ClearType::CurrentLine
    };
    let mut s = String::new();
    let _ = crossterm::Command::write_ansi(&crossterm::terminal::Clear(kind), &mut s);
    s
}

/// The terminal with the operations of a plain writer.
pub struct Terminal {
    inner: ProcessTerminal,
}

impl Terminal {
    pub fn new() -> (t: Self)
        ensures
            !t.raw_on(),
            !t.kitty_on(),
    {
        Terminal { inner: ProcessTerminal::new() }
    }

    /// Whether raw mode was entered and not yet left.
    pub closed spec fn raw_on(&self) -> bool {
        self.inner.raw_on()
    }

    /// Whether the Kitty keyboard protocol is on.
    pub closed spec fn kitty_on(&self) -> bool {
        self.inner.kitty_on()
    }

    /// Starts a session on a terminal that was just put in raw mode.
    pub fn start(&mut self, out: &mut Vec<u8>)
        ensures
            final(self).raw_on(),
            final(out)@ == sent(old(out)@, "\x1b[?2004h"@),
    {
        self.inner.start(out);
    }

    /// Ends a session; returns whether raw mode was on and is to be left.
    pub fn stop(&mut self, out: &mut Vec<u8>) -> (leave_raw: bool)
        ensures
            leave_raw == old(self).raw_on(),
            !final(self).raw_on(),
            old(self).kitty_on() ==> final(out)@ == sent(sent(old(out)@, "\x1b[<u"@), "\x1b[?2004l"@),
            !old(self).kitty_on() ==> final(out)@ == sent(old(out)@, "\x1b[?2004l"@),
    {
        self.inner.stop(out)
    }

    pub fn show_cursor(out: &mut Vec<u8>)
        ensures
            final(out)@ == sent(old(out)@, "\x1b[?25h"@),
    {
        let s = show_cursor_ansi();
        emit(out, &s);
    }

    pub fn hide_cursor(out: &mut Vec<u8>)
        ensures
            final(out)@ == sent(old(out)@, "\x1b[?25l"@),
    {
        let s = hide_cursor_ansi();
        emit(out, &s);
    }

    /// Moves the cursor to a zero-based row and column.
    pub fn move_cursor_to(out: &mut Vec<u8>, row: u16, col: u16)
        requires
            row < u16::MAX,
            col < u16::MAX,
        ensures
            final(out)@ == sent(
                old(out)@,
                "\x1b["@ + decimal(row as nat + 1) + seq![';'] + decimal(col as nat + 1) + seq!['H'],
            ),
    {
        let s = move_to_ansi(row, col);
        emit(out, &s);
    }

    pub fn clear_line(out: &mut Vec<u8>)
        ensures
            final(out)@ == sent(old(out)@, "\x1b[2K"@),
    {
        let s = clear_ansi(false);
        emit(out, &s);
    }

    pub fn clear_screen(out: &mut Vec<u8>)
        ensures
            final(out)@ == sent(old(out)@, "\x1b[2J"@),
    {
        let s = clear_ansi(true);
        emit(out, &s);
    }

    pub fn write(out: &mut Vec<u8>, data: &str)
        ensures
            final(out)@ == sent(old(out)@, data@),
    {
        send(out, data);
    }

    /// Synchronized output begins (`CSI ? 2026 h`).
    pub fn begin_sync(out: &mut Vec<u8>)
        ensures
            final(out)@ == sent(old(out)@, "\x1b[?2026h"@),
    {
        send(out, "\x1b[?2026h");
    }

    /// Synchronized output ends (`CSI ? 2026 l`).
    pub fn end_sync(out: &mut Vec<u8>)
        ensures
            final(out)@ == sent(old(out)@, "\x1b[?2026l"@),
    {
        send(out, "\x1b[?2026l");
    }

    pub fn set_color_scheme_notifications(out: &mut Vec<u8>, enabled: bool)
        ensures
            final(out)@ == sent(old(out)@, color_scheme_seq(enabled)),
    {
        if enabled {
            send(out, "\x1b[?2031h");
        } else {
            send(out, "\x1b[?2031l");
        }
    }
}

impl Default for Terminal {
    fn default() -> (t: Self)
        ensures
            !t.raw_on(),
    {
        Self::new()
    }
}

} // verus!
