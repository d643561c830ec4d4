//! The application's colour theme: a dark palette emitted as 24-bit ANSI
//! colour codes.
use crate::tui::image::chars_eq;
use crate::tui::strs::{push_str, str_chars};
use crate::tui::theme::Theme;
use vstd::prelude::*;

verus! {

/// The SGR parameters of a foreground colour name.
pub open spec fn rab_fg_code(color: Seq<char>) -> Seq<char> {
    if color == seq!['t', 'e', 'x', 't'] {
        seq!['3', '8', ';', '2', ';', '2', '1', '2', ';', '2', '1', '2', ';', '2', '1', '2']
    } else if color == seq!['d', 'i', 'm'] {
        seq!['3', '8', ';', '2', ';', '1', '0', '2', ';', '1', '0', '2', ';', '1', '0', '2']
    } else if color == seq!['m', 'u', 't', 'e', 'd'] {
        seq!['3', '8', ';', '2', ';', '1', '2', '8', ';', '1', '2', '8', ';', '1', '2', '8']
    } else if color == seq!['a', 'c', 'c', 'e', 'n', 't'] {
        seq!['3', '8', ';', '2', ';', '1', '3', '8', ';', '1', '9', '0', ';', '1', '8', '3']
    } else if color == seq!['s', 'u', 'c', 'c', 'e', 's', 's'] {
        seq!['3', '8', ';', '2', ';', '1', '8', '1', ';', '1', '8', '9', ';', '1', '0', '4']
    } else if color == seq!['e', 'r', 'r', 'o', 'r'] {
        seq!['3', '8', ';', '2', ';', '2', '0', '4', ';', '1', '0', '2', ';', '1', '0', '2']
    } else if color == seq!['w', 'a', 'r', 'n', 'i', 'n', 'g'] {
        seq!['3', '8', ';', '2', ';', '2', '5', '5', ';', '2', '5', '5', ';', '0']
    } else if color == seq!['u', 's', 'e', 'r', '_', 'm', 'e', 's', 's', 'a', 'g', 'e', '_', 't', 'e', 'x', 't'] {
        seq!['3', '8', ';', '2', ';', '2', '1', '2', ';', '2', '1', '2', ';', '2', '1', '2']
    } else if color == seq!['u', 's', 'e', 'r', '_', 'm', 'e', 's', 's', 'a', 'g', 'e', '_', 'b', 'g'] {
        seq!['4', '8', ';', '2', ';', '5', '2', ';', '5', '3', ';', '6', '5']
    } else if color == seq!['c', 'u', 's', 't', 'o', 'm', '_', 'm', 'e', 's', 's', 'a', 'g', 'e', '_', 't', 'e', 'x', 't'] {
        seq!['3', '8', ';', '2', ';', '2', '1', '2', ';', '2', '1', '2', ';', '2', '1', '2']
    } else if color == seq!['c', 'u', 's', 't', 'o', 'm', '_', 'm', 'e', 's', 's', 'a', 'g', 'e', '_', 'l', 'a', 'b', 'e', 'l'] {
        seq!['3', '8', ';', '2', ';', '1', '3', '8', ';', '1', '9', '0', ';', '1', '8', '3']
    } else if color == seq!['t', 'o', 'o', 'l', '_', 't', 'i', 't', 'l', 'e'] {
        seq!['3', '8', ';', '2', ';', '2', '1', '2', ';', '2', '1', '2', ';', '2', '1', '2']
    } else if color == seq!['t', 'o', 'o', 'l', '_', 'o', 'u', 't', 'p', 'u', 't'] {
        seq!['3', '8', ';', '2', ';', '1', '2', '8', ';', '1', '2', '8', ';', '1', '2', '8']
    } else if color == seq!['t', 'o', 'o', 'l', '_', 'p', 'e', 'n', 'd', 'i', 'n', 'g', '_', 'b', 'g'] {
        seq!['4', '8', ';', '2', ';', '4', '0', ';', '4', '0', ';', '5', '0']
    } else if color == seq!['t', 'o', 'o', 'l', '_', 's', 'u', 'c', 'c', 'e', 's', 's', '_', 'b', 'g'] {
        seq!['4', '8', ';', '2', ';', '4', '0', ';', '5', '0', ';', '4', '0']
    } else if color == seq!['t', 'o', 'o', 'l', '_', 'e', 'r', 'r', 'o', 'r', '_', 'b', 'g'] {
        seq!['4', '8', ';', '2', ';', '6', '0', ';', '4', '0', ';', '4', '0']
    } else if color == seq!['t', 'h', 'i', 'n', 'k', 'i', 'n', 'g', '_', 't', 'e', 'x', 't'] {
        seq!['3', '8', ';', '2', ';', '1', '2', '8', ';', '1', '2', '8', ';', '1', '2', '8']
    } else if color == seq!['t', 'h', 'i', 'n', 'k', 'i', 'n', 'g', '_', 'b', 'g'] {
        seq!['4', '8', ';', '2', ';', '4', '4', ';', '4', '4', ';', '5', '4']
    } else if color == seq!['b', 'o', 'r', 'd', 'e', 'r'] {
        seq!['3', '8', ';', '2', ';', '1', '3', '8', ';', '1', '9', '0', ';', '1', '8', '3']
    } else if color == seq!['b', 'o', 'r', 'd', 'e', 'r', '_', 'a', 'c', 'c', 'e', 'n', 't'] {
        seq!['3', '8', ';', '2', ';', '1', '3', '8', ';', '1', '9', '0', ';', '1', '8', '3']
    } else if color == seq!['b', 'o', 'r', 'd', 'e', 'r', '_', 'm', 'u', 't', 'e', 'd'] {
        seq!['3', '8', ';', '2', ';', '8', '0', ';', '8', '0', ';', '8', '0']
    } else if color == seq!['w', 'o', 'r', 'k', 'i', 'n', 'g'] {
        seq!['3', '8', ';', '2', ';', '1', '2', '8', ';', '1', '2', '8', ';', '1', '2', '8']
    } else if color == seq!['i', 'd', 'l', 'e'] {
        seq!['3', '8', ';', '2', ';', '8', '0', ';', '8', '0', ';', '8', '0']
    } else {
        seq!['3', '9']
    }
}

/// The SGR parameters of a background colour name.
pub open spec fn rab_bg_code(color: Seq<char>) -> Seq<char> {
    if color == seq!['s', 'e', 'l', 'e', 'c', 't', 'e', 'd', '_', 'b', 'g'] {
        seq!['4', '8', ';', '2', ';', '5', '2', ';', '5', '3', ';', '6', '5']
    } else if color == seq!['u', 's', 'e', 'r', '_', 'm', 'e', 's', 's', 'a', 'g', 'e', '_', 'b', 'g'] {
        seq!['4', '8', ';', '2', ';', '5', '2', ';', '5', '3', ';', '6', '5']
    } else if color == seq!['t', 'o', 'o', 'l', '_', 'p', 'e', 'n', 'd', 'i', 'n', 'g', '_', 'b', 'g'] {
        seq!['4', '8', ';', '2', ';', '4', '0', ';', '4', '0', ';', '5', '0']
    } else if color == seq!['t', 'o', 'o', 'l', '_', 's', 'u', 'c', 'c', 'e', 's', 's', '_', 'b', 'g'] {
        seq!['4', '8', ';', '2', ';', '4', '0', ';', '5', '0', ';', '4', '0']
    } else if color == seq!['t', 'o', 'o', 'l', '_', 'e', 'r', 'r', 'o', 'r', '_', 'b', 'g'] {
        seq!['4', '8', ';', '2', ';', '6', '0', ';', '4', '0', ';', '4', '0']
    } else if color == seq!['t', 'h', 'i', 'n', 'k', 'i', 'n', 'g', '_', 'b', 'g'] {
        seq!['4', '8', ';', '2', ';', '4', '4', ';', '4', '4', ';', '5', '4']
    } else {
        seq!['4', '9']
    }
}

/// `ESC [ code m`, the text, then `ESC [ close m`.
pub open spec fn wrapped_in(code: Seq<char>, text: Seq<char>, close: Seq<char>) -> Seq<char> {
    seq!['\x1b', '['] + code + seq!['m'] + text + seq!['\x1b', '['] + close + seq!['m']
}

/// Appends `ESC [ code m text ESC [ close m`.
fn push_wrapped(r: &mut String, code: &str, text: &str, close: &str)
    ensures
        final(r)@ == old(r)@ + wrapped_in(code@, text@, close@),
{
    proof {
        reveal_strlit("\x1b[");
        reveal_strlit("m");
    }
    push_str(r, "\x1b[");
    push_str(r, code);
    push_str(r, "m");
    push_str(r, text);
    push_str(r, "\x1b[");
    push_str(r, close);
    push_str(r, "m");
    assert(r@ =~= old(r)@ + wrapped_in(code@, text@, close@));
}

/// The application's dark theme.
#[derive(Clone, Copy, Debug)]
pub struct RabTheme;

impl RabTheme {
    fn fg_code(&self, color: &str) -> (r: &'static str)
        ensures
            r@ == rab_fg_code(color@),
    {
        proof {
            reveal_strlit("38;2;102;102;102");
            reveal_strlit("38;2;128;128;128");
            reveal_strlit("38;2;138;190;183");
            reveal_strlit("38;2;181;189;104");
            reveal_strlit("38;2;204;102;102");
            reveal_strlit("38;2;212;212;212");
            reveal_strlit("38;2;255;255;0");
            reveal_strlit("38;2;80;80;80");
            reveal_strlit("39");
            reveal_strlit("48;2;40;40;50");
            reveal_strlit("48;2;40;50;40");
            reveal_strlit("48;2;44;44;54");
            reveal_strlit("48;2;52;53;65");
            reveal_strlit("48;2;60;40;40");
            reveal_strlit("49");
            reveal_strlit("accent");
            reveal_strlit("border");
            reveal_strlit("border_accent");
            reveal_strlit("border_muted");
            reveal_strlit("custom_message_label");
            reveal_strlit("custom_message_text");
            reveal_strlit("dim");
            reveal_strlit("error");
            reveal_strlit("idle");
            reveal_strlit("muted");
            reveal_strlit("selected_bg");
            reveal_strlit("success");
            reveal_strlit("text");
            reveal_strlit("thinking_bg");
            reveal_strlit("thinking_text");
            reveal_strlit("tool_error_bg");
            reveal_strlit("tool_output");
            reveal_strlit("tool_pending_bg");
            reveal_strlit("tool_success_bg");
            reveal_strlit("tool_title");
            reveal_strlit("user_message_bg");
            reveal_strlit("user_message_text");
            reveal_strlit("warning");
            reveal_strlit("working");
        }
        assert("38;2;102;102;102"@ =~= seq!['3', '8', ';', '2', ';', '1', '0', '2', ';', '1', '0', '2', ';', '1', '0', '2']);
        assert("38;2;128;128;128"@ =~= seq!['3', '8', ';', '2', ';', '1', '2', '8', ';', '1', '2', '8', ';', '1', '2', '8']);
        assert("38;2;138;190;183"@ =~= seq!['3', '8', ';', '2', ';', '1', '3', '8', ';', '1', '9', '0', ';', '1', '8', '3']);
        assert("38;2;181;189;104"@ =~= seq!['3', '8', ';', '2', ';', '1', '8', '1', ';', '1', '8', '9', ';', '1', '0', '4']);
        assert("38;2;204;102;102"@ =~= seq!['3', '8', ';', '2', ';', '2', '0', '4', ';', '1', '0', '2', ';', '1', '0', '2']);
        assert("38;2;212;212;212"@ =~= seq!['3', '8', ';', '2', ';', '2', '1', '2', ';', '2', '1', '2', ';', '2', '1', '2']);
        assert("38;2;255;255;0"@ =~= seq!['3', '8', ';', '2', ';', '2', '5', '5', ';', '2', '5', '5', ';', '0']);
        assert("38;2;80;80;80"@ =~= seq!['3', '8', ';', '2', ';', '8', '0', ';', '8', '0', ';', '8', '0']);
        assert("39"@ =~= seq!['3', '9']);
        assert("48;2;40;40;50"@ =~= seq!['4', '8', ';', '2', ';', '4', '0', ';', '4', '0', ';', '5', '0']);
        assert("48;2;40;50;40"@ =~= seq!['4', '8', ';', '2', ';', '4', '0', ';', '5', '0', ';', '4', '0']);
        assert("48;2;44;44;54"@ =~= seq!['4', '8', ';', '2', ';', '4', '4', ';', '4', '4', ';', '5', '4']);
        assert("48;2;52;53;65"@ =~= seq!['4', '8', ';', '2', ';', '5', '2', ';', '5', '3', ';', '6', '5']);
        assert("48;2;60;40;40"@ =~= seq!['4', '8', ';', '2', ';', '6', '0', ';', '4', '0', ';', '4', '0']);
        assert("49"@ =~= seq!['4', '9']);
        assert("accent"@ =~= seq!['a', 'c', 'c', 'e', 'n', 't']);
        assert("border"@ =~= seq!['b', 'o', 'r', 'd', 'e', 'r']);
        assert("border_accent"@ =~= seq!['b', 'o', 'r', 'd', 'e', 'r', '_', 'a', 'c', 'c', 'e', 'n', 't']);
        assert("border_muted"@ =~= seq!['b', 'o', 'r', 'd', 'e', 'r', '_', 'm', 'u', 't', 'e', 'd']);
        assert("custom_message_label"@ =~= seq!['c', 'u', 's', 't', 'o', 'm', '_', 'm', 'e', 's', 's', 'a', 'g', 'e', '_', 'l', 'a', 'b', 'e', 'l']);
        assert("custom_message_text"@ =~= seq!['c', 'u', 's', 't', 'o', 'm', '_', 'm', 'e', 's', 's', 'a', 'g', 'e', '_', 't', 'e', 'x', 't']);
        assert("dim"@ =~= seq!['d', 'i', 'm']);
        assert("error"@ =~= seq!['e', 'r', 'r', 'o', 'r']);
        assert("idle"@ =~= seq!['i', 'd', 'l', 'e']);
        assert("muted"@ =~= seq!['m', 'u', 't', 'e', 'd']);
        assert("selected_bg"@ =~= seq!['s', 'e', 'l', 'e', 'c', 't', 'e', 'd', '_', 'b', 'g']);
        assert("success"@ =~= seq!['s', 'u', 'c', 'c', 'e', 's', 's']);
        assert("text"@ =~= seq!['t', 'e', 'x', 't']);
        assert("thinking_bg"@ =~= seq!['t', 'h', 'i', 'n', 'k', 'i', 'n', 'g', '_', 'b', 'g']);
        assert("thinking_text"@ =~= seq!['t', 'h', 'i', 'n', 'k', 'i', 'n', 'g', '_', 't', 'e', 'x', 't']);
        assert("tool_error_bg"@ =~= seq!['t', 'o', 'o', 'l', '_', 'e', 'r', 'r', 'o', 'r', '_', 'b', 'g']);
        assert("tool_output"@ =~= seq!['t', 'o', 'o', 'l', '_', 'o', 'u', 't', 'p', 'u', 't']);
        assert("tool_pending_bg"@ =~= seq!['t', 'o', 'o', 'l', '_', 'p', 'e', 'n', 'd', 'i', 'n', 'g', '_', 'b', 'g']);
        assert("tool_success_bg"@ =~= seq!['t', 'o', 'o', 'l', '_', 's', 'u', 'c', 'c', 'e', 's', 's', '_', 'b', 'g']);
        assert("tool_title"@ =~= seq!['t', 'o', 'o', 'l', '_', 't', 'i', 't', 'l', 'e']);
        assert("user_message_bg"@ =~= seq!['u', 's', 'e', 'r', '_', 'm', 'e', 's', 's', 'a', 'g', 'e', '_', 'b', 'g']);
        assert("user_message_text"@ =~= seq!['u', 's', 'e', 'r', '_', 'm', 'e', 's', 's', 'a', 'g', 'e', '_', 't', 'e', 'x', 't']);
        assert("warning"@ =~= seq!['w', 'a', 'r', 'n', 'i', 'n', 'g']);
        assert("working"@ =~= seq!['w', 'o', 'r', 'k', 'i', 'n', 'g']);
        let c = str_chars(color);
        let r =
        if chars_eq(&c, &str_chars("text")) {
            "38;2;212;212;212"
        } else if chars_eq(&c, &str_chars("dim")) {
            "38;2;102;102;102"
        } else if chars_eq(&c, &str_chars("muted")) {
            "38;2;128;128;128"
        } else if chars_eq(&c, &str_chars("accent")) {
            "38;2;138;190;183"
        } else if chars_eq(&c, &str_chars("success")) {
            "38;2;181;189;104"
        } else if chars_eq(&c, &str_chars("error")) {
            "38;2;204;102;102"
        } else if chars_eq(&c, &str_chars("warning")) {
            "38;2;255;255;0"
        } else if chars_eq(&c, &str_chars("user_message_text")) {
            "38;2;212;212;212"
        } else if chars_eq(&c, &str_chars("user_message_bg")) {
            "48;2;52;53;65"
        } else if chars_eq(&c, &str_chars("custom_message_text")) {
            "38;2;212;212;212"
        } else if chars_eq(&c, &str_chars("custom_message_label")) {
            "38;2;138;190;183"
        } else if chars_eq(&c, &str_chars("tool_title")) {
            "38;2;212;212;212"
        } else if chars_eq(&c, &str_chars("tool_output")) {
            "38;2;128;128;128"
        } else if chars_eq(&c, &str_chars("tool_pending_bg")) {
            "48;2;40;40;50"
        } else if chars_eq(&c, &str_chars("tool_success_bg")) {
            "48;2;40;50;40"
        } else if chars_eq(&c, &str_chars("tool_error_bg")) {
            "48;2;60;40;40"
        } else if chars_eq(&c, &str_chars("thinking_text")) {
            "38;2;128;128;128"
        } else if chars_eq(&c, &str_chars("thinking_bg")) {
            "48;2;44;44;54"
        } else if chars_eq(&c, &str_chars("border")) {
            "38;2;138;190;183"
        } else if chars_eq(&c, &str_chars("border_accent")) {
            "38;2;138;190;183"
        } else if chars_eq(&c, &str_chars("border_muted")) {
            "38;2;80;80;80"
        } else if chars_eq(&c, &str_chars("working")) {
            "38;2;128;128;128"
        } else if chars_eq(&c, &str_chars("idle")) {
            "38;2;80;80;80"
        } else {
            "39"
        };
        r
    }

    fn bg_code(&self, color: &str) -> (r: &'static str)
        ensures
            r@ == rab_bg_code(color@),
    {
        proof {
            reveal_strlit("38;2;102;102;102");
            reveal_strlit("38;2;128;128;128");
            reveal_strlit("38;2;138;190;183");
            reveal_strlit("38;2;181;189;104");
            reveal_strlit("38;2;204;102;102");
            reveal_strlit("38;2;212;212;212");
            reveal_strlit("38;2;255;255;0");
            reveal_strlit("38;2;80;80;80");
            reveal_strlit("39");
            reveal_strlit("48;2;40;40;50");
            reveal_strlit("48;2;40;50;40");
            reveal_strlit("48;2;44;44;54");
            reveal_strlit("48;2;52;53;65");
            reveal_strlit("48;2;60;40;40");
            reveal_strlit("49");
            reveal_strlit("accent");
            reveal_strlit("border");
            reveal_strlit("border_accent");
            reveal_strlit("border_muted");
            reveal_strlit("custom_message_label");
            reveal_strlit("custom_message_text");
            reveal_strlit("dim");
            reveal_strlit("error");
            reveal_strlit("idle");
            reveal_strlit("muted");
            reveal_strlit("selected_bg");
            reveal_strlit("success");
            reveal_strlit("text");
            reveal_strlit("thinking_bg");
            reveal_strlit("thinking_text");
            reveal_strlit("tool_error_bg");
            reveal_strlit("tool_output");
            reveal_strlit("tool_pending_bg");
            reveal_strlit("tool_success_bg");
            reveal_strlit("tool_title");
            reveal_strlit("user_message_bg");
            reveal_strlit("user_message_text");
            reveal_strlit("warning");
            reveal_strlit("working");
        }
        assert("38;2;102;102;102"@ =~= seq!['3', '8', ';', '2', ';', '1', '0', '2', ';', '1', '0', '2', ';', '1', '0', '2']);
        assert("38;2;128;128;128"@ =~= seq!['3', '8', ';', '2', ';', '1', '2', '8', ';', '1', '2', '8', ';', '1', '2', '8']);
        assert("38;2;138;190;183"@ =~= seq!['3', '8', ';', '2', ';', '1', '3', '8', ';', '1', '9', '0', ';', '1', '8', '3']);
        assert("38;2;181;189;104"@ =~= seq!['3', '8', ';', '2', ';', '1', '8', '1', ';', '1', '8', '9', ';', '1', '0', '4']);
        assert("38;2;204;102;102"@ =~= seq!['3', '8', ';', '2', ';', '2', '0', '4', ';', '1', '0', '2', ';', '1', '0', '2']);
        assert("38;2;212;212;212"@ =~= seq!['3', '8', ';', '2', ';', '2', '1', '2', ';', '2', '1', '2', ';', '2', '1', '2']);
        assert("38;2;255;255;0"@ =~= seq!['3', '8', ';', '2', ';', '2', '5', '5', ';', '2', '5', '5', ';', '0']);
        assert("38;2;80;80;80"@ =~= seq!['3', '8', ';', '2', ';', '8', '0', ';', '8', '0', ';', '8', '0']);
        assert("39"@ =~= seq!['3', '9']);
        assert("48;2;40;40;50"@ =~= seq!['4', '8', ';', '2', ';', '4', '0', ';', '4', '0', ';', '5', '0']);
        assert("48;2;40;50;40"@ =~= seq!['4', '8', ';', '2', ';', '4', '0', ';', '5', '0', ';', '4', '0']);
        assert("48;2;44;44;54"@ =~= seq!['4', '8', ';', '2', ';', '4', '4', ';', '4', '4', ';', '5', '4']);
        assert("48;2;52;53;65"@ =~= seq!['4', '8', ';', '2', ';', '5', '2', ';', '5', '3', ';', '6', '5']);
        assert("48;2;60;40;40"@ =~= seq!['4', '8', ';', '2', ';', '6', '0', ';', '4', '0', ';', '4', '0']);
        assert("49"@ =~= seq!['4', '9']);
        assert("accent"@ =~= seq!['a', 'c', 'c', 'e', 'n', 't']);
        assert("border"@ =~= seq!['b', 'o', 'r', 'd', 'e', 'r']);
        assert("border_accent"@ =~= seq!['b', 'o', 'r', 'd', 'e', 'r', '_', 'a', 'c', 'c', 'e', 'n', 't']);
        assert("border_muted"@ =~= seq!['b', 'o', 'r', 'd', 'e', 'r', '_', 'm', 'u', 't', 'e', 'd']);
        assert("custom_message_label"@ =~= seq!['c', 'u', 's', 't', 'o', 'm', '_', 'm', 'e', 's', 's', 'a', 'g', 'e', '_', 'l', 'a', 'b', 'e', 'l']);
        assert("custom_message_text"@ =~= seq!['c', 'u', 's', 't', 'o', 'm', '_', 'm', 'e', 's', 's', 'a', 'g', 'e', '_', 't', 'e', 'x', 't']);
        assert("dim"@ =~= seq!['d', 'i', 'm']);
        assert("error"@ =~= seq!['e', 'r', 'r', 'o', 'r']);
        assert("idle"@ =~= seq!['i', 'd', 'l', 'e']);
        assert("muted"@ =~= seq!['m', 'u', 't', 'e', 'd']);
        assert("selected_bg"@ =~= seq!['s', 'e', 'l', 'e', 'c', 't', 'e', 'd', '_', 'b', 'g']);
        assert("success"@ =~= seq!['s', 'u', 'c', 'c', 'e', 's', 's']);
        assert("text"@ =~= seq!['t', 'e', 'x', 't']);
        assert("thinking_bg"@ =~= seq!['t', 'h', 'i', 'n', 'k', 'i', 'n', 'g', '_', 'b', 'g']);
        assert("thinking_text"@ =~= seq!['t', 'h', 'i', 'n', 'k', 'i', 'n', 'g', '_', 't', 'e', 'x', 't']);
        assert("tool_error_bg"@ =~= seq!['t', 'o', 'o', 'l', '_', 'e', 'r', 'r', 'o', 'r', '_', 'b', 'g']);
        assert("tool_output"@ =~= seq!['t', 'o', 'o', 'l', '_', 'o', 'u', 't', 'p', 'u', 't']);
        assert("tool_pending_bg"@ =~= seq!['t', 'o', 'o', 'l', '_', 'p', 'e', 'n', 'd', 'i', 'n', 'g', '_', 'b', 'g']);
        assert("tool_success_bg"@ =~= seq!['t', 'o', 'o', 'l', '_', 's', 'u', 'c', 'c', 'e', 's', 's', '_', 'b', 'g']);
        assert("tool_title"@ =~= seq!['t', 'o', 'o', 'l', '_', 't', 'i', 't', 'l', 'e']);
        assert("user_message_bg"@ =~= seq!['u', 's', 'e', 'r', '_', 'm', 'e', 's', 's', 'a', 'g', 'e', '_', 'b', 'g']);
        assert("user_message_text"@ =~= seq!['u', 's', 'e', 'r', '_', 'm', 'e', 's', 's', 'a', 'g', 'e', '_', 't', 'e', 'x', 't']);
        assert("warning"@ =~= seq!['w', 'a', 'r', 'n', 'i', 'n', 'g']);
        assert("working"@ =~= seq!['w', 'o', 'r', 'k', 'i', 'n', 'g']);
        let c = str_chars(color);
        let r =
        if chars_eq(&c, &str_chars("selected_bg")) {
            "48;2;52;53;65"
        } else if chars_eq(&c, &str_chars("user_message_bg")) {
            "48;2;52;53;65"
        } else if chars_eq(&c, &str_chars("tool_pending_bg")) {
            "48;2;40;40;50"
        } else if chars_eq(&c, &str_chars("tool_success_bg")) {
            "48;2;40;50;40"
        } else if chars_eq(&c, &str_chars("tool_error_bg")) {
            "48;2;60;40;40"
        } else if chars_eq(&c, &str_chars("thinking_bg")) {
            "48;2;44;44;54"
        } else {
            "49"
        };
        r
    }
}

impl Theme for RabTheme {
    open spec fn fg_text(&self, color: Seq<char>, text: Seq<char>) -> Seq<char> {
        wrapped_in(rab_fg_code(color), text, seq!['3', '9'])
    }

    open spec fn bg_text(&self, color: Seq<char>, text: Seq<char>) -> Seq<char> {
        wrapped_in(rab_bg_code(color), text, seq!['4', '9'])
    }

    open spec fn inverse_text(&self, text: Seq<char>) -> Seq<char> {
        wrapped_in(seq!['7'], text, seq!['2', '7'])
    }

    fn fg(&self, color: &str, text: &str) -> (r: String)
        ensures
            r@ == wrapped_in(rab_fg_code(color@), text@, seq!['3', '9']),
    {
        let code = self.fg_code(color);
        let mut r = String::new();
        proof {
            reveal_strlit("39");
        }
        push_wrapped(&mut r, code, text, "39");
        assert("39"@ =~= seq!['3', '9']);
        r
    }

    fn bg(&self, color: &str, text: &str) -> (r: String)
        ensures
            r@ == wrapped_in(rab_bg_code(color@), text@, seq!['4', '9']),
    {
        let code = self.bg_code(color);
        let mut r = String::new();
        proof {
            reveal_strlit("49");
        }
        push_wrapped(&mut r, code, text, "49");
        assert("49"@ =~= seq!['4', '9']);
        r
    }

    fn bold(&self, text: &str) -> (r: String)
        ensures
            r@ == wrapped_in(seq!['1'], text@, seq!['2', '2']),
    {
        let mut r = String::new();
        proof {
            reveal_strlit("1");
            reveal_strlit("22");
        }
        push_wrapped(&mut r, "1", text, "22");
        assert("1"@ =~= seq!['1']);
        assert("22"@ =~= seq!['2', '2']);
        r
    }

    fn italic(&self, text: &str) -> (r: String)
        ensures
            r@ == wrapped_in(seq!['3'], text@, seq!['2', '3']),
    {
        let mut r = String::new();
        proof {
            reveal_strlit("3");
            reveal_strlit("23");
        }
        push_wrapped(&mut r, "3", text, "23");
        assert("3"@ =~= seq!['3']);
        assert("23"@ =~= seq!['2', '3']);
        r
    }

    fn inverse(&self, text: &str) -> (r: String)
        ensures
            r@ == wrapped_in(seq!['7'], text@, seq!['2', '7']),
    {
        let mut r = String::new();
        proof {
            reveal_strlit("7");
            reveal_strlit("27");
        }
        push_wrapped(&mut r, "7", text, "27");
        assert("7"@ =~= seq!['7']);
        assert("27"@ =~= seq!['2', '7']);
        r
    }
}

impl RabTheme {
    /// Text in the `accent` foreground colour.
    pub fn accent(&self, text: &str) -> (r: String)
        ensures
            r@ == wrapped_in(rab_fg_code(seq!['a', 'c', 'c', 'e', 'n', 't']), text@, seq!['3', '9']),
    {
        proof {
            reveal_strlit("accent");
        }
        assert("accent"@ =~= seq!['a', 'c', 'c', 'e', 'n', 't']);
        self.fg("accent", text)
    }

    /// Text in the `dim` foreground colour.
    pub fn dim(&self, text: &str) -> (r: String)
        ensures
            r@ == wrapped_in(rab_fg_code(seq!['d', 'i', 'm']), text@, seq!['3', '9']),
    {
        proof {
            reveal_strlit("dim");
        }
        assert("dim"@ =~= seq!['d', 'i', 'm']);
        self.fg("dim", text)
    }

    /// Text in the `muted` foreground colour.
    pub fn muted(&self, text: &str) -> (r: String)
        ensures
            r@ == wrapped_in(rab_fg_code(seq!['m', 'u', 't', 'e', 'd']), text@, seq!['3', '9']),
    {
        proof {
            reveal_strlit("muted");
        }
        assert("muted"@ =~= seq!['m', 'u', 't', 'e', 'd']);
        self.fg("muted", text)
    }

    /// Text in the `success` foreground colour.
    pub fn success(&self, text: &str) -> (r: String)
        ensures
            r@ == wrapped_in(rab_fg_code(seq!['s', 'u', 'c', 'c', 'e', 's', 's']), text@, seq!['3', '9']),
    {
        proof {
            reveal_strlit("success");
        }
        assert("success"@ =~= seq!['s', 'u', 'c', 'c', 'e', 's', 's']);
        self.fg("success", text)
    }

    /// Text in the `error` foreground colour.
    pub fn error(&self, text: &str) -> (r: String)
        ensures
            r@ == wrapped_in(rab_fg_code(seq!['e', 'r', 'r', 'o', 'r']), text@, seq!['3', '9']),
    {
        proof {
            reveal_strlit("error");
        }
        assert("error"@ =~= seq!['e', 'r', 'r', 'o', 'r']);
        self.fg("error", text)
    }

    /// Text in the `text` foreground colour.
    pub fn text(&self, text: &str) -> (r: String)
        ensures
            r@ == wrapped_in(rab_fg_code(seq!['t', 'e', 'x', 't']), text@, seq!['3', '9']),
    {
        proof {
            reveal_strlit("text");
        }
        assert("text"@ =~= seq!['t', 'e', 'x', 't']);
        self.fg("text", text)
    }

    /// Text in the `border` foreground colour.
    pub fn border(&self, text: &str) -> (r: String)
        ensures
            r@ == wrapped_in(rab_fg_code(seq!['b', 'o', 'r', 'd', 'e', 'r']), text@, seq!['3', '9']),
    {
        proof {
            reveal_strlit("border");
        }
        assert("border"@ =~= seq!['b', 'o', 'r', 'd', 'e', 'r']);
        self.fg("border", text)
    }

    /// Text in the `user_message_bg` background colour.
    pub fn user_msg_bg(&self, text: &str) -> (r: String)
        ensures
            r@ == wrapped_in(rab_bg_code(seq!['u', 's', 'e', 'r', '_', 'm', 'e', 's', 's', 'a', 'g', 'e', '_', 'b', 'g']), text@, seq!['4', '9']),
    {
        proof {
            reveal_strlit("user_message_bg");
        }
        assert("user_message_bg"@ =~= seq!['u', 's', 'e', 'r', '_', 'm', 'e', 's', 's', 'a', 'g', 'e', '_', 'b', 'g']);
        self.bg("user_message_bg", text)
    }

    /// Text in the `thinking_bg` background colour.
    pub fn thinking_bg(&self, text: &str) -> (r: String)
        ensures
            r@ == wrapped_in(rab_bg_code(seq!['t', 'h', 'i', 'n', 'k', 'i', 'n', 'g', '_', 'b', 'g']), text@, seq!['4', '9']),
    {
        proof {
            reveal_strlit("thinking_bg");
        }
        assert("thinking_bg"@ =~= seq!['t', 'h', 'i', 'n', 'k', 'i', 'n', 'g', '_', 'b', 'g']);
        self.bg("thinking_bg", text)
    }

    /// Bold text.
    pub fn bold_text(&self, text: &str) -> (r: String)
        ensures
            r@ == wrapped_in(seq!['1'], text@, seq!['2', '2']),
    {
        self.bold(text)
    }
}

} // verus!
