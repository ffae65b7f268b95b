//! Coloured text for terminals, by ANSI escape sequences.

use vstd::prelude::*;
use vstd::string::StringExecFns;
use crate::util::text::same_text;

verus! {

/// The colours that a text can be set in.
#[derive(Debug, Clone, Copy, PartialEq, Eq, Structural)]
pub enum Color {
    Red,
    Green,
    Blue,
    Cyan,
    Magenta,
    Yellow,
}

/// The colour that `name` names: its initial or its full name in small
/// letters.
pub open spec fn color_named(name: Seq<char>) -> Option<Color> {
    if name == "r"@ || name == "red"@ {
        Some(Color::Red)
    } else if name == "g"@ || name == "green"@ {
        Some(Color::Green)
    } else if name == "b"@ || name == "blue"@ {
        Some(Color::Blue)
    } else if name == "c"@ || name == "cyan"@ {
        Some(Color::Cyan)
    } else if name == "m"@ || name == "magenta"@ {
        Some(Color::Magenta)
    } else if name == "y"@ || name == "yellow"@ {
        Some(Color::Yellow)
    } else {
        None
    }
}

/// The escape sequence that sets the foreground to `color`.
pub open spec fn fg_escape(color: Color) -> Seq<char> {
    match color {
        Color::Red => "\x1b[31m"@,
        Color::Green => "\x1b[32m"@,
        Color::Blue => "\x1b[34m"@,
        Color::Cyan => "\x1b[36m"@,
        Color::Magenta => "\x1b[35m"@,
        Color::Yellow => "\x1b[33m"@,
    }
}

/// The escape sequence that sets the background to `color`.
pub open spec fn bg_escape(color: Color) -> Seq<char> {
    match color {
        Color::Red => "\x1b[41m"@,
        Color::Green => "\x1b[42m"@,
        Color::Blue => "\x1b[44m"@,
        Color::Cyan => "\x1b[46m"@,
        Color::Magenta => "\x1b[45m"@,
        Color::Yellow => "\x1b[43m"@,
    }
}

/// `text` between the escape sequence `escape` and the sequence that
/// resets all attributes.
pub open spec fn wrapped(escape: Seq<char>, text: Seq<char>) -> Seq<char> {
    escape + text + "\x1b[0m"@
}

/// Reads the name of a colour.
pub fn color_from(name: &str) -> (color: Option<Color>)
    ensures
        color == color_named(name@),
{
    if same_text(name, "r") || same_text(name, "red") {
        Some(Color::Red)
    } else if same_text(name, "g") || same_text(name, "green") {
        Some(Color::Green)
    } else if same_text(name, "b") || same_text(name, "blue") {
        Some(Color::Blue)
    } else if same_text(name, "c") || same_text(name, "cyan") {
        Some(Color::Cyan)
    } else if same_text(name, "m") || same_text(name, "magenta") {
        Some(Color::Magenta)
    } else if same_text(name, "y") || same_text(name, "yellow") {
        Some(Color::Yellow)
    } else {
        None
    }
}

/// Puts `text` between `escape` and the reset sequence.
fn wrap(escape: &str, text: &str) -> (out: String)
    ensures
        out@ == wrapped(escape@, text@),
{
    let mut out = String::from_str(escape);
    out.append(text);
    out.append("\x1b[0m");
    out
}

/// `string` with its foreground set to the colour that `fg` names, or
/// `string` as it is where `fg` names no colour.
pub fn set_fg(string: &str, fg: &str) -> (out: String)
    ensures
        out@ == (match color_named(fg@) {
            Some(color) => wrapped(fg_escape(color), string@),
            None => string@,
        }),
{
    match color_from(fg) {
        Some(Color::Red) => wrap("\x1b[31m", string),
        Some(Color::Green) => wrap("\x1b[32m", string),
        Some(Color::Blue) => wrap("\x1b[34m", string),
        Some(Color::Cyan) => wrap("\x1b[36m", string),
        Some(Color::Magenta) => wrap("\x1b[35m", string),
        Some(Color::Yellow) => wrap("\x1b[33m", string),
        None => String::from_str(string),
    }
}

/// `string` with its background set to the colour that `bg` names, or
/// `string` as it is where `bg` names no colour.
pub fn set_bg(string: &str, bg: &str) -> (out: String)
    ensures
        out@ == (match color_named(bg@) {
            Some(color) => wrapped(bg_escape(color), string@),
            None => string@,
        }),
{
    match color_from(bg) {
        Some(Color::Red) => wrap("\x1b[41m", string),
        Some(Color::Green) => wrap("\x1b[42m", string),
        Some(Color::Blue) => wrap("\x1b[44m", string),
        Some(Color::Cyan) => wrap("\x1b[46m", string),
        Some(Color::Magenta) => wrap("\x1b[45m", string),
        Some(Color::Yellow) => wrap("\x1b[43m", string),
        None => String::from_str(string),
    }
}

} // verus!
