//! Terminal colors.

use vstd::prelude::*;
use vstd::string::StringExecFns;

use crate::text;

verus! {

/// A color or weight of terminal text.
#[derive(Debug, Clone, Copy, PartialEq, Eq, Structural)]
pub enum Style {
    BoldCyan,
    BoldWhite,
    BoldGreen,
    BoldRed,
    BoldYellow,
    Yellow,
    Blue,
    Green,
    Red,
    Magenta,
    DarkGray,
    Dim,
}

/// The escape sequence that ends a style.
pub const RESET: &'static str = "\u{1b}[0m";

/// The escape sequence that starts a style.
pub open spec fn style_code(s: Style) -> Seq<char> {
    match s {
        Style::BoldCyan => "\u{1b}[1;36m"@,
        Style::BoldWhite => "\u{1b}[1;37m"@,
        Style::BoldGreen => "\u{1b}[1;32m"@,
        Style::BoldRed => "\u{1b}[1;31m"@,
        Style::BoldYellow => "\u{1b}[1;33m"@,
        Style::Yellow => "\u{1b}[33m"@,
        Style::Blue => "\u{1b}[34m"@,
        Style::Green => "\u{1b}[32m"@,
        Style::Red => "\u{1b}[31m"@,
        Style::Magenta => "\u{1b}[35m"@,
        Style::DarkGray => "\u{1b}[90m"@,
        Style::Dim => "\u{1b}[2m"@,
    }
}

fn code(s: Style) -> (r: &'static str)
    ensures
        r@ == style_code(s),
{
    match s {
        Style::BoldCyan => "\u{1b}[1;36m",
        Style::BoldWhite => "\u{1b}[1;37m",
        Style::BoldGreen => "\u{1b}[1;32m",
        Style::BoldRed => "\u{1b}[1;31m",
        Style::BoldYellow => "\u{1b}[1;33m",
        Style::Yellow => "\u{1b}[33m",
        Style::Blue => "\u{1b}[34m",
        Style::Green => "\u{1b}[32m",
        Style::Red => "\u{1b}[31m",
        Style::Magenta => "\u{1b}[35m",
        Style::DarkGray => "\u{1b}[90m",
        Style::Dim => "\u{1b}[2m",
    }
}

/// `s` in the style `style`, or plain where colors are off.
pub open spec fn styled(color: bool, style: Style, s: Seq<char>) -> Seq<char> {
    if color {
        style_code(style) + s + RESET@
    } else {
        s
    }
}

/// Without colors a text stays as it is. With them it stands behind the code of its
/// style, and the style ends behind it.
pub proof fn styles_wrap_the_text(style: Style, s: Seq<char>)
    ensures
        styled(false, style, s) == s,
        styled(true, style, s) == style_code(style) + s + "\u{1b}[0m"@,
        style is BoldCyan ==> style_code(style) == "\u{1b}[1;36m"@,
        style is BoldWhite ==> style_code(style) == "\u{1b}[1;37m"@,
        style is BoldGreen ==> style_code(style) == "\u{1b}[1;32m"@,
        style is BoldRed ==> style_code(style) == "\u{1b}[1;31m"@,
        style is BoldYellow ==> style_code(style) == "\u{1b}[1;33m"@,
        style is Yellow ==> style_code(style) == "\u{1b}[33m"@,
        style is Blue ==> style_code(style) == "\u{1b}[34m"@,
        style is Green ==> style_code(style) == "\u{1b}[32m"@,
        style is Red ==> style_code(style) == "\u{1b}[31m"@,
        style is Magenta ==> style_code(style) == "\u{1b}[35m"@,
        style is DarkGray ==> style_code(style) == "\u{1b}[90m"@,
        style is Dim ==> style_code(style) == "\u{1b}[2m"@,
{
}

/// `s` in the style `style`, or plain where colors are off.
pub fn col(color: bool, style: Style, s: &str) -> (r: String)
    ensures
        r@ == styled(color, style, s@),
{
    if color {
        let mut out = text::owned(code(style));
        out.append(s);
        out.append(RESET);
        out
    } else {
        text::owned(s)
    }
}

} // verus!
