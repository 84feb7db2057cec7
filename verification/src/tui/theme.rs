use vstd::prelude::*;

use anstyle::{Ansi256Color, AnsiColor, Color, RgbColor, Style};

use crate::text::decimal;

verus! {

/// A terminal colour.
#[derive(Debug, Clone, Copy, PartialEq, Eq, Structural)]
pub enum ColorSpec {
    /// The basic cyan of the 16-colour palette.
    Cyan,
    /// A colour of the 256-colour palette.
    Ansi256(u8),
    /// A 24-bit colour.
    Rgb(u8, u8, u8),
}

/// A terminal text style of the interface.
#[derive(Debug, Clone, Copy, PartialEq, Eq, Structural)]
pub enum TextStyle {
    /// Dimmed text.
    Muted,
    /// Bold text.
    Title,
    /// Text in a foreground colour.
    Fg(ColorSpec),
    /// Black text on a background colour.
    BlackOn(ColorSpec),
}

/// The escape sequence that selects a foreground colour.
pub open spec fn fg_code(c: ColorSpec) -> Seq<char> {
    match c {
        ColorSpec::Cyan => "\x1b[36m"@,
        ColorSpec::Ansi256(n) => "\x1b[38;5;"@ + decimal(n as nat) + "m"@,
        ColorSpec::Rgb(r, g, b) => "\x1b[38;2;"@ + decimal(r as nat) + ";"@ + decimal(g as nat) + ";"@
            + decimal(b as nat) + "m"@,
    }
}

/// The escape sequence that selects a background colour.
pub open spec fn bg_code(c: ColorSpec) -> Seq<char> {
    match c {
        ColorSpec::Cyan => "\x1b[46m"@,
        ColorSpec::Ansi256(n) => "\x1b[48;5;"@ + decimal(n as nat) + "m"@,
        ColorSpec::Rgb(r, g, b) => "\x1b[48;2;"@ + decimal(r as nat) + ";"@ + decimal(g as nat) + ";"@
            + decimal(b as nat) + "m"@,
    }
}

/// The escape sequence that switches a style on.
pub open spec fn style_open(style: TextStyle) -> Seq<char> {
    match style {
        TextStyle::Muted => "\x1b[2m"@,
        TextStyle::Title => "\x1b[1m"@,
        TextStyle::Fg(c) => fg_code(c),
        TextStyle::BlackOn(c) => "\x1b[30m"@ + bg_code(c),
    }
}

/// Text in a style: the style's escape sequence, the text, and the reset sequence.
pub open spec fn painted(style: TextStyle, text: Seq<char>) -> Seq<char> {
    style_open(style) + text + "\x1b[0m"@
}

/// Calls `anstyle::Style`'s `Display`, plain and alternate, around the text for
/// a style with only a foreground colour: anstyle writes the colour code, the
/// text, then the reset code `ESC[0m`.
#[verifier::external_body]
fn paint_fg(c: ColorSpec, text: &str) -> (r: String)
    ensures
        r@ == fg_code(c) + text@ + "\x1b[0m"@,
{
    let color: Color = match c {
        ColorSpec::Cyan => AnsiColor::Cyan.into(),
        ColorSpec::Ansi256(n) => Ansi256Color(n).into(),
        ColorSpec::Rgb(r, g, b) => RgbColor(r, g, b).into(),
    };
    let s = Style::new().fg_color(Some(color));
    format!("{s}{text}{s:#}")
}

/// Calls `anstyle::Style`'s `Display`, plain and alternate, around the text for
/// black on a background colour: anstyle writes the foreground code `ESC[30m`,
/// the background code, the text, then the reset code `ESC[0m`.
#[verifier::external_body]
fn paint_black_on(c: ColorSpec, text: &str) -> (r: String)
    ensures
        r@ == "\x1b[30m"@ + bg_code(c) + text@ + "\x1b[0m"@,
{
    let color: Color = match c {
        ColorSpec::Cyan => AnsiColor::Cyan.into(),
        ColorSpec::Ansi256(n) => Ansi256Color(n).into(),
        ColorSpec::Rgb(r, g, b) => RgbColor(r, g, b).into(),
    };
    let s = Style::new().fg_color(Some(AnsiColor::Black.into())).bg_color(Some(color));
    format!("{s}{text}{s:#}")
}

/// Calls `anstyle::Style`'s `Display`, plain and alternate, around the text for
/// the dimmed effect: `ESC[2m`, the text, then `ESC[0m`.
#[verifier::external_body]
fn paint_dimmed(text: &str) -> (r: String)
    ensures
        r@ == "\x1b[2m"@ + text@ + "\x1b[0m"@,
{
    let s = Style::new().dimmed();
    format!("{s}{text}{s:#}")
}

/// Calls `anstyle::Style`'s `Display`, plain and alternate, around the text for
/// the bold effect: `ESC[1m`, the text, then `ESC[0m`.
#[verifier::external_body]
fn paint_bold(text: &str) -> (r: String)
    ensures
        r@ == "\x1b[1m"@ + text@ + "\x1b[0m"@,
{
    let s = Style::new().bold();
    format!("{s}{text}{s:#}")
}

/// Writes a text in a style.
pub fn paint(style: TextStyle, text: &str) -> (r: String)
    ensures
        r@ == painted(style, text@),
{
    match style {
        TextStyle::Muted => paint_dimmed(text),
        TextStyle::Title => paint_bold(text),
        TextStyle::Fg(c) => paint_fg(c, text),
        TextStyle::BlackOn(c) => {
            let r = paint_black_on(c, text);
            assert(r@ =~= painted(style, text@));
            r
        },
    }
}

/// Panel border.
pub open spec fn border() -> TextStyle {
    TextStyle::Fg(ColorSpec::Ansi256(15))
}

/// Border of the focused panel.
pub open spec fn focused_border() -> TextStyle {
    TextStyle::Fg(ColorSpec::Ansi256(120))
}

/// Frequency rows.
pub open spec fn frequency() -> TextStyle {
    TextStyle::Fg(ColorSpec::Rgb(176, 223, 226))
}

/// The code part of a frequency label.
pub open spec fn frequency_code() -> TextStyle {
    TextStyle::Fg(ColorSpec::Ansi256(226))
}

/// The selected frequency row.
pub open spec fn frequency_selected() -> TextStyle {
    TextStyle::BlackOn(ColorSpec::Rgb(176, 223, 226))
}

/// The selected transaction row and the status bar.
pub open spec fn selected() -> TextStyle {
    TextStyle::BlackOn(ColorSpec::Cyan)
}

} // verus!
