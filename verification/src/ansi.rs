//! The trusted fringe over the `colored` crate and over std's text
//! formatting: every item here is believed on the strength of the named
//! outside function, and nothing else in the library is.
//!
//! Whether a `ColoredString` prints with escape sequences depends on the
//! hosting terminal and on `colored`'s global override, so no contract here
//! claims anything of the printed form of a styled value.

use vstd::prelude::*;
use colored::Colorize;
use crate::text::decimal_chars;

verus! {

/// `colored::ColoredString`, declared so that library signatures can carry
/// it; its contents stay opaque to the verifier.
#[verifier::external_type_specification]
#[verifier::external_body]
pub struct ExColoredString(colored::ColoredString);

/// The styled value `Colorize::truecolor` builds from this text and this
/// 24-bit foreground color; it depends on the arguments alone.
pub uninterp spec fn truecolor_of(s: Seq<char>, r: u8, g: u8, b: u8) -> colored::ColoredString;

/// The styled value `Colorize::green` builds from this text; it depends on
/// the text alone.
pub uninterp spec fn green_of(s: Seq<char>) -> colored::ColoredString;

/// The styled value `Colorize::yellow` builds from this text; it depends on
/// the text alone.
pub uninterp spec fn yellow_of(s: Seq<char>) -> colored::ColoredString;

/// The styled value `Colorize::red` builds from this text; it depends on
/// the text alone.
pub uninterp spec fn red_of(s: Seq<char>) -> colored::ColoredString;

/// Relies on `Colorize::truecolor` for `&str`: builds the styled value of
/// the text and the 24-bit foreground color, a function of its arguments.
#[verifier::external_body]
pub(crate) fn truecolor_str(text: &str, r: u8, g: u8, b: u8) -> (cs: colored::ColoredString)
    ensures
        cs == truecolor_of(text@, r, g, b),
{
    text.truecolor(r, g, b)
}

/// Relies on `Colorize::truecolor` for `&str`, reached through the
/// one-character string of `c`: the same styled value that the text
/// wrapper builds from that string.
#[verifier::external_body]
pub(crate) fn truecolor_char(c: char, r: u8, g: u8, b: u8) -> (cs: colored::ColoredString)
    ensures
        cs == truecolor_of(seq![c], r, g, b),
{
    c.to_string().truecolor(r, g, b)
}

/// Relies on `Colorize::bold` for `ColoredString`: adds the bold attribute.
#[verifier::external_body]
pub(crate) fn style_bold(cs: colored::ColoredString) -> colored::ColoredString {
    cs.bold()
}

/// Relies on `Colorize::strikethrough` for `ColoredString`: adds the
/// strikethrough attribute.
#[verifier::external_body]
pub(crate) fn style_strikethrough(cs: colored::ColoredString) -> colored::ColoredString {
    cs.strikethrough()
}

/// Relies on `Colorize::underline` for `ColoredString`: adds the underline
/// attribute.
#[verifier::external_body]
pub(crate) fn style_underline(cs: colored::ColoredString) -> colored::ColoredString {
    cs.underline()
}

/// Relies on `Colorize::italic` for `ColoredString`: adds the italic
/// attribute.
#[verifier::external_body]
pub(crate) fn style_italic(cs: colored::ColoredString) -> colored::ColoredString {
    cs.italic()
}

/// Relies on `Colorize::green` for `&str`: builds the green-foreground
/// styled value of the text, a function of the text alone.
#[verifier::external_body]
pub(crate) fn green_str(text: &str) -> (cs: colored::ColoredString)
    ensures
        cs == green_of(text@),
{
    text.green()
}

/// Relies on `Colorize::yellow` for `&str`: builds the yellow-foreground
/// styled value of the text, a function of the text alone.
#[verifier::external_body]
pub(crate) fn yellow_str(text: &str) -> (cs: colored::ColoredString)
    ensures
        cs == yellow_of(text@),
{
    text.yellow()
}

/// Relies on `Colorize::red` for `&str`: builds the red-foreground styled
/// value of the text, a function of the text alone.
#[verifier::external_body]
pub(crate) fn red_str(text: &str) -> (cs: colored::ColoredString)
    ensures
        cs == red_of(text@),
{
    text.red()
}

/// Relies on `ColoredString`'s `Display` impl: writes the styled value out
/// as a string.
#[verifier::external_body]
pub(crate) fn colored_to_string(cs: colored::ColoredString) -> String {
    format!("{}", cs)
}

/// Relies on `char::to_string`: the one-character string holding `c`.
#[verifier::external_body]
pub(crate) fn char_to_string(c: char) -> (r: String)
    ensures
        r@ == seq![c],
{
    c.to_string()
}

/// Relies on `u64`'s `Display` impl: the decimal digits of `v`.
#[verifier::external_body]
pub(crate) fn u64_to_string(v: u64) -> (r: String)
    ensures
        r@ == decimal_chars(v as nat),
{
    v.to_string()
}

} // verus!
