//! The marks that switch the colour of what a terminal shows next.
//!
//! The marks themselves are made by the `termion` crate. What it writes for a colour is
//! a short escape sequence, and the two functions that ask for one are trusted to
//! return exactly that sequence.

use vstd::prelude::*;
use crate::highlighting::Color;

verus! {

/// The character for the decimal digit `d`.
pub open spec fn digit(d: int) -> char {
    ((48 + d) as u8) as char
}

/// `n` in decimal digits, without leading zeros.
pub open spec fn decimal(n: u8) -> Seq<char> {
    if n >= 100 {
        seq![digit(n as int / 100), digit(n as int / 10 % 10), digit(n as int % 10)]
    } else if n >= 10 {
        seq![digit(n as int / 10), digit(n as int % 10)]
    } else {
        seq![digit(n as int)]
    }
}

/// The mark that sets the colour of the text that follows: the escape character, then
/// `[38;2;`, the red, green and blue parts in decimal with `;` between them, and `m`.
pub open spec fn foreground_mark(color: Color) -> Seq<char> {
    seq!['\x1b', '[', '3', '8', ';', '2', ';'] + decimal(color.red) + seq![';'] + decimal(
        color.green,
    ) + seq![';'] + decimal(color.blue) + seq!['m']
}

/// The mark that sets the colour of the text that follows back to the terminal's own:
/// the escape character, then `[39m`.
pub open spec fn reset_mark() -> Seq<char> {
    seq!['\x1b', '[', '3', '9', 'm']
}

/// The mark that sets the colour of the text that follows.
///
/// Trusted. The body formats `termion::color::Fg` of a `termion::color::Rgb` with the
/// three parts of `color`. Assumed of it: `Rgb` writes the sequence that switches the
/// foreground to a colour given by its parts, which is `foreground_mark(color)`.
#[verifier::external_body]
pub(crate) fn foreground(color: Color) -> (mark: String)
    ensures
        mark@ == foreground_mark(color),
{
    format!("{}", termion::color::Fg(termion::color::Rgb(color.red, color.green, color.blue)))
}

/// The mark that sets the colour of the text that follows back to the terminal's own.
///
/// Trusted. The body formats `termion::color::Fg` of `termion::color::Reset`. Assumed
/// of it: `Reset` writes the sequence that restores the foreground, which is
/// `reset_mark()`.
#[verifier::external_body]
pub(crate) fn foreground_reset() -> (mark: String)
    ensures
        mark@ == reset_mark(),
{
    format!("{}", termion::color::Fg(termion::color::Reset))
}

} // verus!
