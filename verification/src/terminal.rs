//! The escape sequences that draw the screen. They come from termion; this
//! module states what each of them is.

use vstd::prelude::*;

verus! {

/// The character for the digit `d`.
pub open spec fn digit(d: nat) -> char
    recommends
        d < 10,
{
    ('0' as nat + d) as char
}

/// `n` written in decimal, without leading zeros.
pub open spec fn decimal(n: nat) -> Seq<char>
    decreases n,
{
    if n < 10 {
        seq![digit(n)]
    } else {
        decimal(n / 10).push(digit(n % 10))
    }
}

/// The sequence that moves the cursor to column `x` of row `y`, both
/// counted from one: `ESC [ y ; x H`.
pub open spec fn goto_sequence(x: u16, y: u16) -> Seq<char> {
    seq!['\x1b', '['] + decimal(y as nat) + seq![';'] + decimal(x as nat) + seq!['H']
}

/// The sequence that clears the row the cursor is in: `ESC [ 2 K`.
pub open spec fn clear_line_sequence() -> Seq<char> {
    seq!['\x1b', '[', '2', 'K']
}

/// The sequence that sets the text colour to black: `ESC [ 38 ; 5 ; 0 m`.
pub open spec fn fg_black_sequence() -> Seq<char> {
    seq!['\x1b', '[', '3', '8', ';', '5', ';', '0', 'm']
}

/// The sequence that sets the background to light white:
/// `ESC [ 48 ; 5 ; 15 m`.
pub open spec fn bg_light_white_sequence() -> Seq<char> {
    seq!['\x1b', '[', '4', '8', ';', '5', ';', '1', '5', 'm']
}

/// The sequence that sets the text colour back to the terminal's own:
/// `ESC [ 39 m`.
pub open spec fn fg_reset_sequence() -> Seq<char> {
    seq!['\x1b', '[', '3', '9', 'm']
}

/// The sequence that sets the background back to the terminal's own:
/// `ESC [ 49 m`.
pub open spec fn bg_reset_sequence() -> Seq<char> {
    seq!['\x1b', '[', '4', '9', 'm']
}

/// Formats `termion::cursor::Goto(x, y)`. Not proved: that the text is
/// `ESC [`, the row in decimal, `;`, the column in decimal and `H`. termion
/// takes the position as one-based and refuses `(0, 0)`.
#[verifier::external_body]
pub(crate) fn goto(x: u16, y: u16) -> (s: String)
    requires
        x != 0 || y != 0,
    ensures
        s@ == goto_sequence(x, y),
{
    format!("{}", termion::cursor::Goto(x, y))
}

/// Formats `termion::clear::CurrentLine`. Not proved: that the text is
/// `ESC [ 2 K`.
#[verifier::external_body]
pub(crate) fn clear_current_line() -> (s: String)
    ensures
        s@ == clear_line_sequence(),
{
    format!("{}", termion::clear::CurrentLine)
}

/// Formats `termion::color::Fg(termion::color::Black)`. Not proved: that the
/// text is `ESC [ 38 ; 5 ; 0 m`.
#[verifier::external_body]
pub(crate) fn fg_black() -> (s: String)
    ensures
        s@ == fg_black_sequence(),
{
    format!("{}", termion::color::Fg(termion::color::Black))
}

/// Formats `termion::color::Bg(termion::color::LightWhite)`. Not proved:
/// that the text is `ESC [ 48 ; 5 ; 15 m`.
#[verifier::external_body]
pub(crate) fn bg_light_white() -> (s: String)
    ensures
        s@ == bg_light_white_sequence(),
{
    format!("{}", termion::color::Bg(termion::color::LightWhite))
}

/// Formats `termion::color::Fg(termion::color::Reset)`. Not proved: that the
/// text is `ESC [ 39 m`.
#[verifier::external_body]
pub(crate) fn fg_reset() -> (s: String)
    ensures
        s@ == fg_reset_sequence(),
{
    format!("{}", termion::color::Fg(termion::color::Reset))
}

/// Formats `termion::color::Bg(termion::color::Reset)`. Not proved: that the
/// text is `ESC [ 49 m`.
#[verifier::external_body]
pub(crate) fn bg_reset() -> (s: String)
    ensures
        s@ == bg_reset_sequence(),
{
    format!("{}", termion::color::Bg(termion::color::Reset))
}

/// Calls `String::push`. Not proved: that `c` is added behind the last
/// character of `s` and nothing else changes.
#[verifier::external_body]
pub(crate) fn push_char(s: &mut String, c: char)
    ensures
        final(s)@ == old(s)@.push(c),
{
    s.push(c);
}

} // verus!
