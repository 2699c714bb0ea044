//! Colours for text that is shown on a terminal.

use vstd::prelude::*;
use vstd::string::StringExecFns;

verus! {

/// The escape sequence that ends every colour and style.
pub open spec fn reset_code() -> Seq<char> {
    "\x1b[m"@
}

/// The escape sequence that makes text bold.
pub open spec fn bold_code() -> Seq<char> {
    "\x1b[1m"@
}

/// The escape sequence that turns the foreground to one of the eight
/// basic colours: 1 is red, 2 green, 3 yellow, 5 magenta, 6 cyan.
pub open spec fn colour_code(colour: nat) -> Seq<char> {
    "\x1b[38;5;"@ + crate::text::decimal(colour) + "m"@
}

/// Whether `code` is what turns the foreground to `colour` on this
/// terminal: the escape sequence, or nothing where colours are switched off.
pub open spec fn turns_on(code: Seq<char>, colour: nat) -> bool {
    code == colour_code(colour) || code.len() == 0
}

/// Whether `result` is `text` in the given colour: the code that turns the
/// colour on, or nothing, then the text, then the reset sequence.
pub open spec fn coloured(result: Seq<char>, text: Seq<char>, colour: nat) -> bool {
    exists|code: Seq<char>| turns_on(code, colour) && result == code + text + reset_code()
}

/// What termion prints for `color::Fg(color::Red)`: the sequence for
/// colour 1, or nothing when the environment switches colours off.
#[verifier::external_body]
pub(crate) fn red_on() -> (code: String)
    ensures
        turns_on(code@, 1),
{
    format!("{}", termion::color::Fg(termion::color::Red))
}

/// What termion prints for `color::Fg(color::Green)`: the sequence for
/// colour 2, or nothing when the environment switches colours off.
#[verifier::external_body]
pub(crate) fn green_on() -> (code: String)
    ensures
        turns_on(code@, 2),
{
    format!("{}", termion::color::Fg(termion::color::Green))
}

/// What termion prints for `color::Fg(color::Yellow)`: the sequence for
/// colour 3, or nothing when the environment switches colours off.
#[verifier::external_body]
pub(crate) fn yellow_on() -> (code: String)
    ensures
        turns_on(code@, 3),
{
    format!("{}", termion::color::Fg(termion::color::Yellow))
}

/// What termion prints for `color::Fg(color::Magenta)`: the sequence for
/// colour 5, or nothing when the environment switches colours off.
#[verifier::external_body]
pub(crate) fn magenta_on() -> (code: String)
    ensures
        turns_on(code@, 5),
{
    format!("{}", termion::color::Fg(termion::color::Magenta))
}

/// What termion prints for `color::Fg(color::Cyan)`: the sequence for
/// colour 6, or nothing when the environment switches colours off.
#[verifier::external_body]
pub(crate) fn cyan_on() -> (code: String)
    ensures
        turns_on(code@, 6),
{
    format!("{}", termion::color::Fg(termion::color::Cyan))
}

/// What termion prints for `style::Bold`: always the sequence for bold
/// text.
#[verifier::external_body]
pub(crate) fn bold() -> (code: String)
    ensures
        code@ == bold_code(),
{
    format!("{}", termion::style::Bold)
}

/// What termion prints for `style::Reset`: always the reset sequence.
#[verifier::external_body]
pub(crate) fn reset() -> (code: String)
    ensures
        code@ == reset_code(),
{
    format!("{}", termion::style::Reset)
}

/// `text` between the given code and the reset sequence.
fn paint(code: String, text: &str) -> (result: String)
    ensures
        result@ == code@ + text@ + reset_code(),
{
    let mut result = code;
    result.append(text);
    let end = reset();
    result.append(end.as_str());
    result
}

/// `text` in red.
pub fn red(text: &str) -> (result: String)
    ensures
        coloured(result@, text@, 1),
{
    paint(red_on(), text)
}

/// `text` in green.
pub fn green(text: &str) -> (result: String)
    ensures
        coloured(result@, text@, 2),
{
    paint(green_on(), text)
}

/// `text` in magenta.
pub fn magenta(text: &str) -> (result: String)
    ensures
        coloured(result@, text@, 5),
{
    paint(magenta_on(), text)
}

/// `text` in yellow.
pub fn yellow(text: &str) -> (result: String)
    ensures
        coloured(result@, text@, 3),
{
    paint(yellow_on(), text)
}

} // verus!
