//! The prompt of the shell.

use crate::decr::{bold, bold_code, cyan_on, green_on, reset, reset_code, turns_on, yellow_on};
use vstd::prelude::*;
use vstd::string::StringExecFns;

verus! {

/// The prompt for a directory and a branch, with the given codes for
/// cyan, green and yellow: bold and in cyan an arrow and the directory, in
/// green the branch if there is one, in yellow a tilde, and the reset
/// sequence.
pub open spec fn message_of(
    dir: Seq<char>,
    branch: Seq<char>,
    cyan: Seq<char>,
    green: Seq<char>,
    yellow: Seq<char>,
) -> Seq<char> {
    bold_code() + cyan + "➜ "@ + dir + (if branch.len() == 0 {
        Seq::empty()
    } else {
        green + " "@ + branch
    }) + yellow + " ~ "@ + reset_code()
}

/// The prompt that shows the directory `dir` and the branch `branch`. The
/// colours are those of this terminal: each is its escape sequence, or
/// nothing where colours are switched off.
pub fn message(dir: &str, branch: &str) -> (text: String)
    ensures
        exists|cyan: Seq<char>, green: Seq<char>, yellow: Seq<char>|
            turns_on(cyan, 6) && turns_on(green, 2) && turns_on(yellow, 3) && text@
                == message_of(dir@, branch@, cyan, green, yellow),
{
    let cyan = cyan_on();
    let green = green_on();
    let yellow = yellow_on();
    let mut text = bold();
    text.append(cyan.as_str());
    text.append("➜ ");
    text.append(dir);
    if !branch.is_empty() {
        text.append(green.as_str());
        text.append(" ");
        text.append(branch);
    }
    text.append(yellow.as_str());
    text.append(" ~ ");
    let end = reset();
    text.append(end.as_str());
    assert(text@ == message_of(dir@, branch@, cyan@, green@, yellow@));
    text
}

} // verus!
