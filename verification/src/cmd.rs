//! One external operation and how it is to be run.

use vstd::prelude::*;
use vstd::string::StringExecFns;

verus! {

/// What is done with the captured output of a command that succeeded.
#[derive(Clone, Copy, Debug)]
pub enum Continuation {
    /// Picks the line that `git branch` marks as the current branch.
    CurrentBranch,
    /// Reads the variable assignments that `docker-machine env` prints.
    Exports,
    /// Lays out the lines of `docker inspect` as a status table.
    StatusTable,
}

/// One external operation.
///
/// An empty `raw` runs nothing, an empty `dir` stays in the current
/// directory. `show` echoes the raw text before it runs, `silent` keeps
/// failures from being reported, `pipe` captures the standard output
/// instead of streaming it, `continuation` works on what was captured, and `back`
/// returns to the directory in which the operation began.
#[derive(Debug)]
pub struct Command {
    pub raw: String,
    pub dir: String,
    pub show: bool,
    pub silent: bool,
    pub pipe: bool,
    pub continuation: Option<Continuation>,
    pub back: bool,
}

/// A command as its texts and flags.
#[verifier::ext_equal]
pub struct CommandView {
    pub raw: Seq<char>,
    pub dir: Seq<char>,
    pub show: bool,
    pub silent: bool,
    pub pipe: bool,
    pub continuation: Option<Continuation>,
    pub back: bool,
}

impl CommandView {
    /// The plain command for `raw`, echoed or not as `show` says: it runs
    /// in the current directory, streams its output, reports failures, has
    /// no continuation and restores the directory.
    pub open spec fn basic(raw: Seq<char>, show: bool) -> CommandView {
        CommandView {
            raw,
            dir: Seq::empty(),
            show,
            silent: false,
            pipe: false,
            continuation: None,
            back: true,
        }
    }

    /// The command that prints `message`.
    pub open spec fn echo(message: Seq<char>) -> CommandView {
        CommandView::basic(Command::echo_text(message), false)
    }

    /// The command that only changes the directory to `dir` and stays
    /// there.
    pub open spec fn enter(dir: Seq<char>) -> CommandView {
        CommandView {
            raw: Seq::empty(),
            dir,
            show: false,
            silent: false,
            pipe: false,
            continuation: None,
            back: false,
        }
    }

    /// The echoed command that runs `raw` in `dir` and returns from there.
    pub open spec fn within(raw: Seq<char>, dir: Seq<char>) -> CommandView {
        CommandView {
            raw,
            dir,
            show: true,
            silent: false,
            pipe: false,
            continuation: None,
            back: true,
        }
    }

    /// The hidden, silent command that captures the output of `raw` and
    /// hands it to `continuation`.
    pub open spec fn captured(raw: Seq<char>, continuation: Continuation) -> CommandView {
        CommandView {
            raw,
            dir: Seq::empty(),
            show: false,
            silent: true,
            pipe: true,
            continuation: Some(continuation),
            back: true,
        }
    }
}

impl View for Command {
    type V = CommandView;

    open spec fn view(&self) -> CommandView {
        CommandView {
            raw: self.raw@,
            dir: self.dir@,
            show: self.show,
            silent: self.silent,
            pipe: self.pipe,
            continuation: self.continuation,
            back: self.back,
        }
    }
}

impl Command {
    /// A command with the given fields.
    pub fn new(
        raw: &str,
        dir: &str,
        show: bool,
        silent: bool,
        pipe: bool,
        continuation: Option<Continuation>,
        back: bool,
    ) -> (command: Self)
        ensures
            command@ == (CommandView {
                raw: raw@,
                dir: dir@,
                show,
                silent,
                pipe,
                continuation,
                back,
            }),
    {
        Command {
            raw: String::from_str(raw),
            dir: String::from_str(dir),
            show,
            silent,
            pipe,
            continuation,
            back,
        }
    }

    /// Whether this is the plain command for `raw`, echoed or not as `show`
    /// says.
    pub open spec fn is_basic(&self, raw: Seq<char>, show: bool) -> bool {
        self@ =~= CommandView::basic(raw, show)
    }

    /// The plain command for `raw`, not echoed.
    pub fn basic_hide(raw: &str) -> (command: Self)
        ensures
            command@ == CommandView::basic(raw@, false),
    {
        proof {
            reveal_strlit("");
        }
        Self::new(raw, "", false, false, false, None, true)
    }

    /// The plain command for `raw`, echoed before it runs.
    pub fn basic_show(raw: &str) -> (command: Self)
        ensures
            command@ == CommandView::basic(raw@, true),
    {
        proof {
            reveal_strlit("");
        }
        Self::new(raw, "", true, false, false, None, true)
    }

    /// The text of the shell command that prints `message`.
    pub open spec fn echo_text(message: Seq<char>) -> Seq<char> {
        "echo \""@ + message + "\""@
    }

    /// The command that prints `message`.
    pub fn echo(message: &str) -> (command: Self)
        ensures
            command@ == CommandView::echo(message@),
    {
        let mut raw = String::from_str("echo \"");
        raw.append(message);
        raw.append("\"");
        Self::basic_hide(raw.as_str())
    }

    /// Whether two commands agree in every field, where of the continuation
    /// only its presence counts.
    pub open spec fn same_as(&self, other: &Self) -> bool {
        &&& self.raw@ == other.raw@
        &&& self.dir@ == other.dir@
        &&& self.show == other.show
        &&& self.silent == other.silent
        &&& self.pipe == other.pipe
        &&& (self.continuation is Some) == (other.continuation is Some)
        &&& self.back == other.back
    }
}

impl PartialEq for Command {
    fn eq(&self, other: &Self) -> (r: bool) {
        self.raw == other.raw && self.dir == other.dir && self.show == other.show && self.silent
            == other.silent && self.pipe == other.pipe && self.continuation.is_some()
            == other.continuation.is_some() && self.back == other.back
    }
}

impl vstd::std_specs::cmp::PartialEqSpecImpl for Command {
    open spec fn obeys_eq_spec() -> bool {
        true
    }

    open spec fn eq_spec(&self, other: &Self) -> bool {
        self.same_as(other)
    }
}

} // verus!
