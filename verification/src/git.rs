//! Commands for git.

use crate::cmd::{Command, CommandView, Continuation};
use crate::config::Repository;
use crate::text::{is_prefix, lines, lines_of, starts_with};
use vstd::prelude::*;
use vstd::string::StringExecFns;

verus! {

/// The command that clones a repository to its local path.
pub fn clone_repository(repository: &Repository) -> (command: Command)
    ensures
        command.is_basic("git clone "@ + repository.remote@ + " "@ + repository.local@, true),
{
    let mut raw = String::from_str("git clone ");
    raw.append(repository.remote.as_str());
    raw.append(" ");
    raw.append(repository.local.as_str());
    Command::basic_show(raw.as_str())
}

/// The text of the git command that does `action` with the branch that is
/// checked out, unless that is `master` or a detached head.
pub open spec fn branch_text(action: Seq<char>) -> Seq<char> {
    "git "@ + action
        + " origin $(git branch | grep -m1 \\* | grep -v \"master\" | grep -v \"HEAD detached\" | cut -c 3-)"@
}

/// The command that pulls the current branch of the repository in
/// `repo_dir`.
pub fn pull_repository(repo_dir: &str) -> (command: Command)
    ensures
        command@ == CommandView::within(branch_text("pull"@), repo_dir@),
{
    do_on_current_branch(repo_dir, "pull")
}

/// The command that pushes the current branch of the repository in
/// `repo_dir`.
pub fn push_repository(repo_dir: &str) -> (command: Command)
    ensures
        command@ == CommandView::within(branch_text("push"@), repo_dir@),
{
    do_on_current_branch(repo_dir, "push")
}

/// The command that has git do `action` with the current branch of the
/// repository in `repo_dir`: echoed, run in that directory, leaving the
/// caller where it was.
pub fn do_on_current_branch(repo_dir: &str, action: &str) -> (command: Command)
    ensures
        command@ == CommandView::within(branch_text(action@), repo_dir@),
{
    let mut raw = String::from_str("git ");
    raw.append(action);
    raw.append(
        " origin $(git branch | grep -m1 \\* | grep -v \"master\" | grep -v \"HEAD detached\" | cut -c 3-)",
    );
    Command::new(raw.as_str(), repo_dir, true, false, false, None, true)
}

/// The command that lists the branches and picks the current one: hidden,
/// silent and captured.
pub fn current_branch() -> (command: Command)
    ensures
        command@ == CommandView::captured("git branch"@, Continuation::CurrentBranch),
{
    proof {
        reveal_strlit("");
    }
    Command::new("git branch", "", false, true, true, Some(Continuation::CurrentBranch), true)
}

/// The first of `lines` that begins with a star; empty if none does.
pub open spec fn marked_line(lines: Seq<Seq<char>>) -> Seq<char>
    decreases lines.len(),
{
    if lines.len() == 0 {
        Seq::empty()
    } else if is_prefix(lines[0], "*"@) {
        lines[0]
    } else {
        marked_line(lines.drop_first())
    }
}

/// The line of the output of `git branch` that names the current branch,
/// star included; empty if there is none.
pub fn marked_branch(stdout: &str) -> (branch: String)
    ensures
        branch@ == marked_line(lines_of(stdout@)),
{
    let all = lines(stdout);
    let ghost texts = all.deep_view();
    let mut i: usize = 0;
    assert(texts.skip(0) =~= texts);
    while i < all.len()
        invariant
            i <= all.len(),
            texts == all.deep_view(),
            texts == lines_of(stdout@),
            marked_line(texts) == marked_line(texts.skip(i as int)),
        decreases all.len() - i,
    {
        if starts_with(all[i].as_str(), "*") {
            return all[i].clone();
        }
        assert(texts.skip(i as int).drop_first() =~= texts.skip(i + 1));
        i += 1;
    }
    String::new()
}

} // verus!
