//! Commands for the Homebrew package manager.

use crate::cmd::Command;
use crate::text::{join, joined};
use vstd::prelude::*;
use vstd::string::StringExecFns;

verus! {

/// The command that installs Homebrew itself.
pub fn install_brew() -> (command: Command)
    ensures
        command.is_basic(
            "/usr/bin/ruby -e \"$(curl -fsSL https://raw.githubusercontent.com/Homebrew/install/master/install)\""@,
            true,
        ),
{
    Command::basic_show(
        "/usr/bin/ruby -e \"$(curl -fsSL https://raw.githubusercontent.com/Homebrew/install/master/install)\"",
    )
}

/// The command that installs the packages with the given names.
pub fn install_packages(names: &[&str]) -> (command: Command)
    ensures
        command.is_basic("brew install "@ + joined(names.deep_view(), " "@), true),
{
    let mut raw = String::from_str("brew install ");
    let list = join(names, " ");
    raw.append(list.as_str());
    Command::basic_show(raw.as_str())
}

/// The command that restarts the service with the given name.
pub fn restart_service(name: &str) -> (command: Command)
    ensures
        command.is_basic("brew services restart "@ + name@, true),
{
    let mut raw = String::from_str("brew services restart ");
    raw.append(name);
    Command::basic_show(raw.as_str())
}

} // verus!
