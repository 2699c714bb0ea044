//! Commands that set up name resolution for the machine with dnsmasq.

use crate::brew;
use crate::cmd::Command;
use crate::text::joined;
use vstd::prelude::*;
use vstd::string::StringExecFns;

verus! {

/// The folder that holds one resolver file for each domain.
pub const RESOLVER_FOLDER: &'static str = "/etc/resolver";

/// The command that installs dnsmasq.
pub fn install() -> (command: Command)
    ensures
        command.is_basic("brew install dnsmasq"@, true),
{
    let mut names: Vec<&str> = Vec::new();
    names.push("dnsmasq");
    let command = brew::install_packages(names.as_slice());
    proof {
        reveal_strlit("brew install ");
        reveal_strlit("dnsmasq");
        reveal_strlit("brew install dnsmasq");
    }
    command
}

/// The command that restarts dnsmasq.
pub fn restart() -> (command: Command)
    ensures
        command.is_basic("brew services restart dnsmasq"@, true),
{
    let command = brew::restart_service("dnsmasq");
    proof {
        reveal_strlit("brew services restart ");
        reveal_strlit("dnsmasq");
        reveal_strlit("brew services restart dnsmasq");
    }
    command
}

/// The command that writes the configuration of dnsmasq: every name
/// under `domain` resolves to the address of the machine.
pub fn update(domain: &str, machine: &str) -> (command: Command)
    ensures
        command.is_basic(
            "sudo tee /usr/local/etc/dnsmasq.conf > /dev/null << EOF\naddress=/"@ + domain@
                + "/$(docker-machine ip "@ + machine@ + ")\nEOF"@,
            true,
        ),
{
    let mut raw = String::from_str(
        "sudo tee /usr/local/etc/dnsmasq.conf > /dev/null << EOF\naddress=/",
    );
    raw.append(domain);
    raw.append("/$(docker-machine ip ");
    raw.append(machine);
    raw.append(")\nEOF");
    Command::basic_show(raw.as_str())
}

/// The command that writes the resolver file of `domain`, which sends
/// its names to the local dnsmasq.
pub fn resolve(domain: &str) -> (command: Command)
    ensures
        command.is_basic(
            "sudo tee /etc/resolver/"@ + domain@
                + " > /dev/null << EOF\nnameserver 127.0.0.1\ndomain "@ + domain@ + "\nsearch "@
                + domain@ + "\nsearch_order 1\nEOF"@,
            true,
        ),
{
    let mut raw = String::from_str("sudo tee /etc/resolver/");
    raw.append(domain);
    raw.append(" > /dev/null << EOF\nnameserver 127.0.0.1\ndomain ");
    raw.append(domain);
    raw.append("\nsearch ");
    raw.append(domain);
    raw.append("\nsearch_order 1\nEOF");
    Command::basic_show(raw.as_str())
}

} // verus!
