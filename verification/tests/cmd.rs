use turtle::brew::{install_brew, install_packages, restart_service};
use turtle::cmd::{Command, Continuation};
use turtle::dns;
use turtle::instr::Instruction;

#[test]
fn test_new_command() {
    let raw = "pwd";
    let dir = "/tmp";
    let show = true;
    let silent = false;
    let pipe = true;
    let exec = Continuation::CurrentBranch;
    let back = true;

    let command = Command::new(raw, dir, show, silent, pipe, Some(exec), back);
    assert_eq!(command.raw, raw);
    assert_eq!(command.dir, dir);
    assert_eq!(command.show, show);
    assert_eq!(command.silent, silent);
    assert_eq!(command.pipe, pipe);
    assert!(command.continuation.is_some());
    assert_eq!(command.back, back);

    let continuation = &command.continuation.expect("continuation is None");
    let (success, output) = continuation.apply("* rust");
    assert!(success);
    assert_eq!(output, "* rust");
}

#[test]
fn test_basic_command() {
    let raw = "cat test.txt";
    let command = Command::basic_hide(raw);

    assert_eq!(command.raw, raw);
    assert_eq!(command.dir, "");
    assert!(!command.show);
    assert!(!command.pipe);
    assert!(command.continuation.is_none());
    assert!(command.back);
}

#[test]
fn test_basic_show_command() {
    let command = Command::basic_show("ls");
    assert_eq!(command.raw, "ls");
    assert_eq!(command.dir, "");
    assert!(command.show);
    assert!(!command.silent);
    assert!(!command.pipe);
    assert!(command.continuation.is_none());
    assert!(command.back);
}

#[test]
fn test_echo_command() {
    let command = Command::echo("hello, i'm turtle");
    let expect = r#"echo "hello, i'm turtle""#;

    assert_eq!(command.raw, expect);
    assert!(command.dir.is_empty());
    assert!(!command.show);
    assert!(!command.pipe);
    assert!(command.continuation.is_none());
    assert!(command.back);
}

#[test]
fn test_command_equality() {
    let base = Command::new("ls", "/tmp", true, false, true, Some(Continuation::Exports), true);
    let same = Command::new("ls", "/tmp", true, false, true, Some(Continuation::StatusTable), true);
    assert_eq!(base, same);

    let others = [
        Command::new("ls -l", "/tmp", true, false, true, Some(Continuation::Exports), true),
        Command::new("ls", "/", true, false, true, Some(Continuation::Exports), true),
        Command::new("ls", "/tmp", false, false, true, Some(Continuation::Exports), true),
        Command::new("ls", "/tmp", true, true, true, Some(Continuation::Exports), true),
        Command::new("ls", "/tmp", true, false, false, Some(Continuation::Exports), true),
        Command::new("ls", "/tmp", true, false, true, None, true),
        Command::new("ls", "/tmp", true, false, true, Some(Continuation::Exports), false),
    ];
    for other in &others {
        assert_ne!(&base, other);
    }
}

#[test]
fn test_skip() {
    let instruction = Instruction::skip();
    assert!(instruction.commands.is_empty());
    assert!(!instruction.should_terminate);
}

#[test]
fn test_terminate() {
    let instruction = Instruction::terminate();
    assert!(instruction.should_terminate);

    let commands = &instruction.commands;
    assert_eq!(commands.len(), 1);

    let expect = Command::echo("goodbye!");
    assert_eq!(&commands[0], &expect);
}

#[test]
fn test_echo() {
    let message = "this is a test";

    let instruction = Instruction::echo(message);
    assert!(!instruction.should_terminate);

    let commands = &instruction.commands;
    assert_eq!(commands.len(), 1);

    let expect = Command::echo(message);
    assert_eq!(&commands[0], &expect);
}

#[test]
fn test_instruction_equality() {
    let one = || Instruction::basic(vec![Command::echo("a"), Command::basic_show("b")]);
    assert_eq!(one(), one());
    assert_ne!(one(), Instruction::new(vec![Command::echo("a"), Command::basic_show("b")], true));
    assert_ne!(one(), Instruction::basic(vec![Command::echo("a")]));
    assert_ne!(one(), Instruction::basic(vec![Command::echo("a"), Command::basic_hide("b")]));
    assert_eq!(Instruction::skip(), Instruction::new(Vec::new(), false));
}

#[test]
fn test_install_brew() {
    let command = install_brew();
    let raw = "/usr/bin/ruby -e \"$(curl -fsSL \
               https://raw.githubusercontent.com/Homebrew/install/master/install)\"";

    let expect = Command::basic_show(raw);
    assert_eq!(command, expect);
}

#[test]
fn test_install_packages() {
    let names = ["dnsmasq", "docker"];
    let command = install_packages(&names);

    let raw = "brew install dnsmasq docker";
    let expect = Command::basic_show(raw);
    assert_eq!(command, expect);
}

#[test]
fn test_restart_service() {
    let command = restart_service("mongodb");
    let raw = "brew services restart mongodb";

    let expect = Command::basic_show(&raw);
    assert_eq!(command, expect);
}

#[test]
fn test_install_dns() {
    let command = dns::install();
    let expect = install_packages(&["dnsmasq"]);
    assert_eq!(command, expect);
}

#[test]
fn test_restart_dns() {
    let command = dns::restart();
    let expect = restart_service("dnsmasq");
    assert_eq!(command, expect);
}

#[test]
fn test_update_dns() {
    let command = dns::update("dev.turtle.co", "turtle");
    let raw = "sudo tee /usr/local/etc/dnsmasq.conf > /dev/null << EOF\n\
               address=/dev.turtle.co/$(docker-machine ip turtle)\n\
               EOF";

    let expect = Command::basic_show(&raw);
    assert_eq!(command, expect);
}

#[test]
fn test_resolve_dns() {
    let command = dns::resolve("dev.turtle.co");
    let raw = "sudo tee /etc/resolver/dev.turtle.co > /dev/null << EOF\n\
               nameserver 127.0.0.1\n\
               domain dev.turtle.co\n\
               search dev.turtle.co\n\
               search_order 1\n\
               EOF";

    let expect = Command::basic_show(&raw);
    assert_eq!(command, expect);
    assert_eq!(dns::RESOLVER_FOLDER, "/etc/resolver");
}
