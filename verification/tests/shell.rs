use turtle::cmd::{Command, Continuation};
use turtle::git;
use turtle::instr::Instruction;
use turtle::shell;
use turtle::shell::{Effect, Execution, Phase, Reply, Request};

/// A host that keeps a directory and a script of what each process does.
struct Host {
    cwd: String,
    missing: Vec<String>,
    failing: Vec<String>,
    broken: Vec<String>,
    spawned: Vec<(String, bool)>,
    entered: Vec<String>,
    shown: Vec<String>,
    reported: Vec<String>,
    printed: Vec<String>,
    exported: Vec<(String, String)>,
    stdout: String,
}

impl Host {
    fn new(cwd: &str) -> Host {
        Host {
            cwd: String::from(cwd),
            missing: Vec::new(),
            failing: Vec::new(),
            broken: Vec::new(),
            spawned: Vec::new(),
            entered: Vec::new(),
            shown: Vec::new(),
            reported: Vec::new(),
            printed: Vec::new(),
            exported: Vec::new(),
            stdout: String::new(),
        }
    }

    fn change(&mut self, dir: &str) -> Reply {
        self.entered.push(String::from(dir));
        if self.missing.iter().any(|m| m == dir) {
            return Reply::Refused { error: String::from("No such file or directory") };
        }
        if dir.starts_with('/') {
            self.cwd = String::from(dir);
        } else {
            self.cwd = format!("{}/{}", self.cwd, dir);
        }
        Reply::Changed { now: self.cwd.clone() }
    }

    fn take(&mut self, effect: &Effect) {
        match effect {
            Effect::Echo(text) => self.shown.push(text.clone()),
            Effect::Report(text) => self.reported.push(text.clone()),
            Effect::Print(text) => self.printed.push(text.clone()),
            Effect::Export { key, value } => self.exported.push((key.clone(), value.clone())),
        }
    }

    fn reply(&mut self, request: &Request) -> Reply {
        match request {
            Request::Finish { .. } => unreachable!(),
            Request::Enter { dir } => self.change(dir),
            Request::Restore { dir } => self.change(dir),
            Request::Spawn { raw, capture } => {
                self.spawned.push((raw.clone(), *capture));
                if self.broken.contains(raw) {
                    Reply::Broken { error: String::from("not found") }
                } else if self.failing.contains(raw) {
                    Reply::Failed {
                        status: String::from("Exited(1)"),
                        stderr: String::from("it went wrong"),
                    }
                } else {
                    Reply::Succeeded { stdout: self.stdout.clone() }
                }
            },
        }
    }

    fn run(&mut self, instruction: Instruction) -> (bool, String, Execution) {
        let (mut run, mut step) = Execution::start(instruction, &self.cwd.clone());
        loop {
            for effect in &step.effects {
                self.take(effect);
            }
            if let Request::Finish { success, output } = &step.request {
                return (*success, output.clone(), run);
            }
            let reply = self.reply(&step.request);
            step = run.react(reply);
        }
    }
}

impl shell::Host for Host {
    fn directory(&mut self) -> String {
        self.cwd.clone()
    }

    fn perform(&mut self, effect: &Effect) {
        self.take(effect);
    }

    fn answer(&mut self, request: &Request) -> Reply {
        self.reply(request)
    }
}

#[test]
fn test_run_command_pipe() {
    let command = Command::new(
        "echo julia",
        "..",
        true,
        false,
        true,
        Some(Continuation::CurrentBranch),
        false,
    );

    let mut host = Host::new("/home/turtle");
    host.stdout = String::from("hello\n* julia\n");
    let prev_dir = host.cwd.clone();
    let (success, output) = shell::run_command(&mut host, command);

    assert!(success);
    assert_eq!(output, "* julia");

    let back_dir = host.cwd.clone();
    assert_ne!(back_dir, prev_dir);
    assert_eq!(host.spawned, vec![(String::from("echo julia"), true)]);
    assert_eq!(host.shown, vec!["$ cd ..", "$ echo julia"]);
}

#[test]
fn test_run_command_no_pipe() {
    let command = Command::new(
        "echo ruby",
        "..",
        true,
        false,
        false,
        Some(Continuation::CurrentBranch),
        true,
    );

    let mut host = Host::new("/home/turtle");
    host.stdout = String::from("* ruby\n");
    let prev_dir = host.cwd.clone();
    let (success, output) = shell::run_command(&mut host, command);

    assert!(success);
    assert_eq!(output, "");

    let back_dir = host.cwd.clone();
    assert_eq!(back_dir, prev_dir);
    assert_eq!(host.spawned, vec![(String::from("echo ruby"), false)]);
}

#[test]
fn test_run_instruction() {
    let command = Command::basic_show("ls -la");
    let instruction = Instruction::basic(vec![command]);
    let mut host = Host::new("/home/turtle");
    let success = shell::run_instruction(&mut host, instruction);
    assert!(success);
    assert_eq!(host.spawned, vec![(String::from("ls -la"), false)]);
    assert_eq!(host.shown, vec!["$ ls -la"]);
    assert!(host.entered.is_empty());
}

#[test]
fn test_run_to_the_end() {
    let command = Command::basic_show("ls -la");
    let instruction = Instruction::basic(vec![command]);
    let mut host = Host::new("/home/turtle");
    let (success, _, run) = host.run(instruction);
    assert!(success);
    assert!(run.phase == Phase::Done);
    assert_eq!(run.index, 1);
    assert!(!run.should_terminate);
}

#[test]
fn test_run_nothing() {
    let mut host = Host::new("/");
    let (success, output, run) = host.run(Instruction::skip());
    assert!(success);
    assert_eq!(output, "");
    assert_eq!(run.index, 0);

    let (success, _, run) = host.run(Instruction::basic(vec![
        Command::basic_hide(""),
        Command::new("", "", true, true, true, None, false),
    ]));
    assert!(success);
    assert_eq!(run.index, 2);
    assert!(host.spawned.is_empty());
    assert!(host.entered.is_empty());
    assert!(host.shown.is_empty());
}

#[test]
fn test_run_terminate_flag() {
    let mut host = Host::new("/");
    host.failing.push(String::from("echo \"goodbye!\""));
    let (success, _, run) = host.run(Instruction::terminate());
    assert!(!success);
    assert!(run.should_terminate);
}

#[test]
fn test_fail_fast() {
    let commands = vec![
        Command::basic_show("first"),
        Command::basic_show("second"),
        Command::basic_show("third"),
    ];
    let mut host = Host::new("/home/turtle");
    host.failing.push(String::from("first"));
    let success = shell::run_instruction(&mut host, Instruction::basic(commands));
    assert!(!success);
    assert_eq!(host.spawned.len(), 1);
    assert_eq!(host.spawned[0].0, "first");
    assert_eq!(host.reported, vec!["--> failed with exit status = Exited(1)"]);
}

#[test]
fn test_all_commands_run_in_order() {
    let commands = vec![
        Command::basic_show("first"),
        Command::basic_hide("second"),
        Command::basic_show("third"),
    ];
    let mut host = Host::new("/home/turtle");
    let success = shell::run_instruction(&mut host, Instruction::basic(commands));
    assert!(success);
    let ran: Vec<&str> = host.spawned.iter().map(|s| s.0.as_str()).collect();
    assert_eq!(ran, vec!["first", "second", "third"]);
    assert_eq!(host.shown, vec!["$ first", "$ third"]);
}

#[test]
fn test_fail_in_the_middle() {
    let commands = vec![
        Command::basic_hide("first"),
        Command::new("second", "sub", false, true, true, None, true),
        Command::basic_hide("third"),
    ];
    let mut host = Host::new("/home/turtle");
    host.broken.push(String::from("second"));
    let (success, _, run) = host.run(Instruction::basic(commands));
    assert!(!success);
    assert_eq!(run.index, 1);
    assert_eq!(host.spawned.len(), 2);
    assert_eq!(host.cwd, "/home/turtle");
    assert!(host.reported.is_empty());
    assert!(host.shown.is_empty());

    let mut run = run;
    let step = run.react(Reply::Succeeded { stdout: String::from("late") });
    assert!(matches!(step.request, Request::Finish { success: false, .. }));
    assert!(step.effects.is_empty());
    assert_eq!(run.index, 1);
}

#[test]
fn test_directory_restored() {
    for fails in [false, true] {
        let command = Command::new("make", "some/subdir", true, false, false, None, true);
        let mut host = Host::new("/home/turtle");
        if fails {
            host.failing.push(String::from("make"));
        }
        let (success, _) = shell::run_command(&mut host, command);
        assert_eq!(success, !fails);
        assert_eq!(host.cwd, "/home/turtle");
        assert_eq!(host.entered, vec!["some/subdir", "/home/turtle"]);
    }
}

#[test]
fn test_directory_kept_without_back() {
    let command = Command::new("", "..", false, false, false, None, false);
    let mut host = Host::new("/home/turtle");
    let (success, output, _) = host.run(Instruction::basic(vec![command]));
    assert!(success);
    assert_eq!(output, "");
    assert_eq!(host.cwd, "/home/turtle/..");
    assert_eq!(host.entered, vec![".."]);
    assert!(host.spawned.is_empty());
}

#[test]
fn test_directory_refused() {
    let commands = vec![
        Command::new("make", "nowhere", true, false, false, None, true),
        Command::basic_show("after"),
    ];
    let mut host = Host::new("/home/turtle");
    host.missing.push(String::from("nowhere"));
    let (success, output, _) = host.run(Instruction::basic(commands));
    assert!(!success);
    assert_eq!(output, "");
    assert!(host.spawned.is_empty());
    assert_eq!(host.entered, vec!["nowhere"]);
    assert_eq!(host.shown, vec!["$ cd nowhere"]);
    assert_eq!(
        host.reported,
        vec!["--> cannot change directory to [ nowhere ]: No such file or directory"]
    );

    let mut host = Host::new("/home/turtle");
    host.missing.push(String::from("nowhere"));
    let quiet = Command::new("make", "nowhere", false, true, false, None, true);
    let (success, _, _) = host.run(Instruction::basic(vec![quiet]));
    assert!(!success);
    assert!(host.reported.is_empty());
}

#[test]
fn test_piped_failure_shows_errors() {
    let command = Command::new("make", "", false, false, true, None, true);
    let mut host = Host::new("/");
    host.failing.push(String::from("make"));
    host.stdout = String::from("partly done");
    let (success, output, _) = host.run(Instruction::basic(vec![command]));
    assert!(!success);
    assert_eq!(output, "");
    assert_eq!(host.printed, vec!["it went wrong"]);
    assert_eq!(host.reported, vec!["--> failed with exit status = Exited(1)"]);

    let mut host = Host::new("/");
    host.broken.push(String::from("make"));
    let command = Command::new("make", "", false, false, true, None, true);
    let (success, _, _) = host.run(Instruction::basic(vec![command]));
    assert!(!success);
    assert_eq!(host.reported, vec!["--> execute error: not found"]);
}

#[test]
fn test_piped_output_is_kept() {
    let commands = vec![
        Command::new("one", "", false, false, true, None, true),
        Command::new("two", "", false, false, true, None, true),
    ];
    let mut host = Host::new("/");
    host.stdout = String::from("captured\n");
    let (success, output, _) = host.run(Instruction::basic(commands));
    assert!(success);
    assert_eq!(output, "captured\n");
}

#[test]
fn test_continuation_can_fail_a_command() {
    let commands = vec![
        turtle::docker::status_services("forest", "compose.yml"),
        Command::basic_show("after"),
    ];
    let mut host = Host::new("/");
    host.stdout = String::from("not a status line\n");
    let (success, output, _) = host.run(Instruction::basic(commands));
    assert!(!success);
    assert_eq!(output, "unexpected output line: not a status line");
    assert_eq!(host.spawned.len(), 1);
    assert!(host.printed.is_empty());
}

#[test]
fn test_status_table_is_printed() {
    let mut host = Host::new("/");
    host.stdout = String::from("a||running||img||t\n");
    let (success, output, _) =
        host.run(Instruction::basic(vec![turtle::docker::status_services("forest", "c.yml")]));
    assert!(success);
    assert_eq!(host.printed, vec![output.clone()]);
    assert!(output.starts_with("SERVICE \tSTATUS   \tIMAGE   \tCREATED AT\na       \t"));
    assert!(output.ends_with(" running\timg     \tt"));
}

#[test]
fn test_exports_are_set() {
    let machine = turtle::config::Machine {
        name: String::from("turtle"),
        dns: String::new(),
        cpu_count: 1,
        disk_size: 1,
        memory: 1,
    };
    let mut host = Host::new("/");
    host.stdout = String::from("export A=\"1\"\n# comment\nexport B=two\n");
    let (success, output, _) =
        host.run(Instruction::basic(vec![turtle::docker::load_environments(&machine)]));
    assert!(success);
    assert_eq!(output, "A=1\nB=two");
    assert_eq!(host.printed, vec!["export A=\"1\"", "export B=two"]);
    assert_eq!(
        host.exported,
        vec![(String::from("A"), String::from("1")), (String::from("B"), String::from("two"))]
    );
}

#[test]
fn test_current_git_branch() {
    let mut host = Host::new("/home/turtle");
    host.stdout = String::from("  master\n* feature\n");
    assert_eq!(shell::current_git_branch(&mut host), "* feature");
    assert_eq!(host.spawned, vec![(String::from("git branch"), true)]);
    assert!(host.shown.is_empty());

    let mut host = Host::new("/home/turtle");
    host.failing.push(String::from("git branch"));
    host.stdout = String::from("* feature\n");
    assert_eq!(shell::current_git_branch(&mut host), "");
    assert!(host.reported.is_empty());
    assert!(host.printed.is_empty());

    let mut host = Host::new("/home/turtle");
    host.failing.push(String::from("git branch"));
    let (success, branch, _) = host.run(Instruction::basic(vec![git::current_branch()]));
    assert!(!success);
    assert_eq!(branch, "");
}

#[test]
fn test_unexpected_reply_fails_the_command() {
    let command = Command::new("make", "sub", false, false, false, None, true);
    let (mut run, step) = Execution::start(Instruction::basic(vec![command]), "/");
    assert!(matches!(step.request, Request::Enter { .. }));
    let step = run.react(Reply::Succeeded { stdout: String::new() });
    assert!(matches!(step.request, Request::Finish { success: false, .. }));
}
