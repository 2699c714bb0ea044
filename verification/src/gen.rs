//! The dispatcher: from a line of input to the instruction that carries it
//! out.

use crate::brew;
use crate::cmd::{Command, CommandView, Continuation};
use crate::config::{names_of, Config, Machine};
use crate::dns;
use crate::docker;
use crate::docker::{compose_text, create_machine_text, status_text};
use crate::git;
use crate::git::branch_text;
use crate::instr::{command_views, Instruction, InstructionView};
use crate::names::sorted;
use crate::text::{borrowed, join, joined, same, words, words_of};
use crate::util;
use crate::util::shortcut_applied;
use vstd::prelude::*;
use vstd::string::StringExecFns;

verus! {

/// Turns lines of input into instructions for one project.
///
/// `unsaved` says that the active selection was changed and that the
/// compose file and the configuration file have not been written since.
#[derive(Debug)]
pub struct Generator {
    pub config: Config,
    pub config_file: String,
    pub compose_file: String,
    pub unsaved: bool,
}

/// The message that names something unknown: `prefix`, the name and a
/// closing bracket.
pub open spec fn named_message(prefix: Seq<char>, name: Seq<char>) -> Seq<char> {
    prefix + name + " ]"@
}

/// The message that names something unknown.
fn name_message(prefix: &str, name: &str) -> (message: String)
    ensures
        message@ == named_message(prefix@, name@),
{
    let mut message = String::from_str(prefix);
    message.append(name);
    message.append(" ]");
    message
}

/// The words after the first as string slices.
fn rest_of<'a>(tokens: &'a Vec<String>) -> (rest: Vec<&'a str>)
    requires
        tokens.len() > 0,
    ensures
        rest.deep_view() == tokens.deep_view().skip(1),
{
    let mut out: Vec<&'a str> = Vec::new();
    let mut i: usize = 1;
    while i < tokens.len()
        invariant
            1 <= i <= tokens.len(),
            out.deep_view() == tokens.deep_view().subrange(1, i as int),
        decreases tokens.len() - i,
    {
        let ghost before = out.deep_view();
        out.push(tokens[i].as_str());
        assert(out.deep_view() =~= before.push(tokens[i as int]@));
        i += 1;
    }
    out
}

impl Config {
    /// The directory of the service that `name` stands for.
    pub open spec fn directory_named(&self, name: Seq<char>) -> Option<Seq<char>> {
        match self.service_named(name) {
            Some(service) => self.directory_of(service),
            None => None,
        }
    }

    /// The local path of the repository that `name` stands for, or of the
    /// repository that owns the service that `name` stands for.
    pub open spec fn checkout_named(&self, name: Seq<char>) -> Option<Seq<char>> {
        match self.repository_named(name) {
            Some(repository) => Some(repository.local@),
            None => match self.service_named(name) {
                Some(service) => match self.repository_named(service.repo@) {
                    Some(repository) => Some(repository.local@),
                    None => None,
                },
                None => None,
            },
        }
    }

    /// The first of `names` that does not stand for a group.
    pub open spec fn unknown_group(&self, names: Seq<Seq<char>>) -> Option<Seq<char>>
        decreases names.len(),
    {
        if names.len() == 0 {
            None
        } else if self.group_named(names[0]) is None {
            Some(names[0])
        } else {
            self.unknown_group(names.drop_first())
        }
    }
}

impl Generator {
    /// A generator for the project `project` with the given configuration,
    /// whose files lie in `config_dir`.
    pub fn new(config_dir: &str, project: &str, config: Config) -> (generator: Self)
        ensures
            generator.config == config,
            generator.config_file@ == config_dir@ + "/"@ + project@ + ".config.toml"@,
            generator.compose_file@ == config_dir@ + "/"@ + project@ + ".compose.yml"@,
            !generator.unsaved,
    {
        Generator {
            config,
            config_file: util::config_file(config_dir, project),
            compose_file: util::compose_file(config_dir, project),
            unsaved: false,
        }
    }

    /// The docker-compose command of this project that does `action`.
    pub open spec fn compose(&self, action: Seq<char>) -> CommandView {
        CommandView::basic(compose_text(action, self.config.project@, self.compose_file@), true)
    }

    /// The instruction for `quit` and `exit`.
    pub fn terminate(&self) -> (instruction: Instruction)
        ensures
            instruction@ == InstructionView::terminate(),
    {
        Instruction::terminate()
    }

    /// What `install` does: it installs Homebrew if `brew` is among the
    /// names, else the packages with the given names.
    pub open spec fn install_view(args: Seq<Seq<char>>) -> InstructionView {
        if args.contains("brew"@) {
            InstructionView::one(
                CommandView::basic(
                    "/usr/bin/ruby -e \"$(curl -fsSL https://raw.githubusercontent.com/Homebrew/install/master/install)\""@,
                    true,
                ),
            )
        } else {
            InstructionView::one(CommandView::basic("brew install "@ + joined(args, " "@), true))
        }
    }

    /// The instruction for `install`.
    pub fn install(&self, args: &[&str]) -> (instruction: Instruction)
        ensures
            instruction@ == Self::install_view(args.deep_view()),
    {
        let command = if crate::config::listed_in(args, "brew") {
            brew::install_brew()
        } else {
            brew::install_packages(args)
        };
        Instruction::one(command)
    }

    /// What `cd` does: it enters the first of `args` and stays there.
    pub open spec fn change_directory_view(args: Seq<Seq<char>>) -> InstructionView {
        if args.len() > 0 {
            InstructionView::one(CommandView::enter(args[0]))
        } else {
            InstructionView::skip()
        }
    }

    /// The instruction for `cd`.
    pub fn change_directory(&self, args: &[&str]) -> (instruction: Instruction)
        ensures
            instruction@ == Self::change_directory_view(args.deep_view()),
    {
        proof {
            reveal_strlit("");
        }
        if args.len() > 0 {
            let command = Command::new("", args[0], false, false, false, None, false);
            assert(command@ =~= CommandView::enter(args[0]@));
            Instruction::one(command)
        } else {
            Instruction::skip()
        }
    }

    /// What `goto` does: it enters the directory of the service that the
    /// first of `args` names, else the local path of the repository that
    /// it names, and says so if it names neither.
    pub open spec fn goto_view(&self, args: Seq<Seq<char>>) -> InstructionView {
        if args.len() == 0 {
            InstructionView::skip()
        } else {
            match self.config.directory_named(args[0]) {
                Some(dir) => InstructionView::one(CommandView::enter(dir)),
                None => match self.config.repository_named(args[0]) {
                    Some(repository) => InstructionView::one(CommandView::enter(repository.local@)),
                    None => InstructionView::echo(
                        named_message("--> unknown service or repository [ "@, args[0]),
                    ),
                },
            }
        }
    }

    /// The instruction for `goto`.
    pub fn goto(&self, args: &[&str]) -> (instruction: Instruction)
        ensures
            instruction@ == self.goto_view(args.deep_view()),
    {
        if args.len() == 0 {
            return Instruction::skip();
        }
        let name = args[0];
        match self.config.search_service_directory(name) {
            Some(dir) => {
                let mut one: Vec<&str> = Vec::new();
                one.push(dir.as_str());
                return self.change_directory(one.as_slice());
            },
            None => {},
        }
        match self.config.search_repository(name) {
            Some(repository) => {
                let mut one: Vec<&str> = Vec::new();
                one.push(repository.local.as_str());
                return self.change_directory(one.as_slice());
            },
            None => {},
        }
        let message = name_message("--> unknown service or repository [ ", name);
        Instruction::echo(message.as_str())
    }

    /// The command that clones the repository that `name` stands for, or
    /// that says that there is none.
    pub open spec fn clone_command(&self, name: Seq<char>) -> CommandView {
        match self.config.repository_named(name) {
            Some(repository) => CommandView::basic(
                "git clone "@ + repository.remote@ + " "@ + repository.local@,
                true,
            ),
            None => CommandView::echo(named_message("--> unknown repository [ "@, name)),
        }
    }

    /// What `clone` does: one command for each name, and without names one
    /// for each repository of the active selection, in the order of their
    /// names.
    pub open spec fn clone_view(&self, args: Seq<Seq<char>>) -> InstructionView {
        let names = if args.len() == 0 {
            sorted(self.config.active_repositories())
        } else {
            args
        };
        if names.len() == 0 {
            InstructionView::echo("--> nothing to clone"@)
        } else {
            InstructionView::basic(names.map_values(|name: Seq<char>| self.clone_command(name)))
        }
    }

    /// The instruction for `clone`.
    pub fn clone_repositories(&self, args: &[&str]) -> (instruction: Instruction)
        ensures
            instruction@ == self.clone_view(args.deep_view()),
    {
        if args.len() == 0 {
            let repos = self.config.using_repositories();
            let names = repos.names();
            if names.len() == 0 {
                return Instruction::echo("--> nothing to clone");
            }
            let list = borrowed(names);
            self.clone_each(list.as_slice())
        } else {
            self.clone_each(args)
        }
    }

    fn clone_each(&self, names: &[&str]) -> (instruction: Instruction)
        ensures
            instruction@ == InstructionView::basic(
                names.deep_view().map_values(|name: Seq<char>| self.clone_command(name)),
            ),
    {
        let ghost all = names.deep_view();
        let ghost make = |name: Seq<char>| self.clone_command(name);
        let mut commands: Vec<Command> = Vec::new();
        let mut i: usize = 0;
        while i < names.len()
            invariant
                i <= names.len(),
                all == names.deep_view(),
                make == |name: Seq<char>| self.clone_command(name),
                command_views(commands@) == all.take(i as int).map_values(make),
            decreases names.len() - i,
        {
            let name = names[i];
            let command = match self.config.search_repository(name) {
                Some(repository) => git::clone_repository(repository),
                None => {
                    let message = name_message("--> unknown repository [ ", name);
                    Command::echo(message.as_str())
                },
            };
            let ghost before = command_views(commands@);
            commands.push(command);
            proof {
                assert(command_views(commands@) =~= before.push(command@));
            }
            i += 1;
        }
        Instruction::basic(commands)
    }

    /// The command that has git do `action` in the checkout that `name`
    /// stands for, or that says that there is none.
    pub open spec fn git_command(&self, name: Seq<char>, action: Seq<char>) -> CommandView {
        match self.config.checkout_named(name) {
            Some(local) => CommandView::within(branch_text(action), local),
            None => CommandView::echo(named_message("--> unknown repository or service [ "@, name)),
        }
    }

    /// What `pull` and `push` do: one command for each name, which may be
    /// that of a repository or of a service; without names one command for
    /// the current directory.
    pub open spec fn git_view(&self, args: Seq<Seq<char>>, action: Seq<char>) -> InstructionView {
        if args.len() == 0 {
            InstructionView::one(CommandView::within(branch_text(action), Seq::empty()))
        } else {
            InstructionView::basic(
                args.map_values(|name: Seq<char>| self.git_command(name, action)),
            )
        }
    }

    /// The instruction for `pull`.
    pub fn pull_repositories(&self, args: &[&str]) -> (instruction: Instruction)
        ensures
            instruction@ == self.git_view(args.deep_view(), "pull"@),
    {
        self.git_do_repositories(args, "pull")
    }

    /// The instruction for `push`.
    pub fn push_repositories(&self, args: &[&str]) -> (instruction: Instruction)
        ensures
            instruction@ == self.git_view(args.deep_view(), "push"@),
    {
        self.git_do_repositories(args, "push")
    }

    /// The instruction that has git do `action` with the current branch of
    /// each of the named checkouts.
    pub fn git_do_repositories(&self, args: &[&str], action: &str) -> (instruction: Instruction)
        ensures
            instruction@ == self.git_view(args.deep_view(), action@),
    {
        proof {
            reveal_strlit("");
        }
        if args.len() == 0 {
            let command = git::do_on_current_branch("", action);
            assert(command@ =~= CommandView::within(branch_text(action@), Seq::empty()));
            return Instruction::one(command);
        }
        let ghost all = args.deep_view();
        let ghost make = |name: Seq<char>| self.git_command(name, action@);
        let mut commands: Vec<Command> = Vec::new();
        let mut i: usize = 0;
        while i < args.len()
            invariant
                i <= args.len(),
                all == args.deep_view(),
                make == |name: Seq<char>| self.git_command(name, action@),
                command_views(commands@) == all.take(i as int).map_values(make),
            decreases args.len() - i,
        {
            let name = args[i];
            let command = match self.config.search_repository(name) {
                Some(repository) => git::do_on_current_branch(repository.local.as_str(), action),
                None => match self.config.search_service_repository(name) {
                    Some(repository) => git::do_on_current_branch(
                        repository.local.as_str(),
                        action,
                    ),
                    None => {
                        let message = name_message("--> unknown repository or service [ ", name);
                        Command::echo(message.as_str())
                    },
                },
            };
            let ghost before = command_views(commands@);
            commands.push(command);
            proof {
                assert(command_views(commands@) =~= before.push(command@));
            }
            i += 1;
        }
        Instruction::basic(commands)
    }
}

impl Generator {
    /// What `dkmc` does with a machine: `create` creates it, `upcerts`
    /// renews its certificates, `load` reads its environment, and anything
    /// else is handed to docker-machine as it is.
    pub open spec fn machine_command_view(machine: Machine, args: Seq<Seq<char>>) -> CommandView {
        if args[0] == "create"@ {
            CommandView::basic(create_machine_text(machine), true)
        } else if args[0] == "upcerts"@ {
            CommandView::basic(
                "docker-machine regenerate-certs --force --client-certs "@ + machine.name@,
                true,
            )
        } else if args[0] == "load"@ {
            CommandView::captured("docker-machine env "@ + machine.name@, Continuation::Exports)
        } else {
            CommandView::basic(
                "docker-machine "@ + joined(args, " "@) + " "@ + machine.name@,
                true,
            )
        }
    }

    /// What `dkmc` does: nothing without an action, and a message if no
    /// machine is configured.
    pub open spec fn machine_view(&self, args: Seq<Seq<char>>) -> InstructionView {
        match self.config.machine {
            Some(machine) => if args.len() == 0 {
                InstructionView::skip()
            } else {
                InstructionView::one(Self::machine_command_view(machine, args))
            },
            None => InstructionView::echo("--> docker machine config is not found"@),
        }
    }

    /// The instruction for `dkmc`.
    pub fn machine(&self, args: &[&str]) -> (instruction: Instruction)
        ensures
            instruction@ == self.machine_view(args.deep_view()),
    {
        match &self.config.machine {
            Some(machine) => {
                if args.len() == 0 {
                    return Instruction::skip();
                }
                let action = args[0];
                let command = if same(action, "create") {
                    docker::create_machine(machine)
                } else if same(action, "upcerts") {
                    docker::update_certificates(machine)
                } else if same(action, "load") {
                    docker::load_environments(machine)
                } else {
                    let raw = join(args, " ");
                    docker::machine_command(raw.as_str(), machine)
                };
                Instruction::one(command)
            },
            None => Instruction::echo("--> docker machine config is not found"),
        }
    }

    /// What `dk` does: `ps` lists the containers as a table, anything else
    /// is handed to docker as it is.
    pub open spec fn docker_view(args: Seq<Seq<char>>) -> InstructionView {
        if args.len() == 0 {
            InstructionView::skip()
        } else if args[0] == "ps"@ {
            InstructionView::one(
                CommandView::basic(
                    "docker "@
                        + "ps -a --format \"table {{.Names}}\t{{.Image}}\t{{.Size}}\t{{.CreatedAt}}\t{{.Status}}\""@,
                    false,
                ),
            )
        } else {
            InstructionView::one(CommandView::basic("docker "@ + joined(args, " "@), false))
        }
    }

    /// The instruction for `dk`.
    pub fn docker(&self, args: &[&str]) -> (instruction: Instruction)
        ensures
            instruction@ == Self::docker_view(args.deep_view()),
    {
        if args.len() == 0 {
            return Instruction::skip();
        }
        if same(args[0], "ps") {
            Instruction::one(docker::list_containers())
        } else {
            let raw = join(args, " ");
            Instruction::one(docker::docker_command(raw.as_str()))
        }
    }

    /// What `dkcp` does: it hands its words to docker-compose.
    pub open spec fn compose_view(&self, args: Seq<Seq<char>>) -> InstructionView {
        if args.len() == 0 {
            InstructionView::skip()
        } else {
            InstructionView::one(self.compose(joined(args, " "@)))
        }
    }

    /// The instruction for `dkcp`.
    pub fn docker_compose(&self, args: &[&str]) -> (instruction: Instruction)
        ensures
            instruction@ == self.compose_view(args.deep_view()),
    {
        if args.len() == 0 {
            return Instruction::skip();
        }
        let action = join(args, " ");
        Instruction::one(
            docker::compose_command(
                action.as_str(),
                self.config.project.as_str(),
                self.compose_file.as_str(),
            ),
        )
    }

    /// What `logs` does: it follows the log of the first service named.
    pub open spec fn logs_view(&self, args: Seq<Seq<char>>) -> InstructionView {
        if args.len() == 0 {
            InstructionView::skip()
        } else {
            InstructionView::one(self.compose("logs -f --tail=100 "@ + args[0]))
        }
    }

    /// The instruction for `logs`.
    pub fn service_logs(&self, args: &[&str]) -> (instruction: Instruction)
        ensures
            instruction@ == self.logs_view(args.deep_view()),
    {
        if args.len() == 0 {
            return Instruction::skip();
        }
        Instruction::one(
            docker::service_logs(args[0], self.config.project.as_str(), self.compose_file.as_str()),
        )
    }

    /// The instruction for `start`: it brings up the containers of the
    /// compose file.
    pub fn start_services(&self) -> (instruction: Instruction)
        ensures
            instruction@ == InstructionView::one(self.compose("up -d"@)),
    {
        Instruction::one(
            docker::compose_command(
                "up -d",
                self.config.project.as_str(),
                self.compose_file.as_str(),
            ),
        )
    }

    /// The names that `args` select among services and dependencies, in
    /// order, with spaces between them.
    pub open spec fn selected(&self, args: Seq<Seq<char>>) -> Seq<char> {
        joined(sorted(self.config.resolved(args, Config::BOTH)), " "@)
    }

    /// What `stop` does: without names it takes everything down, with
    /// names it stops what they select.
    pub open spec fn stop_view(&self, args: Seq<Seq<char>>) -> InstructionView {
        if args.len() == 0 {
            InstructionView::one(self.compose("down"@))
        } else {
            InstructionView::one(self.compose("stop "@ + self.selected(args)))
        }
    }

    /// The instruction for `stop`.
    pub fn stop_services(&self, args: &[&str]) -> (instruction: Instruction)
        ensures
            instruction@ == self.stop_view(args.deep_view()),
    {
        if args.len() == 0 {
            return Instruction::one(
                docker::compose_command(
                    "down",
                    self.config.project.as_str(),
                    self.compose_file.as_str(),
                ),
            );
        }
        let matches = self.config.match_services_dependencies(args, Config::BOTH);
        let services = borrowed(matches.names());
        Instruction::one(
            docker::stop_services(
                services.as_slice(),
                self.config.project.as_str(),
                self.compose_file.as_str(),
            ),
        )
    }

    /// The instruction for `restart`: it restarts what the names select,
    /// and everything without names.
    pub fn restart_services(&self, args: &[&str]) -> (instruction: Instruction)
        ensures
            instruction@ == InstructionView::one(
                self.compose("restart "@ + self.selected(args.deep_view())),
            ),
    {
        let matches = self.config.match_services_dependencies(args, Config::BOTH);
        let services = borrowed(matches.names());
        Instruction::one(
            docker::restart_services(
                services.as_slice(),
                self.config.project.as_str(),
                self.compose_file.as_str(),
            ),
        )
    }

    /// The instruction for `status`: it asks for the state of the
    /// containers and lays it out as a table.
    pub fn status_services(&self) -> (instruction: Instruction)
        ensures
            instruction@ == InstructionView::one(
                CommandView::captured(
                    status_text(self.config.project@, self.compose_file@),
                    Continuation::StatusTable,
                ),
            ),
    {
        Instruction::one(
            docker::status_services(self.config.project.as_str(), self.compose_file.as_str()),
        )
    }

    /// What `bash` and `sh` do: they open that shell in the container of
    /// the first service named.
    pub open spec fn shell_view(&self, shell_type: Seq<char>, args: Seq<Seq<char>>) -> InstructionView {
        if shell_type == "bash"@ || shell_type == "sh"@ {
            if args.len() == 0 {
                InstructionView::echo("--> service name is not provided"@)
            } else {
                InstructionView::one(
                    self.compose(
                        "exec "@ + args[0] + " "@ + (if shell_type == "sh"@ {
                            "/bin/sh"@
                        } else {
                            "bash"@
                        }),
                    ),
                )
            }
        } else {
            InstructionView::echo(named_message("--> unknown shell type [ "@, shell_type))
        }
    }

    /// The instruction for `bash` and `sh`.
    pub fn open_service_shell(&self, shell_type: &str, args: &[&str]) -> (instruction: Instruction)
        ensures
            instruction@ == self.shell_view(shell_type@, args.deep_view()),
    {
        let sh = same(shell_type, "sh");
        if sh || same(shell_type, "bash") {
            if args.len() == 0 {
                return Instruction::echo("--> service name is not provided");
            }
            let cmd = if sh {
                "/bin/sh"
            } else {
                "bash"
            };
            Instruction::one(
                docker::compose_exec(
                    args[0],
                    cmd,
                    self.config.project.as_str(),
                    self.compose_file.as_str(),
                ),
            )
        } else {
            let message = name_message("--> unknown shell type [ ", shell_type);
            Instruction::echo(message.as_str())
        }
    }

    /// The command that builds or tests the service that `name` stands
    /// for, in its directory. There is none if the service, its action or
    /// its repository is unknown, or if the action has nothing to run.
    pub open spec fn service_command(&self, what: Seq<char>, name: Seq<char>) -> Option<
        CommandView,
    > {
        match self.config.service_named(name) {
            Some(service) => match self.config.action_named(service.action@) {
                Some(action) => match self.config.directory_of(service) {
                    Some(dir) => {
                        let raw = if what == "build"@ {
                            action.build@
                        } else if what == "test"@ {
                            action.test@
                        } else {
                            Seq::empty()
                        };
                        if raw.len() == 0 {
                            None
                        } else {
                            Some(CommandView::within(raw, dir))
                        }
                    },
                    None => None,
                },
                None => None,
            },
            None => None,
        }
    }

    /// The commands that build or test the services `names`, in order.
    pub open spec fn service_commands(&self, what: Seq<char>, names: Seq<Seq<char>>) -> Seq<
        CommandView,
    >
        decreases names.len(),
    {
        if names.len() == 0 {
            Seq::empty()
        } else {
            self.service_commands(what, names.drop_last()) + (match self.service_command(
                what,
                names.last(),
            ) {
                Some(command) => seq![command],
                None => Seq::empty(),
            })
        }
    }

    /// The instruction for `build` and `test`: one command for each
    /// service that the names select, in the order of their names.
    pub fn do_services(&self, what: &str, args: &[&str]) -> (instruction: Instruction)
        ensures
            instruction@ == InstructionView::basic(
                self.service_commands(
                    what@,
                    sorted(self.config.resolved(args.deep_view(), Config::SERVICE)),
                ),
            ),
    {
        proof {
            reveal_strlit("");
        }
        let matches = self.config.match_services_dependencies(args, Config::SERVICE);
        let names = matches.names();
        let ghost all = names.deep_view();
        let build = same(what, "build");
        let test = same(what, "test");
        let mut commands: Vec<Command> = Vec::new();
        let mut i: usize = 0;
        while i < names.len()
            invariant
                i <= names.len(),
                all == names.deep_view(),
                build == (what@ == "build"@),
                test == (what@ == "test"@),
                ""@.len() == 0,
                command_views(commands@) == self.service_commands(what@, all.take(i as int)),
            decreases names.len() - i,
        {
            let name = names[i].as_str();
            proof {
                assert(all.take(i + 1).drop_last() =~= all.take(i as int));
            }
            let mut made: Option<Command> = None;
            match self.config.search_service(name) {
                Some(service) => match self.config.search_action(service.action.as_str()) {
                    Some(action) => match self.config.service_directory(service) {
                        Some(dir) => {
                            let raw = if build {
                                action.build.as_str()
                            } else if test {
                                action.test.as_str()
                            } else {
                                ""
                            };
                            if !raw.is_empty() {
                                let command = Command::new(
                                    raw,
                                    dir.as_str(),
                                    true,
                                    false,
                                    false,
                                    None,
                                    true,
                                );
                                made = Some(command);
                            }
                        },
                        None => {},
                    },
                    None => {},
                },
                None => {},
            }
            match made {
                Some(command) => {
                    commands.push(command);
                },
                None => {},
            }
            i += 1;
        }
        assert(all.take(i as int) =~= all);
        Instruction::basic(commands)
    }

    /// What `dns` does: `install` and `restart` act on dnsmasq, `update`
    /// writes its configuration for the domain of the machine, `resolve`
    /// makes the resolver folder and writes the resolver file of that
    /// domain.
    pub open spec fn dns_view(&self, args: Seq<Seq<char>>) -> InstructionView {
        if args.len() == 0 {
            InstructionView::skip()
        } else if args[0] == "install"@ {
            InstructionView::one(CommandView::basic("brew install dnsmasq"@, true))
        } else if args[0] == "restart"@ {
            InstructionView::one(CommandView::basic("brew services restart dnsmasq"@, true))
        } else if args[0] == "update"@ || args[0] == "resolve"@ {
            match self.config.machine {
                Some(machine) => if args[0] == "update"@ {
                    InstructionView::one(
                        CommandView::basic(
                            "sudo tee /usr/local/etc/dnsmasq.conf > /dev/null << EOF\naddress=/"@
                                + machine.dns@ + "/$(docker-machine ip "@ + machine.name@
                                + ")\nEOF"@,
                            true,
                        ),
                    )
                } else {
                    InstructionView::basic(
                        seq![
                            CommandView::basic("sudo mkdir -p /etc/resolver"@, true),
                            CommandView::basic(
                                "sudo tee /etc/resolver/"@ + machine.dns@
                                    + " > /dev/null << EOF\nnameserver 127.0.0.1\ndomain "@
                                    + machine.dns@ + "\nsearch "@ + machine.dns@
                                    + "\nsearch_order 1\nEOF"@,
                                true,
                            ),
                        ],
                    )
                },
                None => InstructionView::echo("--> docker machine config doesn't exist"@),
            }
        } else {
            InstructionView::echo("--> unsupported action "@ + args[0])
        }
    }

    /// The instruction for `dns`.
    pub fn do_dns(&self, args: &[&str]) -> (instruction: Instruction)
        ensures
            instruction@ == self.dns_view(args.deep_view()),
    {
        if args.len() == 0 {
            return Instruction::skip();
        }
        let action = args[0];
        if same(action, "install") {
            Instruction::one(dns::install())
        } else if same(action, "restart") {
            Instruction::one(dns::restart())
        } else if same(action, "update") {
            match &self.config.machine {
                Some(machine) => Instruction::one(
                    dns::update(machine.dns.as_str(), machine.name.as_str()),
                ),
                None => Instruction::echo("--> docker machine config doesn't exist"),
            }
        } else if same(action, "resolve") {
            match &self.config.machine {
                Some(machine) => {
                    let first = Command::basic_show("sudo mkdir -p /etc/resolver");
                    let second = dns::resolve(machine.dns.as_str());
                    let mut commands: Vec<Command> = Vec::new();
                    commands.push(first);
                    commands.push(second);
                    Instruction::basic(commands)
                },
                None => Instruction::echo("--> docker machine config doesn't exist"),
            }
        } else {
            let mut message = String::from_str("--> unsupported action ");
            message.append(action);
            Instruction::echo(message.as_str())
        }
    }

    /// The instruction for a line that is no instruction of this tool: the
    /// line is run as it is, not echoed.
    pub fn other(&self, raw: &str) -> (instruction: Instruction)
        ensures
            instruction@ == InstructionView::one(CommandView::basic(raw@, false)),
    {
        Instruction::one(Command::basic_hide(raw))
    }
}

impl Generator {
    /// Whether `use` with the names `args` changes the active selection:
    /// there is a name, and every name stands for a group.
    pub open spec fn selects(&self, args: Seq<Seq<char>>) -> bool {
        args.len() > 0 && self.config.unknown_group(args) is None
    }

    /// What `use` answers at once: nothing, or that a group is unknown.
    /// What it says once the files are written, `persisted` tells.
    pub open spec fn use_view(&self, args: Seq<Seq<char>>) -> InstructionView {
        match self.config.unknown_group(args) {
            Some(name) => InstructionView::echo(named_message("--> unknown group [ "@, name)),
            None => InstructionView::skip(),
        }
    }

    /// Whether `after` is this generator with `args` as its active
    /// selection, which is not saved yet.
    pub open spec fn selected_into(&self, args: Seq<Seq<char>>, after: Generator) -> bool {
        &&& after.unsaved
        &&& after.config_file == self.config_file
        &&& after.compose_file == self.compose_file
        &&& after.config.using is Some
        &&& names_of(after.config.using) == args
        &&& after.config.project == self.config.project
        &&& after.config.machine == self.config.machine
        &&& after.config.dependencies == self.config.dependencies
        &&& after.config.repositories == self.config.repositories
        &&& after.config.actions == self.config.actions
        &&& after.config.patterns == self.config.patterns
        &&& after.config.shortcuts == self.config.shortcuts
        &&& after.config.services == self.config.services
        &&& after.config.groups == self.config.groups
    }

    /// The instruction for `use`: if every name stands for a group, the
    /// names become the active selection and the generator is unsaved.
    /// Nothing else changes, and nothing at all if a name is unknown.
    pub fn use_groups(&mut self, args: &[&str]) -> (instruction: Instruction)
        ensures
            instruction@ == old(self).use_view(args.deep_view()),
            old(self).selects(args.deep_view()) ==> old(self).selected_into(
                args.deep_view(),
                *final(self),
            ),
            !old(self).selects(args.deep_view()) ==> *final(self) == *old(self),
    {
        if args.len() == 0 {
            return Instruction::skip();
        }
        let ghost all = args.deep_view();
        let mut i: usize = 0;
        assert(all.skip(0) =~= all);
        while i < args.len()
            invariant
                i <= args.len(),
                all == args.deep_view(),
                *self == *old(self),
                self.config.unknown_group(all) == self.config.unknown_group(all.skip(i as int)),
            decreases args.len() - i,
        {
            if self.config.search_group(args[i]).is_none() {
                let message = name_message("--> unknown group [ ", args[i]);
                return Instruction::echo(message.as_str());
            }
            assert(all.skip(i as int).drop_first() =~= all.skip(i + 1));
            i += 1;
        }
        self.config.use_groups(args);
        self.unsaved = true;
        Instruction::skip()
    }

    /// What is said once the files of a changed selection were written, or
    /// could not be written: the failure to write the compose file comes
    /// first, then that to save the configuration.
    pub open spec fn persisted_view(
        &self,
        compose_error: Option<Seq<char>>,
        config_error: Option<Seq<char>>,
    ) -> InstructionView {
        match compose_error {
            Some(error) => InstructionView::echo(
                "--> cannot generate compose file [ "@ + self.compose_file@ + " ]: "@ + error,
            ),
            None => match config_error {
                Some(error) => InstructionView::echo(
                    "--> cannot save config file [ "@ + self.config_file@ + " ]: "@ + error,
                ),
                None => InstructionView::echo(
                    "--> saved compose: [ "@ + self.compose_file@ + " ] and config: [ "@
                        + self.config_file@ + " ]"@,
                ),
            },
        }
    }

    /// Takes note of what came of writing the compose file and of saving
    /// the configuration, each with the error if there was one, and gives
    /// the instruction that tells the user. The generator counts as saved
    /// afterwards, whatever came of it; the selection stays as it is.
    pub fn persisted(&mut self, compose_error: Option<&str>, config_error: Option<&str>) -> (instruction:
        Instruction)
        ensures
            instruction@ == old(self).persisted_view(
                match compose_error {
                    Some(error) => Some(error@),
                    None => None,
                },
                match config_error {
                    Some(error) => Some(error@),
                    None => None,
                },
            ),
            !final(self).unsaved,
            final(self).config == old(self).config,
            final(self).config_file == old(self).config_file,
            final(self).compose_file == old(self).compose_file,
    {
        self.unsaved = false;
        let mut message: String;
        match compose_error {
            Some(error) => {
                message = String::from_str("--> cannot generate compose file [ ");
                message.append(self.compose_file.as_str());
                message.append(" ]: ");
                message.append(error);
            },
            None => match config_error {
                Some(error) => {
                    message = String::from_str("--> cannot save config file [ ");
                    message.append(self.config_file.as_str());
                    message.append(" ]: ");
                    message.append(error);
                },
                None => {
                    message = String::from_str("--> saved compose: [ ");
                    message.append(self.compose_file.as_str());
                    message.append(" ] and config: [ ");
                    message.append(self.config_file.as_str());
                    message.append(" ]");
                },
            },
        }
        Instruction::echo(message.as_str())
    }

    /// The line that is read for the input `raw`: its words with one space
    /// between them, and the first shortcut that applies put in.
    pub open spec fn line_of(&self, raw: Seq<char>) -> Seq<char> {
        let line = joined(words_of(raw), " "@);
        match self.config.shortcuts {
            Some(shortcuts) => shortcut_applied(line, shortcuts@),
            None => line,
        }
    }

    /// The instruction for the line `line`, whose first word says what to
    /// do and whose other words say with what.
    pub open spec fn line_view(&self, line: Seq<char>) -> InstructionView {
        let tokens = words_of(line);
        if tokens.len() == 0 {
            InstructionView::skip()
        } else {
            let program = tokens[0];
            let args = tokens.skip(1);
            if program == "quit"@ || program == "exit"@ {
                InstructionView::terminate()
            } else if program == "install"@ {
                Self::install_view(args)
            } else if program == "cd"@ {
                Self::change_directory_view(args)
            } else if program == "goto"@ {
                self.goto_view(args)
            } else if program == "clone"@ {
                self.clone_view(args)
            } else if program == "pull"@ || program == "push"@ {
                self.git_view(args, program)
            } else if program == "dkmc"@ {
                self.machine_view(args)
            } else if program == "dkcp"@ {
                self.compose_view(args)
            } else if program == "dk"@ {
                Self::docker_view(args)
            } else if program == "logs"@ {
                self.logs_view(args)
            } else if program == "use"@ {
                self.use_view(args)
            } else if program == "start"@ {
                InstructionView::one(self.compose("up -d"@))
            } else if program == "stop"@ {
                self.stop_view(args)
            } else if program == "restart"@ {
                InstructionView::one(self.compose("restart "@ + self.selected(args)))
            } else if program == "status"@ {
                InstructionView::one(
                    CommandView::captured(
                        status_text(self.config.project@, self.compose_file@),
                        Continuation::StatusTable,
                    ),
                )
            } else if program == "bash"@ || program == "sh"@ {
                self.shell_view(program, args)
            } else if program == "build"@ || program == "test"@ {
                InstructionView::basic(
                    self.service_commands(
                        program,
                        sorted(self.config.resolved(args, Config::SERVICE)),
                    ),
                )
            } else if program == "dns"@ {
                self.dns_view(args)
            } else {
                InstructionView::one(CommandView::basic(line, false))
            }
        }
    }

    /// Whether the line `line` changes the active selection.
    pub open spec fn line_selects(&self, line: Seq<char>) -> bool {
        let tokens = words_of(line);
        tokens.len() > 0 && tokens[0] == "use"@ && self.selects(tokens.skip(1))
    }

    /// The instruction for one line of input.
    ///
    /// The line is tidied first: its words are put one space apart and the
    /// first shortcut that applies is put in. Its first word says what to
    /// do. Only `use` changes the generator, and only if it names groups
    /// that are all known: they become the active selection, and the
    /// generator is unsaved until `persisted` is called.
    pub fn generate_instruction(&mut self, raw: &str) -> (instruction: Instruction)
        ensures
            instruction@ == old(self).line_view(old(self).line_of(raw@)),
            old(self).line_selects(old(self).line_of(raw@)) ==> old(self).selected_into(
                words_of(old(self).line_of(raw@)).skip(1),
                *final(self),
            ),
            !old(self).line_selects(old(self).line_of(raw@)) ==> *final(self) == *old(self),
    {
        proof {
            reveal_strlit("quit");
            reveal_strlit("exit");
            reveal_strlit("install");
            reveal_strlit("cd");
            reveal_strlit("goto");
            reveal_strlit("clone");
            reveal_strlit("pull");
            reveal_strlit("push");
            reveal_strlit("dkmc");
            reveal_strlit("dkcp");
            reveal_strlit("dk");
            reveal_strlit("logs");
            reveal_strlit("use");
        }
        let mut line = util::normalize_spaces(raw);
        match &self.config.shortcuts {
            Some(shortcuts) => {
                line = util::replace_shortcuts(line.as_str(), shortcuts.as_slice());
            },
            None => {},
        }
        let tokens = words(line.as_str());
        if tokens.len() == 0 {
            return Instruction::skip();
        }
        let rest = rest_of(&tokens);
        let args = rest.as_slice();
        let program = tokens[0].as_str();
        assert(tokens.deep_view()[0] == program@);
        if same(program, "quit") || same(program, "exit") {
            self.terminate()
        } else if same(program, "install") {
            self.install(args)
        } else if same(program, "cd") {
            self.change_directory(args)
        } else if same(program, "goto") {
            self.goto(args)
        } else if same(program, "clone") {
            self.clone_repositories(args)
        } else if same(program, "pull") {
            self.pull_repositories(args)
        } else if same(program, "push") {
            self.push_repositories(args)
        } else if same(program, "dkmc") {
            self.machine(args)
        } else if same(program, "dkcp") {
            self.docker_compose(args)
        } else if same(program, "dk") {
            self.docker(args)
        } else if same(program, "logs") {
            self.service_logs(args)
        } else if same(program, "use") {
            self.use_groups(args)
        } else if same(program, "start") {
            self.start_services()
        } else if same(program, "stop") {
            self.stop_services(args)
        } else if same(program, "restart") {
            self.restart_services(args)
        } else if same(program, "status") {
            self.status_services()
        } else if same(program, "bash") || same(program, "sh") {
            self.open_service_shell(program, args)
        } else if same(program, "build") || same(program, "test") {
            self.do_services(program, args)
        } else if same(program, "dns") {
            self.do_dns(args)
        } else {
            self.other(line.as_str())
        }
    }
}

} // verus!
