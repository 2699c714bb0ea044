//! Commands for docker, docker-machine and docker-compose, and the compose
//! file of the active selection.

use crate::cmd::{Command, CommandView, Continuation};
use crate::config::{listed, Config, Dependency, Docker, Machine, Service};
use crate::text::{
    byte_len, clear, cleared, decimal, is_prefix, join, join_all, joined, lines, lines_of, padded,
    pieces, push_decimal, push_padded, same, split, starts_with, strip_start, stripped_start,
};
use vstd::prelude::*;
use vstd::string::StringExecFns;

verus! {

/// The text of the command that creates the machine.
pub open spec fn create_machine_text(machine: Machine) -> Seq<char> {
    "docker-machine create --driver virtualbox --virtualbox-host-dns-resolver --virtualbox-cpu-count "@
        + decimal(machine.cpu_count as nat) + " --virtualbox-disk-size "@ + decimal(
        machine.disk_size as nat,
    ) + " --virtualbox-memory "@ + decimal(machine.memory as nat) + " "@ + machine.name@
}

/// The command that creates the machine with its sizes.
pub fn create_machine(machine: &Machine) -> (command: Command)
    ensures
        command.is_basic(create_machine_text(*machine), true),
{
    let mut raw = String::from_str(
        "docker-machine create --driver virtualbox --virtualbox-host-dns-resolver --virtualbox-cpu-count ",
    );
    push_decimal(&mut raw, machine.cpu_count);
    raw.append(" --virtualbox-disk-size ");
    push_decimal(&mut raw, machine.disk_size);
    raw.append(" --virtualbox-memory ");
    push_decimal(&mut raw, machine.memory);
    raw.append(" ");
    raw.append(machine.name.as_str());
    Command::basic_show(raw.as_str())
}

/// The command that makes the certificates of the machine anew.
pub fn update_certificates(machine: &Machine) -> (command: Command)
    ensures
        command.is_basic(
            "docker-machine regenerate-certs --force --client-certs "@ + machine.name@,
            true,
        ),
{
    let mut raw = String::from_str("docker-machine regenerate-certs --force --client-certs ");
    raw.append(machine.name.as_str());
    Command::basic_show(raw.as_str())
}

/// The command that asks the machine for its environment and reads the
/// variables out of the answer: hidden, silent and captured.
pub fn load_environments(machine: &Machine) -> (command: Command)
    ensures
        command@ == CommandView::captured(
            "docker-machine env "@ + machine.name@,
            Continuation::Exports,
        ),
{
    proof {
        reveal_strlit("");
    }
    let mut raw = String::from_str("docker-machine env ");
    raw.append(machine.name.as_str());
    Command::new(raw.as_str(), "", false, true, true, Some(Continuation::Exports), true)
}

/// The command that has docker-machine do `action` on the machine.
pub fn machine_command(action: &str, machine: &Machine) -> (command: Command)
    ensures
        command.is_basic("docker-machine "@ + action@ + " "@ + machine.name@, true),
{
    let mut raw = String::from_str("docker-machine ");
    raw.append(action);
    raw.append(" ");
    raw.append(machine.name.as_str());
    Command::basic_show(raw.as_str())
}

/// The text of the docker-compose call for a project and its compose file.
pub open spec fn compose_text(action: Seq<char>, project: Seq<char>, compose_file: Seq<char>) -> Seq<
    char,
> {
    "docker-compose -p "@ + project + " -f "@ + compose_file + " "@ + action
}

/// The command that has docker-compose do `action`.
pub fn compose_command(action: &str, project: &str, compose_file: &str) -> (command: Command)
    ensures
        command.is_basic(compose_text(action@, project@, compose_file@), true),
{
    let mut raw = String::from_str("docker-compose -p ");
    raw.append(project);
    raw.append(" -f ");
    raw.append(compose_file);
    raw.append(" ");
    raw.append(action);
    Command::basic_show(raw.as_str())
}

/// The command that follows the log of a service from its last 100 lines.
pub fn service_logs(service_name: &str, project: &str, compose_file: &str) -> (command: Command)
    ensures
        command.is_basic(
            compose_text("logs -f --tail=100 "@ + service_name@, project@, compose_file@),
            true,
        ),
{
    let mut action = String::from_str("logs -f --tail=100 ");
    action.append(service_name);
    compose_command(action.as_str(), project, compose_file)
}

/// The command that restarts the given services.
pub fn restart_services(services: &[&str], project: &str, compose_file: &str) -> (command: Command)
    ensures
        command.is_basic(
            compose_text(
                "restart "@ + joined(services.deep_view(), " "@),
                project@,
                compose_file@,
            ),
            true,
        ),
{
    let mut action = String::from_str("restart ");
    let names = join(services, " ");
    action.append(names.as_str());
    compose_command(action.as_str(), project, compose_file)
}

/// The command that stops the given services.
pub fn stop_services(service_names: &[&str], project: &str, compose_file: &str) -> (command:
    Command)
    ensures
        command.is_basic(
            compose_text(
                "stop "@ + joined(service_names.deep_view(), " "@),
                project@,
                compose_file@,
            ),
            true,
        ),
{
    let mut action = String::from_str("stop ");
    let names = join(service_names, " ");
    action.append(names.as_str());
    compose_command(action.as_str(), project, compose_file)
}

/// The command that runs `cmd` inside the container of a service.
pub fn compose_exec(service: &str, cmd: &str, project: &str, compose_file: &str) -> (command:
    Command)
    ensures
        command.is_basic(
            compose_text("exec "@ + service@ + " "@ + cmd@, project@, compose_file@),
            true,
        ),
{
    let mut action = String::from_str("exec ");
    action.append(service);
    action.append(" ");
    action.append(cmd);
    compose_command(action.as_str(), project, compose_file)
}

/// The command that has docker do `action`, not echoed.
pub fn docker_command(action: &str) -> (command: Command)
    ensures
        command.is_basic("docker "@ + action@, false),
{
    let mut raw = String::from_str("docker ");
    raw.append(action);
    Command::basic_hide(raw.as_str())
}

/// The command that lists all containers as a table.
pub fn list_containers() -> (command: Command)
    ensures
        command.is_basic(
            "docker "@
                + "ps -a --format \"table {{.Names}}\t{{.Image}}\t{{.Size}}\t{{.CreatedAt}}\t{{.Status}}\""@,
            false,
        ),
{
    docker_command(
        "ps -a --format \"table {{.Names}}\t{{.Image}}\t{{.Size}}\t{{.CreatedAt}}\t{{.Status}}\"",
    )
}

/// The text of the command that asks docker for the state of the
/// containers of a project: for each its service, status, image and start
/// time, with `||` between them.
pub open spec fn status_text(project: Seq<char>, compose_file: Seq<char>) -> Seq<char> {
    "docker inspect --format='{{index .Config.Labels \"com.docker.compose.service\"}}||{{.State.Status}}||{{.Config.Image}}||{{.State.StartedAt}}' $(docker-compose -p "@
        + project + " -f "@ + compose_file + " ps -q | xargs)"@
}

/// The command that asks for the state of the containers of a project and
/// lays the answer out as a table: hidden, silent and captured.
pub fn status_services(project: &str, compose_file: &str) -> (command: Command)
    ensures
        command@ == CommandView::captured(
            status_text(project@, compose_file@),
            Continuation::StatusTable,
        ),
{
    proof {
        reveal_strlit("");
    }
    let mut raw = String::from_str(
        "docker inspect --format='{{index .Config.Labels \"com.docker.compose.service\"}}||{{.State.Status}}||{{.Config.Image}}||{{.State.StartedAt}}' $(docker-compose -p ",
    );
    raw.append(project);
    raw.append(" -f ");
    raw.append(compose_file);
    raw.append(" ps -q | xargs)");
    Command::new(raw.as_str(), "", false, true, true, Some(Continuation::StatusTable), true)
}

/// The named volume that a volume entry mounts: the part before the colon
/// of an entry with exactly one colon, unless that part is a path, which
/// begins with `/`, `.` or `~`.
pub open spec fn named_volume(entry: Seq<char>) -> Option<Seq<char>> {
    let tokens = pieces(entry, ":"@);
    if tokens.len() != 2 {
        None
    } else if is_prefix(tokens[0], "/"@) || is_prefix(tokens[0], "."@) || is_prefix(
        tokens[0],
        "~"@,
    ) {
        None
    } else {
        Some(tokens[0])
    }
}

/// The named volume that a volume entry mounts, if it mounts one.
pub fn extract_named_volume(name: &str) -> (volume: Option<String>)
    ensures
        match volume {
            Some(v) => named_volume(name@) == Some(v@),
            None => named_volume(name@) is None,
        },
{
    let tokens = split(name, ":");
    if tokens.len() != 2 {
        return None;
    }
    let volume = tokens[0].clone();
    if starts_with(volume.as_str(), "/") || starts_with(volume.as_str(), ".") || starts_with(
        volume.as_str(),
        "~",
    ) {
        return None;
    }
    Some(volume)
}

/// The service that an optional reference stands for.
pub open spec fn owned(service: Option<&Service>) -> Option<Service> {
    match service {
        Some(service) => Some(*service),
        None => None,
    }
}

/// One line for an optional text: `prefix` and the text, or no line.
pub open spec fn single(prefix: Seq<char>, text: Option<Seq<char>>) -> Seq<Seq<char>> {
    match text {
        Some(text) => seq![prefix + text],
        None => Seq::empty(),
    }
}

/// The lines of an optional list: `header`, then each entry as an item of
/// a YAML list; no line for a missing list.
pub open spec fn section(header: Seq<char>, entries: Option<Seq<Seq<char>>>) -> Seq<Seq<char>> {
    match entries {
        Some(entries) => seq![header] + entries.map_values(|e: Seq<char>| "      - "@ + e),
        None => Seq::empty(),
    }
}

/// The entries of an optional list of texts.
pub open spec fn texts(list: Option<Vec<String>>) -> Option<Seq<Seq<char>>> {
    match list {
        Some(entries) => Some(entries.deep_view()),
        None => None,
    }
}

/// The text of an optional string.
pub open spec fn text_of(text: Option<String>) -> Option<Seq<char>> {
    match text {
        Some(text) => Some(text@),
        None => None,
    }
}

/// The named volumes that the given volume entries mount, in order.
pub open spec fn named_volumes(entries: Seq<Seq<char>>) -> Seq<Seq<char>>
    decreases entries.len(),
{
    if entries.len() == 0 {
        Seq::empty()
    } else {
        named_volumes(entries.drop_last()) + (match named_volume(entries.last()) {
            Some(volume) => seq![volume],
            None => Seq::empty(),
        })
    }
}

impl Config {
    /// An optional text with its patterns filled in.
    pub open spec fn filled_text(&self, text: Option<String>, service: Option<Service>) -> Option<
        Seq<char>,
    > {
        match text {
            Some(text) => Some(self.filled(text@, service)),
            None => None,
        }
    }

    /// The entries of an optional list, each with its patterns filled in.
    pub open spec fn filled_texts(
        &self,
        list: Option<Vec<String>>,
        service: Option<Service>,
    ) -> Option<Seq<Seq<char>>> {
        match list {
            Some(entries) => Some(
                entries.deep_view().map_values(|e: Seq<char>| self.filled(e, service)),
            ),
            None => None,
        }
    }

    /// The lines that say how the image of a container is built.
    pub open spec fn build_lines(&self, docker: Docker, service: Option<Service>) -> Seq<
        Seq<char>,
    > {
        match docker.build {
            Some(build) => seq![
                "    build:"@,
                "      context: "@ + self.filled(build.context@, service),
            ] + single("      dockerfile: "@, self.filled_text(build.docker_file, service)),
            None => Seq::empty(),
        }
    }

    /// The lines of one container in the compose file. Paths, volumes,
    /// environment files and the command have their patterns filled in.
    pub open spec fn service_lines(
        &self,
        name: Seq<char>,
        docker: Docker,
        service: Option<Service>,
    ) -> Seq<Seq<char>> {
        seq!["  "@ + name + ":"@, "    image: "@ + docker.image@] + single(
            "    container_name: "@,
            text_of(docker.container_name),
        ) + self.build_lines(docker, service) + section("    ports:"@, texts(docker.ports))
            + single("    working_dir: "@, self.filled_text(docker.working_dir, service))
            + section("    volumes:"@, self.filled_texts(docker.volumes, service)) + section(
            "    environment:"@,
            texts(docker.environment),
        ) + section("    env_file:"@, self.filled_texts(docker.env_file, service)) + section(
            "    depends_on:"@,
            texts(docker.depends_on),
        ) + single("    command: "@, self.filled_text(docker.command, service)) + section(
            "    labels:"@,
            texts(docker.labels),
        )
    }

    /// The named volumes that one container mounts.
    pub open spec fn service_volumes(&self, docker: Docker, service: Option<Service>) -> Seq<
        Seq<char>,
    > {
        match self.filled_texts(docker.volumes, service) {
            Some(entries) => named_volumes(entries),
            None => Seq::empty(),
        }
    }
}

/// Appends the line made of `prefix`, `text` and `suffix`.
fn push_line(lines: &mut Vec<String>, prefix: &str, text: &str, suffix: &str)
    ensures
        final(lines).deep_view() == old(lines).deep_view().push(prefix@ + text@ + suffix@),
{
    let mut line = String::from_str(prefix);
    line.append(text);
    line.append(suffix);
    lines.push(line);
}

/// Appends the lines of `more`.
fn push_lines(lines: &mut Vec<String>, more: Vec<String>)
    ensures
        final(lines).deep_view() == old(lines).deep_view() + more.deep_view(),
{
    let mut more = more;
    lines.append(&mut more);
}

/// Appends `prefix` and an optional text as one line.
fn push_single(lines: &mut Vec<String>, prefix: &str, text: &Option<String>)
    ensures
        final(lines).deep_view() == old(lines).deep_view() + single(prefix@, text_of(*text)),
{
    proof {
        reveal_strlit("");
    }
    match text {
        Some(text) => {
            push_line(lines, prefix, text.as_str(), "");
            assert(lines.deep_view() =~= old(lines).deep_view() + single(prefix@, Some(text@)));
        },
        None => {},
    }
}

/// Appends an optional list as a section.
fn push_section(lines: &mut Vec<String>, header: &str, entries: &Option<Vec<String>>)
    ensures
        final(lines).deep_view() == old(lines).deep_view() + section(header@, texts(*entries)),
{
    proof {
        reveal_strlit("");
    }
    match entries {
        Some(entries) => {
            push_line(lines, header, "", "");
            assert(header@ + ""@ + ""@ =~= header@);
            let ghost all = entries.deep_view();
            let ghost item = |e: Seq<char>| "      - "@ + e;
            let mut i: usize = 0;
            while i < entries.len()
                invariant
                    i <= entries.len(),
                    all == entries.deep_view(),
                    item == |e: Seq<char>| "      - "@ + e,
                    ""@.len() == 0,
                    lines.deep_view() == old(lines).deep_view() + (seq![header@] + all.take(
                        i as int,
                    ).map_values(item)),
                decreases entries.len() - i,
            {
                push_line(lines, "      - ", entries[i].as_str(), "");
                i += 1;
            }
        },
        None => {},
    }
}

impl Config {
    /// An optional text with its patterns filled in.
    fn fill_text(&self, text: &Option<String>, service: Option<&Service>) -> (filled: Option<
        String,
    >)
        ensures
            text_of(filled) == self.filled_text(*text, owned(service)),
    {
        match text {
            Some(text) => Some(self.fill_patterns(text.as_str(), service)),
            None => None,
        }
    }

    /// The entries of an optional list, each with its patterns filled in.
    fn fill_texts(&self, list: &Option<Vec<String>>, service: Option<&Service>) -> (filled:
        Option<Vec<String>>)
        ensures
            texts(filled) == self.filled_texts(*list, owned(service)),
    {
        match list {
            Some(entries) => {
                let ghost all = entries.deep_view();
                let ghost fill = |e: Seq<char>| self.filled(e, owned(service));
                let mut out: Vec<String> = Vec::new();
                let mut i: usize = 0;
                while i < entries.len()
                    invariant
                        i <= entries.len(),
                        all == entries.deep_view(),
                        fill == |e: Seq<char>| self.filled(e, owned(service)),
                        out.deep_view() == all.take(i as int).map_values(fill),
                    decreases entries.len() - i,
                {
                    let ghost before = out.deep_view();
                    let entry = self.fill_patterns(entries[i].as_str(), service);
                    out.push(entry);
                    proof {
                        assert(out.deep_view() =~= before.push(fill(all[i as int])));
                    }
                    i += 1;
                }
                Some(out)
            },
            None => None,
        }
    }
}

/// The named volumes that the given volume entries mount.
fn extract_named_volumes(entries: &Option<Vec<String>>) -> (volumes: Vec<String>)
    ensures
        volumes.deep_view() == (match texts(*entries) {
            Some(entries) => named_volumes(entries),
            None => Seq::empty(),
        }),
{
    let mut out: Vec<String> = Vec::new();
    match entries {
        Some(entries) => {
            let ghost all = entries.deep_view();
            let mut i: usize = 0;
            while i < entries.len()
                invariant
                    i <= entries.len(),
                    all == entries.deep_view(),
                    out.deep_view() == named_volumes(all.take(i as int)),
                decreases entries.len() - i,
            {
                proof {
                    assert(all.take(i + 1).drop_last() =~= all.take(i as int));
                }
                match extract_named_volume(entries[i].as_str()) {
                    Some(volume) => {
                        out.push(volume);
                    },
                    None => {},
                }
                i += 1;
            }
            assert(all.take(i as int) =~= all);
        },
        None => {},
    }
    out
}

/// The lines of one container in the compose file, and the named volumes
/// that it mounts.
pub fn compose_service(
    name: &str,
    docker: &Docker,
    config: &Config,
    service: Option<&Service>,
) -> (result: (Vec<String>, Vec<String>))
    ensures
        result.0.deep_view() == config.service_lines(name@, *docker, owned(service)),
        result.1.deep_view() == config.service_volumes(*docker, owned(service)),
{
    let ghost who = owned(service);
    let mut lines: Vec<String> = Vec::new();
    push_line(&mut lines, "  ", name, ":");
    push_line(&mut lines, "    image: ", docker.image.as_str(), "");
    proof {
        reveal_strlit("");
    }
    push_single(&mut lines, "    container_name: ", &docker.container_name);
    let ghost head = lines.deep_view();
    match &docker.build {
        Some(build) => {
            push_line(&mut lines, "    build:", "", "");
            let context = config.fill_patterns(build.context.as_str(), service);
            push_line(&mut lines, "      context: ", context.as_str(), "");
            let docker_file = config.fill_text(&build.docker_file, service);
            push_single(&mut lines, "      dockerfile: ", &docker_file);
            proof {
                assert(lines.deep_view() =~= head + config.build_lines(*docker, who));
            }
        },
        None => {},
    }
    push_section(&mut lines, "    ports:", &docker.ports);
    let working_dir = config.fill_text(&docker.working_dir, service);
    push_single(&mut lines, "    working_dir: ", &working_dir);
    let volumes = config.fill_texts(&docker.volumes, service);
    push_section(&mut lines, "    volumes:", &volumes);
    let named = extract_named_volumes(&volumes);
    push_section(&mut lines, "    environment:", &docker.environment);
    let env_file = config.fill_texts(&docker.env_file, service);
    push_section(&mut lines, "    env_file:", &env_file);
    push_section(&mut lines, "    depends_on:", &docker.depends_on);
    let command = config.fill_text(&docker.command, service);
    push_single(&mut lines, "    command: ", &command);
    push_section(&mut lines, "    labels:", &docker.labels);
    (lines, named)
}

impl Config {
    /// The lines of the active ones among `dependencies`, in order.
    pub open spec fn dependencies_lines(&self, dependencies: Seq<Dependency>) -> Seq<Seq<char>>
        decreases dependencies.len(),
    {
        if dependencies.len() == 0 {
            Seq::empty()
        } else {
            let last = dependencies.last();
            self.dependencies_lines(dependencies.drop_last()) + (if self.active_dependencies().contains(
                last.name@,
            ) {
                self.service_lines(last.name@, last.docker, None)
            } else {
                Seq::empty()
            })
        }
    }

    /// The named volumes of the active ones among `dependencies`, in order.
    pub open spec fn dependencies_volumes(&self, dependencies: Seq<Dependency>) -> Seq<Seq<char>>
        decreases dependencies.len(),
    {
        if dependencies.len() == 0 {
            Seq::empty()
        } else {
            let last = dependencies.last();
            self.dependencies_volumes(dependencies.drop_last()) + (
            if self.active_dependencies().contains(last.name@) {
                self.service_volumes(last.docker, None)
            } else {
                Seq::empty()
            })
        }
    }

    /// The lines of the active ones among `services`, in order.
    pub open spec fn services_lines(&self, services: Seq<Service>) -> Seq<Seq<char>>
        decreases services.len(),
    {
        if services.len() == 0 {
            Seq::empty()
        } else {
            let last = services.last();
            self.services_lines(services.drop_last()) + (if self.active_services().contains(
                last.name@,
            ) {
                self.service_lines(last.name@, last.docker, Some(last))
            } else {
                Seq::empty()
            })
        }
    }

    /// The named volumes of the active ones among `services`, in order.
    pub open spec fn services_volumes(&self, services: Seq<Service>) -> Seq<Seq<char>>
        decreases services.len(),
    {
        if services.len() == 0 {
            Seq::empty()
        } else {
            let last = services.last();
            self.services_volumes(services.drop_last()) + (if self.active_services().contains(
                last.name@,
            ) {
                self.service_volumes(last.docker, Some(last))
            } else {
                Seq::empty()
            })
        }
    }

    /// The named volumes of the active selection: those of its
    /// dependencies, then those of its services.
    pub open spec fn compose_volumes(&self) -> Seq<Seq<char>> {
        self.dependencies_volumes(listed(self.dependencies)) + self.services_volumes(
            listed(self.services),
        )
    }

    /// The lines of the compose file of the active selection: the version,
    /// the active dependencies and services as they are declared, the named
    /// volumes they mount, and an empty line.
    pub open spec fn compose_lines(&self) -> Seq<Seq<char>> {
        seq!["version: '3'"@, "services:"@] + self.dependencies_lines(listed(self.dependencies))
            + self.services_lines(listed(self.services)) + volume_lines(self.compose_volumes())
            + seq![Seq::<char>::empty()]
    }
}

/// The two lines that declare each of `volumes`.
pub open spec fn volume_entries(volumes: Seq<Seq<char>>) -> Seq<Seq<char>>
    decreases volumes.len(),
{
    if volumes.len() == 0 {
        Seq::empty()
    } else {
        volume_entries(volumes.drop_last()) + seq![
            "  "@ + volumes.last() + ":"@,
            "    external: false"@,
        ]
    }
}

/// The section that declares `volumes`; nothing if there is none.
pub open spec fn volume_lines(volumes: Seq<Seq<char>>) -> Seq<Seq<char>> {
    if volumes.len() == 0 {
        Seq::empty()
    } else {
        seq!["volumes:"@] + volume_entries(volumes)
    }
}

/// The lines of the compose file of the active selection.
pub fn generate_compose_lines(config: &Config) -> (lines: Vec<String>)
    ensures
        lines.deep_view() == config.compose_lines(),
{
    proof {
        reveal_strlit("");
    }
    let mut lines: Vec<String> = Vec::new();
    let mut volumes: Vec<String> = Vec::new();
    push_line(&mut lines, "version: '3'", "", "");
    push_line(&mut lines, "services:", "", "");
    let ghost head = seq!["version: '3'"@, "services:"@];
    let using_dependencies = config.using_dependencies();
    let using_services = config.using_services();
    match &config.dependencies {
        Some(dependencies) => {
            let mut i: usize = 0;
            while i < dependencies.len()
                invariant
                    i <= dependencies.len(),
                    using_dependencies@ == config.active_dependencies(),
                    lines.deep_view() == head + config.dependencies_lines(
                        dependencies@.take(i as int),
                    ),
                    volumes.deep_view() == config.dependencies_volumes(
                        dependencies@.take(i as int),
                    ),
                decreases dependencies.len() - i,
            {
                let dependency = &dependencies[i];
                proof {
                    assert(dependencies@.take(i + 1).drop_last() =~= dependencies@.take(i as int));
                }
                if using_dependencies.contains(dependency.name.as_str()) {
                    let (more_lines, more_volumes) = compose_service(
                        dependency.name.as_str(),
                        &dependency.docker,
                        config,
                        None,
                    );
                    push_lines(&mut lines, more_lines);
                    push_lines(&mut volumes, more_volumes);
                }
                i += 1;
            }
            assert(dependencies@.take(i as int) =~= dependencies@);
        },
        None => {},
    }
    let ghost middle = lines.deep_view();
    let ghost first_volumes = volumes.deep_view();
    match &config.services {
        Some(services) => {
            let mut i: usize = 0;
            while i < services.len()
                invariant
                    i <= services.len(),
                    using_services@ == config.active_services(),
                    lines.deep_view() == middle + config.services_lines(services@.take(i as int)),
                    volumes.deep_view() == first_volumes + config.services_volumes(
                        services@.take(i as int),
                    ),
                decreases services.len() - i,
            {
                let service = &services[i];
                proof {
                    assert(services@.take(i + 1).drop_last() =~= services@.take(i as int));
                }
                if using_services.contains(service.name.as_str()) {
                    let (more_lines, more_volumes) = compose_service(
                        service.name.as_str(),
                        &service.docker,
                        config,
                        Some(service),
                    );
                    push_lines(&mut lines, more_lines);
                    push_lines(&mut volumes, more_volumes);
                }
                i += 1;
            }
            assert(services@.take(i as int) =~= services@);
        },
        None => {},
    }
    let ghost body = lines.deep_view();
    let ghost all = volumes.deep_view();
    if volumes.len() > 0 {
        push_line(&mut lines, "volumes:", "", "");
        let mut i: usize = 0;
        while i < volumes.len()
            invariant
                i <= volumes.len(),
                all == volumes.deep_view(),
                ""@.len() == 0,
                lines.deep_view() == body + (seq!["volumes:"@] + volume_entries(
                    all.take(i as int),
                )),
            decreases volumes.len() - i,
        {
            push_line(&mut lines, "  ", volumes[i].as_str(), ":");
            push_line(&mut lines, "    external: false", "", "");
            proof {
                assert(all.take(i + 1).drop_last() =~= all.take(i as int));
            }
            i += 1;
        }
        assert(all.take(i as int) =~= all);
    }
    push_line(&mut lines, "", "", "");
    proof {
        assert(""@ + ""@ + ""@ =~= Seq::<char>::empty());
    }
    lines
}

/// The text of the compose file of the active selection: its lines with a
/// line feed between them.
pub fn generate_compose_text(config: &Config) -> (text: String)
    ensures
        text@ == joined(config.compose_lines(), "\n"@),
{
    let lines = generate_compose_lines(config);
    crate::text::join_all(&lines, "\n")
}

/// The marks that stand before the status of a container in the table.
pub struct Marks {
    pub running: String,
    pub paused: String,
    pub other: String,
}

/// The mark for a status.
pub open spec fn mark_for(status: Seq<char>, marks: Marks) -> Seq<char> {
    if status == "running"@ {
        marks.running@
    } else if status == "paused"@ {
        marks.paused@
    } else {
        marks.other@
    }
}

/// The first of `lines` that does not consist of four fields with `||`
/// between them.
pub open spec fn malformed(lines: Seq<Seq<char>>) -> Option<Seq<char>>
    decreases lines.len(),
{
    if lines.len() == 0 {
        None
    } else if pieces(lines[0], "||"@).len() != 4 {
        Some(lines[0])
    } else {
        malformed(lines.drop_first())
    }
}

/// The width of a column: that of its longest field in bytes and `extra`
/// more, and 8 at least.
pub open spec fn column_width(lines: Seq<Seq<char>>, column: int, extra: nat) -> nat
    decreases lines.len(),
{
    if lines.len() == 0 {
        8
    } else {
        let rest = column_width(lines.drop_last(), column, extra);
        let here = byte_len(pieces(lines.last(), "||"@)[column]) + extra;
        if here > rest {
            here
        } else {
            rest
        }
    }
}

/// One line of the table: the fields filled up to the widths of their
/// columns, with tabs between them. The last field is not filled up.
pub open spec fn table_line(
    service: Seq<char>,
    status: Seq<char>,
    image: Seq<char>,
    started: Seq<char>,
    lines: Seq<Seq<char>>,
) -> Seq<char> {
    padded(service, column_width(lines, 0, 0)) + "\t"@ + padded(
        status,
        column_width(lines, 1, 2),
    ) + "\t"@ + padded(image, column_width(lines, 2, 0)) + "\t"@ + started
}

/// The line of the table for one line of output: the status has its mark
/// and a space before it.
pub open spec fn table_row(line: Seq<char>, lines: Seq<Seq<char>>, marks: Marks) -> Seq<char> {
    let fields = pieces(line, "||"@);
    table_line(
        fields[0],
        mark_for(fields[1], marks) + " "@ + fields[1],
        fields[2],
        fields[3],
        lines,
    )
}

/// The status table for the output of the status command.
///
/// If a line does not have four fields, the result is a failure that names
/// the first such line. Else it is the header and one row for each line,
/// with line feeds between them.
pub open spec fn status_table_of(stdout: Seq<char>, marks: Marks) -> (bool, Seq<char>) {
    let lines = lines_of(stdout);
    match malformed(lines) {
        Some(line) => (false, "unexpected output line: "@ + line),
        None => (
            true,
            joined(
                seq![table_line("SERVICE"@, "STATUS"@, "IMAGE"@, "CREATED AT"@, lines)]
                    + lines.map_values(|line: Seq<char>| table_row(line, lines, marks)),
                "\n"@,
            ),
        ),
    }
}

/// The larger of a width and the length of `field` in bytes and `extra`.
fn widened(width: u128, field: &str, extra: u128) -> (r: u128)
    requires
        width <= u64::MAX + 2,
        extra <= 2,
    ensures
        r == (if byte_len(field@) + extra > width {
            byte_len(field@) + extra
        } else {
            width as int
        }),
        r <= u64::MAX + 2,
{
    let here: u128 = field.as_bytes().len() as u128 + extra;
    if here > width {
        here
    } else {
        width
    }
}

/// Builds one line of the table.
fn table_text(
    service: &str,
    status: &str,
    image: &str,
    started: &str,
    ws: u128,
    wt: u128,
    wi: u128,
) -> (r: String)
    ensures
        r@ == padded(service@, ws as nat) + "\t"@ + padded(status@, wt as nat) + "\t"@ + padded(
            image@,
            wi as nat,
        ) + "\t"@ + started@,
{
    let mut out = String::new();
    push_padded(&mut out, service, ws);
    out.append("\t");
    push_padded(&mut out, status, wt);
    out.append("\t");
    push_padded(&mut out, image, wi);
    out.append("\t");
    out.append(started);
    out
}

/// The status table for the output of the status command, with the given
/// marks.
pub fn status_table(stdout: &str, marks: &Marks) -> (result: (bool, String))
    ensures
        result.0 == status_table_of(stdout@, *marks).0,
        result.1@ == status_table_of(stdout@, *marks).1,
{
    let all = lines(stdout);
    let ghost texts = all.deep_view();
    let mut rows: Vec<Vec<String>> = Vec::new();
    let mut ws: u128 = 8;
    let mut wt: u128 = 8;
    let mut wi: u128 = 8;
    let mut i: usize = 0;
    assert(texts.skip(0) =~= texts);
    while i < all.len()
        invariant
            i <= all.len(),
            texts == all.deep_view(),
            texts == lines_of(stdout@),
            malformed(texts) == malformed(texts.skip(i as int)),
            rows.len() == i,
            forall|k: int|
                0 <= k < i ==> (#[trigger] rows[k]).deep_view() == pieces(texts[k], "||"@)
                    && rows[k].len() == 4,
            ws == column_width(texts.take(i as int), 0, 0),
            wt == column_width(texts.take(i as int), 1, 2),
            wi == column_width(texts.take(i as int), 2, 0),
            ws <= u64::MAX + 2,
            wt <= u64::MAX + 2,
            wi <= u64::MAX + 2,
        decreases all.len() - i,
    {
        let tokens = split(all[i].as_str(), "||");
        if tokens.len() != 4 {
            let mut message = String::from_str("unexpected output line: ");
            message.append(all[i].as_str());
            return (false, message);
        }
        proof {
            assert(texts.skip(i as int).drop_first() =~= texts.skip(i + 1));
            assert(texts.take(i + 1).drop_last() =~= texts.take(i as int));
        }
        ws = widened(ws, tokens[0].as_str(), 0);
        wt = widened(wt, tokens[1].as_str(), 2);
        wi = widened(wi, tokens[2].as_str(), 0);
        rows.push(tokens);
        i += 1;
    }
    let mut out: Vec<String> = Vec::new();
    let header = table_text("SERVICE", "STATUS", "IMAGE", "CREATED AT", ws, wt, wi);
    out.push(header);
    let ghost row = |line: Seq<char>| table_row(line, texts, *marks);
    let ghost head = seq![table_line("SERVICE"@, "STATUS"@, "IMAGE"@, "CREATED AT"@, texts)];
    let mut k: usize = 0;
    while k < rows.len()
        invariant
            k <= rows.len(),
            rows.len() == texts.len(),
            row == |line: Seq<char>| table_row(line, texts, *marks),
            forall|j: int|
                0 <= j < rows.len() ==> (#[trigger] rows[j]).deep_view() == pieces(
                    texts[j],
                    "||"@,
                ) && rows[j].len() == 4,
            ws == column_width(texts, 0, 0),
            wt == column_width(texts, 1, 2),
            wi == column_width(texts, 2, 0),
            out.deep_view() == head + texts.take(k as int).map_values(row),
        decreases rows.len() - k,
    {
        let tokens = &rows[k];
        let mut status = if same(tokens[1].as_str(), "running") {
            marks.running.clone()
        } else if same(tokens[1].as_str(), "paused") {
            marks.paused.clone()
        } else {
            marks.other.clone()
        };
        status.append(" ");
        status.append(tokens[1].as_str());
        let line = table_text(
            tokens[0].as_str(),
            status.as_str(),
            tokens[2].as_str(),
            tokens[3].as_str(),
            ws,
            wt,
            wi,
        );
        let ghost before = out.deep_view();
        out.push(line);
        proof {
            assert(out.deep_view() =~= before.push(line@));
        }
        k += 1;
    }
    (true, join_all(&out, "\n"))
}

/// A variable that a line of shell assigns and exports.
pub struct Export {
    pub line: String,
    pub key: String,
    pub value: String,
}

/// The variable that a line assigns: the line begins with `export `, and
/// what follows has a key and a value around exactly one `=`. Quotes around
/// the value do not belong to it.
pub open spec fn export_of(line: Seq<char>) -> Option<(Seq<char>, Seq<char>)> {
    let fields = pieces(stripped_start(line, "export "@), "="@);
    if is_prefix(line, "export "@) && fields.len() == 2 {
        Some((fields[0], cleared(fields[1], '"')))
    } else {
        None
    }
}

/// The variables that `lines` assign, in order, each with its line.
pub open spec fn exports_of(lines: Seq<Seq<char>>) -> Seq<(Seq<char>, Seq<char>, Seq<char>)>
    decreases lines.len(),
{
    if lines.len() == 0 {
        Seq::empty()
    } else {
        exports_of(lines.drop_last()) + (match export_of(lines.last()) {
            Some((key, value)) => seq![(lines.last(), key, value)],
            None => Seq::empty(),
        })
    }
}

/// The line, key and value of each of `exports`.
pub open spec fn exports_view(exports: Seq<Export>) -> Seq<(Seq<char>, Seq<char>, Seq<char>)> {
    exports.map_values(|e: Export| (e.line@, e.key@, e.value@))
}

/// The variables that the output of `docker-machine env` assigns.
pub fn exports(stdout: &str) -> (result: Vec<Export>)
    ensures
        exports_view(result@) == exports_of(lines_of(stdout@)),
{
    let all = lines(stdout);
    let ghost texts = all.deep_view();
    let mut out: Vec<Export> = Vec::new();
    let mut i: usize = 0;
    while i < all.len()
        invariant
            i <= all.len(),
            texts == all.deep_view(),
            exports_view(out@) == exports_of(texts.take(i as int)),
        decreases all.len() - i,
    {
        let line = all[i].as_str();
        proof {
            assert(texts.take(i + 1).drop_last() =~= texts.take(i as int));
        }
        if starts_with(line, "export ") {
            let rest = strip_start(line, "export ");
            let fields = split(rest.as_str(), "=");
            if fields.len() == 2 {
                let value = clear(fields[1].as_str(), '"');
                let export = Export {
                    line: String::from_str(line),
                    key: fields[0].clone(),
                    value,
                };
                out.push(export);
            }
        }
        i += 1;
    }
    assert(texts.take(i as int) =~= texts);
    out
}

/// The assignments `key=value` of `exports`, one on each line.
pub open spec fn export_rows(exports: Seq<(Seq<char>, Seq<char>, Seq<char>)>) -> Seq<char> {
    joined(
        exports.map_values(|e: (Seq<char>, Seq<char>, Seq<char>)| e.1 + "="@ + e.2),
        "\n"@,
    )
}

/// The assignments `key=value` of `exports`, one on each line.
pub fn export_text(exports: &Vec<Export>) -> (text: String)
    ensures
        text@ == export_rows(exports_view(exports@)),
{
    let ghost all = exports_view(exports@);
    let ghost row = |e: (Seq<char>, Seq<char>, Seq<char>)| e.1 + "="@ + e.2;
    let mut rows: Vec<String> = Vec::new();
    let mut i: usize = 0;
    while i < exports.len()
        invariant
            i <= exports.len(),
            all == exports_view(exports@),
            row == |e: (Seq<char>, Seq<char>, Seq<char>)| e.1 + "="@ + e.2,
            rows.deep_view() == all.take(i as int).map_values(row),
        decreases exports.len() - i,
    {
        let mut text = exports[i].key.clone();
        text.append("=");
        text.append(exports[i].value.as_str());
        let ghost before = rows.deep_view();
        rows.push(text);
        proof {
            assert(rows.deep_view() =~= before.push(text@));
        }
        i += 1;
    }
    assert(all.take(i as int) =~= all);
    join_all(&rows, "\n")
}

} // verus!
