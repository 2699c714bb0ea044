//! The configuration of a project and the questions it answers: which
//! entity a name stands for, which services and dependencies a list of names
//! selects, and what a text becomes once its patterns are filled in.

use crate::names::NameSet;
use crate::text::{contains, is_part, replace, replaced, same};
use vstd::prelude::*;
use vstd::string::StringExecFns;

verus! {

/// The virtual machine that docker runs in.
#[derive(Debug)]
pub struct Machine {
    pub name: String,
    pub dns: String,
    pub cpu_count: u32,
    pub disk_size: u32,
    pub memory: u32,
}

/// How the image of a container is built.
#[derive(Debug)]
pub struct DockerBuild {
    pub context: String,
    pub docker_file: Option<String>,
}

/// How a container is run.
#[derive(Debug)]
pub struct Docker {
    pub image: String,
    pub container_name: Option<String>,
    pub ports: Option<Vec<String>>,
    pub working_dir: Option<String>,
    pub volumes: Option<Vec<String>>,
    pub environment: Option<Vec<String>>,
    pub env_file: Option<Vec<String>>,
    pub depends_on: Option<Vec<String>>,
    pub command: Option<String>,
    pub labels: Option<Vec<String>>,
    pub build: Option<DockerBuild>,
}

/// A container that services depend on.
#[derive(Debug)]
pub struct Dependency {
    pub name: String,
    pub docker: Docker,
}

/// A source repository and where it is checked out.
#[derive(Debug)]
pub struct Repository {
    pub name: String,
    pub remote: String,
    pub local: String,
}

/// The shell commands that build and test a service.
#[derive(Debug)]
pub struct Action {
    pub name: String,
    pub build: String,
    pub test: String,
}

/// A piece of text and what it is replaced by.
#[derive(Debug)]
pub struct Pattern {
    pub format: String,
    pub expand: String,
}

/// A short form for the beginnings of input lines: a line that begins
/// with one of `prefixes` is read as if it began with `value`.
#[derive(Debug)]
pub struct Shortcut {
    pub value: String,
    pub prefixes: Vec<String>,
}

/// A service, the repository that owns it and the folder it has there.
#[derive(Debug)]
pub struct Service {
    pub name: String,
    pub repo: String,
    pub folder: String,
    pub action: String,
    pub docker: Docker,
}

/// A named selection of dependencies and services, each given by name.
#[derive(Debug)]
pub struct Group {
    pub name: String,
    pub dependencies: Option<Vec<String>>,
    pub services: Option<Vec<String>>,
}

/// The description of a project.
///
/// Entities refer to each other by name only: a service to its repository
/// and action, a group to its members, `using` to groups. A name that no
/// entity carries is not an error; it simply resolves to nothing.
#[derive(Debug)]
pub struct Config {
    pub project: String,
    pub using: Option<Vec<String>>,
    pub machine: Option<Machine>,
    pub dependencies: Option<Vec<Dependency>>,
    pub repositories: Option<Vec<Repository>>,
    pub actions: Option<Vec<Action>>,
    pub patterns: Option<Vec<Pattern>>,
    pub shortcuts: Option<Vec<Shortcut>>,
    pub services: Option<Vec<Service>>,
    pub groups: Option<Vec<Group>>,
}

/// An entity that is found by its name.
pub trait Named {
    /// The name of the entity.
    spec fn label(&self) -> Seq<char>;

    /// The name of the entity.
    fn name(&self) -> (r: &str)
        ensures
            r@ == self.label(),
    ;
}

impl Named for Dependency {
    open spec fn label(&self) -> Seq<char> {
        self.name@
    }

    fn name(&self) -> (r: &str) {
        self.name.as_str()
    }
}

impl Named for Repository {
    open spec fn label(&self) -> Seq<char> {
        self.name@
    }

    fn name(&self) -> (r: &str) {
        self.name.as_str()
    }
}

impl Named for Action {
    open spec fn label(&self) -> Seq<char> {
        self.name@
    }

    fn name(&self) -> (r: &str) {
        self.name.as_str()
    }
}

impl Named for Service {
    open spec fn label(&self) -> Seq<char> {
        self.name@
    }

    fn name(&self) -> (r: &str) {
        self.name.as_str()
    }
}

impl Named for Group {
    open spec fn label(&self) -> Seq<char> {
        self.name@
    }

    fn name(&self) -> (r: &str) {
        self.name.as_str()
    }
}

/// The entries of an optional list; a missing list has none.
pub open spec fn listed<T>(list: Option<Vec<T>>) -> Seq<T> {
    match list {
        Some(items) => items@,
        None => Seq::empty(),
    }
}

/// The names of an optional list of names; a missing list has none.
pub open spec fn names_of(list: Option<Vec<String>>) -> Seq<Seq<char>> {
    match list {
        Some(names) => names.deep_view(),
        None => Seq::empty(),
    }
}

/// The first of `items` that carries `name`, if there is one.
pub open spec fn first_named<T: Named>(items: Seq<T>, name: Seq<char>) -> Option<T>
    decreases items.len(),
{
    if items.len() == 0 {
        None
    } else if items[0].label() == name {
        Some(items[0])
    } else {
        first_named(items.drop_first(), name)
    }
}

/// What `first_named` finds is one of the items and carries the name.
pub proof fn lemma_first_named<T: Named>(items: Seq<T>, name: Seq<char>)
    ensures
        first_named(items, name) matches Some(found) ==> items.contains(found) && found.label()
            == name,
        first_named(items, name) is None ==> forall|i: int|
            0 <= i < items.len() ==> (#[trigger] items[i]).label() != name,
    decreases items.len(),
{
    if items.len() > 0 && items[0].label() != name {
        let rest = items.drop_first();
        lemma_first_named(rest, name);
        if first_named(rest, name) is None {
            assert forall|i: int| 0 <= i < items.len() implies (#[trigger] items[i]).label()
                != name by {
                if i > 0 {
                    assert(rest[i - 1] == items[i]);
                }
            }
        }
    }
}

/// Whether no two of `items` carry the same name.
pub open spec fn distinct_names<T: Named>(items: Seq<T>) -> bool {
    forall|i: int, j: int|
        0 <= i < j < items.len() ==> (#[trigger] items[i]).label() != (#[trigger] items[j]).label()
}

/// Among items with distinct names, each is the one that its name finds.
pub proof fn lemma_found_by_name<T: Named>(items: Seq<T>, i: int)
    requires
        distinct_names(items),
        0 <= i < items.len(),
    ensures
        first_named(items, items[i].label()) == Some(items[i]),
    decreases items.len(),
{
    if i > 0 {
        let rest = items.drop_first();
        lemma_found_by_name(rest, i - 1);
    }
}

/// The first entry of an optional list that carries `name`.
pub fn find_named<'a, T: Named>(list: &'a Option<Vec<T>>, name: &str) -> (found: Option<&'a T>)
    ensures
        match found {
            Some(item) => first_named(listed(*list), name@) == Some(*item),
            None => first_named(listed(*list), name@) is None,
        },
{
    match list {
        Some(items) => {
            let mut i: usize = 0;
            assert(items@.skip(0) =~= items@);
            while i < items.len()
                invariant
                    i <= items.len(),
                    listed(*list) == items@,
                    first_named(items@, name@) == first_named(items@.skip(i as int), name@),
                decreases items.len() - i,
            {
                if same(items[i].name(), name) {
                    return Some(&items[i]);
                }
                assert(items@.skip(i as int).drop_first() =~= items@.skip(i + 1));
                i += 1;
            }
            None
        },
        None => None,
    }
}

/// Whether `name` is one of `names`.
pub fn listed_in(names: &[&str], name: &str) -> (r: bool)
    ensures
        r == names.deep_view().contains(name@),
{
    let mut i: usize = 0;
    while i < names.len()
        invariant
            i <= names.len(),
            forall|k: int| 0 <= k < i ==> names.deep_view()[k] != name@,
        decreases names.len() - i,
    {
        assert(names.deep_view()[i as int] == names[i as int]@);
        if same(names[i], name) {
            return true;
        }
        i += 1;
    }
    false
}

/// Whether a selector admits services.
pub open spec fn admits_services(choose: usize) -> bool {
    choose & 1 > 0
}

/// Whether a selector admits dependencies.
pub open spec fn admits_dependencies(choose: usize) -> bool {
    choose & 2 > 0
}

/// Whether a member of a group is accepted by the names `args`: always
/// when no name is given, else when the group, the member itself or the
/// repository that owns the member is named.
pub open spec fn accepts(
    args: Seq<Seq<char>>,
    group: Seq<char>,
    member: Seq<char>,
    owner: Option<Seq<char>>,
) -> bool {
    ||| args.len() == 0
    ||| args.contains(group)
    ||| args.contains(member)
    ||| (owner matches Some(repo) && args.contains(repo))
}

/// `text` after each of `patterns` in turn has had every occurrence of its
/// `format` replaced by its `expand`.
pub open spec fn patterns_applied(patterns: Seq<Pattern>, text: Seq<char>) -> Seq<char>
    decreases patterns.len(),
{
    if patterns.len() == 0 {
        text
    } else {
        replaced(
            patterns_applied(patterns.drop_last(), text),
            patterns.last().format@,
            patterns.last().expand@,
        )
    }
}

impl Config {
    /// The selector that admits services only.
    pub const SERVICE: usize = 1;

    /// The selector that admits dependencies only.
    pub const DEPENDENCY: usize = 2;

    /// The selector that admits both.
    pub const BOTH: usize = 3;

    /// Whether the names of the configuration are in order: within the
    /// dependencies, the repositories, the actions, the services and the
    /// groups, no two entities carry the same name. Nothing in this
    /// library depends on it: where a name occurs twice, the first entity
    /// that carries it is the one that is found.
    pub open spec fn wf(&self) -> bool {
        &&& distinct_names(listed(self.dependencies))
        &&& distinct_names(listed(self.repositories))
        &&& distinct_names(listed(self.actions))
        &&& distinct_names(listed(self.services))
        &&& distinct_names(listed(self.groups))
    }

    /// The configuration of a new project: nothing but its name.
    pub fn new(project: &str) -> (config: Self)
        ensures
            config.wf(),
            config.project@ == project@,
            config.using is None,
            config.machine is None,
            config.dependencies is None,
            config.repositories is None,
            config.actions is None,
            config.patterns is None,
            config.shortcuts is None,
            config.services is None,
            config.groups is None,
    {
        Config {
            project: String::from_str(project),
            using: None,
            machine: None,
            dependencies: None,
            repositories: None,
            actions: None,
            patterns: None,
            shortcuts: None,
            services: None,
            groups: None,
        }
    }

    /// The dependency that `name` stands for.
    pub open spec fn dependency_named(&self, name: Seq<char>) -> Option<Dependency> {
        first_named(listed(self.dependencies), name)
    }

    /// The repository that `name` stands for.
    pub open spec fn repository_named(&self, name: Seq<char>) -> Option<Repository> {
        first_named(listed(self.repositories), name)
    }

    /// The action that `name` stands for.
    pub open spec fn action_named(&self, name: Seq<char>) -> Option<Action> {
        first_named(listed(self.actions), name)
    }

    /// The service that `name` stands for.
    pub open spec fn service_named(&self, name: Seq<char>) -> Option<Service> {
        first_named(listed(self.services), name)
    }

    /// The group that `name` stands for.
    pub open spec fn group_named(&self, name: Seq<char>) -> Option<Group> {
        first_named(listed(self.groups), name)
    }

    /// The directory of a service: the local path of its repository, a
    /// slash and its folder. There is none if the repository is unknown.
    pub open spec fn directory_of(&self, service: Service) -> Option<Seq<char>> {
        match self.repository_named(service.repo@) {
            Some(repository) => Some(repository.local@ + "/"@ + service.folder@),
            None => None,
        }
    }

    /// The first dependency with the given name.
    pub fn search_dependency(&self, name: &str) -> (found: Option<&Dependency>)
        ensures
            match found {
                Some(dependency) => self.dependency_named(name@) == Some(*dependency),
                None => self.dependency_named(name@) is None,
            },
    {
        find_named(&self.dependencies, name)
    }

    /// The first repository with the given name.
    pub fn search_repository(&self, name: &str) -> (found: Option<&Repository>)
        ensures
            match found {
                Some(repository) => self.repository_named(name@) == Some(*repository),
                None => self.repository_named(name@) is None,
            },
    {
        find_named(&self.repositories, name)
    }

    /// The first action with the given name.
    pub fn search_action(&self, name: &str) -> (found: Option<&Action>)
        ensures
            match found {
                Some(action) => self.action_named(name@) == Some(*action),
                None => self.action_named(name@) is None,
            },
    {
        find_named(&self.actions, name)
    }

    /// The first service with the given name.
    pub fn search_service(&self, name: &str) -> (found: Option<&Service>)
        ensures
            match found {
                Some(service) => self.service_named(name@) == Some(*service),
                None => self.service_named(name@) is None,
            },
    {
        find_named(&self.services, name)
    }

    /// The first group with the given name.
    pub fn search_group(&self, name: &str) -> (found: Option<&Group>)
        ensures
            match found {
                Some(group) => self.group_named(name@) == Some(*group),
                None => self.group_named(name@) is None,
            },
    {
        find_named(&self.groups, name)
    }

    /// The repository that owns the service with the given name.
    pub fn search_service_repository(&self, name: &str) -> (found: Option<&Repository>)
        ensures
            match self.service_named(name@) {
                Some(service) => match found {
                    Some(repository) => self.repository_named(service.repo@) == Some(*repository),
                    None => self.repository_named(service.repo@) is None,
                },
                None => found is None,
            },
    {
        match self.search_service(name) {
            Some(service) => self.search_repository(service.repo.as_str()),
            None => None,
        }
    }

    /// The directory of the service with the given name.
    pub fn search_service_directory(&self, name: &str) -> (found: Option<String>)
        ensures
            match self.service_named(name@) {
                Some(service) => match found {
                    Some(dir) => self.directory_of(service) == Some(dir@),
                    None => self.directory_of(service) is None,
                },
                None => found is None,
            },
    {
        match self.search_service(name) {
            Some(service) => self.service_directory(service),
            None => None,
        }
    }

    /// The directory of a service.
    pub fn service_directory(&self, service: &Service) -> (found: Option<String>)
        ensures
            match found {
                Some(dir) => self.directory_of(*service) == Some(dir@),
                None => self.directory_of(*service) is None,
            },
    {
        match self.search_repository(service.repo.as_str()) {
            Some(repository) => {
                let mut dir = String::from_str(repository.local.as_str());
                dir.append("/");
                dir.append(service.folder.as_str());
                Some(dir)
            },
            None => None,
        }
    }

    /// Makes the groups with the given names the active selection. The
    /// names are taken as they are, known or not.
    pub fn use_groups(&mut self, group_names: &[&str])
        ensures
            old(self).wf() ==> final(self).wf(),
            final(self).using is Some,
            names_of(final(self).using) == group_names.deep_view(),
            final(self).project == old(self).project,
            final(self).machine == old(self).machine,
            final(self).dependencies == old(self).dependencies,
            final(self).repositories == old(self).repositories,
            final(self).actions == old(self).actions,
            final(self).patterns == old(self).patterns,
            final(self).shortcuts == old(self).shortcuts,
            final(self).services == old(self).services,
            final(self).groups == old(self).groups,
    {
        let mut using: Vec<String> = Vec::new();
        let mut i: usize = 0;
        while i < group_names.len()
            invariant
                i <= group_names.len(),
                using.deep_view() == group_names.deep_view().take(i as int),
            decreases group_names.len() - i,
        {
            let ghost before = using.deep_view();
            using.push(String::from_str(group_names[i]));
            assert(using.deep_view() =~= before.push(group_names[i as int]@));
            i += 1;
        }
        self.using = Some(using);
    }
}

/// Puts the names of an optional list into a set.
pub fn add_names(out: &mut NameSet, names: &Option<Vec<String>>)
    ensures
        final(out)@ == old(out)@.union(names_of(*names).to_set()),
{
    match names {
        Some(list) => {
            let mut i: usize = 0;
            while i < list.len()
                invariant
                    i <= list.len(),
                    names_of(*names) == list.deep_view(),
                    out@ == old(out)@.union(list.deep_view().take(i as int).to_set()),
                decreases list.len() - i,
            {
                out.insert(list[i].as_str());
                proof {
                    let all = list.deep_view();
                    assert(all.take(i + 1) =~= all.take(i as int).push(all[i as int]));
                    all.take(i as int).lemma_push_to_set_commute(all[i as int]);
                }
                i += 1;
            }
            assert(list.deep_view().take(i as int) =~= list.deep_view());
        },
        None => {},
    }
}

impl Config {
    /// Whether the group that the `i`-th active name stands for lists
    /// `name` among its services, or among its dependencies.
    pub open spec fn active_member(&self, i: int, services: bool, name: Seq<char>) -> bool {
        match self.group_named(names_of(self.using)[i]) {
            Some(group) => names_of(
                if services {
                    group.services
                } else {
                    group.dependencies
                },
            ).contains(name),
            None => false,
        }
    }

    /// The members that the first `upto` active names bring.
    pub open spec fn active_upto(&self, upto: int, services: bool) -> Set<Seq<char>> {
        Set::new(
            |name: Seq<char>|
                exists|i: int| 0 <= i < upto && #[trigger] self.active_member(i, services, name),
        )
    }

    /// The dependencies of the active selection: every name that a group
    /// named in `using` lists as a dependency.
    pub open spec fn active_dependencies(&self) -> Set<Seq<char>> {
        self.active_upto(names_of(self.using).len() as int, false)
    }

    /// The services of the active selection: every name that a group named
    /// in `using` lists as a service.
    pub open spec fn active_services(&self) -> Set<Seq<char>> {
        self.active_upto(names_of(self.using).len() as int, true)
    }

    /// The repositories of the active selection: the owner of every active
    /// service that is declared.
    pub open spec fn active_repositories(&self) -> Set<Seq<char>> {
        Set::new(
            |repo: Seq<char>|
                exists|name: Seq<char>|
                    self.active_services().contains(name) && (#[trigger] self.service_named(
                        name,
                    ) matches Some(service) && service.repo@ == repo),
        )
    }

    fn using_members(&self, services: bool) -> (result: NameSet)
        ensures
            result@ == self.active_upto(names_of(self.using).len() as int, services),
    {
        let mut result = NameSet::new();
        match &self.using {
            Some(using) => {
                let mut i: usize = 0;
                while i < using.len()
                    invariant
                        i <= using.len(),
                        names_of(self.using) == using.deep_view(),
                        result@ == self.active_upto(i as int, services),
                    decreases using.len() - i,
                {
                    match self.search_group(using[i].as_str()) {
                        Some(group) => {
                            if services {
                                add_names(&mut result, &group.services);
                            } else {
                                add_names(&mut result, &group.dependencies);
                            }
                        },
                        None => {},
                    }
                    proof {
                        assert forall|name: Seq<char>|
                            result@.contains(name) <==> self.active_upto(
                                i + 1,
                                services,
                            ).contains(name) by {
                            assert(self.active_member(i as int, services, name)
                                ==> self.active_upto(i + 1, services).contains(name));
                        }
                    }
                    i += 1;
                }
            },
            None => {},
        }
        result
    }

    /// The dependencies of the active selection.
    pub fn using_dependencies(&self) -> (result: NameSet)
        ensures
            result@ == self.active_dependencies(),
    {
        self.using_members(false)
    }

    /// The services of the active selection.
    pub fn using_services(&self) -> (result: NameSet)
        ensures
            result@ == self.active_services(),
    {
        self.using_members(true)
    }

    /// The repositories of the active selection.
    pub fn using_repositories(&self) -> (result: NameSet)
        ensures
            result@ == self.active_repositories(),
    {
        let services = self.using_services();
        let names = services.names();
        let mut result = NameSet::new();
        let mut i: usize = 0;
        let ghost all = names.deep_view();
        while i < names.len()
            invariant
                i <= names.len(),
                all == names.deep_view(),
                result@ == Set::new(
                    |repo: Seq<char>|
                        exists|k: int|
                            0 <= k < i && (#[trigger] self.service_named(
                                all[k],
                            ) matches Some(service) && service.repo@ == repo),
                ),
            decreases names.len() - i,
        {
            match self.search_service(names[i].as_str()) {
                Some(service) => {
                    result.insert(service.repo.as_str());
                },
                None => {},
            }
            proof {
                let now = Set::new(
                    |repo: Seq<char>|
                        exists|k: int|
                            0 <= k < i + 1 && (#[trigger] self.service_named(
                                all[k],
                            ) matches Some(service) && service.repo@ == repo),
                );
                assert forall|repo: Seq<char>| result@.contains(repo) <==> now.contains(repo) by {
                    if self.service_named(all[i as int]) matches Some(service) && service.repo@
                        == repo {
                        assert(now.contains(repo));
                    }
                }
            }
            i += 1;
        }
        result
    }
}

impl Config {
    /// Whether `group` brings the dependency `name` under the names `args`:
    /// the group lists it, it is declared, and it is accepted.
    pub open spec fn dependency_selected(
        &self,
        args: Seq<Seq<char>>,
        group: Group,
        name: Seq<char>,
    ) -> bool {
        &&& names_of(group.dependencies).contains(name)
        &&& self.dependency_named(name) is Some
        &&& accepts(args, group.name@, name, None)
    }

    /// Whether `group` brings the service `name` under the names `args`:
    /// the group lists it, it is declared, and it is accepted, be it by the
    /// name of the repository that owns it.
    pub open spec fn service_selected(
        &self,
        args: Seq<Seq<char>>,
        group: Group,
        name: Seq<char>,
    ) -> bool {
        &&& names_of(group.services).contains(name)
        &&& self.service_named(name) matches Some(service) && accepts(
            args,
            group.name@,
            name,
            Some(service.repo@),
        )
    }

    /// Whether `group` brings `name` under the names `args` and the
    /// selector `choose`.
    pub open spec fn group_selects(
        &self,
        args: Seq<Seq<char>>,
        choose: usize,
        group: Group,
        name: Seq<char>,
    ) -> bool {
        ||| admits_dependencies(choose) && self.dependency_selected(args, group, name)
        ||| admits_services(choose) && self.service_selected(args, group, name)
    }

    /// What the first `upto` groups bring under `args` and `choose`.
    pub open spec fn resolved_upto(
        &self,
        args: Seq<Seq<char>>,
        choose: usize,
        upto: int,
    ) -> Set<Seq<char>> {
        Set::new(
            |name: Seq<char>|
                exists|g: int|
                    0 <= g < upto && self.group_selects(
                        args,
                        choose,
                        #[trigger] listed(self.groups)[g],
                        name,
                    ),
        )
    }

    /// The names of the services and dependencies that `args` select under
    /// the selector `choose`: what any group brings.
    pub open spec fn resolved(&self, args: Seq<Seq<char>>, choose: usize) -> Set<Seq<char>> {
        self.resolved_upto(args, choose, listed(self.groups).len() as int)
    }

    fn select_dependencies(&self, out: &mut NameSet, args: &[&str], group: &Group)
        ensures
            final(out)@ == old(out)@.union(
                Set::new(
                    |name: Seq<char>| self.dependency_selected(args.deep_view(), *group, name),
                ),
            ),
    {
        match &group.dependencies {
            Some(names) => {
                let accept_group = args.len() == 0 || listed_in(args, group.name.as_str());
                let ghost all = names.deep_view();
                let mut i: usize = 0;
                while i < names.len()
                    invariant
                        i <= names.len(),
                        all == names.deep_view(),
                        all == names_of(group.dependencies),
                        accept_group == (args.deep_view().len() == 0 || args.deep_view().contains(
                            group.name@,
                        )),
                        forall|name: Seq<char>|
                            out@.contains(name) <==> old(out)@.contains(name) || (
                            self.dependency_selected(args.deep_view(), *group, name) && exists|
                                k: int,
                            |
                                0 <= k < i && all[k] == name),
                    decreases names.len() - i,
                {
                    let name = names[i].as_str();
                    assert(all[i as int] == name@);
                    let accept = accept_group || listed_in(args, name);
                    if accept && self.search_dependency(name).is_some() {
                        out.insert(name);
                    }
                    i += 1;
                }
            },
            None => {},
        }
    }

    fn select_services(&self, out: &mut NameSet, args: &[&str], group: &Group)
        ensures
            final(out)@ == old(out)@.union(
                Set::new(|name: Seq<char>| self.service_selected(args.deep_view(), *group, name)),
            ),
    {
        match &group.services {
            Some(names) => {
                let accept_group = args.len() == 0 || listed_in(args, group.name.as_str());
                let ghost all = names.deep_view();
                let mut i: usize = 0;
                while i < names.len()
                    invariant
                        i <= names.len(),
                        all == names.deep_view(),
                        all == names_of(group.services),
                        accept_group == (args.deep_view().len() == 0 || args.deep_view().contains(
                            group.name@,
                        )),
                        forall|name: Seq<char>|
                            out@.contains(name) <==> old(out)@.contains(name) || (
                            self.service_selected(args.deep_view(), *group, name) && exists|
                                k: int,
                            |
                                0 <= k < i && all[k] == name),
                    decreases names.len() - i,
                {
                    let name = names[i].as_str();
                    assert(all[i as int] == name@);
                    match self.search_service(name) {
                        Some(service) => {
                            let accept = accept_group || listed_in(args, name) || listed_in(
                                args,
                                service.repo.as_str(),
                            );
                            if accept {
                                out.insert(name);
                            }
                        },
                        None => {},
                    }
                    i += 1;
                }
            },
            None => {},
        }
    }

    /// The names of the services and dependencies that `args` select.
    ///
    /// With no name given, every member of every group is selected. With
    /// names, a member is selected if its group, the member itself or, for
    /// a service, the repository that owns it is named. `choose` says
    /// whether services, dependencies or both are looked at. A member that
    /// is not declared is passed over.
    pub fn match_services_dependencies(&self, args: &[&str], choose: usize) -> (result: NameSet)
        ensures
            result@ == self.resolved(args.deep_view(), choose),
    {
        let mut result = NameSet::new();
        match &self.groups {
            Some(groups) => {
                let mut g: usize = 0;
                while g < groups.len()
                    invariant
                        g <= groups.len(),
                        listed(self.groups) == groups@,
                        result@ == self.resolved_upto(args.deep_view(), choose, g as int),
                    decreases groups.len() - g,
                {
                    let group = &groups[g];
                    if choose & Self::DEPENDENCY > 0 {
                        self.select_dependencies(&mut result, args, group);
                    }
                    if choose & Self::SERVICE > 0 {
                        self.select_services(&mut result, args, group);
                    }
                    g += 1;
                }
            },
            None => {},
        }
        result
    }

    /// `text` with the patterns of the configuration filled in.
    ///
    /// First every pattern is applied, in order. If a service is given and
    /// the text then holds `{SERVICE_DIR}` or `{REPO_DIR}`, the former
    /// becomes the directory of the service and the latter the local path
    /// of its repository; they stay as they are if the repository is
    /// unknown.
    pub open spec fn filled(&self, text: Seq<char>, service: Option<Service>) -> Seq<char> {
        let plain = patterns_applied(listed(self.patterns), text);
        match service {
            Some(service) => if is_part(plain, "{SERVICE_DIR}"@) || is_part(
                plain,
                "{REPO_DIR}"@,
            ) {
                match self.repository_named(service.repo@) {
                    Some(repository) => replaced(
                        replaced(
                            plain,
                            "{SERVICE_DIR}"@,
                            repository.local@ + "/"@ + service.folder@,
                        ),
                        "{REPO_DIR}"@,
                        repository.local@,
                    ),
                    None => plain,
                }
            } else {
                plain
            },
            None => plain,
        }
    }

    /// `text` with the patterns of the configuration filled in.
    pub fn fill_patterns(&self, text: &str, service: Option<&Service>) -> (result: String)
        ensures
            result@ == self.filled(
                text@,
                match service {
                    Some(service) => Some(*service),
                    None => None,
                },
            ),
    {
        let mut result = String::from_str(text);
        match &self.patterns {
            Some(patterns) => {
                let mut i: usize = 0;
                while i < patterns.len()
                    invariant
                        i <= patterns.len(),
                        result@ == patterns_applied(patterns@.take(i as int), text@),
                    decreases patterns.len() - i,
                {
                    result = replace(
                        result.as_str(),
                        patterns[i].format.as_str(),
                        patterns[i].expand.as_str(),
                    );
                    assert(patterns@.take(i + 1).drop_last() =~= patterns@.take(i as int));
                    i += 1;
                }
                assert(patterns@.take(i as int) =~= patterns@);
            },
            None => {},
        }
        match service {
            Some(service) => {
                if contains(result.as_str(), "{SERVICE_DIR}") || contains(
                    result.as_str(),
                    "{REPO_DIR}",
                ) {
                    match self.search_repository(service.repo.as_str()) {
                        Some(repository) => {
                            let mut service_dir = String::from_str(repository.local.as_str());
                            service_dir.append("/");
                            service_dir.append(service.folder.as_str());
                            result = replace(
                                result.as_str(),
                                "{SERVICE_DIR}",
                                service_dir.as_str(),
                            );
                            result = replace(
                                result.as_str(),
                                "{REPO_DIR}",
                                repository.local.as_str(),
                            );
                        },
                        None => {},
                    }
                }
            },
            None => {},
        }
        result
    }
}

impl Config {
    /// Whether some group lists `name` as a dependency or as a service.
    pub open spec fn is_member(&self, name: Seq<char>) -> bool {
        exists|g: int|
            0 <= g < listed(self.groups).len() && (names_of(
                (#[trigger] listed(self.groups)[g]).dependencies,
            ).contains(name) || names_of(listed(self.groups)[g].services).contains(name))
    }

    /// Whether some group lists `name` as a dependency that is declared, or
    /// as a service that is declared.
    pub open spec fn is_declared_member(&self, name: Seq<char>) -> bool {
        exists|g: int|
            0 <= g < listed(self.groups).len() && ((names_of(
                (#[trigger] listed(self.groups)[g]).dependencies,
            ).contains(name) && self.dependency_named(name) is Some) || (names_of(
                listed(self.groups)[g].services,
            ).contains(name) && self.service_named(name) is Some))
    }

    /// Whether every name that a group lists is declared: dependencies
    /// among the dependencies, services among the services.
    pub open spec fn members_declared(&self) -> bool {
        forall|g: int, name: Seq<char>|
            0 <= g < listed(self.groups).len() ==> (names_of(
                (#[trigger] listed(self.groups)[g]).dependencies,
            ).contains(name) ==> #[trigger] self.dependency_named(name) is Some) && (names_of(
                listed(self.groups)[g].services,
            ).contains(name) ==> #[trigger] self.service_named(name) is Some)
    }
}

/// With no name given and both kinds admitted, exactly the declared members
/// of the groups are selected.
pub proof fn lemma_accept_all(config: Config)
    ensures
        forall|name: Seq<char>|
            config.resolved(Seq::empty(), Config::BOTH).contains(name)
                <==> config.is_declared_member(name),
{
    assert(3usize & 2 > 0) by (bit_vector);
    assert(3usize & 1 > 0) by (bit_vector);
}

/// Where every listed name is declared, no name given and both kinds
/// admitted select the full union of what the groups list.
pub proof fn lemma_accept_all_members(config: Config)
    requires
        config.members_declared(),
    ensures
        forall|name: Seq<char>|
            config.resolved(Seq::empty(), Config::BOTH).contains(name) <==> config.is_member(name),
{
    lemma_accept_all(config);
    assert forall|name: Seq<char>|
        config.is_declared_member(name) <==> config.is_member(name) by {
        if config.is_member(name) {
            let g = choose|g: int|
                0 <= g < listed(config.groups).len() && (names_of(
                    (#[trigger] listed(config.groups)[g]).dependencies,
                ).contains(name) || names_of(listed(config.groups)[g].services).contains(name));
            let group = listed(config.groups)[g];
            if names_of(group.dependencies).contains(name) {
                assert(config.dependency_named(name) is Some);
            } else {
                assert(config.service_named(name) is Some);
            }
        }
    }
}

/// A declared service that a group lists is selected by the name of the
/// group, by its own name and by the name of the repository that owns it,
/// whenever services are admitted.
pub proof fn lemma_three_levels(config: Config, g: int, service: Service, choose: usize)
    requires
        0 <= g < listed(config.groups).len(),
        names_of(listed(config.groups)[g].services).contains(service.name@),
        config.service_named(service.name@) == Some(service),
        admits_services(choose),
    ensures
        config.resolved(seq![listed(config.groups)[g].name@], choose).contains(service.name@),
        config.resolved(seq![service.name@], choose).contains(service.name@),
        config.resolved(seq![service.repo@], choose).contains(service.name@),
{
    let group = listed(config.groups)[g];
    let by_group = seq![group.name@];
    let by_name = seq![service.name@];
    let by_repo = seq![service.repo@];
    assert(by_group[0] == group.name@);
    assert(by_name[0] == service.name@);
    assert(by_repo[0] == service.repo@);
}

/// A name that is not declared is never selected, whatever lists it.
pub proof fn lemma_dangling_skipped(
    config: Config,
    args: Seq<Seq<char>>,
    choose: usize,
    name: Seq<char>,
)
    requires
        config.dependency_named(name) is None,
        config.service_named(name) is None,
    ensures
        !config.resolved(args, choose).contains(name),
{
}

/// Only services are selected where only services are admitted, and only
/// dependencies where only dependencies are.
pub proof fn lemma_selector(config: Config, args: Seq<Seq<char>>, name: Seq<char>)
    ensures
        config.resolved(args, Config::SERVICE).contains(name) ==> config.service_named(name) is Some,
        config.resolved(args, Config::DEPENDENCY).contains(name) ==> config.dependency_named(name)
            is Some,
{
    assert(1usize & 2 == 0) by (bit_vector);
    assert(2usize & 1 == 0) by (bit_vector);
}

} // verus!
