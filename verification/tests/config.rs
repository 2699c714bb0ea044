use turtle::config::{
    Action, Config, Dependency, Docker, DockerBuild, Group, Machine, Pattern, Repository, Service,
    Shortcut,
};

fn strings(items: &[&str]) -> Vec<String> {
    items.iter().map(|s| String::from(*s)).collect()
}

fn docker(image: &str) -> Docker {
    Docker {
        image: String::from(image),
        container_name: None,
        ports: None,
        working_dir: None,
        volumes: None,
        environment: None,
        env_file: None,
        depends_on: None,
        command: None,
        labels: None,
        build: None,
    }
}

fn service(name: &str, repo: &str) -> Service {
    let mut docker = docker(name);
    docker.build = Some(DockerBuild {
        context: String::from("{SERVICE_DIR}"),
        docker_file: Some(String::from("{SERVICE_DIR}/Dockerfile")),
    });
    docker.volumes = Some(strings(&["{REPO_DIR}:/app"]));
    Service {
        name: String::from(name),
        repo: String::from(repo),
        folder: String::from(name),
        action: String::from("cargo"),
        docker,
    }
}

fn group(name: &str, dependencies: Option<&[&str]>, services: Option<&[&str]>) -> Group {
    Group {
        name: String::from(name),
        dependencies: dependencies.map(strings),
        services: services.map(strings),
    }
}

fn sample_config() -> Config {
    Config {
        project: String::from("forest"),
        using: Some(strings(&["all"])),
        machine: Some(Machine {
            name: String::from("turtle"),
            dns: String::from("dev.turtle.co"),
            cpu_count: 2,
            disk_size: 16384,
            memory: 4096,
        }),
        dependencies: Some(vec![
            Dependency { name: String::from("postgres"), docker: docker("postgres:11.1-alpine") },
            Dependency { name: String::from("redis"), docker: docker("redis:5.0.3-alpine") },
        ]),
        repositories: Some(vec![Repository {
            name: String::from("flowers"),
            remote: String::from("git@gitlab.com:phamlequang/flowers.git"),
            local: String::from("~/projects/flowers"),
        }]),
        actions: Some(vec![Action {
            name: String::from("cargo"),
            build: String::from("cargo build"),
            test: String::from("cargo test"),
        }]),
        patterns: Some(vec![Pattern {
            format: String::from("{DATA_DIR}"),
            expand: String::from("~/data"),
        }]),
        shortcuts: Some(vec![Shortcut {
            value: String::from("clone"),
            prefixes: strings(&["git clone"]),
        }]),
        services: Some(vec![service("camellia", "flowers"), service("lotus", "flowers")]),
        groups: Some(vec![
            group("dep", Some(&["postgres", "redis"]), None),
            group("svc", None, Some(&["camellia", "lotus"])),
            group("all", Some(&["postgres", "redis"]), Some(&["camellia", "lotus"])),
        ]),
    }
}

#[test]
fn test_load_config_ok() {
    let config = sample_config();

    assert!(!config.project.is_empty());
    assert!(config.using.is_some());
    assert!(config.machine.is_some());
    assert!(config.dependencies.is_some());
    assert!(config.repositories.is_some());
    assert!(config.actions.is_some());
    assert!(config.patterns.is_some());
    assert!(config.services.is_some());
    assert!(config.groups.is_some());
}

#[test]
fn test_new_config() {
    let config = Config::new("forest");
    assert_eq!(config.project, "forest");
    assert!(config.using.is_none());
    assert!(config.machine.is_none());
    assert!(config.dependencies.is_none());
    assert!(config.repositories.is_none());
    assert!(config.actions.is_none());
    assert!(config.patterns.is_none());
    assert!(config.shortcuts.is_none());
    assert!(config.services.is_none());
    assert!(config.groups.is_none());
}

#[test]
fn test_search_repository_found() {
    let config = sample_config();
    let name = "flowers";

    let found = config.search_repository(name);
    assert!(found.is_some());

    let repository = found.unwrap();
    assert_eq!(repository.name, name);
}

#[test]
fn test_search_repository_not_found() {
    let config = sample_config();
    let name = "unknown";

    let found = config.search_repository(name);
    assert!(found.is_none());
}

#[test]
fn test_search_action_found() {
    let config = sample_config();
    let name = "cargo";

    let found = config.search_action(name);
    assert!(found.is_some());

    let action = found.unwrap();
    assert_eq!(action.name, name);
}

#[test]
fn test_search_action_not_found() {
    let config = sample_config();
    let name = "unknown";

    let found = config.search_action(name);
    assert!(found.is_none());
}

#[test]
fn test_search_service_found() {
    let config = sample_config();
    let name = "lotus";

    let found = config.search_service(name);
    assert!(found.is_some());

    let service = found.unwrap();
    assert_eq!(service.name, name);
}

#[test]
fn test_search_service_not_found() {
    let config = sample_config();
    let name = "unknown";

    let found = config.search_service(name);
    assert!(found.is_none());
}

#[test]
fn test_search_dependency() {
    let config = sample_config();
    assert_eq!(config.search_dependency("redis").unwrap().name, "redis");
    assert!(config.search_dependency("lotus").is_none());
}

#[test]
fn test_search_first_of_equal_names() {
    let mut config = sample_config();
    config.repositories.as_mut().unwrap().push(Repository {
        name: String::from("flowers"),
        remote: String::from("elsewhere"),
        local: String::from("/second"),
    });
    let repository = config.search_repository("flowers").unwrap();
    assert_eq!(repository.local, "~/projects/flowers");
}

#[test]
fn test_search_service_repository_found() {
    let config = sample_config();
    let name = "lotus";

    let found = config.search_service_repository(name);
    assert!(found.is_some());

    let repository = found.unwrap();
    assert_eq!(repository.name, "flowers");
}

#[test]
fn test_search_service_repository_not_found() {
    let config = sample_config();
    let name = "unknown";

    let found = config.search_service_repository(name);
    assert!(found.is_none());
}

#[test]
fn test_search_service_directory_found() {
    let config = sample_config();
    let name = "camellia";

    let found = config.search_service_directory(name);
    assert!(found.is_some());

    let dir = found.unwrap();
    assert_eq!(dir, "~/projects/flowers/camellia");
}

#[test]
fn test_search_service_directory_not_found() {
    let config = sample_config();
    let name = "unknown";

    let found = config.search_service_directory(name);
    assert!(found.is_none());
}

#[test]
fn test_service_directory() {
    let config = sample_config();
    let name = "camellia";

    let service = config.search_service(name);
    assert!(service.is_some());
    let service = service.unwrap();

    let found = config.service_directory(&service);
    assert!(found.is_some());

    let dir = found.unwrap();
    assert_eq!(dir, "~/projects/flowers/camellia");
}

#[test]
fn test_service_directory_unknown_repository() {
    let config = sample_config();
    let orphan = service("orchid", "garden");
    assert!(config.service_directory(&orphan).is_none());
}

#[test]
fn test_search_group_found() {
    let config = sample_config();
    let name = "all";

    let found = config.search_group(name);
    assert!(found.is_some());

    let group = found.unwrap();
    assert_eq!(group.name, name)
}

#[test]
fn test_search_group_not_found() {
    let config = sample_config();
    let name = "unknown";

    let found = config.search_group(name);
    assert!(found.is_none());
}

#[test]
fn test_use_groups_keeps_names_in_order() {
    let mut config = sample_config();
    config.use_groups(&["svc", "missing", "dep"]);
    assert_eq!(config.using, Some(strings(&["svc", "missing", "dep"])));
    assert_eq!(config.project, "forest");
    assert_eq!(config.groups.as_ref().unwrap().len(), 3);
}

#[test]
fn test_using_dependencies() {
    let mut config = sample_config();

    let dependencies = config.using_dependencies();
    assert_eq!(dependencies.len(), 2);
    assert!(dependencies.contains("postgres"));
    assert!(dependencies.contains("redis"));

    config.use_groups(&["svc"]);
    let dependencies = config.using_dependencies();
    assert!(dependencies.is_empty());
}

#[test]
fn test_using_services() {
    let mut config = sample_config();

    let services = config.using_services();
    assert_eq!(services.len(), 2);
    assert!(services.contains("camellia"));
    assert!(services.contains("lotus"));

    config.use_groups(&["dep"]);
    let services = config.using_services();
    assert!(services.is_empty());
}

#[test]
fn test_using_repositories() {
    let mut config = sample_config();

    let repositories = config.using_repositories();
    assert_eq!(repositories.len(), 1);
    assert!(repositories.contains("flowers"));

    config.use_groups(&["dep"]);
    let repositories = config.using_repositories();
    assert!(repositories.is_empty());
}

#[test]
fn test_using_nothing() {
    let mut config = sample_config();
    config.using = None;
    assert!(config.using_dependencies().is_empty());
    assert!(config.using_services().is_empty());
    assert!(config.using_repositories().is_empty());
}

#[test]
fn test_match_services_dependencies() {
    let config = sample_config();

    let args = ["dep", "camellia", "unknown"];
    let result = config.match_services_dependencies(&args, Config::BOTH);
    assert_eq!(result.len(), 3);

    assert!(result.contains("camellia"));
    assert!(result.contains("postgres"));
    assert!(result.contains("redis"));
}

#[test]
fn test_match_services_dependencies_repo() {
    let config = sample_config();

    let args = ["flowers", "unknown"];
    let result = config.match_services_dependencies(&args, Config::BOTH);
    assert_eq!(result.len(), 2);

    assert!(result.contains("camellia"));
    assert!(result.contains("lotus"));
}

#[test]
fn test_match_services_dependencies_all() {
    let config = sample_config();

    let result = config.match_services_dependencies(&[], Config::BOTH);
    assert_eq!(result.len(), 4);

    assert!(result.contains("camellia"));
    assert!(result.contains("lotus"));
    assert!(result.contains("postgres"));
    assert!(result.contains("redis"));
}

#[test]
fn test_match_services_only() {
    let config = sample_config();

    let result = config.match_services_dependencies(&[], Config::SERVICE);
    assert_eq!(result.len(), 2);

    assert!(result.contains("camellia"));
    assert!(result.contains("lotus"));
}

#[test]
fn test_match_dependencies_only() {
    let config = sample_config();

    let result = config.match_services_dependencies(&["all"], Config::DEPENDENCY);
    assert_eq!(result.len(), 2);

    assert!(result.contains("postgres"));
    assert!(result.contains("redis"));
}

#[test]
fn test_match_selector_constants() {
    assert_eq!(Config::SERVICE, 1);
    assert_eq!(Config::DEPENDENCY, 2);
    assert_eq!(Config::BOTH, Config::SERVICE | Config::DEPENDENCY);

    let config = sample_config();
    assert!(config.match_services_dependencies(&[], 0).is_empty());
}

#[test]
fn test_match_three_levels() {
    let config = sample_config();
    for name in ["svc", "camellia", "flowers"] {
        let result = config.match_services_dependencies(&[name], Config::SERVICE);
        assert!(result.contains("camellia"), "{}", name);
    }
}

#[test]
fn test_match_skips_dangling_names() {
    let mut config = sample_config();
    config.groups.as_mut().unwrap().push(group(
        "odd",
        Some(&["mongo", "redis"]),
        Some(&["ghost", "lotus"]),
    ));

    let result = config.match_services_dependencies(&["odd"], Config::BOTH);
    assert_eq!(result.names(), &strings(&["lotus", "redis"]));

    let result = config.match_services_dependencies(&["ghost", "mongo"], Config::BOTH);
    assert!(result.is_empty());

    let result = config.match_services_dependencies(&[], Config::BOTH);
    assert_eq!(result.names(), &strings(&["camellia", "lotus", "postgres", "redis"]));
}

#[test]
fn test_match_scenario() {
    let mut config = sample_config();
    config.groups = Some(vec![
        group("dep", Some(&["postgres", "redis"]), None),
        group("all", Some(&["postgres", "redis"]), Some(&["camellia", "lotus"])),
    ]);
    config.services = Some(vec![service("camellia", "flowers"), service("lotus", "pond")]);

    let result = config.match_services_dependencies(&["dep"], Config::BOTH);
    assert_eq!(result.names(), &strings(&["postgres", "redis"]));

    let result = config.match_services_dependencies(&["flowers"], Config::SERVICE);
    assert_eq!(result.names(), &strings(&["camellia"]));

    let result = config.match_services_dependencies(&[], Config::SERVICE);
    assert_eq!(result.names(), &strings(&["camellia", "lotus"]));
}

#[test]
fn test_fill_patterns() {
    let config = sample_config();
    let service = config.search_service("camellia").unwrap();

    let filled_text = config.fill_patterns("{REPO_DIR}:/app", None);
    let expect_text = "{REPO_DIR}:/app";
    assert_eq!(filled_text, expect_text);

    let filled_text = config.fill_patterns("{REPO_DIR}:/app", Some(&service));
    let expect_text = "~/projects/flowers:/app";
    assert_eq!(filled_text, expect_text);

    let filled_text = config.fill_patterns("{SERVICE_DIR}/.env", Some(&service));
    let expect_text = "~/projects/flowers/camellia/.env";
    assert_eq!(filled_text, expect_text);
}

#[test]
fn test_fill_patterns_round_trip() {
    let mut config = sample_config();
    config.repositories.as_mut().unwrap()[0].local = String::from("/p");
    let service = config.search_service("lotus").unwrap();

    assert_eq!(config.fill_patterns("{REPO_DIR}/x", Some(service)), "/p/x");
    assert_eq!(config.fill_patterns("{REPO_DIR}/x", None), "{REPO_DIR}/x");
}

#[test]
fn test_fill_patterns_declared_rules() {
    let mut config = sample_config();
    config.patterns.as_mut().unwrap().push(Pattern {
        format: String::from("~/data"),
        expand: String::from("/srv/{REPO_DIR}"),
    });
    let service = config.search_service("lotus").unwrap();

    assert_eq!(config.fill_patterns("{DATA_DIR}/a:{DATA_DIR}/b", None), "/srv/{REPO_DIR}/a:/srv/{REPO_DIR}/b");
    assert_eq!(
        config.fill_patterns("{DATA_DIR}/a", Some(service)),
        "/srv/~/projects/flowers/a"
    );
}

#[test]
fn test_fill_patterns_unknown_repository() {
    let config = sample_config();
    let orphan = service("orchid", "garden");
    assert_eq!(
        config.fill_patterns("{SERVICE_DIR}:{REPO_DIR}", Some(&orphan)),
        "{SERVICE_DIR}:{REPO_DIR}"
    );
}
