use turtle::cmd::Command;
use turtle::config::{Config, Dependency, Docker, DockerBuild, Group, Machine, Repository, Service};
use turtle::decr;
use turtle::docker::{
    compose_command, compose_exec, compose_service, create_machine, docker_command, export_text,
    exports, extract_named_volume, generate_compose_lines, generate_compose_text,
    list_containers, load_environments, machine_command, restart_services, service_logs,
    status_services, status_table, stop_services, update_certificates, Marks,
};

fn sample_machine() -> Machine {
    return Machine {
        name: String::from("turtle"),
        dns: String::from("dev.turtle.co"),
        cpu_count: 2,
        disk_size: 16384,
        memory: 4096,
    };
}

fn strings(items: &[&str]) -> Vec<String> {
    items.iter().map(|s| String::from(*s)).collect()
}

fn docker(image: &str) -> Docker {
    Docker {
        image: String::from(image),
        container_name: None,
        ports: None,
        working_dir: None,
        volumes: None,
        environment: None,
        env_file: None,
        depends_on: None,
        command: None,
        labels: None,
        build: None,
    }
}

fn sample_config() -> Config {
    let mut postgres = docker("postgres:11.1-alpine");
    postgres.ports = Some(strings(&["5432:5432"]));
    postgres.volumes = Some(strings(&["postgres_data:/var/lib/postgresql/data", "{DUMPS}:/dumps"]));
    postgres.environment = Some(strings(&["POSTGRES_DB=forest"]));

    let mut lotus = docker("lotus");
    lotus.container_name = Some(String::from("lotus_1"));
    lotus.build = Some(DockerBuild {
        context: String::from("{SERVICE_DIR}"),
        docker_file: Some(String::from("{REPO_DIR}/Dockerfile")),
    });
    lotus.ports = Some(strings(&["8080:8080"]));
    lotus.working_dir = Some(String::from("/app"));
    lotus.volumes = Some(strings(&["{SERVICE_DIR}:/app", "cargo_cache:/cache"]));
    lotus.env_file = Some(strings(&["{SERVICE_DIR}/.env"]));
    lotus.depends_on = Some(strings(&["postgres"]));
    lotus.command = Some(String::from("{REPO_DIR}/run.sh"));
    lotus.labels = Some(strings(&["tier=web"]));

    Config {
        project: String::from("forest"),
        using: Some(strings(&["all"])),
        machine: Some(sample_machine()),
        dependencies: Some(vec![
            Dependency { name: String::from("postgres"), docker: postgres },
            Dependency { name: String::from("redis"), docker: docker("redis:5.0.3-alpine") },
        ]),
        repositories: Some(vec![Repository {
            name: String::from("flowers"),
            remote: String::from("git@gitlab.com:phamlequang/flowers.git"),
            local: String::from("~/projects/flowers"),
        }]),
        actions: None,
        patterns: Some(vec![turtle::config::Pattern {
            format: String::from("{DUMPS}"),
            expand: String::from("~/dumps"),
        }]),
        shortcuts: None,
        services: Some(vec![
            Service {
                name: String::from("camellia"),
                repo: String::from("flowers"),
                folder: String::from("camellia"),
                action: String::from("cargo"),
                docker: docker("camellia"),
            },
            Service {
                name: String::from("lotus"),
                repo: String::from("flowers"),
                folder: String::from("lotus"),
                action: String::from("cargo"),
                docker: lotus,
            },
        ]),
        groups: Some(vec![
            Group {
                name: String::from("dep"),
                dependencies: Some(strings(&["postgres", "redis"])),
                services: None,
            },
            Group {
                name: String::from("all"),
                dependencies: Some(strings(&["postgres"])),
                services: Some(strings(&["lotus"])),
            },
        ]),
    }
}

#[test]
fn test_test_create_machine() {
    let machine = sample_machine();

    let command = create_machine(&machine);
    let expect = Command::basic_show(
        "docker-machine create \
         --driver virtualbox \
         --virtualbox-host-dns-resolver \
         --virtualbox-cpu-count 2 \
         --virtualbox-disk-size 16384 \
         --virtualbox-memory 4096 \
         turtle",
    );

    assert_eq!(command, expect);
}

#[test]
fn docker_test_create_machine() {
    let machine = sample_machine();

    let command = create_machine(&machine);
    let expect = "docker-machine create \
                  --driver virtualbox \
                  --virtualbox-host-dns-resolver \
                  --virtualbox-cpu-count 2 \
                  --virtualbox-disk-size 16384 \
                  --virtualbox-memory 4096 \
                  turtle";

    assert_eq!(command.raw, expect);
    assert!(command.dir.is_empty());
    assert!(command.show);
}

#[test]
fn test_test_update_certificates() {
    let machine = sample_machine();

    let command = update_certificates(&machine);
    let expect = Command::basic_show(
        "docker-machine regenerate-certs \
         --force --client-certs turtle",
    );

    assert_eq!(command, expect);
}

#[test]
fn docker_test_update_certificates() {
    let machine = sample_machine();

    let command = update_certificates(&machine);
    let expect = "docker-machine regenerate-certs --force --client-certs turtle";

    assert_eq!(command.raw, expect);
    assert!(command.dir.is_empty());
    assert!(command.show);
}

#[test]
fn test_load_environments_reads_exports() {
    let machine = sample_machine();

    let command = load_environments(&machine);
    assert_eq!(command.raw, "docker-machine env turtle");
    assert!(command.dir.is_empty());
    assert!(!command.show);
    assert!(command.silent);
    assert!(command.pipe);
    assert!(command.continuation.is_some());
    assert!(command.back);

    let exec = command.continuation.unwrap();
    let stdout = "export DOCKER_TLS_VERIFY=\"1\"\n\
                  export DOCKER_HOST=\"tcp://192.168.99.100:2376\"\n\
                  # Run this command to configure your shell:\n\
                  export BROKEN=a=b\n\
                  export export DOCKER_MACHINE_NAME=turtle\n";
    let (success, output) = exec.apply(stdout);
    assert!(success);
    assert_eq!(
        output,
        "DOCKER_TLS_VERIFY=1\nDOCKER_HOST=tcp://192.168.99.100:2376\nDOCKER_MACHINE_NAME=turtle"
    );
}

#[test]
fn test_exports() {
    let found = exports("export A=\"1\"\nB=2\nexport C\nexport D=\n");
    assert_eq!(found.len(), 2);
    assert_eq!(found[0].line, "export A=\"1\"");
    assert_eq!(found[0].key, "A");
    assert_eq!(found[0].value, "1");
    assert_eq!(found[1].line, "export D=");
    assert_eq!(found[1].key, "D");
    assert_eq!(found[1].value, "");
    assert_eq!(export_text(&found), "A=1\nD=");
    assert_eq!(export_text(&exports("")), "");
}

#[test]
fn test_machine_command() {
    let machine = sample_machine();

    let command = machine_command("restart", &machine);
    let expect = Command::basic_show("docker-machine restart turtle");

    assert_eq!(command, expect);
}

#[test]
fn test_do_with_machine() {
    let machine = sample_machine();

    let command = machine_command("restart", &machine);
    let expect = "docker-machine restart turtle";

    assert_eq!(command.raw, expect);
    assert!(command.dir.is_empty());
    assert!(command.show);
}

#[test]
fn test_compose_command() {
    let command = compose_command("up -d", "forest", "compose.yml");
    let expect = Command::basic_show("docker-compose -p forest -f compose.yml up -d");
    assert_eq!(command, expect);
}

#[test]
fn test_service_logs() {
    let command = service_logs("lotus", "forest", "compose.yml");
    let expect = Command::basic_show(
        "docker-compose -p forest -f compose.yml \
         logs -f --tail=100 lotus",
    );
    assert_eq!(command, expect);
}

#[test]
fn test_restart_services() {
    let service_names = ["lotus", "camellia"];
    let command = restart_services(&service_names, "forest", "compose.yml");
    let expect = Command::basic_show(
        "docker-compose -p forest -f compose.yml \
         restart lotus camellia",
    );
    assert_eq!(command, expect);
}

#[test]
fn test_stop_services() {
    let service_names = ["lotus", "camellia"];
    let command = stop_services(&service_names, "forest", "compose.yml");
    let expect = Command::basic_show(
        "docker-compose -p forest -f compose.yml \
         stop lotus camellia",
    );
    assert_eq!(command, expect);
}

#[test]
fn test_status_services() {
    let command = status_services("forest", "compose.yml");

    let raw = "docker inspect --format='\
               {{index .Config.Labels \"com.docker.compose.service\"}}||\
               {{.State.Status}}||\
               {{.Config.Image}}||\
               {{.State.StartedAt}}' \
               $(docker-compose -p forest -f compose.yml ps -q | xargs)";

    assert_eq!(command.raw, raw);
    assert!(command.dir.is_empty());
    assert!(!command.show);
    assert!(command.silent);
    assert!(command.pipe);
    assert!(command.continuation.is_some());
    assert!(command.back);

    let exec = command.continuation.unwrap();
    let stdout = "camellia||running||camellia||2019-01-13T12:08:02.0454347Z\n\
                  lotus||exited||lotus||2019-01-13T12:08:01.9303336Z\n\
                  redis||paused||redis:latest||	2019-01-13T12:08:00.9464002Z\n";
    let expect = format!(
        "SERVICE \tSTATUS   \tIMAGE       \tCREATED AT\n\
         camellia\t{} running\tcamellia    \t2019-01-13T12:08:02.0454347Z\n\
         lotus   \t{} exited\tlotus       \t2019-01-13T12:08:01.9303336Z\n\
         redis   \t{} paused\tredis:latest\t\t2019-01-13T12:08:00.9464002Z",
        decr::green("✓"),
        decr::red("𐄂"),
        decr::yellow("-"),
    );

    let (success, output) = exec.apply(stdout);
    assert!(success);
    assert_eq!(output, expect);
}

#[test]
fn test_status_table_plain_marks() {
    let marks = Marks {
        running: String::from("+"),
        paused: String::from("~"),
        other: String::from("x"),
    };
    let (success, output) = status_table("a||running||img||t1\nbb||paused||i||t2\nc||dead||i||t3", &marks);
    assert!(success);
    assert_eq!(
        output,
        "SERVICE \tSTATUS   \tIMAGE   \tCREATED AT\n\
         a       \t+ running\timg     \tt1\n\
         bb      \t~ paused \ti       \tt2\n\
         c       \tx dead   \ti       \tt3"
    );

    let (success, output) = status_table("", &marks);
    assert!(success);
    assert_eq!(output, "SERVICE \tSTATUS  \tIMAGE   \tCREATED AT");

    let (success, output) = status_table("a||b||c||d\nbad||line\nworse", &marks);
    assert!(!success);
    assert_eq!(output, "unexpected output line: bad||line");
}

#[test]
fn test_compose_exec() {
    let command = compose_exec("postgres", "psql -d test -U admin", "forest", "compose.yml");
    let expect = Command::basic_show(
        "docker-compose -p forest -f compose.yml \
         exec postgres psql -d test -U admin",
    );
    assert_eq!(command, expect);
}

#[test]
fn test_docker_command() {
    let command = docker_command("images");
    let expect = Command::basic_hide("docker images");
    assert_eq!(command, expect);
}

#[test]
fn test_list_containers() {
    let command = list_containers();
    let expect = Command::basic_hide(
        "docker ps -a --format \"table \
         {{.Names}}\t{{.Image}}\t{{.Size}}\t{{.CreatedAt}}\t{{.Status}}\"",
    );
    assert_eq!(command, expect);
}

#[test]
fn test_extract_named_volume() {
    let volume = extract_named_volume("/var/lib/mysql");
    assert!(volume.is_none());

    let volume = extract_named_volume("/opt/data:/var/lib/mysql");
    assert!(volume.is_none());

    let volume = extract_named_volume("./cache:/tmp/cache");
    assert!(volume.is_none());

    let volume = extract_named_volume("~/configs:/etc/configs/:ro");
    assert!(volume.is_none());

    let volume = extract_named_volume("mysql_data:/var/lib/mysql");
    assert!(volume.is_some());

    let named_volume = volume.unwrap();
    assert_eq!(named_volume, "mysql_data");
}

#[test]
fn test_compose_service() {
    let config = sample_config();
    let lotus = config.search_service("lotus").unwrap();
    let (lines, volumes) = compose_service("lotus", &lotus.docker, &config, Some(lotus));
    let expect = vec![
        "  lotus:",
        "    image: lotus",
        "    container_name: lotus_1",
        "    build:",
        "      context: ~/projects/flowers/lotus",
        "      dockerfile: ~/projects/flowers/Dockerfile",
        "    ports:",
        "      - 8080:8080",
        "    working_dir: /app",
        "    volumes:",
        "      - ~/projects/flowers/lotus:/app",
        "      - cargo_cache:/cache",
        "    env_file:",
        "      - ~/projects/flowers/lotus/.env",
        "    depends_on:",
        "      - postgres",
        "    command: ~/projects/flowers/run.sh",
        "    labels:",
        "      - tier=web",
    ];
    assert_eq!(lines, expect);
    assert_eq!(volumes, vec!["cargo_cache"]);
}

#[test]
fn test_generate_compose_lines() {
    let config = sample_config();
    let text = generate_compose_text(&config);
    let expect = "version: '3'\n\
services:\n  postgres:\n    image: postgres:11.1-alpine\n    ports:\n      - 5432:5432\n    volumes:\n      - postgres_data:/var/lib/postgresql/data\n      - ~/dumps:/dumps\n    environment:\n      - POSTGRES_DB=forest\n  lotus:\n    image: lotus\n    container_name: lotus_1\n    build:\n      context: ~/projects/flowers/lotus\n      dockerfile: ~/projects/flowers/Dockerfile\n    ports:\n      - 8080:8080\n    working_dir: /app\n    volumes:\n      - ~/projects/flowers/lotus:/app\n      - cargo_cache:/cache\n    env_file:\n      - ~/projects/flowers/lotus/.env\n    depends_on:\n      - postgres\n    command: ~/projects/flowers/run.sh\n    labels:\n      - tier=web\nvolumes:\n  postgres_data:\n    external: false\n  cargo_cache:\n    external: false\n";
    assert_eq!(text, expect);
    assert_eq!(generate_compose_lines(&config).join("\n"), expect);
}

#[test]
fn test_generate_compose_text_without_selection() {
    let mut config = sample_config();
    config.using = None;
    assert_eq!(generate_compose_text(&config), "version: '3'\nservices:\n");
    config.use_groups(&["dep"]);
    assert_eq!(
        generate_compose_text(&config),
        "version: '3'\nservices:\n  postgres:\n    image: postgres:11.1-alpine\n    ports:\n      - 5432:5432\n    volumes:\n      - postgres_data:/var/lib/postgresql/data\n      - ~/dumps:/dumps\n    environment:\n      - POSTGRES_DB=forest\n  redis:\n    image: redis:5.0.3-alpine\nvolumes:\n  postgres_data:\n    external: false\n"
    );
}
