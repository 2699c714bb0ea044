use turtle::config::Shortcut;
use turtle::util::{
    compose_file, config_directory_in, config_file, current_directory_shortened,
    default_config_directory, history_file, home_directory, normalize_path, normalize_path_in,
    normalize_spaces, path_exist, replace_shortcuts, shorten_directory,
};

#[test]
fn test_home_directory() {
    let home = home_directory();
    assert!(!home.is_empty());
}

#[test]
fn test_default_config_directory() {
    let directory = default_config_directory();
    let expect = format!("{}/.turtle", home_directory());
    assert_eq!(directory, expect);
}

#[test]
fn test_config_directory_in() {
    assert_eq!(config_directory_in("/home/alice"), "/home/alice/.turtle");
    assert_eq!(config_directory_in(""), "/tmp/.turtle");
}

#[test]
fn test_config_file() {
    let file = config_file("/tmp", "turtle");
    let expect = "/tmp/turtle.config.toml";
    assert_eq!(file, expect);
}

#[test]
fn test_compose_file() {
    let file = compose_file("/tmp", "turtle");
    let expect = "/tmp/turtle.compose.yml";
    assert_eq!(file, expect);
}

#[test]
fn test_history_file() {
    let file = history_file("/tmp", "turtle");
    let expect = "/tmp/turtle.history";
    assert_eq!(file, expect);
}

#[test]
fn test_current_directory_shortened() {
    let max_len = 32;
    let dir = current_directory_shortened("/Users/phamlequang/projects/rust/turtle", max_len);
    let len = dir.len();
    assert!(len >= 1);
    assert!(len <= max_len);
    assert!(dir.ends_with("turtle"));
    assert_eq!(dir, "phamlequang/projects/rust/turtle");

    assert_eq!(current_directory_shortened("/home/turtle", max_len), "/home/turtle");
}

#[test]
fn test_shorten_directory() {
    let directory = "/Users/phamlequang/projects/turtle";
    let max_len = 20;

    let output = shorten_directory(directory, max_len);
    let expect = "projects/turtle";
    assert_eq!(output, expect);
}

#[test]
fn test_shorten_directory_edges() {
    assert_eq!(shorten_directory("", 10), "");
    assert_eq!(shorten_directory("/", 10), "");
    assert_eq!(shorten_directory("/a/b/", 10), "/a/b");
    assert_eq!(shorten_directory("/very-long-name", 4), "very-long-name");
    assert_eq!(shorten_directory("/ab/cd", 4), "cd");
    assert_eq!(shorten_directory("/ab/cd", 5), "ab/cd");
    assert_eq!(shorten_directory("/a/b/c", 0), "c");
}

#[test]
fn test_normalize_path() {
    let path = "~/Desktop/test.txt";
    let expect = format!("{}/Desktop/test.txt", home_directory());
    assert_eq!(normalize_path(path), expect);
    assert_eq!(normalize_path("  /etc/hosts "), "/etc/hosts");
}

#[test]
fn test_normalize_path_in() {
    assert_eq!(normalize_path_in("/home/a", " ~/x "), "/home/a/x");
    assert_eq!(normalize_path_in("/home/a", "~~x"), "/home/ax");
    assert_eq!(normalize_path_in("/home/a", "x/~"), "x/~");
    assert_eq!(normalize_path_in("", "~"), "");
}

#[test]
fn test_path_exist() {
    assert!(path_exist("src/config.rs"));
    assert!(!path_exist("unknown/path/"));
}

#[test]
fn test_normalize_spaces() {
    let text = "   this   is  a        simple    world     ";
    let expect = "this is a simple world";

    let output = normalize_spaces(text);
    assert_eq!(output, expect);
}

#[test]
fn test_replace_shortcuts() {
    let text = "git clone git@gitlab.com:phamlequang/turtle.git";
    let expect = "clone git@gitlab.com:phamlequang/turtle.git";

    let shortcut = Shortcut {
        value: String::from("clone"),
        prefixes: vec![String::from("git clone")],
    };

    let output = replace_shortcuts(text, &[shortcut]);
    assert_eq!(output, expect);
}

#[test]
fn test_replace_shortcuts_first_match_only() {
    let shortcuts = [
        Shortcut { value: String::from("dk"), prefixes: vec![String::from("docker")] },
        Shortcut {
            value: String::from("dkcp"),
            prefixes: vec![String::from("compose"), String::from("docker-compose")],
        },
    ];
    assert_eq!(replace_shortcuts("docker-compose up", &shortcuts), "dk-compose up");
    assert_eq!(replace_shortcuts("compose up", &shortcuts), "dkcp up");
    assert_eq!(replace_shortcuts("up docker", &shortcuts), "up docker");
    assert_eq!(replace_shortcuts("docker", &[]), "docker");
}
