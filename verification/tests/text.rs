use turtle::names::{precedes, NameSet};
use turtle::text;

fn chars(s: &str) -> Vec<char> {
    s.chars().collect()
}

#[test]
fn test_chars_round_trip() {
    let v = text::chars_of("héllo ✓");
    assert_eq!(v, chars("héllo ✓"));
    assert_eq!(text::string_of(&v), "héllo ✓");
}

#[test]
fn test_same() {
    assert!(text::same("abc", "abc"));
    assert!(text::same("", ""));
    assert!(!text::same("abc", "abd"));
    assert!(!text::same("abc", "ab"));
    assert!(!text::same("ab", "abc"));
}

#[test]
fn test_starts_with_and_contains() {
    assert!(text::starts_with("export A=1", "export "));
    assert!(text::starts_with("abc", ""));
    assert!(!text::starts_with("ab", "abc"));
    assert!(text::contains("a{REPO_DIR}b", "{REPO_DIR}"));
    assert!(text::contains("abc", "c"));
    assert!(text::contains("abc", ""));
    assert!(text::contains("", ""));
    assert!(!text::contains("abc", "cb"));
    assert!(!text::contains("", "a"));
}

#[test]
fn test_join() {
    assert_eq!(text::join(&["a", "b", "c"], ", "), "a, b, c");
    assert_eq!(text::join(&["a"], ", "), "a");
    assert_eq!(text::join(&[], ", "), "");
    assert_eq!(text::join(&["", ""], "-"), "-");
    let owned = vec![String::from("x"), String::from("y")];
    assert_eq!(text::join_all(&owned, "\n"), "x\ny");
    assert_eq!(text::borrowed(&owned), vec!["x", "y"]);
}

#[test]
fn test_replace_matches_std() {
    let cases = [
        ("a-b-c", "-", "+"),
        ("aaaa", "aa", "b"),
        ("aaa", "aa", "b"),
        ("abc", "", "-"),
        ("", "", "-"),
        ("", "a", "b"),
        ("abc", "abc", ""),
        ("abcabc", "bc", "bcbc"),
        ("{A}{A}", "{A}", "{A}{A}"),
        ("héllo", "é", "e"),
    ];
    for (t, p, w) in cases {
        assert_eq!(text::replace(t, p, w), t.replace(p, w), "{:?} {:?} {:?}", t, p, w);
    }
}

#[test]
fn test_split_matches_std() {
    let cases = [
        ("a:b:c", ":"),
        ("a||b||c||d", "||"),
        ("a|||b", "||"),
        (":a:", ":"),
        ("", ":"),
        ("abc", ":"),
        ("::", ":"),
        ("/Users/x/y", "/"),
    ];
    for (t, s) in cases {
        let expect: Vec<String> = t.split(s).map(String::from).collect();
        assert_eq!(text::split(t, s), expect, "{:?} {:?}", t, s);
    }
    assert_eq!(text::split("abc", ""), vec![String::from("abc")]);
}

#[test]
fn test_lines_matches_std() {
    let cases = [
        "",
        "\n",
        "a",
        "a\n",
        "a\nb",
        "a\r\nb\r\n",
        "a\r",
        "a\r\n\r\nb",
        "\n\n",
        "master\n* feature\n",
        "a\rb\n",
    ];
    for t in cases {
        let expect: Vec<String> = t.lines().map(String::from).collect();
        assert_eq!(text::lines(t), expect, "{:?}", t);
    }
}

#[test]
fn test_space_matches_std() {
    for n in 0..0x3100u32 {
        if let Some(c) = char::from_u32(n) {
            assert_eq!(text::space(c), c.is_whitespace(), "{:x}", n);
        }
    }
}

#[test]
fn test_trim_and_words_match_std() {
    let cases = [
        "",
        "   ",
        "a",
        "  a b  ",
        "\t a\u{a0}b \n",
        "   this   is  a        simple    world     ",
    ];
    for t in cases {
        assert_eq!(text::trim(t), t.trim(), "{:?}", t);
        let expect: Vec<String> = t.split_whitespace().map(String::from).collect();
        assert_eq!(text::words(t), expect, "{:?}", t);
    }
}

#[test]
fn test_strip_start_and_clear() {
    assert_eq!(text::strip_start("export export A", "export "), "A");
    assert_eq!(text::strip_start("~~/x", "~"), "/x");
    assert_eq!(text::strip_start("abc", ""), "abc");
    assert_eq!(text::strip_start("abc", "b"), "abc");
    assert_eq!(text::clear("\"\"tcp://1.2.3.4\"", '"'), "tcp://1.2.3.4");
    assert_eq!(text::clear("\"\"", '"'), "");
    assert_eq!(text::clear("a\"b", '"'), "a\"b");
}

#[test]
fn test_push_decimal() {
    for n in [0u32, 7, 10, 42, 100, 16384, 4096, u32::MAX] {
        let mut out = String::from("n=");
        text::push_decimal(&mut out, n);
        assert_eq!(out, format!("n={}", n));
    }
}

#[test]
fn test_push_padded() {
    for (t, w) in [("abc", 5usize), ("abc", 3), ("abc", 2), ("", 4), ("é✓", 4)] {
        let mut out = String::from("|");
        text::push_padded(&mut out, t, w as u128);
        assert_eq!(out, format!("|{:w$}", t, w = w));
    }
}

#[test]
fn test_precedes_matches_std_order() {
    let words = ["", "a", "ab", "b", "B", "é", "z", "aa", "✓", "𐄂"];
    for a in words {
        for b in words {
            assert_eq!(precedes(&chars(a), &chars(b)), a < b, "{:?} {:?}", a, b);
        }
    }
}

#[test]
fn test_name_set() {
    let mut set = NameSet::new();
    assert!(set.is_empty());
    assert_eq!(set.len(), 0);
    assert!(set.insert("redis"));
    assert!(set.insert("camellia"));
    assert!(!set.insert("redis"));
    assert!(set.insert("postgres"));
    assert!(set.insert("lotus"));
    assert!(!set.insert("camellia"));
    assert_eq!(set.len(), 4);
    assert!(!set.is_empty());
    assert!(set.contains("lotus"));
    assert!(!set.contains("lot"));
    assert!(!set.contains("zinnia"));
    let names: Vec<&str> = set.names().iter().map(|s| s.as_str()).collect();
    assert_eq!(names, vec!["camellia", "lotus", "postgres", "redis"]);
}

#[test]
fn test_split_then_join_restores_the_text() {
    for (t, s) in [("a:b::c", ":"), ("", "||"), ("x||y|||z", "||"), ("abc", ""), (":::", "::")] {
        let pieces = text::split(t, s);
        assert_eq!(text::join_all(&pieces, s), t, "{:?} {:?}", t, s);
    }
}
