//! Paths of the files that belong to a project, and the tidying of paths
//! and input lines.

use crate::config::Shortcut;
use crate::text::{
    byte_len, chars_of, is_prefix, join_all, joined, pieces, slice_of, split, starts_with,
    strip_start, stripped_start, trim, trimmed, words, words_of, found_at,
};
use vstd::prelude::*;
use vstd::string::StringExecFns;

verus! {

/// The home directory of the user as `dirs::home_dir` finds it in the
/// environment or in the user database; empty if there is none or if it
/// is not valid Unicode. Nothing is promised of it.
#[verifier::external_body]
pub fn home_directory() -> (home: String) {
    match dirs::home_dir() {
        Some(path) => match path.to_str() {
            Some(dir) => String::from(dir),
            None => String::new(),
        },
        None => String::new(),
    }
}

/// Whether something exists at `path`, as `Path::exists` of the standard
/// library finds on disk. Nothing is promised of it.
#[verifier::external_body]
pub fn path_exist(path: &str) -> (found: bool) {
    std::path::Path::new(path).exists()
}

/// The directory of the configuration files below the home directory
/// `home`, or below `/tmp` if there is no home directory.
pub open spec fn config_directory_of(home: Seq<char>) -> Seq<char> {
    if home.len() == 0 {
        "/tmp/.turtle"@
    } else {
        home + "/.turtle"@
    }
}

/// The directory of the configuration files below the home directory
/// `home`.
pub fn config_directory_in(home: &str) -> (dir: String)
    ensures
        dir@ == config_directory_of(home@),
{
    if home.is_empty() {
        String::from_str("/tmp/.turtle")
    } else {
        let mut dir = String::from_str(home);
        dir.append("/.turtle");
        dir
    }
}

/// The directory of the configuration files of the user.
pub fn default_config_directory() -> (dir: String)
    ensures
        exists|home: Seq<char>| dir@ == config_directory_of(home),
{
    let home = home_directory();
    config_directory_in(home.as_str())
}

/// The configuration file of a project.
pub fn config_file(dir: &str, project: &str) -> (file: String)
    ensures
        file@ == dir@ + "/"@ + project@ + ".config.toml"@,
{
    let mut file = String::from_str(dir);
    file.append("/");
    file.append(project);
    file.append(".config.toml");
    file
}

/// The compose file of a project.
pub fn compose_file(dir: &str, project: &str) -> (file: String)
    ensures
        file@ == dir@ + "/"@ + project@ + ".compose.yml"@,
{
    let mut file = String::from_str(dir);
    file.append("/");
    file.append(project);
    file.append(".compose.yml");
    file
}

/// The file that keeps the input history of a project.
pub fn history_file(dir: &str, project: &str) -> (file: String)
    ensures
        file@ == dir@ + "/"@ + project@ + ".history"@,
{
    let mut file = String::from_str(dir);
    file.append("/");
    file.append(project);
    file.append(".history");
    file
}

/// The end of a path that is built from its last components: going from
/// the last of the first `count` components to the first, a component is
/// put before what is there as long as the two together stay below
/// `max_len` bytes, the slash not counted. The first component that is
/// not empty is always taken.
pub open spec fn shortened_from(
    parts: Seq<Seq<char>>,
    count: int,
    tail: Seq<char>,
    max_len: nat,
) -> Seq<char>
    decreases count,
{
    if count <= 0 {
        tail
    } else if tail.len() == 0 {
        shortened_from(parts, count - 1, parts[count - 1], max_len)
    } else if byte_len(tail) + byte_len(parts[count - 1]) >= max_len {
        tail
    } else {
        shortened_from(parts, count - 1, parts[count - 1] + "/"@ + tail, max_len)
    }
}

/// The end of the path `dir` that is made of whole components and stays
/// short.
pub open spec fn shortened(dir: Seq<char>, max_len: nat) -> Seq<char> {
    let parts = pieces(dir, "/"@);
    shortened_from(parts, parts.len() as int, Seq::empty(), max_len)
}

/// The end of the path `dir` that is made of whole components and stays
/// short.
pub fn shorten_directory(dir: &str, max_len: usize) -> (short: String)
    ensures
        short@ == shortened(dir@, max_len as nat),
{
    let parts = split(dir, "/");
    let ghost all = parts.deep_view();
    let mut tail = String::new();
    let mut i: usize = parts.len();
    while i > 0
        invariant
            i <= parts.len(),
            all == parts.deep_view(),
            all == pieces(dir@, "/"@),
            shortened_from(all, all.len() as int, Seq::empty(), max_len as nat) == shortened_from(
                all,
                i as int,
                tail@,
                max_len as nat,
            ),
        decreases i,
    {
        let part = parts[i - 1].as_str();
        if tail.as_str().is_empty() {
            tail = String::from_str(part);
        } else {
            let len: u128 = tail.as_str().as_bytes().len() as u128 + part.as_bytes().len() as u128;
            if len >= max_len as u128 {
                return tail;
            }
            let mut longer = String::from_str(part);
            longer.append("/");
            longer.append(tail.as_str());
            tail = longer;
        }
        i -= 1;
    }
    tail
}

/// The directory `dir` as the prompt shows it: as it is if it has at most
/// `max_len` bytes, else shortened.
pub fn current_directory_shortened(dir: &str, max_len: usize) -> (short: String)
    ensures
        short@ == (if byte_len(dir@) <= max_len {
            dir@
        } else {
            shortened(dir@, max_len as nat)
        }),
{
    if dir.as_bytes().len() <= max_len {
        String::from_str(dir)
    } else {
        shorten_directory(dir, max_len)
    }
}

/// The path `path` without white space around it and with `home` in place
/// of the tildes at its start.
pub open spec fn normalized(home: Seq<char>, path: Seq<char>) -> Seq<char> {
    let path = trimmed(path);
    if is_prefix(path, "~"@) {
        home + stripped_start(path, "~"@)
    } else {
        path
    }
}

/// The path `path` without white space around it and with `home` in place
/// of the tildes at its start.
pub fn normalize_path_in(home: &str, path: &str) -> (r: String)
    ensures
        r@ == normalized(home@, path@),
{
    let path = trim(path);
    if starts_with(path.as_str(), "~") {
        let rest = strip_start(path.as_str(), "~");
        let mut r = String::from_str(home);
        r.append(rest.as_str());
        r
    } else {
        path
    }
}

/// The path `path` without white space around it and with the home
/// directory of the user in place of the tildes at its start.
pub fn normalize_path(path: &str) -> (r: String)
    ensures
        exists|home: Seq<char>| r@ == normalized(home, path@),
        !is_prefix(trimmed(path@), "~"@) ==> r@ == trimmed(path@),
{
    let home = home_directory();
    normalize_path_in(home.as_str(), path)
}

/// The words of `text` with one space between them.
pub fn normalize_spaces(text: &str) -> (r: String)
    ensures
        r@ == joined(words_of(text@), " "@),
{
    let list = words(text);
    join_all(&list, " ")
}

/// The first of `prefixes` that `text` begins with.
pub open spec fn leading(text: Seq<char>, prefixes: Seq<Seq<char>>) -> Option<Seq<char>>
    decreases prefixes.len(),
{
    if prefixes.len() == 0 {
        None
    } else if is_prefix(text, prefixes[0]) {
        Some(prefixes[0])
    } else {
        leading(text, prefixes.drop_first())
    }
}

/// `text` with its beginning replaced by the value of the first shortcut
/// that has a prefix which `text` begins with; `text` itself if there is
/// no such shortcut.
pub open spec fn shortcut_applied(text: Seq<char>, shortcuts: Seq<Shortcut>) -> Seq<char>
    decreases shortcuts.len(),
{
    if shortcuts.len() == 0 {
        text
    } else {
        match leading(text, shortcuts[0].prefixes.deep_view()) {
            Some(prefix) => shortcuts[0].value@ + text.skip(prefix.len() as int),
            None => shortcut_applied(text, shortcuts.drop_first()),
        }
    }
}

/// `text` with its beginning replaced by the value of the first shortcut
/// that applies.
pub fn replace_shortcuts(text: &str, shortcuts: &[Shortcut]) -> (r: String)
    ensures
        r@ == shortcut_applied(text@, shortcuts@),
{
    let t = chars_of(text);
    let mut i: usize = 0;
    assert(shortcuts@.skip(0) =~= shortcuts@);
    while i < shortcuts.len()
        invariant
            i <= shortcuts.len(),
            t@ == text@,
            shortcut_applied(text@, shortcuts@) == shortcut_applied(
                text@,
                shortcuts@.skip(i as int),
            ),
        decreases shortcuts.len() - i,
    {
        let shortcut = &shortcuts[i];
        let ghost prefixes = shortcut.prefixes.deep_view();
        let mut k: usize = 0;
        assert(prefixes.skip(0) =~= prefixes);
        while k < shortcut.prefixes.len()
            invariant
                k <= shortcut.prefixes.len(),
                t@ == text@,
                prefixes == shortcut.prefixes.deep_view(),
                leading(text@, prefixes) == leading(text@, prefixes.skip(k as int)),
                shortcuts@.skip(i as int)[0] == *shortcut,
                i < shortcuts.len(),
                shortcut_applied(text@, shortcuts@) == shortcut_applied(
                    text@,
                    shortcuts@.skip(i as int),
                ),
            decreases shortcut.prefixes.len() - k,
        {
            let p = chars_of(shortcut.prefixes[k].as_str());
            if found_at(t.as_slice(), p.as_slice(), 0) {
                let rest = slice_of(t.as_slice(), p.len(), t.len());
                let mut r = shortcut.value.clone();
                r.append(rest.as_str());
                return r;
            }
            assert(prefixes.skip(k as int).drop_first() =~= prefixes.skip(k + 1));
            k += 1;
        }
        assert(shortcuts@.skip(i as int).drop_first() =~= shortcuts@.skip(i + 1));
        i += 1;
    }
    String::from_str(text)
}

} // verus!
