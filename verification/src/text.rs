//! Operations on text as sequences of characters.
//!
//! Every function states its result over `Seq<char>`, the view of `str` and
//! `String`, so that the builders and parsers of this crate can say exactly
//! which text they produce.

use vstd::prelude::*;
use vstd::std_specs::iter::IteratorSpec;
use vstd::string::StrSliceExecFns;

verus! {

/// `String::push` of the standard library appends one character to the end
/// of the string and leaves the rest as it was.
pub assume_specification[ String::push ](s: &mut String, c: char)
    ensures
        final(s)@ == old(s)@.push(c),
;

/// Whether `part` stands in `text` at position `at`.
pub open spec fn occurs_at(text: Seq<char>, part: Seq<char>, at: int) -> bool {
    &&& 0 <= at
    &&& at + part.len() <= text.len()
    &&& text.subrange(at, at + part.len()) == part
}

/// Whether `text` begins with `part`.
pub open spec fn is_prefix(text: Seq<char>, part: Seq<char>) -> bool {
    occurs_at(text, part, 0)
}

/// Whether `part` stands somewhere in `text`.
pub open spec fn is_part(text: Seq<char>, part: Seq<char>) -> bool {
    exists|at: int| occurs_at(text, part, at)
}

/// The pieces of `parts` put one after another with `sep` between them.
pub open spec fn joined(parts: Seq<Seq<char>>, sep: Seq<char>) -> Seq<char>
    decreases parts.len(),
{
    if parts.len() == 0 {
        Seq::empty()
    } else if parts.len() == 1 {
        parts[0]
    } else {
        joined(parts.drop_last(), sep) + sep + parts.last()
    }
}

/// `text` from position `at` on, with every occurrence of `pattern` replaced
/// by `with`. Occurrences are taken from the left and do not overlap. An
/// empty pattern occurs before every character and at the end.
pub open spec fn replaced_from(
    text: Seq<char>,
    pattern: Seq<char>,
    with: Seq<char>,
    at: int,
) -> Seq<char>
    decreases text.len() - at,
{
    if at >= text.len() {
        if pattern.len() == 0 {
            with
        } else {
            Seq::empty()
        }
    } else if pattern.len() == 0 {
        with + seq![text[at]] + replaced_from(text, pattern, with, at + 1)
    } else if occurs_at(text, pattern, at) {
        with + replaced_from(text, pattern, with, at + pattern.len())
    } else {
        seq![text[at]] + replaced_from(text, pattern, with, at + 1)
    }
}

/// `text` with every occurrence of `pattern` replaced by `with`, in one pass:
/// what a replacement puts in is not searched again.
pub open spec fn replaced(text: Seq<char>, pattern: Seq<char>, with: Seq<char>) -> Seq<char> {
    replaced_from(text, pattern, with, 0)
}

/// The pieces of `text` between the occurrences of `sep`, scanning from
/// position `at` with the current piece starting at `start`. Occurrences are
/// taken from the left and do not overlap; an empty separator never occurs.
pub open spec fn pieces_from(text: Seq<char>, sep: Seq<char>, start: int, at: int) -> Seq<
    Seq<char>,
>
    decreases text.len() - at,
{
    if sep.len() == 0 || at + sep.len() > text.len() {
        seq![text.subrange(start, text.len() as int)]
    } else if occurs_at(text, sep, at) {
        seq![text.subrange(start, at)] + pieces_from(
            text,
            sep,
            at + sep.len(),
            at + sep.len(),
        )
    } else {
        pieces_from(text, sep, start, at + 1)
    }
}

/// The pieces of `text` between the occurrences of `sep`. There is always at
/// least one piece, and `joined(pieces(text, sep), sep)` is `text` again.
pub open spec fn pieces(text: Seq<char>, sep: Seq<char>) -> Seq<Seq<char>> {
    pieces_from(text, sep, 0, 0)
}

/// Whether a character is white space: one of the code points that Unicode
/// gives the property `White_Space`.
pub open spec fn is_space(c: char) -> bool {
    let n = c as u32;
    ||| 0x09 <= n <= 0x0D
    ||| n == 0x20
    ||| n == 0x85
    ||| n == 0xA0
    ||| n == 0x1680
    ||| 0x2000 <= n <= 0x200A
    ||| n == 0x2028
    ||| n == 0x2029
    ||| n == 0x202F
    ||| n == 0x205F
    ||| n == 0x3000
}

/// `text` without the white space at its start.
pub open spec fn trimmed_start(text: Seq<char>) -> Seq<char>
    decreases text.len(),
{
    if text.len() > 0 && is_space(text[0]) {
        trimmed_start(text.drop_first())
    } else {
        text
    }
}

/// `text` without the white space at its end.
pub open spec fn trimmed_end(text: Seq<char>) -> Seq<char>
    decreases text.len(),
{
    if text.len() > 0 && is_space(text.last()) {
        trimmed_end(text.drop_last())
    } else {
        text
    }
}

/// `text` without the white space at its start and at its end.
pub open spec fn trimmed(text: Seq<char>) -> Seq<char> {
    trimmed_end(trimmed_start(text))
}

/// The words of `text` from position `at` on, where the word being read
/// began at `start`. A word is a longest run of characters that are not
/// white space.
pub open spec fn words_from(text: Seq<char>, start: int, at: int) -> Seq<Seq<char>>
    decreases text.len() - at,
{
    let word = if start < at {
        seq![text.subrange(start, at)]
    } else {
        Seq::empty()
    };
    if at >= text.len() {
        word
    } else if is_space(text[at]) {
        word + words_from(text, at + 1, at + 1)
    } else {
        words_from(text, start, at + 1)
    }
}

/// The words of `text`: its longest runs of characters that are not white
/// space, in order.
pub open spec fn words_of(text: Seq<char>) -> Seq<Seq<char>> {
    words_from(text, 0, 0)
}

/// `line` without a carriage return at its end.
pub open spec fn without_return(line: Seq<char>) -> Seq<char> {
    if line.len() > 0 && line.last() == '\r' {
        line.drop_last()
    } else {
        line
    }
}

/// The lines of `text`. A line ends with a line feed, or with a carriage
/// return and a line feed, neither of which belongs to the line. What
/// follows the last line feed is a line of its own unless it is empty.
pub open spec fn lines_of(text: Seq<char>) -> Seq<Seq<char>> {
    let raw = pieces(text, seq!['\n']);
    let n = raw.len() as int;
    let count = if raw.last().len() == 0 {
        n - 1
    } else {
        n
    };
    Seq::new(
        count as nat,
        |i: int|
            if i < n - 1 {
                without_return(raw[i])
            } else {
                raw[i]
            },
    )
}

/// The decimal digit for a number below ten.
pub open spec fn digit(d: nat) -> char {
    ((48 + d) as u8) as char
}

/// The decimal notation of a number, without leading zeros.
pub open spec fn decimal(n: nat) -> Seq<char>
    decreases n,
{
    if n < 10 {
        seq![digit(n)]
    } else {
        decimal(n / 10).push(digit(n % 10))
    }
}

/// `count` spaces.
pub open spec fn spaces(count: nat) -> Seq<char> {
    Seq::new(count, |i: int| ' ')
}

/// `text` filled up with spaces at its end to `width` characters; a text
/// that is already as long stays as it is.
pub open spec fn padded(text: Seq<char>, width: nat) -> Seq<char> {
    if text.len() >= width {
        text
    } else {
        text + spaces((width - text.len()) as nat)
    }
}

/// The number of bytes that a text takes in UTF-8.
pub open spec fn byte_len(text: Seq<char>) -> nat {
    vstd::utf8::encode_utf8(text).len()
}

/// `text` without every `prefix` that it begins with, one after another.
pub open spec fn stripped_start(text: Seq<char>, prefix: Seq<char>) -> Seq<char>
    decreases text.len(),
{
    if prefix.len() > 0 && is_prefix(text, prefix) {
        stripped_start(text.skip(prefix.len() as int), prefix)
    } else {
        text
    }
}

/// `text` without the characters `c` at its start.
pub open spec fn cleared_start(text: Seq<char>, c: char) -> Seq<char>
    decreases text.len(),
{
    if text.len() > 0 && text[0] == c {
        cleared_start(text.drop_first(), c)
    } else {
        text
    }
}

/// `text` without the characters `c` at its end.
pub open spec fn cleared_end(text: Seq<char>, c: char) -> Seq<char>
    decreases text.len(),
{
    if text.len() > 0 && text.last() == c {
        cleared_end(text.drop_last(), c)
    } else {
        text
    }
}

/// `text` without the characters `c` at its start and at its end.
pub open spec fn cleared(text: Seq<char>, c: char) -> Seq<char> {
    cleared_end(cleared_start(text, c), c)
}

/// The characters of a string, in order.
pub fn chars_of(s: &str) -> (v: Vec<char>)
    ensures
        v@ == s@,
{
    broadcast use vstd::string::group_string_axioms;

    let mut v: Vec<char> = Vec::new();
    let mut it = s.chars();
    loop
        invariant
            it.obeys_prophetic_iter_laws(),
            it.decrease() is Some,
            v@ + it.remaining() == s@,
        ensures
            v@ == s@,
        decreases it.decrease()->0,
    {
        match it.next() {
            Some(c) => {
                v.push(c);
            },
            None => {
                break ;
            },
        }
    }
    v
}

/// Appends the characters of `items` to `out`.
pub fn push_chars(out: &mut String, items: &[char])
    ensures
        final(out)@ == old(out)@ + items@,
{
    let mut i: usize = 0;
    while i < items.len()
        invariant
            i <= items.len(),
            out@ == old(out)@ + items@.take(i as int),
        decreases items.len() - i,
    {
        out.push(items[i]);
        i += 1;
    }
}

/// The string made of the given characters.
pub fn string_of(items: &[char]) -> (s: String)
    ensures
        s@ == items@,
{
    let mut s = String::new();
    push_chars(&mut s, items);
    s
}

/// Whether two strings hold the same characters.
pub fn same(a: &str, b: &str) -> (r: bool)
    ensures
        r == (a@ == b@),
{
    broadcast use vstd::string::group_string_axioms;

    let mut x = a.chars();
    let mut y = b.chars();
    let ghost mut seen: Seq<char> = Seq::empty();
    loop
        invariant
            x.obeys_prophetic_iter_laws(),
            y.obeys_prophetic_iter_laws(),
            x.decrease() is Some,
            seen + x.remaining() == a@,
            seen + y.remaining() == b@,
        decreases x.decrease()->0,
    {
        let c = x.next();
        let d = y.next();
        match (c, d) {
            (Some(p), Some(q)) => {
                if p != q {
                    assert(a@[seen.len() as int] == p);
                    return false;
                }
                proof {
                    seen = seen.push(p);
                }
            },
            (None, None) => {
                return true;
            },
            (Some(p), None) => {
                return false;
            },
            (None, Some(q)) => {
                return false;
            },
        }
    }
}

/// Whether `part` stands in `text` at position `at`.
pub fn found_at(text: &[char], part: &[char], at: usize) -> (r: bool)
    ensures
        r == occurs_at(text@, part@, at as int),
{
    if at > text.len() || part.len() > text.len() - at {
        return false;
    }
    let mut k: usize = 0;
    while k < part.len()
        invariant
            k <= part.len(),
            at + part.len() <= text.len(),
            forall|j: int| 0 <= j < k ==> text@[at + j] == part@[j],
        decreases part.len() - k,
    {
        if text[at + k] != part[k] {
            return false;
        }
        k += 1;
    }
    assert(text@.subrange(at as int, at + part.len()) =~= part@);
    true
}

/// Whether `text` begins with `part`.
pub fn starts_with(text: &str, part: &str) -> (r: bool)
    ensures
        r == is_prefix(text@, part@),
{
    let t = chars_of(text);
    let p = chars_of(part);
    found_at(t.as_slice(), p.as_slice(), 0)
}

/// Whether `part` stands somewhere in `text`.
pub fn contains(text: &str, part: &str) -> (r: bool)
    ensures
        r == is_part(text@, part@),
{
    let t = chars_of(text);
    let p = chars_of(part);
    let mut i: usize = 0;
    loop
        invariant
            t@ == text@,
            p@ == part@,
            i <= t.len(),
            forall|at: int| 0 <= at < i ==> !occurs_at(t@, p@, at),
        ensures
            !is_part(text@, part@),
        decreases t.len() - i,
    {
        if found_at(t.as_slice(), p.as_slice(), i) {
            return true;
        }
        if i == t.len() {
            break ;
        }
        i += 1;
    }
    false
}

/// The strings of `parts` as string slices.
pub fn borrowed<'a>(parts: &'a Vec<String>) -> (r: Vec<&'a str>)
    ensures
        r.deep_view() == parts.deep_view(),
{
    let mut out: Vec<&'a str> = Vec::new();
    let mut i: usize = 0;
    while i < parts.len()
        invariant
            i <= parts.len(),
            out.deep_view() == parts.deep_view().take(i as int),
        decreases parts.len() - i,
    {
        let ghost before = out.deep_view();
        out.push(parts[i].as_str());
        assert(out.deep_view() =~= before.push(parts[i as int]@));
        i += 1;
    }
    out
}

/// The strings of `parts` put one after another with `sep` between them.
pub fn join(parts: &[&str], sep: &str) -> (r: String)
    ensures
        r@ == joined(parts.deep_view(), sep@),
{
    let mut out = String::new();
    let mut i: usize = 0;
    while i < parts.len()
        invariant
            i <= parts.len(),
            out@ == joined(parts.deep_view().take(i as int), sep@),
        decreases parts.len() - i,
    {
        if i > 0 {
            out.append(sep);
        }
        out.append(parts[i]);
        proof {
            let all = parts.deep_view();
            assert(all.take(i + 1).drop_last() =~= all.take(i as int));
        }
        i += 1;
    }
    assert(parts.deep_view().take(parts.len() as int) =~= parts.deep_view());
    out
}

/// The strings of `parts` put one after another with `sep` between them.
pub fn join_all(parts: &Vec<String>, sep: &str) -> (r: String)
    ensures
        r@ == joined(parts.deep_view(), sep@),
{
    let slices = borrowed(parts);
    join(slices.as_slice(), sep)
}

/// `text` with every occurrence of `pattern` replaced by `with`.
pub fn replace(text: &str, pattern: &str, with: &str) -> (r: String)
    ensures
        r@ == replaced(text@, pattern@, with@),
{
    let t = chars_of(text);
    let p = chars_of(pattern);
    let w = chars_of(with);
    let mut out = String::new();
    let mut i: usize = 0;
    while i < t.len()
        invariant
            t@ == text@,
            p@ == pattern@,
            w@ == with@,
            i <= t.len(),
            out@ + replaced_from(t@, p@, w@, i as int) == replaced(t@, p@, w@),
        decreases t.len() - i,
    {
        if p.len() == 0 {
            push_chars(&mut out, w.as_slice());
            out.push(t[i]);
            i += 1;
        } else if found_at(t.as_slice(), p.as_slice(), i) {
            push_chars(&mut out, w.as_slice());
            i += p.len();
        } else {
            out.push(t[i]);
            i += 1;
        }
    }
    if p.len() == 0 {
        push_chars(&mut out, w.as_slice());
    }
    out
}

/// The pieces of `text` between the occurrences of `sep`.
pub fn split(text: &str, sep: &str) -> (r: Vec<String>)
    ensures
        r.deep_view() == pieces(text@, sep@),
{
    let t = chars_of(text);
    let p = chars_of(sep);
    let mut out: Vec<String> = Vec::new();
    let mut piece = String::new();
    let mut i: usize = 0;
    let ghost mut start: int = 0;
    while p.len() > 0 && p.len() <= t.len() - i
        invariant
            t@ == text@,
            p@ == sep@,
            0 <= start <= i <= t.len(),
            piece@ == t@.subrange(start, i as int),
            out.deep_view() + pieces_from(t@, p@, start, i as int) == pieces(t@, p@),
        decreases t.len() - i,
    {
        if found_at(t.as_slice(), p.as_slice(), i) {
            out.push(piece);
            piece = String::new();
            i += p.len();
            proof {
                start = i as int;
            }
        } else {
            piece.push(t[i]);
            i += 1;
        }
    }
    while i < t.len()
        invariant
            0 <= start <= i <= t.len(),
            piece@ == t@.subrange(start, i as int),
        decreases t.len() - i,
    {
        piece.push(t[i]);
        i += 1;
    }
    out.push(piece);
    out
}

/// Whether a character is white space.
pub fn space(c: char) -> (r: bool)
    ensures
        r == is_space(c),
{
    let n: u32 = c as u32;
    (0x09 <= n && n <= 0x0D) || n == 0x20 || n == 0x85 || n == 0xA0 || n == 0x1680 || (0x2000 <= n
        && n <= 0x200A) || n == 0x2028 || n == 0x2029 || n == 0x202F || n == 0x205F || n == 0x3000
}

/// `text` without the white space at its start and at its end.
pub fn trim(text: &str) -> (r: String)
    ensures
        r@ == trimmed(text@),
{
    let t = chars_of(text);
    let mut a: usize = 0;
    assert(t@.skip(0) =~= t@);
    while a < t.len() && space(t[a])
        invariant
            a <= t.len(),
            trimmed_start(t@) == trimmed_start(t@.skip(a as int)),
        decreases t.len() - a,
    {
        assert(t@.skip(a as int).drop_first() =~= t@.skip(a + 1));
        a += 1;
    }
    let ghost rest = t@.skip(a as int);
    let mut b: usize = t.len();
    assert(rest.take(rest.len() as int) =~= rest);
    while b > a && space(t[b - 1])
        invariant
            a <= b <= t.len(),
            rest == t@.skip(a as int),
            trimmed_end(rest) == trimmed_end(rest.take(b - a)),
        decreases b,
    {
        assert(rest.take(b - a).drop_last() =~= rest.take(b - a - 1));
        b -= 1;
    }
    let mut out = String::new();
    let mut i: usize = a;
    while i < b
        invariant
            a <= i <= b <= t.len(),
            out@ == t@.subrange(a as int, i as int),
        decreases b - i,
    {
        out.push(t[i]);
        i += 1;
    }
    out
}

/// The words of `text`: its longest runs of characters that are not white
/// space, in order.
pub fn words(text: &str) -> (r: Vec<String>)
    ensures
        r.deep_view() == words_of(text@),
{
    let t = chars_of(text);
    let mut out: Vec<String> = Vec::new();
    let mut word = String::new();
    let mut i: usize = 0;
    let ghost mut start: int = 0;
    while i < t.len()
        invariant
            t@ == text@,
            0 <= start <= i <= t.len(),
            word@ == t@.subrange(start, i as int),
            out.deep_view() + words_from(t@, start, i as int) == words_of(t@),
        decreases t.len() - i,
    {
        if space(t[i]) {
            if word.as_str().unicode_len() > 0 {
                out.push(word);
                word = String::new();
            }
            i += 1;
            proof {
                start = i as int;
            }
        } else {
            word.push(t[i]);
            i += 1;
        }
    }
    if word.as_str().unicode_len() > 0 {
        out.push(word);
    }
    out
}

/// The lines of `text`.
pub fn lines(text: &str) -> (r: Vec<String>)
    ensures
        r.deep_view() == lines_of(text@),
{
    proof {
        reveal_strlit("\n");
    }
    let raw = split(text, "\n");
    assert("\n"@ =~= seq!['\n']);
    proof {
        lemma_pieces_nonempty(text@, "\n"@, 0, 0);
    }
    let n: usize = raw.len();
    let mut out: Vec<String> = Vec::new();
    let mut i: usize = 0;
    while i < n
        invariant
            n == raw.len(),
            n > 0,
            i <= n,
            raw.deep_view() == pieces(text@, seq!['\n']),
            out.len() == (if i == n && raw[n - 1]@.len() == 0 {
                n - 1
            } else {
                i as int
            }),
            forall|k: int|
                0 <= k < out.len() ==> #[trigger] out[k]@ == (if k < n - 1 {
                    without_return(raw[k]@)
                } else {
                    raw[k]@
                }),
        decreases n - i,
    {
        let c = chars_of(raw[i].as_str());
        if i + 1 < n {
            let m: usize = c.len();
            if m > 0 && c[m - 1] == '\r' {
                let mut line = String::new();
                let mut k: usize = 0;
                while k < m - 1
                    invariant
                        m == c.len(),
                        m > 0,
                        k <= m - 1,
                        line@ == c@.take(k as int),
                    decreases m - k,
                {
                    line.push(c[k]);
                    k += 1;
                }
                out.push(line);
            } else {
                out.push(string_of(c.as_slice()));
            }
        } else if c.len() > 0 {
            out.push(string_of(c.as_slice()));
        }
        i += 1;
    }
    assert(out.deep_view() =~= lines_of(text@));
    out
}

/// Appends the decimal notation of `n` to `out`.
pub fn push_decimal(out: &mut String, n: u32)
    ensures
        final(out)@ == old(out)@ + decimal(n as nat),
    decreases n,
{
    if n >= 10 {
        push_decimal(out, n / 10);
    }
    let d: u8 = (n % 10) as u8;
    out.push((48u8 + d) as char);
}

/// Appends `text` to `out`, filled up with spaces to `width` characters.
pub fn push_padded(out: &mut String, text: &str, width: u128)
    ensures
        final(out)@ == old(out)@ + padded(text@, width as nat),
{
    out.append(text);
    let mut n: u128 = text.unicode_len() as u128;
    while n < width
        invariant
            n >= text@.len(),
            n <= width || n == text@.len(),
            out@ == old(out)@ + text@ + spaces((n - text@.len()) as nat),
        decreases width - n,
    {
        out.push(' ');
        n += 1;
    }
}

/// The characters of `t` from `a` up to `b` as a string.
pub fn slice_of(t: &[char], a: usize, b: usize) -> (r: String)
    requires
        a <= b <= t.len(),
    ensures
        r@ == t@.subrange(a as int, b as int),
{
    let mut out = String::new();
    let mut i: usize = a;
    while i < b
        invariant
            a <= i <= b <= t.len(),
            out@ == t@.subrange(a as int, i as int),
        decreases b - i,
    {
        out.push(t[i]);
        i += 1;
    }
    out
}

/// `text` without every `prefix` that it begins with, one after another.
pub fn strip_start(text: &str, prefix: &str) -> (r: String)
    ensures
        r@ == stripped_start(text@, prefix@),
{
    let t = chars_of(text);
    let p = chars_of(prefix);
    let mut a: usize = 0;
    assert(t@.skip(0) =~= t@);
    while p.len() > 0 && found_at(t.as_slice(), p.as_slice(), a)
        invariant
            a <= t.len(),
            stripped_start(t@, p@) == stripped_start(t@.skip(a as int), p@),
        decreases t.len() - a,
    {
        proof {
            let rest = t@.skip(a as int);
            assert(rest.subrange(0, p@.len() as int) =~= t@.subrange(a as int, a + p@.len()));
            assert(rest.skip(p@.len() as int) =~= t@.skip(a + p@.len()));
        }
        a += p.len();
    }
    proof {
        let rest = t@.skip(a as int);
        if p@.len() > 0 && a + p@.len() <= t@.len() {
            assert(rest.subrange(0, p@.len() as int) =~= t@.subrange(a as int, a + p@.len()));
        }
    }
    let r = slice_of(t.as_slice(), a, t.len());
    r
}

/// `text` without the characters `c` at its start and at its end.
pub fn clear(text: &str, c: char) -> (r: String)
    ensures
        r@ == cleared(text@, c),
{
    let t = chars_of(text);
    let mut a: usize = 0;
    assert(t@.skip(0) =~= t@);
    while a < t.len() && t[a] == c
        invariant
            a <= t.len(),
            cleared_start(t@, c) == cleared_start(t@.skip(a as int), c),
        decreases t.len() - a,
    {
        assert(t@.skip(a as int).drop_first() =~= t@.skip(a + 1));
        a += 1;
    }
    let ghost rest = t@.skip(a as int);
    let mut b: usize = t.len();
    assert(rest.take(rest.len() as int) =~= rest);
    while b > a && t[b - 1] == c
        invariant
            a <= b <= t.len(),
            rest == t@.skip(a as int),
            cleared_end(rest, c) == cleared_end(rest.take(b - a), c),
        decreases b,
    {
        assert(rest.take(b - a).drop_last() =~= rest.take(b - a - 1));
        b -= 1;
    }
    let r = slice_of(t.as_slice(), a, b);
    r
}

/// Every scan for pieces yields at least one piece.
pub proof fn lemma_pieces_nonempty(text: Seq<char>, sep: Seq<char>, start: int, at: int)
    ensures
        pieces_from(text, sep, start, at).len() > 0,
    decreases text.len() - at,
{
    if sep.len() > 0 && at + sep.len() <= text.len() && !occurs_at(text, sep, at) {
        lemma_pieces_nonempty(text, sep, start, at + 1);
    }
}

/// Joining a piece and more pieces puts the separator after the piece.
pub proof fn lemma_joined_front(first: Seq<char>, rest: Seq<Seq<char>>, sep: Seq<char>)
    requires
        rest.len() > 0,
    ensures
        joined(seq![first] + rest, sep) == first + sep + joined(rest, sep),
    decreases rest.len(),
{
    let all = seq![first] + rest;
    assert(all.drop_last() =~= seq![first] + rest.drop_last());
    if rest.len() == 1 {
        assert(joined(all.drop_last(), sep) == first);
    } else {
        lemma_joined_front(first, rest.drop_last(), sep);
    }
}

/// The pieces of a scan, joined by the separator, are the text from the
/// start of the piece that was being read.
pub proof fn lemma_pieces_join(text: Seq<char>, sep: Seq<char>, start: int, at: int)
    requires
        0 <= start <= at <= text.len(),
    ensures
        joined(pieces_from(text, sep, start, at), sep) == text.subrange(
            start,
            text.len() as int,
        ),
    decreases text.len() - at,
{
    if sep.len() > 0 && at + sep.len() <= text.len() {
        if occurs_at(text, sep, at) {
            let next: int = at + sep.len();
            lemma_pieces_join(text, sep, next, next);
            lemma_pieces_nonempty(text, sep, next, next);
            lemma_joined_front(text.subrange(start, at), pieces_from(text, sep, next, next), sep);
        } else {
            lemma_pieces_join(text, sep, start, at + 1);
        }
    }
}

/// Splitting a text and joining the pieces gives the text again.
pub proof fn lemma_split_joins(text: Seq<char>, sep: Seq<char>)
    ensures
        joined(pieces(text, sep), sep) == text,
{
    lemma_pieces_join(text, sep, 0, 0);
}

} // verus!
