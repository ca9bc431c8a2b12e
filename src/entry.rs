use vstd::prelude::*;

use crate::text::{chars_of, is_word, lowercase_of, string_of_range, to_lower, trim, trim_of};

verus! {

/// Which way a session transforms its text.
#[derive(Clone, Copy, Debug, PartialEq, Eq, Structural)]
pub enum Mode {
    Encode,
    Decode,
}

/// The first position at or after `from` where `s` holds `c`, or the
/// length of `s` where there is none.
pub open spec fn find_from(s: Seq<char>, c: char, from: int) -> int
    decreases s.len() - from,
{
    if from < 0 || from >= s.len() {
        s.len() as int
    } else if s[from] == c {
        from
    } else {
        find_from(s, c, from + 1)
    }
}

/// A key written `source=target`: what stands before the first `=`, and
/// what stands between it and the next `=` or the end; nothing where there
/// is no `=`.
pub open spec fn key_parts(s: Seq<char>) -> Option<(Seq<char>, Seq<char>)> {
    let p = find_from(s, '=', 0);
    if p == s.len() {
        None
    } else {
        Some((s.subrange(0, p), s.subrange(p + 1, find_from(s, '=', p + 1))))
    }
}

/// `s` holds an empty line: two line feeds in a row, or two carriage
/// return and line feed pairs in a row.
pub open spec fn has_blank_line(s: Seq<char>) -> bool {
    ||| exists|i: int| 0 <= i && i + 2 <= s.len() && #[trigger] s[i] == '\n' && s[i + 1] == '\n'
    ||| exists|i: int|
        0 <= i && i + 4 <= s.len() && #[trigger] s[i] == '\r' && s[i + 1] == '\n' && s[i + 2]
            == '\r' && s[i + 3] == '\n'
}

/// The mode that an answer names, once lower-cased and trimmed.
pub open spec fn mode_named(s: Seq<char>) -> Option<Mode> {
    if s == "e"@ || s == "encode"@ || s == "en"@ {
        Some(Mode::Encode)
    } else if s == "d"@ || s == "decode"@ || s == "de"@ {
        Some(Mode::Decode)
    } else {
        None
    }
}

/// The file that an answer names: the trimmed answer with `.txt` added,
/// unless that reads `no.txt` in any case.
pub open spec fn file_named(line: Seq<char>) -> Option<Seq<char>> {
    let name = trim_of(line) + ".txt"@;
    if lowercase_of(name) == "no.txt"@ {
        None
    } else {
        Some(name)
    }
}

/// The first position at or after `from` where `v` holds `c`, or its length.
fn find_char(v: &Vec<char>, c: char, from: usize) -> (r: usize)
    requires
        from <= v.len(),
    ensures
        r as int == find_from(v@, c, from as int),
        from <= r <= v.len(),
{
    let mut j: usize = from;
    while j < v.len()
        invariant
            from <= j <= v.len(),
            find_from(v@, c, from as int) == find_from(v@, c, j as int),
        decreases v.len() - j,
    {
        if v[j] == c {
            return j;
        }
        j = j + 1;
    }
    j
}

/// Splits a key written `source=target` at its first `=`; the target
/// ends at the next `=`, if there is one. Nothing where there is no `=`.
pub fn parse_key(s: &str) -> (r: Option<(String, String)>)
    ensures
        r is None <==> key_parts(s@) is None,
        r matches Some(p) ==> key_parts(s@) == Some((p.0@, p.1@)),
{
    let v = chars_of(s);
    let p = find_char(&v, '=', 0);
    if p == v.len() {
        return None;
    }
    let q = find_char(&v, '=', p + 1);
    let a = string_of_range(&v, 0, p);
    let b = string_of_range(&v, p + 1, q);
    Some((a, b))
}

/// Whether collected input holds an empty line, which ends it.
pub fn input_complete(s: &str) -> (r: bool)
    ensures
        r == has_blank_line(s@),
{
    let v = chars_of(s);
    let n = v.len();
    let mut i: usize = 0;
    while i < n
        invariant
            v@ == s@,
            n == v.len(),
            i <= n,
            forall|q: int| 0 <= q < i && q + 2 <= n ==> !(#[trigger] v@[q] == '\n' && v@[q + 1] == '\n'),
            forall|q: int|
                0 <= q < i && q + 4 <= n ==> !(#[trigger] v@[q] == '\r' && v@[q + 1] == '\n' && v@[q
                    + 2] == '\r' && v@[q + 3] == '\n'),
        decreases n - i,
    {
        if 2 <= n - i && v[i] == '\n' && v[i + 1] == '\n' {
            return true;
        }
        if 4 <= n - i && v[i] == '\r' && v[i + 1] == '\n' && v[i + 2] == '\r' && v[i + 3] == '\n' {
            return true;
        }
        i = i + 1;
    }
    false
}

/// The mode that an answer names, after lower-casing and trimming it.
pub fn parse_mode(line: &str) -> (r: Option<Mode>)
    ensures
        r == mode_named(trim_of(lowercase_of(line@))),
{
    let low = to_lower(line);
    let w = trim(low.as_str());
    if is_word(w, "e") || is_word(w, "encode") || is_word(w, "en") {
        Some(Mode::Encode)
    } else if is_word(w, "d") || is_word(w, "decode") || is_word(w, "de") {
        Some(Mode::Decode)
    } else {
        None
    }
}

/// The file that an answer names: the trimmed answer with `.txt` added;
/// nothing where that reads `no.txt` in any case.
pub fn parse_file_name(line: &str) -> (r: Option<String>)
    ensures
        r is None <==> file_named(line@) is None,
        r matches Some(n) ==> file_named(line@) == Some(n@),
{
    let t = trim(line);
    let name = String::from_str(t).concat(".txt");
    let low = to_lower(name.as_str());
    if is_word(low.as_str(), "no.txt") {
        None
    } else {
        Some(name)
    }
}

} // verus!
