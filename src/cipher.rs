use vstd::prelude::*;
use vstd::utf8::is_ascii_chars;

use crate::entry::Mode;
use crate::text::{ascii_lower_seq, chars_of, lowercase_of, push_char, to_lower};

verus! {

/// The mapping from pairing the first `n` characters of `ks` with those of
/// `vs`, position by position; a later pairing of a key replaces an
/// earlier one.
pub open spec fn pairing_upto(ks: Seq<char>, vs: Seq<char>, n: nat) -> Map<char, char>
    decreases n,
{
    if n == 0 {
        Map::empty()
    } else {
        pairing_upto(ks, vs, (n - 1) as nat).insert(ks[n - 1], vs[n - 1])
    }
}

/// The mapping from zipping `ks` with `vs`: pairs beyond the shorter
/// sequence are dropped, and the last pairing of a key wins.
pub open spec fn pairing(ks: Seq<char>, vs: Seq<char>) -> Map<char, char> {
    let n = if ks.len() <= vs.len() { ks.len() } else { vs.len() };
    pairing_upto(ks, vs, n)
}

/// A key of `m` stands for its value; any other character stands for itself.
pub open spec fn encode_char(m: Map<char, char>, c: char) -> char {
    if m.contains_key(c) {
        m[c]
    } else {
        c
    }
}

/// Each character of `s` replaced as `encode_char` says.
pub open spec fn encode_seq(m: Map<char, char>, s: Seq<char>) -> Seq<char> {
    Seq::new(s.len(), |i: int| encode_char(m, s[i]))
}

/// Some key of `m` has the value `c`.
pub open spec fn is_value(m: Map<char, char>, c: char) -> bool {
    exists|k: char| m.contains_key(k) && m[k] == c
}

/// `r` is a decoding of `c`: a key whose value is `c` where there is one,
/// else `c` itself.
pub open spec fn decodes_to(m: Map<char, char>, c: char, r: char) -> bool {
    if is_value(m, c) {
        m.contains_key(r) && m[r] == c
    } else {
        r == c
    }
}

/// `r` decodes `s` character by character.
pub open spec fn decoded(m: Map<char, char>, s: Seq<char>, r: Seq<char>) -> bool {
    &&& r.len() == s.len()
    &&& forall|i: int| 0 <= i < s.len() ==> decodes_to(m, s[i], #[trigger] r[i])
}

/// No two keys of `m` have the same value.
pub open spec fn injective(m: Map<char, char>) -> bool {
    forall|k1: char, k2: char|
        m.contains_key(k1) && m.contains_key(k2) && #[trigger] m[k1] == #[trigger] m[k2] ==> k1
            == k2
}

/// The block that records one transformation in a file.
pub open spec fn transcript_of(
    source: Seq<char>,
    target: Seq<char>,
    input: Seq<char>,
    output: Seq<char>,
) -> Seq<char> {
    "--\n"@ + input + "\n-Key: "@ + source + "="@ + target + "-\n"@ + output + "\n--\n"@
}

/// The name that a report gives to the way a transformation went.
pub open spec fn mode_label(mode: Mode) -> Seq<char> {
    if mode == Mode::Encode {
        "Encode"@
    } else {
        "Decode"@
    }
}

/// The lines that show one transformation.
pub open spec fn report_of(
    mode: Mode,
    source: Seq<char>,
    target: Seq<char>,
    input: Seq<char>,
    output: Seq<char>,
) -> Seq<char> {
    "Key: "@ + source + "="@ + target + "\n"@ + mode_label(mode) + " input: "@ + input + "\n"@
        + mode_label(mode) + " output: "@ + output
}

/// Construction was refused: the two halves of the key differ in length.
#[derive(Debug, PartialEq, Eq, Structural)]
pub struct LengthMismatchError {
    pub source_len: usize,
    pub target_len: usize,
}

/// A substitution between two alphabets of equal length.
pub struct Cipher {
    map1: String,
    map2: String,
    table: Vec<(char, char)>,
    model: Ghost<Map<char, char>>,
}

/// The keys of `t` are distinct, and `t` lists exactly the pairs of `m`.
pub open spec fn lists(t: Seq<(char, char)>, m: Map<char, char>) -> bool {
    &&& forall|i: int, j: int| 0 <= i < j < t.len() ==> (#[trigger] t[i]).0 != (#[trigger] t[j]).0
    &&& forall|i: int| 0 <= i < t.len() ==> m.contains_key((#[trigger] t[i]).0) && m[t[i].0] == t[i].1
    &&& forall|k: char| #[trigger] m.contains_key(k) ==> exists|i: int| 0 <= i < t.len() && (#[trigger] t[i]).0 == k
}

impl Cipher {
    /// The mapping from lower-cased source character to lower-cased target
    /// character.
    pub closed spec fn mapping(&self) -> Map<char, char> {
        self.model@
    }

    pub closed spec fn wf(&self) -> bool {
        lists(self.table@, self.model@)
    }

    /// The source half of the key, as it was given.
    pub closed spec fn source(&self) -> Seq<char> {
        self.map1@
    }

    /// The target half of the key, as it was given.
    pub closed spec fn target(&self) -> Seq<char> {
        self.map2@
    }

    /// Builds the substitution that sends each character of `map1` to the
    /// character of `map2` at the same position, both lower-cased. Refused
    /// when the two differ in length.
    pub fn new(map1: &str, map2: &str) -> (r: Result<Cipher, LengthMismatchError>)
        ensures
            r is Err <==> map1@.len() != map2@.len(),
            r matches Err(e) ==> e.source_len == map1@.len() && e.target_len == map2@.len(),
            r matches Ok(c) ==> {
                &&& c.wf()
                &&& c.source() == map1@
                &&& c.target() == map2@
                &&& c.mapping() == pairing(lowercase_of(map1@), lowercase_of(map2@))
                &&& is_ascii_chars(map1@) && is_ascii_chars(map2@) ==> c.mapping() == pairing(
                    ascii_lower_seq(map1@),
                    ascii_lower_seq(map2@),
                )
            },
    {
        let n1 = map1.unicode_len();
        let n2 = map2.unicode_len();
        if n1 != n2 {
            return Err(LengthMismatchError { source_len: n1, target_len: n2 });
        }
        let low1 = to_lower(map1);
        let low2 = to_lower(map2);
        let ks = chars_of(low1.as_str());
        let vs = chars_of(low2.as_str());
        let n = if ks.len() <= vs.len() { ks.len() } else { vs.len() };
        let mut table: Vec<(char, char)> = Vec::new();
        let ghost mut m: Map<char, char> = Map::empty();
        let mut i: usize = 0;
        while i < n
            invariant
                n <= ks.len(),
                n <= vs.len(),
                i <= n,
                m == pairing_upto(ks@, vs@, i as nat),
                lists(table@, m),
            decreases n - i,
        {
            let k = ks[i];
            let v = vs[i];
            let ghost old_m = m;
            let ghost old_t = table@;
            proof {
                m = m.insert(k, v);
            }
            let mut j: usize = 0;
            let mut found = false;
            while j < table.len()
                invariant_except_break
                    !found,
                invariant
                    j <= table.len(),
                    table@ == old_t,
                    forall|q: int| 0 <= q < j ==> (#[trigger] table@[q]).0 != k,
                ensures
                    found ==> j < table.len() && table@[j as int].0 == k,
                    !found ==> forall|q: int| 0 <= q < table.len() ==> (#[trigger] table@[q]).0 != k,
                decreases table.len() - j,
            {
                if table[j].0 == k {
                    found = true;
                    break;
                }
                j = j + 1;
            }
            if found {
                table.set(j, (k, v));
                proof {
                    assert(forall|q: int| 0 <= q < table@.len() && q != j ==> table@[q] == old_t[q]);
                    assert forall|kk: char| #[trigger] m.contains_key(kk) implies exists|q: int|
                        0 <= q < table@.len() && (#[trigger] table@[q]).0 == kk by {
                        if kk != k {
                            let q = choose|q: int| 0 <= q < old_t.len() && (#[trigger] old_t[q]).0 == kk;
                            assert(table@[q].0 == kk);
                        } else {
                            assert(table@[j as int].0 == kk);
                        }
                    }
                }
            } else {
                table.push((k, v));
                proof {
                    assert(forall|q: int| 0 <= q < old_t.len() ==> table@[q] == old_t[q]);
                    assert forall|kk: char| #[trigger] m.contains_key(kk) implies exists|q: int|
                        0 <= q < table@.len() && (#[trigger] table@[q]).0 == kk by {
                        if kk != k {
                            let q = choose|q: int| 0 <= q < old_t.len() && (#[trigger] old_t[q]).0 == kk;
                            assert(table@[q].0 == kk);
                        } else {
                            assert(table@[old_t.len() as int].0 == kk);
                        }
                    }
                }
            }
            i = i + 1;
        }
        Ok(Cipher { map1: String::from_str(map1), map2: String::from_str(map2), table, model: Ghost(m) })
    }

    /// The character that `c` encodes to.
    fn encode_one(&self, c: char) -> (r: char)
        requires
            self.wf(),
        ensures
            r == encode_char(self.mapping(), c),
    {
        let mut j: usize = 0;
        while j < self.table.len()
            invariant
                self.wf(),
                j <= self.table.len(),
                forall|q: int| 0 <= q < j ==> (#[trigger] self.table@[q]).0 != c,
            decreases self.table.len() - j,
        {
            if self.table[j].0 == c {
                return self.table[j].1;
            }
            j = j + 1;
        }
        proof {
            lemma_unlisted(self.table@, self.model@, c);
        }
        c
    }

    /// A character that `c` decodes to.
    fn decode_one(&self, c: char) -> (r: char)
        requires
            self.wf(),
        ensures
            decodes_to(self.mapping(), c, r),
    {
        let mut j: usize = 0;
        while j < self.table.len()
            invariant
                self.wf(),
                j <= self.table.len(),
                forall|q: int| 0 <= q < j ==> (#[trigger] self.table@[q]).1 != c,
            decreases self.table.len() - j,
        {
            if self.table[j].1 == c {
                return self.table[j].0;
            }
            j = j + 1;
        }
        proof {
            let m = self.model@;
            if is_value(m, c) {
                let k = choose|k: char| m.contains_key(k) && m[k] == c;
                let q = choose|q: int| 0 <= q < self.table@.len() && (#[trigger] self.table@[q]).0 == k;
                assert(self.table@[q].1 == c);
            }
        }
        c
    }

    /// Encodes text that is already lower-cased: each key of the mapping
    /// becomes its value, every other character stays.
    pub fn encode_lowered(&self, lowered: &str) -> (r: String)
        requires
            self.wf(),
        ensures
            r@ == encode_seq(self.mapping(), lowered@),
    {
        let cs = chars_of(lowered);
        let mut r = String::new();
        let mut i: usize = 0;
        while i < cs.len()
            invariant
                self.wf(),
                i <= cs.len(),
                cs@ == lowered@,
                r@ == encode_seq(self.mapping(), cs@.subrange(0, i as int)),
            decreases cs.len() - i,
        {
            let e = self.encode_one(cs[i]);
            push_char(&mut r, e);
            i = i + 1;
            assert(r@ =~= encode_seq(self.mapping(), cs@.subrange(0, i as int)));
        }
        assert(cs@.subrange(0, cs.len() as int) =~= cs@);
        r
    }

    /// Decodes text that is already lower-cased: each value of the mapping
    /// becomes a key that maps to it, every other character stays.
    pub fn decode_lowered(&self, lowered: &str) -> (r: String)
        requires
            self.wf(),
        ensures
            decoded(self.mapping(), lowered@, r@),
    {
        let cs = chars_of(lowered);
        let mut r = String::new();
        let mut i: usize = 0;
        while i < cs.len()
            invariant
                self.wf(),
                i <= cs.len(),
                cs@ == lowered@,
                decoded(self.mapping(), cs@.subrange(0, i as int), r@),
            decreases cs.len() - i,
        {
            let d = self.decode_one(cs[i]);
            push_char(&mut r, d);
            i = i + 1;
            assert forall|q: int| 0 <= q < i implies decodes_to(
                self.mapping(),
                cs@.subrange(0, i as int)[q],
                #[trigger] r@[q],
            ) by {
                if q < i - 1 {
                    assert(cs@.subrange(0, i as int)[q] == cs@.subrange(0, i - 1)[q]);
                }
            }
        }
        assert(cs@.subrange(0, cs.len() as int) =~= cs@);
        r
    }

    /// Lower-cases `text`, then encodes it.
    pub fn encode(&self, text: &str) -> (r: String)
        requires
            self.wf(),
        ensures
            r@ == encode_seq(self.mapping(), lowercase_of(text@)),
            is_ascii_chars(text@) ==> r@ == encode_seq(self.mapping(), ascii_lower_seq(text@)),
    {
        let lowered = to_lower(text);
        self.encode_lowered(lowered.as_str())
    }

    /// Lower-cases `text`, then decodes it.
    pub fn decode(&self, text: &str) -> (r: String)
        requires
            self.wf(),
        ensures
            decoded(self.mapping(), lowercase_of(text@), r@),
            is_ascii_chars(text@) ==> decoded(self.mapping(), ascii_lower_seq(text@), r@),
    {
        let lowered = to_lower(text);
        self.decode_lowered(lowered.as_str())
    }

    /// The block that records one transformation in a file: a `--` line,
    /// the input, the key as `-Key: source=target-`, the output, and a
    /// closing `--` line.
    pub fn transcript(&self, input: &str, output: &str) -> (r: String)
        ensures
            r@ == transcript_of(self.source(), self.target(), input@, output@),
    {
        String::from_str("--\n").concat(input).concat("\n-Key: ").concat(self.map1.as_str()).concat(
            "=",
        ).concat(self.map2.as_str()).concat("-\n").concat(output).concat("\n--\n")
    }

    /// The lines that show one transformation: the key, the input and the
    /// output, each labelled with the way it went.
    pub fn report(&self, mode: Mode, input: &str, output: &str) -> (r: String)
        ensures
            r@ == report_of(mode, self.source(), self.target(), input@, output@),
    {
        let label = match mode {
            Mode::Encode => "Encode",
            Mode::Decode => "Decode",
        };
        String::from_str("Key: ").concat(self.map1.as_str()).concat("=").concat(
            self.map2.as_str(),
        ).concat("\n").concat(label).concat(" input: ").concat(input).concat("\n").concat(
            label,
        ).concat(" output: ").concat(output)
    }

    /// The source half of the key, as it was given.
    pub fn map1(&self) -> (r: &str)
        ensures
            r@ == self.source(),
    {
        self.map1.as_str()
    }

    /// The target half of the key, as it was given.
    pub fn map2(&self) -> (r: &str)
        ensures
            r@ == self.target(),
    {
        self.map2.as_str()
    }
}

/// A character that no entry of `t` has as key is no key of `m`.
proof fn lemma_unlisted(t: Seq<(char, char)>, m: Map<char, char>, c: char)
    requires
        lists(t, m),
        forall|q: int| 0 <= q < t.len() ==> (#[trigger] t[q]).0 != c,
    ensures
        !m.contains_key(c),
{
    if m.contains_key(c) {
        let q = choose|q: int| 0 <= q < t.len() && (#[trigger] t[q]).0 == c;
    }
}

} // verus!
