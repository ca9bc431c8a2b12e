use vstd::prelude::*;
use vstd::utf8::is_ascii_chars;

use crate::text::{ascii_lower, ascii_lower_seq, lemma_ascii_lower};

use crate::cipher::{
    decoded, decodes_to, encode_seq, injective, is_value, pairing, pairing_upto,
};

verus! {

/// Pairing `n` characters of `ks` with those of `vs`: the keys are those
/// `n` characters of `ks`, and where neither side repeats a character the
/// mapping is one-to-one.
pub proof fn lemma_pairing_upto(ks: Seq<char>, vs: Seq<char>, n: nat)
    requires
        n <= ks.len(),
        n <= vs.len(),
        ks.no_duplicates(),
        vs.no_duplicates(),
    ensures
        forall|k: char| pairing_upto(ks, vs, n).contains_key(k) <==> exists|i: int|
            0 <= i < n && ks[i] == k,
        forall|i: int| 0 <= i < n ==> pairing_upto(ks, vs, n)[#[trigger] ks[i]] == vs[i],
        injective(pairing_upto(ks, vs, n)),
    decreases n,
{
    if n > 0 {
        let p = (n - 1) as nat;
        lemma_pairing_upto(ks, vs, p);
        let m = pairing_upto(ks, vs, n);
        let pm = pairing_upto(ks, vs, p);
        assert forall|k: char| m.contains_key(k) implies exists|i: int| 0 <= i < n && ks[i] == k by {
            if k != ks[n - 1] {
                assert(pm.contains_key(k));
            }
        }
        assert forall|k1: char, k2: char|
            m.contains_key(k1) && m.contains_key(k2) && #[trigger] m[k1] == #[trigger] m[k2] implies k1
            == k2 by {
            if k1 != ks[n - 1] {
                let i1 = choose|i: int| 0 <= i < p && ks[i] == k1;
                assert(m[k1] == vs[i1]);
            }
            if k2 != ks[n - 1] {
                let i2 = choose|i: int| 0 <= i < p && ks[i] == k2;
                assert(m[k2] == vs[i2]);
            }
        }
    }
}

/// Where the source and target alphabets have the same length and neither
/// repeats a character, their pairing is one-to-one and its keys are the
/// characters of the source.
pub proof fn lemma_pairing_one_to_one(ks: Seq<char>, vs: Seq<char>)
    requires
        ks.len() == vs.len(),
        ks.no_duplicates(),
        vs.no_duplicates(),
    ensures
        injective(pairing(ks, vs)),
        forall|k: char| pairing(ks, vs).contains_key(k) <==> ks.contains(k),
{
    lemma_pairing_upto(ks, vs, ks.len());
}

/// Under a one-to-one mapping, decoding what was encoded gives back the
/// lower-cased text, for text made of source characters only.
pub proof fn lemma_decode_inverts_encode(ks: Seq<char>, vs: Seq<char>, x: Seq<char>, r: Seq<char>)
    requires
        ks.len() == vs.len(),
        ks.no_duplicates(),
        vs.no_duplicates(),
        forall|i: int| 0 <= i < x.len() ==> ks.contains(#[trigger] x[i]),
        decoded(pairing(ks, vs), encode_seq(pairing(ks, vs), x), r),
    ensures
        r == x,
{
    let m = pairing(ks, vs);
    lemma_pairing_one_to_one(ks, vs);
    let e = encode_seq(m, x);
    assert forall|i: int| 0 <= i < x.len() implies r[i] == x[i] by {
        assert(m.contains_key(x[i]));
        assert(e[i] == m[x[i]]);
        assert(is_value(m, e[i]));
        assert(decodes_to(m, e[i], r[i]));
    }
    assert(r =~= x);
}

/// For ASCII alphabets of equal length whose lower-cased characters do not
/// repeat on either side, and ASCII text made of source characters only in
/// any case: encoding gives ASCII text that lower-casing leaves as it is, and
/// decoding that gives back the lower-cased text.
pub proof fn lemma_round_trip_ascii(
    a: Seq<char>,
    b: Seq<char>,
    x: Seq<char>,
    e: Seq<char>,
    r: Seq<char>,
)
    requires
        a.len() == b.len(),
        is_ascii_chars(a),
        is_ascii_chars(b),
        is_ascii_chars(x),
        ascii_lower_seq(a).no_duplicates(),
        ascii_lower_seq(b).no_duplicates(),
        forall|i: int| 0 <= i < x.len() ==> ascii_lower_seq(a).contains(#[trigger] ascii_lower(x[i])),
        e == encode_seq(pairing(ascii_lower_seq(a), ascii_lower_seq(b)), ascii_lower_seq(x)),
    ensures
        is_ascii_chars(e),
        ascii_lower_seq(e) == e,
        decoded(pairing(ascii_lower_seq(a), ascii_lower_seq(b)), ascii_lower_seq(e), r) ==> r
            == ascii_lower_seq(x),
{
    let la = ascii_lower_seq(a);
    let lb = ascii_lower_seq(b);
    let lx = ascii_lower_seq(x);
    let m = pairing(la, lb);
    lemma_pairing_upto(la, lb, la.len());
    assert forall|i: int| 0 <= i < e.len() implies '\0' <= #[trigger] e[i] <= '\u{7f}' && ascii_lower(
        e[i],
    ) == e[i] by {
        assert(la.contains(lx[i]));
        let j = choose|j: int| 0 <= j < la.len() && la[j] == lx[i];
        assert(m[la[j]] == lb[j]);
        lemma_ascii_lower(b[j]);
    }
    assert(ascii_lower_seq(e) =~= e);
    if decoded(m, ascii_lower_seq(e), r) {
        assert forall|i: int| 0 <= i < lx.len() implies la.contains(#[trigger] lx[i]) by {
            assert(la.contains(ascii_lower(x[i])));
        }
        lemma_decode_inverts_encode(la, lb, lx, r);
    }
}

/// Encoding and decoding give one character for each character of the
/// input.
pub proof fn lemma_length_kept(m: Map<char, char>, s: Seq<char>, r: Seq<char>)
    ensures
        encode_seq(m, s).len() == s.len(),
        decoded(m, s, r) ==> r.len() == s.len(),
{
}

/// A character that is no key of the mapping comes out of encoding as it
/// went in.
pub proof fn lemma_unmapped_kept(m: Map<char, char>, s: Seq<char>, i: int)
    requires
        0 <= i < s.len(),
        !m.contains_key(s[i]),
    ensures
        encode_seq(m, s)[i] == s[i],
{
}

/// When a source character occurs more than once, the pairing of its last
/// occurrence is the one that holds.
pub proof fn lemma_last_pairing_wins(ks: Seq<char>, vs: Seq<char>, i: int)
    requires
        0 <= i < ks.len(),
        i < vs.len(),
        forall|j: int| i < j < ks.len() && j < vs.len() ==> ks[j] != ks[i],
    ensures
        pairing(ks, vs).contains_key(ks[i]),
        pairing(ks, vs)[ks[i]] == vs[i],
{
    let n = if ks.len() <= vs.len() { ks.len() } else { vs.len() };
    lemma_pairing_upto_last(ks, vs, i, n);
}

proof fn lemma_pairing_upto_last(ks: Seq<char>, vs: Seq<char>, i: int, n: nat)
    requires
        0 <= i < n,
        n <= ks.len(),
        n <= vs.len(),
        forall|j: int| i < j < n ==> ks[j] != ks[i],
    ensures
        pairing_upto(ks, vs, n).contains_key(ks[i]),
        pairing_upto(ks, vs, n)[ks[i]] == vs[i],
    decreases n,
{
    if i < n - 1 {
        lemma_pairing_upto_last(ks, vs, i, (n - 1) as nat);
    }
}

} // verus!
