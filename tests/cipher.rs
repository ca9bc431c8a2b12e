use subst_cipher::cipher::{Cipher, LengthMismatchError};
use subst_cipher::entry::Mode;
use subst_cipher::scramble::{scramble, scramble_seeded};

fn cipher(a: &str, b: &str) -> Cipher {
    match Cipher::new(a, b) {
        Ok(c) => c,
        Err(e) => panic!("refused key {}={}: {:?}", a, b, e),
    }
}

#[test]
fn key_abc_xyz_encodes_and_decodes() {
    let c = cipher("abc", "xyz");
    assert_eq!(c.encode("cab"), "zxy");
    assert_eq!(c.decode("zxy"), "cab");
}

#[test]
fn swap_key_lowercases_and_maps_only_its_letters() {
    let c = cipher("ab", "ba");
    assert_eq!(c.encode("Hello ab"), "hello ba");
}

#[test]
fn mismatched_key_is_refused() {
    match Cipher::new("abc", "xy") {
        Ok(_) => panic!("a key of unequal halves was accepted"),
        Err(e) => assert_eq!(e, LengthMismatchError { source_len: 3, target_len: 2 }),
    }
}

#[test]
fn every_length_difference_is_refused() {
    let halves = ["", "a", "ab", "abc", "abcdefghij"];
    for a in halves.iter() {
        for b in halves.iter() {
            let r = Cipher::new(a, b);
            assert_eq!(r.is_err(), a.len() != b.len());
        }
    }
}

#[test]
fn lengths_are_kept() {
    let c = cipher("abc", "xyz");
    for s in ["", "a", "cab", "Hello, World! 123", "line one\nline two"].iter() {
        assert_eq!(c.encode(s).chars().count(), s.chars().count());
        assert_eq!(c.decode(s).chars().count(), s.chars().count());
    }
}

#[test]
fn unmapped_characters_pass_through() {
    let c = cipher("ab", "xy");
    assert_eq!(c.encode("abc123"), "xyc123");
    assert_eq!(c.encode("ABC123"), "xyc123");
}

#[test]
fn decode_inverts_encode_under_a_bijection() {
    let c = cipher("abcdef", "fedcba");
    let x = "BadCafe";
    assert_eq!(c.decode(&c.encode(x)), "badcafe");
    let full = cipher("abcdefghijklmnopqrstuvwxyz", "qwertyuiopasdfghjklzxcvbnm");
    let y = "The quick brown fox jumps over the lazy dog";
    assert_eq!(full.decode(&full.encode(y)), y.to_lowercase());
}

#[test]
fn empty_text_gives_empty_text() {
    let c = cipher("abc", "xyz");
    assert_eq!(c.encode(""), "");
    assert_eq!(c.decode(""), "");
}

#[test]
fn empty_key_leaves_text_lower_cased() {
    let c = cipher("", "");
    assert_eq!(c.encode("Hello World"), "hello world");
    assert_eq!(c.decode("Hello World"), "hello world");
}

#[test]
fn upper_case_key_is_lower_cased() {
    let c = cipher("ABC", "XYZ");
    assert_eq!(c.encode("abc"), "xyz");
    assert_eq!(c.map1(), "ABC");
    assert_eq!(c.map2(), "XYZ");
}

#[test]
fn later_pairing_of_a_repeated_key_wins() {
    let c = cipher("aab", "xyz");
    assert_eq!(c.encode("ab"), "yz");
    assert_eq!(c.decode("yz"), "ab");
    assert_eq!(c.decode("x"), "x");
}

#[test]
fn lowered_forms_skip_lower_casing() {
    let c = cipher("ab", "xy");
    assert_eq!(c.encode_lowered("aB"), "xB");
    assert_eq!(c.decode_lowered("xY"), "aY");
}

#[test]
fn transcript_text() {
    let c = cipher("abc", "xyz");
    assert_eq!(c.transcript("cab", "zxy"), "--\ncab\n-Key: abc=xyz-\nzxy\n--\n");
}

#[test]
fn report_text() {
    let c = cipher("abc", "xyz");
    assert_eq!(
        c.report(Mode::Encode, "cab", "zxy"),
        "Key: abc=xyz\nEncode input: cab\nEncode output: zxy"
    );
    assert_eq!(
        c.report(Mode::Decode, "zxy", "cab"),
        "Key: abc=xyz\nDecode input: zxy\nDecode output: cab"
    );
}

fn sorted(s: &str) -> Vec<char> {
    let mut v: Vec<char> = s.chars().collect();
    v.sort();
    v
}

#[test]
fn scramble_is_a_permutation() {
    for _ in 0..100 {
        let r = scramble("abc");
        assert_eq!(r.chars().count(), 3);
        assert_eq!(sorted(&r), vec!['a', 'b', 'c']);
    }
    let r = scramble("aab");
    assert_eq!(sorted(&r), vec!['a', 'a', 'b']);
    assert_eq!(scramble(""), "");
}

#[test]
fn scramble_is_roughly_uniform() {
    let perms = ["abc", "acb", "bac", "bca", "cab", "cba"];
    let mut counts = [0usize; 6];
    let trials = 6000;
    for _ in 0..trials {
        let r = scramble("abc");
        let i = perms.iter().position(|p| *p == r).expect("not a permutation");
        counts[i] += 1;
    }
    for c in counts.iter() {
        assert!(*c > 700 && *c < 1300, "counts {:?}", counts);
    }
}

#[test]
fn scramble_keeps_the_full_alphabet() {
    let a = "abcdefghijklmnopqrstuvwxyz";
    let r = scramble(a);
    assert_eq!(sorted(&r), sorted(a));
}

#[test]
fn seeded_scramble_repeats_for_the_same_seed() {
    let a = "abcdefghijklmnopqrstuvwxyz";
    for seed in 0..20u64 {
        let r = scramble_seeded(a, seed);
        assert_eq!(r, scramble_seeded(a, seed));
        assert_eq!(sorted(&r), sorted(a));
    }
}

#[test]
fn seeded_scramble_moves_characters() {
    let a = "abcdefghijklmnopqrstuvwxyz";
    let moved = (0..20u64).filter(|s| scramble_seeded(a, *s) != a).count();
    assert!(moved > 0);
    let distinct: std::collections::HashSet<String> =
        (0..20u64).map(|s| scramble_seeded(a, s)).collect();
    assert!(distinct.len() > 1);
}
