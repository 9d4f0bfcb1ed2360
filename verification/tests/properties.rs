use levenshtein::matrix;
use levenshtein::recursive;

#[test]
fn both_implementations_agree_on_sample_pairs() {
    let pairs = [
        ("", ""),
        ("", "abc"),
        ("abc", ""),
        ("abc", "abc"),
        ("kitten", "sitting"),
        ("flaw", "lawn"),
        ("gumbo", "gambol"),
        ("kangaroo", "koala"),
    ];
    for (u, v) in pairs {
        assert_eq!(recursive(u, v), matrix(u, v));
    }
}

#[test]
fn identity_gives_distance_zero() {
    assert_eq!(0, matrix("same", "same"));
    assert_eq!(0, recursive("same", "same"));
}

#[test]
fn symmetry_on_sample_pairs() {
    assert_eq!(matrix("kangaroo", "koala"), matrix("koala", "kangaroo"));
    assert_eq!(recursive("ab", "ba"), recursive("ba", "ab"));
    assert_eq!(matrix("", "abc"), matrix("abc", ""));
}

#[test]
fn triangle_inequality_on_sample_triples() {
    let triples = [
        ("kitten", "sitting", "mitten"),
        ("", "abc", "abcd"),
        ("flaw", "lawn", "law"),
    ];
    for (u, v, w) in triples {
        assert!(matrix(u, w) <= matrix(u, v) + matrix(v, w));
    }
}

#[test]
fn single_edit_gives_distance_one() {
    // one insertion
    assert_eq!(1, matrix("abc", "abxc"));
    // one deletion
    assert_eq!(1, matrix("abc", "ac"));
    // one substitution
    assert_eq!(1, matrix("abc", "axc"));
}

#[test]
fn known_distance_kitten_sitting() {
    assert_eq!(3, matrix("kitten", "sitting"));
    assert_eq!(3, recursive("kitten", "sitting"));
}

#[test]
fn indexing_is_by_character_not_by_byte() {
    // multi-byte code points count as single characters
    assert_eq!(1, matrix("caf\u{e9}", "cafe"));
    assert_eq!(1, recursive("caf\u{e9}", "cafe"));
    assert_eq!(2, matrix("\u{65e5}\u{672c}\u{8a9e}", "\u{65e5}"));
    assert_eq!(4, matrix("", "\u{1f600}\u{1f601}\u{1f602}\u{1f603}"));
}
