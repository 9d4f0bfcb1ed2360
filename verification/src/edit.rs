//! Mathematical model of the Levenshtein edit distance: the distance itself as
//! a recursive spec function, and the facts about it that the executable code
//! leans on.

use vstd::prelude::*;

verus! {

/// The smallest of three integers.
pub open spec fn min3(a: int, b: int, c: int) -> int {
    if a <= b && a <= c {
        a
    } else if b <= c {
        b
    } else {
        c
    }
}

/// Cost of aligning two characters: a match is free, a substitution costs one.
pub open spec fn edit_cost(a: char, b: char) -> nat {
    if a == b {
        0
    } else {
        1
    }
}

/// The Levenshtein edit distance between two character sequences: the least
/// number of single-character insertions, deletions and substitutions that
/// turn `u` into `v`, written as the classical recurrence that strips the last
/// character of either sequence at each step.
pub open spec fn edit_dist(u: Seq<char>, v: Seq<char>) -> nat
    decreases u.len() + v.len(),
{
    if u.len() == 0 {
        v.len()
    } else if v.len() == 0 {
        u.len()
    } else {
        min3(
            (edit_dist(u.drop_last(), v) + 1) as int,
            (edit_dist(u, v.drop_last()) + 1) as int,
            (edit_dist(u.drop_last(), v.drop_last()) + edit_cost(u.last(), v.last())) as int,
        ) as nat
    }
}

/// The distance to or from the empty sequence is the other sequence's length.
pub proof fn lemma_edit_dist_empty(s: Seq<char>)
    ensures
        edit_dist(Seq::<char>::empty(), s) == s.len(),
        edit_dist(s, Seq::<char>::empty()) == s.len(),
{
}

/// The distance never exceeds the longer sequence's length.
pub proof fn lemma_edit_dist_le_max(u: Seq<char>, v: Seq<char>)
    ensures
        u.len() >= v.len() ==> edit_dist(u, v) <= u.len(),
        v.len() >= u.len() ==> edit_dist(u, v) <= v.len(),
    decreases u.len() + v.len(),
{
    if u.len() == 0 || v.len() == 0 {
    } else {
        lemma_edit_dist_le_max(u.drop_last(), v.drop_last());
    }
}

/// The recurrence restated over prefixes: the distance between the length-`c`
/// prefix of `u` and the length-`r` prefix of `v` is determined by the three
/// neighbouring prefix distances, exactly as a dynamic-programming table is
/// filled.
pub proof fn lemma_prefix_step(u: Seq<char>, v: Seq<char>, c: int, r: int)
    requires
        1 <= c <= u.len(),
        1 <= r <= v.len(),
    ensures
        edit_dist(u.take(c), v.take(r)) == min3(
            (edit_dist(u.take(c - 1), v.take(r)) + 1) as int,
            (edit_dist(u.take(c), v.take(r - 1)) + 1) as int,
            (edit_dist(u.take(c - 1), v.take(r - 1)) + edit_cost(u[c - 1], v[r - 1])) as int,
        ) as nat,
{
    let a = u.take(c);
    let b = v.take(r);
    assert(a.drop_last() =~= u.take(c - 1));
    assert(b.drop_last() =~= v.take(r - 1));
    assert(a.last() == u[c - 1]);
    assert(b.last() == v[r - 1]);
}

} // verus!
