//! General laws of the edit distance, each proved once and for all over the
//! spec-level model: identity, symmetry, the triangle inequality, and the
//! exact cost of a single edit.

use vstd::prelude::*;

use crate::edit::edit_cost;
use crate::edit::edit_dist;
use crate::edit::lemma_edit_dist_le_max;

verus! {

/// The distance is zero exactly between equal sequences.
pub proof fn lemma_zero_iff_equal(u: Seq<char>, v: Seq<char>)
    ensures
        edit_dist(u, v) == 0 <==> u == v,
    decreases u.len() + v.len(),
{
    if u.len() == 0 && v.len() == 0 {
        assert(u =~= v);
    } else if u.len() == 0 || v.len() == 0 {
        assert(u.len() != v.len());
    } else {
        let up = u.drop_last();
        let vp = v.drop_last();
        lemma_zero_iff_equal(up, vp);
        if up == vp && u.last() == v.last() {
            assert forall|i: int| 0 <= i < u.len() implies u[i] == v[i] by {
                if i < u.len() - 1 {
                    assert(up[i] == u[i]);
                    assert(vp[i] == v[i]);
                } else {
                    assert(u[i] == u.last());
                    assert(v[i] == v.last());
                }
            }
            assert(u =~= v);
            assert(edit_dist(up, vp) + edit_cost(u.last(), v.last()) == 0);
        } else {
            assert(edit_dist(up, vp) + edit_cost(u.last(), v.last()) >= 1);
            assert(edit_dist(u, v) >= 1);
        }
    }
}

/// Identity: a sequence is at distance zero from itself.
pub proof fn lemma_identity(s: Seq<char>)
    ensures
        edit_dist(s, s) == 0,
{
    lemma_zero_iff_equal(s, s);
}

/// Symmetry: the distance does not depend on the order of its arguments.
pub proof fn lemma_symmetry(u: Seq<char>, v: Seq<char>)
    ensures
        edit_dist(u, v) == edit_dist(v, u),
    decreases u.len() + v.len(),
{
    if u.len() == 0 || v.len() == 0 {
    } else {
        lemma_symmetry(u.drop_last(), v);
        lemma_symmetry(u, v.drop_last());
        lemma_symmetry(u.drop_last(), v.drop_last());
    }
}

/// Deleting the last character of the first argument changes the distance by
/// at most one, seen from the longer side: the recurrence's deletion branch.
proof fn lemma_step_delete(u: Seq<char>, v: Seq<char>)
    requires
        u.len() > 0,
    ensures
        edit_dist(u, v) <= edit_dist(u.drop_last(), v) + 1,
{
    if v.len() == 0 {
        assert(u.drop_last().len() == u.len() - 1);
    }
}

/// The recurrence's insertion branch: the distance to `v` is at most one more
/// than the distance to `v` without its last character.
proof fn lemma_step_insert(u: Seq<char>, v: Seq<char>)
    requires
        v.len() > 0,
    ensures
        edit_dist(u, v) <= edit_dist(u, v.drop_last()) + 1,
{
    if u.len() == 0 {
        assert(v.drop_last().len() == v.len() - 1);
    }
}

/// The recurrence's substitution branch: aligning the two last characters.
proof fn lemma_step_diagonal(u: Seq<char>, v: Seq<char>)
    requires
        u.len() > 0,
        v.len() > 0,
    ensures
        edit_dist(u, v) <= edit_dist(u.drop_last(), v.drop_last()) + edit_cost(
            u.last(),
            v.last(),
        ),
{
}

/// Dropping the last character of the second argument raises the distance by
/// at most one.
proof fn lemma_drop_second(u: Seq<char>, v: Seq<char>)
    requires
        v.len() > 0,
    ensures
        edit_dist(u, v.drop_last()) <= edit_dist(u, v) + 1,
    decreases u.len() + v.len(),
{
    let vp = v.drop_last();
    if u.len() == 0 {
        assert(vp.len() == v.len() - 1);
    } else {
        lemma_drop_second(u.drop_last(), v);
        lemma_step_delete(u, vp);
    }
}

/// Dropping the last character of the first argument raises the distance by
/// at most one.
proof fn lemma_drop_first(u: Seq<char>, v: Seq<char>)
    requires
        u.len() > 0,
    ensures
        edit_dist(u.drop_last(), v) <= edit_dist(u, v) + 1,
{
    lemma_symmetry(u, v);
    lemma_symmetry(u.drop_last(), v);
    lemma_drop_second(v, u);
}

/// The distance is at least the difference of the two lengths.
proof fn lemma_ge_len_diff(u: Seq<char>, v: Seq<char>)
    ensures
        edit_dist(u, v) + u.len() >= v.len(),
        edit_dist(u, v) + v.len() >= u.len(),
    decreases u.len() + v.len(),
{
    if u.len() == 0 || v.len() == 0 {
    } else {
        lemma_ge_len_diff(u.drop_last(), v);
        lemma_ge_len_diff(u, v.drop_last());
        lemma_ge_len_diff(u.drop_last(), v.drop_last());
    }
}

/// Triangle inequality: going from `u` to `w` is never dearer than going from
/// `u` to `v` and then from `v` to `w`.
pub proof fn lemma_triangle_inequality(u: Seq<char>, v: Seq<char>, w: Seq<char>)
    ensures
        edit_dist(u, w) <= edit_dist(u, v) + edit_dist(v, w),
    decreases u.len() + v.len() + w.len(),
{
    if v.len() == 0 {
        lemma_edit_dist_le_max(u, w);
    } else if u.len() == 0 {
        lemma_ge_len_diff(v, w);
    } else if w.len() == 0 {
        lemma_ge_len_diff(u, v);
    } else {
        let up = u.drop_last();
        let vp = v.drop_last();
        let wp = w.drop_last();
        let duv = edit_dist(u, v);
        let dvw = edit_dist(v, w);
        if duv == edit_dist(up, v) + 1 {
            lemma_triangle_inequality(up, v, w);
            lemma_step_delete(u, w);
        } else if duv == edit_dist(u, vp) + 1 {
            lemma_triangle_inequality(u, vp, w);
            lemma_drop_first(v, w);
        } else {
            assert(duv == edit_dist(up, vp) + edit_cost(u.last(), v.last()));
            if dvw == edit_dist(vp, w) + 1 {
                lemma_triangle_inequality(u, vp, w);
                lemma_drop_second(u, v);
            } else if dvw == edit_dist(v, wp) + 1 {
                lemma_triangle_inequality(u, v, wp);
                lemma_step_insert(u, w);
            } else {
                assert(dvw == edit_dist(vp, wp) + edit_cost(v.last(), w.last()));
                lemma_triangle_inequality(up, vp, wp);
                lemma_step_diagonal(u, w);
            }
        }
    }
}

/// `v` arises from `u` by deleting the character at one position.
pub open spec fn differs_by_deletion(u: Seq<char>, v: Seq<char>) -> bool {
    exists|i: int| 0 <= i < u.len() && v == u.remove(i)
}

/// `v` arises from `u` by replacing the character at one position with a
/// different one.
pub open spec fn differs_by_substitution(u: Seq<char>, v: Seq<char>) -> bool {
    exists|i: int| 0 <= i < u.len() && u[i] != v[i] && v == u.update(i, v[i])
}

/// `u` and `v` differ by exactly one insertion, deletion or substitution.
pub open spec fn differs_by_one_edit(u: Seq<char>, v: Seq<char>) -> bool {
    differs_by_deletion(u, v) || differs_by_deletion(v, u) || differs_by_substitution(u, v)
}

/// Removing one character moves a sequence to distance exactly one.
pub proof fn lemma_remove_one(u: Seq<char>, i: int)
    requires
        0 <= i < u.len(),
    ensures
        edit_dist(u, u.remove(i)) == 1,
    decreases u.len(),
{
    let v = u.remove(i);
    assert(v.len() == u.len() - 1);
    if i == u.len() - 1 {
        assert(v =~= u.drop_last());
        lemma_identity(v);
        lemma_step_delete(u, v);
    } else {
        assert(v.last() == u.last());
        assert(v.drop_last() =~= u.drop_last().remove(i));
        lemma_remove_one(u.drop_last(), i);
        lemma_step_diagonal(u, v);
    }
    lemma_zero_iff_equal(u, v);
    assert(u != v);
}

/// Replacing one character with a different one moves a sequence to distance
/// exactly one.
pub proof fn lemma_substitute_one(u: Seq<char>, i: int, c: char)
    requires
        0 <= i < u.len(),
        u[i] != c,
    ensures
        edit_dist(u, u.update(i, c)) == 1,
    decreases u.len(),
{
    let v = u.update(i, c);
    assert(v.len() == u.len());
    if i == u.len() - 1 {
        assert(v.drop_last() =~= u.drop_last());
        assert(v.last() == c);
        lemma_identity(u.drop_last());
        lemma_step_diagonal(u, v);
    } else {
        assert(v.last() == u.last());
        assert(v.drop_last() =~= u.drop_last().update(i, c));
        lemma_substitute_one(u.drop_last(), i, c);
        lemma_step_diagonal(u, v);
    }
    lemma_zero_iff_equal(u, v);
    assert(v[i] == c);
    assert(u != v);
}

/// Single-edit bound: sequences that differ by exactly one insertion,
/// deletion or substitution are at distance exactly one.
pub proof fn lemma_single_edit(u: Seq<char>, v: Seq<char>)
    requires
        differs_by_one_edit(u, v),
    ensures
        edit_dist(u, v) == 1,
{
    if differs_by_deletion(u, v) {
        let i = choose|i: int| 0 <= i < u.len() && v == u.remove(i);
        lemma_remove_one(u, i);
    } else if differs_by_deletion(v, u) {
        let i = choose|i: int| 0 <= i < v.len() && u == v.remove(i);
        lemma_remove_one(v, i);
        lemma_symmetry(u, v);
    } else {
        let i = choose|i: int| 0 <= i < u.len() && u[i] != v[i] && v == u.update(i, v[i]);
        lemma_substitute_one(u, i, v[i]);
    }
}

} // verus!
