//! Executable Levenshtein distance, in the two classical shapes: the naive
//! recursion and the dynamic-programming table.

use vstd::prelude::*;
use vstd::string::StrSliceExecFns;

use crate::edit::edit_dist;
use crate::edit::lemma_edit_dist_empty;
use crate::edit::lemma_edit_dist_le_max;
use crate::edit::lemma_prefix_step;
use crate::edit::min3;

verus! {

/// Smallest of three values.
fn minimum(a: u32, b: u32, c: u32) -> (m: u32)
    ensures
        m == min3(a as int, b as int, c as int),
{
    if a < b {
        if a < c {
            a
        } else {
            c
        }
    } else {
        if b < c {
            b
        } else {
            c
        }
    }
}

/// Edit distance by the naive recursive decomposition on last characters.
/// Exponential time; the deliberately unmemoized baseline.
pub fn recursive(u: &str, v: &str) -> (d: u32)
    requires
        u@.len() < u32::MAX,
        v@.len() < u32::MAX,
    ensures
        d == edit_dist(u@, v@),
    decreases u@.len() + v@.len(),
{
    let ul = u.unicode_len();
    let vl = v.unicode_len();
    if ul == 0 {
        return vl as u32;
    }
    if vl == 0 {
        return ul as u32;
    }

    let uc = u.get_char(ul - 1);
    let vc = v.get_char(vl - 1);
    let cost: u32 = if uc == vc {
        0
    } else {
        1
    };

    let u_front = u.substring_char(0, ul - 1);
    let v_front = v.substring_char(0, vl - 1);
    proof {
        assert(u_front@ =~= u@.drop_last());
        assert(v_front@ =~= v@.drop_last());
    }

    let d_del = recursive(u_front, v);
    let d_ins = recursive(u, v_front);
    let d_sub = recursive(u_front, v_front);
    proof {
        lemma_edit_dist_le_max(u@.drop_last(), v@);
        lemma_edit_dist_le_max(u@, v@.drop_last());
        lemma_edit_dist_le_max(u@.drop_last(), v@.drop_last());
    }
    minimum(d_del + 1, d_ins + 1, d_sub + cost)
}

/// Edit distance by dynamic programming: fills a table of prefix distances
/// row by row, keeping only the previous row, and returns the final cell.
pub fn matrix(u: &str, v: &str) -> (d: u32)
    requires
        u@.len() < u32::MAX,
        v@.len() < u32::MAX,
    ensures
        d == edit_dist(u@, v@),
{
    let ul = u.unicode_len();
    let vl = v.unicode_len();

    let mut prev: Vec<u32> = Vec::new();
    let mut col: usize = 0;
    while col <= ul
        invariant
            col <= ul + 1,
            ul == u@.len(),
            ul < u32::MAX,
            prev@.len() == col,
            forall|j: int| 0 <= j < col ==> prev@[j] == edit_dist(u@.take(j), v@.take(0)),
        decreases ul + 1 - col,
    {
        proof {
            assert(v@.take(0) =~= Seq::<char>::empty());
            lemma_edit_dist_empty(u@.take(col as int));
            assert(u@.take(col as int).len() == col);
        }
        prev.push(col as u32);
        col += 1;
    }

    let mut row: usize = 1;
    while row <= vl
        invariant
            1 <= row <= vl + 1,
            ul == u@.len(),
            ul < u32::MAX,
            vl == v@.len(),
            vl < u32::MAX,
            prev@.len() == ul + 1,
            forall|j: int| 0 <= j <= ul ==> prev@[j] == edit_dist(u@.take(j), v@.take(row - 1)),
        decreases vl + 1 - row,
    {
        let mut cur: Vec<u32> = Vec::new();
        proof {
            assert(u@.take(0) =~= Seq::<char>::empty());
            lemma_edit_dist_empty(v@.take(row as int));
            assert(v@.take(row as int).len() == row);
        }
        cur.push(row as u32);

        let mut col: usize = 1;
        while col <= ul
            invariant
                1 <= col <= ul + 1,
                1 <= row <= vl,
                ul == u@.len(),
                ul < u32::MAX,
                vl == v@.len(),
                vl < u32::MAX,
                prev@.len() == ul + 1,
                forall|j: int| 0 <= j <= ul ==> prev@[j] == edit_dist(u@.take(j), v@.take(row - 1)),
                cur@.len() == col,
                forall|j: int| 0 <= j < col ==> cur@[j] == edit_dist(u@.take(j), v@.take(row as int)),
            decreases ul + 1 - col,
        {
            let uc = u.get_char(col - 1);
            let vc = v.get_char(row - 1);
            let cost: u32 = if uc == vc {
                0
            } else {
                1
            };

            let d_del = prev[col];
            let d_ins = cur[col - 1];
            let d_sub = prev[col - 1];
            proof {
                lemma_edit_dist_le_max(u@.take(col as int), v@.take(row - 1));
                lemma_edit_dist_le_max(u@.take(col - 1), v@.take(row as int));
                lemma_edit_dist_le_max(u@.take(col - 1), v@.take(row - 1));
                lemma_prefix_step(u@, v@, col as int, row as int);
            }
            let cell = minimum(d_del + 1, d_ins + 1, d_sub + cost);
            cur.push(cell);
            col += 1;
        }

        prev = cur;
        row += 1;
    }

    proof {
        assert(u@.take(ul as int) =~= u@);
        assert(v@.take(vl as int) =~= v@);
    }
    prev[ul]
}

} // verus!
