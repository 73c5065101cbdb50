//! Laws of the generator, stated over the specification functions that the
//! operations' contracts use.

use vstd::prelude::*;

verus! {

use crate::lcg_iter;
use crate::lcg_next;
use crate::out_bool;
use crate::out_i128;
use crate::out_i16;
use crate::out_i32;
use crate::out_i64;
use crate::out_i8;
use crate::out_u128;
use crate::out_u16;
use crate::out_u32;
use crate::out_u64;
use crate::out_u8;
use crate::out_usize;
use crate::range_value;
use crate::seq_swap;
use crate::shuffle_from;

/// Determinism: the successor state and every extracted value are functions
/// of the state word alone, so two generators holding equal states yield
/// bit-for-bit equal results, and equal successor states, for every
/// operation — and hence for every sequence of operations.
pub proof fn lemma_deterministic<T>(s: u128, t: u128)
    requires
        s == t,
    ensures
        lcg_next(s) == lcg_next(t),
        out_usize(s) == out_usize(t),
        out_bool(s) == out_bool(t),
        out_u8(s) == out_u8(t),
        out_u16(s) == out_u16(t),
        out_u32(s) == out_u32(t),
        out_u64(s) == out_u64(t),
        out_u128(s) == out_u128(t),
        out_i8(s) == out_i8(t),
        out_i16(s) == out_i16(t),
        out_i32(s) == out_i32(t),
        out_i64(s) == out_i64(t),
        out_i128(s) == out_i128(t),
        forall|min: usize, max: usize| #[trigger]
            range_value(s, min, max) == range_value(t, min, max),
        forall|v: Seq<T>, k: nat| #[trigger]
            shuffle_from(v, s, k) == shuffle_from(v, t, k),
{
}

/// Step independence: each draw advances the state exactly once, so a
/// narrow draw followed by a wider one reads the twice-stepped state with
/// the wider extraction — two draws never share a step, and the width of
/// the first has no effect on the second.
pub proof fn lemma_step_independence(s: u128)
    ensures
        lcg_iter(s, 2) == lcg_next(lcg_next(s)),
        out_u16(lcg_iter(s, 2)) == out_u16(lcg_next(lcg_next(s))),
{
    assert(lcg_iter(s, 2) == lcg_iter(lcg_next(s), 1));
    assert(lcg_iter(lcg_next(s), 1) == lcg_iter(lcg_next(lcg_next(s)), 0));
}

/// Exchanging two elements of a sequence keeps its length and its multiset
/// of elements.
pub proof fn lemma_seq_swap_multiset<T>(v: Seq<T>, i: int, j: int)
    requires
        0 <= i < v.len(),
        0 <= j < v.len(),
    ensures
        seq_swap(v, i, j).len() == v.len(),
        seq_swap(v, i, j).to_multiset() == v.to_multiset(),
{
    broadcast use vstd::seq_lib::group_to_multiset_ensures;
    broadcast use vstd::multiset::group_multiset_axioms;

    let v1 = v.update(i, v[j]);
    vstd::seq_lib::to_multiset_update(v, i, v[j]);
    vstd::seq_lib::to_multiset_update(v1, j, v[i]);
    assert(v1[j] == v[j]);
    assert(v.contains(v[i]));
    assert(v.to_multiset().count(v[i]) > 0);
    assert(seq_swap(v, i, j).to_multiset() =~= v.to_multiset());
}

/// A shuffle preserves the multiset of elements: after any number of rounds
/// within the sequence's length, the sequence is a permutation of the
/// original.
pub proof fn lemma_shuffle_from_permutes<T>(v: Seq<T>, s: u128, k: nat)
    requires
        k <= v.len(),
        v.len() <= usize::MAX as nat,
    ensures
        shuffle_from(v, s, k).0.len() == v.len(),
        shuffle_from(v, s, k).0.to_multiset() == v.to_multiset(),
    decreases k,
{
    if k > 0 {
        let last = (v.len() - 1) as usize;
        let i = range_value(s, 0, last) as int;
        let s1 = lcg_next(s);
        let j = range_value(s1, 0, last) as int;
        let s2 = lcg_next(s1);
        assert(0 <= i < v.len());
        assert(0 <= j < v.len());
        lemma_seq_swap_multiset(v, i, j);
        lemma_shuffle_from_permutes(seq_swap(v, i, j), s2, (k - 1) as nat);
    }
}

/// A shuffle of `k` rounds consumes exactly `k` pairs of range draws: the
/// state it leaves is the starting state advanced by exactly `2 * k` steps.
pub proof fn lemma_shuffle_from_steps<T>(v: Seq<T>, s: u128, k: nat)
    ensures
        shuffle_from(v, s, k).1 == lcg_iter(s, 2 * k),
    decreases k,
{
    if k > 0 {
        let last = (v.len() - 1) as usize;
        let i = range_value(s, 0, last) as int;
        let s1 = lcg_next(s);
        let j = range_value(s1, 0, last) as int;
        let s2 = lcg_next(s1);
        lemma_shuffle_from_steps(seq_swap(v, i, j), s2, (k - 1) as nat);
        assert(lcg_iter(s, 2 * k) == lcg_iter(s1, (2 * k - 1) as nat));
        assert(lcg_iter(s1, (2 * k - 1) as nat) == lcg_iter(s2, (2 * k - 2) as nat));
    }
}

} // verus!
