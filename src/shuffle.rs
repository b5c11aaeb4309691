use rand::seq::SliceRandom;
use rand::SeedableRng;
use rand_pcg::Pcg64Mcg;
use vstd::prelude::*;
use vstd::relations::{sorted_by, total_ordering};
use vstd::seq_lib::lemma_sorted_unique;

verus! {

/// The order in which the PCG generator `Pcg64Mcg` (128-bit state, 64-bit
/// output), seeded from `seed`, leaves `xs` after a Fisher-Yates shuffle.
pub uninterp spec fn pcg_shuffle(seed: u64, xs: Seq<u8>) -> Seq<u8>;

pub open spec fn is_ascending(s: Seq<u8>) -> bool {
    forall|i: int, j: int| 0 <= i < j < s.len() ==> s[i] <= s[j]
}

/// The canonical order of the values in `xs`: ascending.
pub open spec fn sorted_of(xs: Seq<u8>) -> Seq<u8> {
    choose|s: Seq<u8>| is_ascending(s) && s.to_multiset() == xs.to_multiset()
}

/// What a seeded shuffle makes of `xs`: its values in canonical order,
/// shuffled by the generator seeded from `seed ^ salt`.
pub open spec fn shuffle_spec(seed: u64, salt: u64, xs: Seq<u8>) -> Seq<u8> {
    pcg_shuffle(seed ^ salt, sorted_of(xs))
}

/// Relies on `<[u8]>::sort`: afterwards the values stand in ascending order,
/// and they are the same values.
#[verifier::external_body]
pub(crate) fn sort_values(v: &mut Vec<u8>)
    ensures
        is_ascending(final(v)@),
        final(v)@.to_multiset() == old(v)@.to_multiset(),
{
    v.sort();
}

/// Relies on `Pcg64Mcg::seed_from_u64` and `SliceRandom::shuffle`: the
/// generator and so the resulting order depend on the seed and the input
/// alone, and the shuffle only swaps elements.
#[verifier::external_body]
fn pcg_shuffle_in_place(seed: u64, v: &mut Vec<u8>)
    ensures
        final(v)@ == pcg_shuffle(seed, old(v)@),
        final(v)@.to_multiset() == old(v)@.to_multiset(),
{
    let mut rng = Pcg64Mcg::seed_from_u64(seed);
    v.shuffle(&mut rng);
}

pub(crate) proof fn lemma_sorted_of(s: Seq<u8>, xs: Seq<u8>)
    requires
        is_ascending(s),
        s.to_multiset() == xs.to_multiset(),
    ensures
        sorted_of(xs) == s,
{
    let leq = |a: u8, b: u8| a <= b;
    let t = sorted_of(xs);
    assert(is_ascending(t) && t.to_multiset() == xs.to_multiset());
    assert(sorted_by(s, leq));
    assert(sorted_by(t, leq));
    assert(total_ordering(leq));
    lemma_sorted_unique(s, t, leq);
}

/// Sorts `v` into canonical order, then shuffles it with the generator seeded
/// from `seed ^ salt`. The result depends on the seed, the salt and the
/// values of `v`, not on their order.
pub fn seeded_shuffle(seed: u64, salt: u64, v: &mut Vec<u8>)
    ensures
        final(v)@ == shuffle_spec(seed, salt, old(v)@),
        final(v)@.to_multiset() == old(v)@.to_multiset(),
{
    sort_values(v);
    proof {
        lemma_sorted_of(v@, old(v)@);
    }
    pcg_shuffle_in_place(seed ^ salt, v);
}

/// A seeded shuffle depends only on which values are shuffled: two inputs
/// holding the same values in any order give the same result.
pub proof fn lemma_shuffle_ignores_order(seed: u64, salt: u64, xs: Seq<u8>, ys: Seq<u8>)
    requires
        xs.to_multiset() == ys.to_multiset(),
    ensures
        shuffle_spec(seed, salt, xs) == shuffle_spec(seed, salt, ys),
{
}

} // verus!
