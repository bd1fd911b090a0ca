//! Round-robin egress selection: the index arithmetic behind the
//! shared request counter, and the cycle laws it obeys.

use vstd::prelude::*;
use vstd::arithmetic::div_mod::{
    lemma_add_mod_noop, lemma_mod_bound, lemma_mod_sub_multiples_vanish, lemma_small_mod,
};
use vstd::seq_lib::lemma_multiset_commutative;

verus! {

/// The pool index used by the selection made at counter value `counter`.
pub open spec fn selection_index(counter: nat, pool_len: nat) -> int
    recommends
        pool_len > 0,
{
    counter as int % pool_len as int
}

/// The counter value after one selection: incremented by one, wrapping
/// at the machine word's maximum.
pub open spec fn next_counter(counter: usize) -> usize {
    if counter == usize::MAX {
        0
    } else {
        (counter + 1) as usize
    }
}

/// The addresses returned by `pool.len()` consecutive selections
/// starting at counter value `start`.
pub open spec fn selection_cycle(pool: Seq<Seq<char>>, start: nat) -> Seq<Seq<char>> {
    Seq::new(pool.len(), |i: int| pool[selection_index((start + i) as nat, pool.len())])
}

/// Round-robin law: over any full cycle of `pool.len()` consecutive
/// counter values, the selections return the pool's members exactly
/// once each — the multiset of returned addresses equals the pool as
/// a multiset — whatever the starting counter value.
pub proof fn lemma_round_robin_cycle(pool: Seq<Seq<char>>, start: nat)
    requires
        pool.len() > 0,
    ensures
        selection_cycle(pool, start).to_multiset() == pool.to_multiset(),
{
    broadcast use vstd::multiset::group_multiset_axioms;

    let n = pool.len() as int;
    let r = (start as int) % n;
    lemma_mod_bound(start as int, n);
    let cycle = selection_cycle(pool, start);
    assert forall|i: int| 0 <= i < n implies cycle[i] == pool[if r + i < n {
        r + i
    } else {
        r + i - n
    }] by {
        lemma_add_mod_noop(start as int, i, n);
        lemma_small_mod(i as nat, n as nat);
        if r + i < n {
            lemma_small_mod((r + i) as nat, n as nat);
        } else {
            lemma_mod_sub_multiples_vanish(r + i, n);
            lemma_small_mod((r + i - n) as nat, n as nat);
        }
    }
    let front = pool.subrange(0, r);
    let back = pool.subrange(r, n);
    assert(cycle =~= back + front);
    assert(pool =~= front + back);
    lemma_multiset_commutative(front, back);
    lemma_multiset_commutative(back, front);
    assert(front.to_multiset().add(back.to_multiset()) =~= back.to_multiset().add(
        front.to_multiset(),
    ));
    assert(cycle.to_multiset() =~= pool.to_multiset());
}

/// A pool holding a single address: every selection returns that
/// address, whatever the counter value.
pub proof fn lemma_single_address(pool: Seq<Seq<char>>, counter: nat)
    requires
        pool.len() == 1,
    ensures
        pool[selection_index(counter, pool.len())] == pool[0],
{
    lemma_mod_bound(counter as int, 1);
}

} // verus!
