//! Mathematical model of the durable key-value store.
//!
//! Each entity of the data model lives in its own typed map, held as an
//! association list: a vector of key-value pairs with pairwise-distinct keys.
//! The spec functions here say what a lookup returns and how updates, pushes
//! and pair membership change it; the lemmas are the facts the operations in
//! the other modules need to maintain the ledger invariants.

use vstd::prelude::*;

verus! {

/// What the store holds under key `k`: the value of the unique entry whose
/// key is `k`, or `None` when no entry carries it.
pub open spec fn alist_lookup<K, V>(s: Seq<(K, V)>, k: K) -> Option<V>
    decreases s.len(),
{
    if s.len() == 0 {
        None::<V>
    } else if s.last().0 == k {
        Some(s.last().1)
    } else {
        alist_lookup(s.drop_last(), k)
    }
}

/// No two entries carry the same key.
pub open spec fn alist_unique<K, V>(s: Seq<(K, V)>) -> bool {
    forall|i: int, j: int| 0 <= i < j < s.len() ==> s[i].0 != s[j].0
}

/// In a list with distinct keys, looking up the key of entry `i` finds
/// exactly that entry.
pub proof fn lemma_lookup_at_index<K, V>(s: Seq<(K, V)>, i: int)
    requires
        alist_unique(s),
        0 <= i < s.len(),
    ensures
        alist_lookup(s, s[i].0) == Some(s[i].1),
    decreases s.len(),
{
    if i == s.len() - 1 {
    } else {
        assert(s.last() == s[s.len() - 1]);
        assert(s[i].0 != s[s.len() - 1].0);
        assert(alist_unique(s.drop_last())) by {
            assert(forall|p: int, q: int|
                0 <= p < q < s.drop_last().len() ==> s.drop_last()[p] == s[p] && s.drop_last()[q]
                    == s[q]);
        }
        assert(s.drop_last()[i] == s[i]);
        lemma_lookup_at_index(s.drop_last(), i);
    }
}

/// A key carried by no entry is absent from the lookup.
pub proof fn lemma_lookup_absent<K, V>(s: Seq<(K, V)>, k: K)
    requires
        forall|i: int| 0 <= i < s.len() ==> s[i].0 != k,
    ensures
        alist_lookup(s, k) is None,
    decreases s.len(),
{
    if s.len() > 0 {
        assert(s.last() == s[s.len() - 1]);
        assert(forall|i: int| 0 <= i < s.drop_last().len() ==> s.drop_last()[i] == s[i]);
        lemma_lookup_absent(s.drop_last(), k);
    }
}

/// Overwriting entry `i` in place, keeping its key, changes exactly that
/// key's lookup and keeps the keys distinct.
pub proof fn lemma_lookup_update<K, V>(s: Seq<(K, V)>, i: int, x: (K, V), k: K)
    requires
        alist_unique(s),
        0 <= i < s.len(),
        s[i].0 == x.0,
    ensures
        alist_lookup(s.update(i, x), k) == if k == x.0 {
            Some(x.1)
        } else {
            alist_lookup(s, k)
        },
        alist_unique(s.update(i, x)),
    decreases s.len(),
{
    let s2 = s.update(i, x);
    assert(forall|j: int| 0 <= j < s.len() ==> s2[j].0 == s[j].0);
    if i == s.len() - 1 {
        assert(s2.last() == x);
        assert(s2.drop_last() =~= s.drop_last());
        assert(s.last() == s[i]);
    } else {
        assert(s2.last() == s.last());
        assert(s.last() == s[s.len() - 1]);
        assert(s[s.len() - 1].0 != s[i].0);
        assert(alist_unique(s.drop_last())) by {
            assert(forall|p: int, q: int|
                0 <= p < q < s.drop_last().len() ==> s.drop_last()[p] == s[p] && s.drop_last()[q]
                    == s[q]);
        }
        assert(s.drop_last()[i] == s[i]);
        assert(s2.drop_last() =~= s.drop_last().update(i, x));
        lemma_lookup_update(s.drop_last(), i, x, k);
    }
}

/// Appending an entry under a fresh key adds exactly that key's lookup and
/// keeps the keys distinct.
pub proof fn lemma_lookup_push<K, V>(s: Seq<(K, V)>, x: (K, V), k: K)
    requires
        forall|i: int| 0 <= i < s.len() ==> s[i].0 != x.0,
    ensures
        alist_lookup(s.push(x), k) == if k == x.0 {
            Some(x.1)
        } else {
            alist_lookup(s, k)
        },
        alist_unique(s) ==> alist_unique(s.push(x)),
{
    let s2 = s.push(x);
    assert(s2.last() == x);
    assert(s2.drop_last() =~= s);
    if alist_unique(s) {
        assert forall|i: int, j: int| 0 <= i < j < s2.len() implies s2[i].0 != s2[j].0 by {
            if j == s.len() {
                assert(s2[i] == s[i]);
            } else {
                assert(s2[i] == s[i] && s2[j] == s[j]);
            }
        }
    }
}

/// Membership in a sequence after a push: the pushed element, and nothing
/// else, becomes newly contained.
pub proof fn lemma_contains_push<T>(s: Seq<T>, e: T, x: T)
    ensures
        s.push(e).contains(x) <==> (s.contains(x) || x == e),
{
    if s.contains(x) {
        let i = choose|i: int| 0 <= i < s.len() && s[i] == x;
        assert(s.push(e)[i] == x);
    }
    if x == e {
        assert(s.push(e)[s.len() as int] == x);
    }
    if s.push(e).contains(x) && x != e {
        let i = choose|i: int| 0 <= i < s.push(e).len() && s.push(e)[i] == x;
        assert(i < s.len());
        assert(s[i] == x);
    }
}

/// Total of all staked balances recorded in the stake ledger.
pub open spec fn sum_amounts(s: Seq<(u64, i128)>) -> int
    decreases s.len(),
{
    if s.len() == 0 {
        0
    } else {
        sum_amounts(s.drop_last()) + s.last().1
    }
}

/// Overwriting one stake record moves the total by the difference between
/// the new and the old amount.
pub proof fn lemma_sum_update(s: Seq<(u64, i128)>, i: int, x: (u64, i128))
    requires
        0 <= i < s.len(),
    ensures
        sum_amounts(s.update(i, x)) == sum_amounts(s) - s[i].1 + x.1,
    decreases s.len(),
{
    let s2 = s.update(i, x);
    if i == s.len() - 1 {
        assert(s2.last() == x);
        assert(s.last() == s[i]);
        assert(s2.drop_last() =~= s.drop_last());
    } else {
        assert(s2.last() == s.last());
        assert(s2.drop_last() =~= s.drop_last().update(i, x));
        assert(s.drop_last()[i] == s[i]);
        lemma_sum_update(s.drop_last(), i, x);
    }
}

/// Appending a stake record adds its amount to the total.
pub proof fn lemma_sum_push(s: Seq<(u64, i128)>, x: (u64, i128))
    ensures
        sum_amounts(s.push(x)) == sum_amounts(s) + x.1,
{
    assert(s.push(x).drop_last() =~= s);
}

/// A total over non-negative amounts is itself non-negative.
pub proof fn lemma_sum_nonneg(s: Seq<(u64, i128)>)
    requires
        forall|j: int| 0 <= j < s.len() ==> s[j].1 >= 0,
    ensures
        sum_amounts(s) >= 0,
    decreases s.len(),
{
    if s.len() > 0 {
        assert(forall|j: int| 0 <= j < s.drop_last().len() ==> s.drop_last()[j] == s[j]);
        lemma_sum_nonneg(s.drop_last());
        assert(s.last() == s[s.len() - 1]);
    }
}

/// When every recorded amount is non-negative, no single record exceeds the
/// total.
pub proof fn lemma_entry_le_sum(s: Seq<(u64, i128)>, i: int)
    requires
        0 <= i < s.len(),
        forall|j: int| 0 <= j < s.len() ==> s[j].1 >= 0,
    ensures
        s[i].1 <= sum_amounts(s),
    decreases s.len(),
{
    assert(s.last() == s[s.len() - 1]);
    assert(forall|j: int| 0 <= j < s.drop_last().len() ==> s.drop_last()[j] == s[j]);
    if i == s.len() - 1 {
        lemma_sum_nonneg(s.drop_last());
    } else {
        lemma_entry_le_sum(s.drop_last(), i);
    }
}

/// Ballots recorded for proposal `id`: the number of `(voter, proposal)`
/// pairs in the has-voted ledger whose proposal is `id`.
pub open spec fn count_votes(s: Seq<(u64, u32)>, id: u32) -> int
    decreases s.len(),
{
    if s.len() == 0 {
        0
    } else {
        count_votes(s.drop_last(), id) + if s.last().1 == id {
            1int
        } else {
            0int
        }
    }
}

/// Recording one ballot raises the count of its proposal by one and leaves
/// every other proposal's count unchanged.
pub proof fn lemma_count_push(s: Seq<(u64, u32)>, x: (u64, u32))
    ensures
        forall|id: u32| count_votes(s.push(x), id) == count_votes(s, id) + if x.1 == id {
            1int
        } else {
            0int
        },
{
    assert(s.push(x).drop_last() =~= s);
    assert(s.push(x).last() == x);
}


} // verus!
