//! Stake ledger: per-principal staked balances and the global total.
//!
//! The token transfer itself belongs to the host's transfer gateway and is
//! performed, all-or-nothing, before the matching ledger mutation here is
//! committed; a failed transfer therefore leaves this ledger untouched.

use vstd::prelude::*;

use crate::contract::TokenSale;
use crate::storage_types::GovernanceError;
use crate::store::{
    alist_lookup, alist_unique, lemma_entry_le_sum, lemma_lookup_absent, lemma_lookup_at_index,
    lemma_lookup_push, lemma_lookup_update, lemma_sum_nonneg, lemma_sum_push, lemma_sum_update,
    sum_amounts,
};

verus! {

impl TokenSale {
    /// Index of the stake record of `staker`, if one exists.
    fn find_stake(&self, staker: u64) -> (r: Option<usize>)
        ensures
            match r {
                Some(i) => i < self.stakes@.len() && self.stakes@[i as int].0 == staker,
                None => forall|j: int| 0 <= j < self.stakes@.len() ==> self.stakes@[j].0 != staker,
            },
    {
        let mut i: usize = 0;
        while i < self.stakes.len()
            invariant
                i <= self.stakes@.len(),
                forall|j: int| 0 <= j < i ==> self.stakes@[j].0 != staker,
            decreases self.stakes@.len() - i,
        {
            if self.stakes[i].0 == staker {
                return Some(i);
            }
            i = i + 1;
        }
        None
    }

    /// Writes the stake record of `staker`, leaving every other record, and
    /// everything outside the stake ledger, as it was. The running total is
    /// not touched; the caller moves it by the same difference.
    fn write_user_stake(&mut self, staker: u64, amount: i128)
        requires
            alist_unique(old(self).stakes@),
            forall|i: int| 0 <= i < old(self).stakes@.len() ==> old(self).stakes@[i].1 >= 0,
            amount >= 0,
        ensures
            alist_unique(final(self).stakes@),
            forall|i: int| 0 <= i < final(self).stakes@.len() ==> final(self).stakes@[i].1 >= 0,
            final(self).spec_stake(staker) == amount,
            forall|p: u64| p != staker ==> final(self).spec_stake(p) == old(self).spec_stake(p),
            sum_amounts(final(self).stakes@) == sum_amounts(old(self).stakes@) - old(
                self,
            ).spec_stake(staker) + amount,
            *final(self) == (TokenSale { stakes: final(self).stakes, ..*old(self) }),
    {
        let entry = (staker, amount);
        match self.find_stake(staker) {
            Some(i) => {
                proof {
                    lemma_lookup_at_index(self.stakes@, i as int);
                    lemma_sum_update(self.stakes@, i as int, entry);
                    assert forall|p: u64|
                        alist_lookup(self.stakes@.update(i as int, entry), p) == if p == staker {
                            Some(amount)
                        } else {
                            alist_lookup(self.stakes@, p)
                        } by {
                        lemma_lookup_update(self.stakes@, i as int, entry, p);
                    }
                    lemma_lookup_update(self.stakes@, i as int, entry, staker);
                }
                self.stakes[i] = entry;
                proof {
                    assert forall|j: int|
                        0 <= j < self.stakes@.len() implies self.stakes@[j].1 >= 0 by {
                        if j != i {
                            assert(self.stakes@[j] == old(self).stakes@[j]);
                        }
                    }
                }
            },
            None => {
                proof {
                    lemma_lookup_absent(self.stakes@, staker);
                    lemma_sum_push(self.stakes@, entry);
                    assert forall|p: u64|
                        alist_lookup(self.stakes@.push(entry), p) == if p == staker {
                            Some(amount)
                        } else {
                            alist_lookup(self.stakes@, p)
                        } by {
                        lemma_lookup_push(self.stakes@, entry, p);
                    }
                }
                self.stakes.push(entry);
                proof {
                    assert forall|j: int|
                        0 <= j < self.stakes@.len() implies self.stakes@[j].1 >= 0 by {
                        if j < self.stakes@.len() - 1 {
                            assert(self.stakes@[j] == old(self).stakes@[j]);
                        }
                    }
                }
            },
        }
    }

    /// Credits `amount` to the stake record of `staker` and to the global
    /// total, after the host has debited the same amount from `staker`
    /// through the transfer gateway.
    pub fn stake(&mut self, staker: u64, amount: i128)
        requires
            old(self).wf(),
            amount > 0,
            old(self).total_staked + amount <= i128::MAX,
        ensures
            final(self).wf(),
            final(self).spec_stake(staker) == old(self).spec_stake(staker) + amount,
            forall|p: u64| p != staker ==> final(self).spec_stake(p) == old(self).spec_stake(p),
            final(self).total_staked == old(self).total_staked + amount,
            *final(self) == (TokenSale {
                stakes: final(self).stakes,
                total_staked: final(self).total_staked,
                ..*old(self)
            }),
    {
        proof {
            lemma_stake_bounds(*self, staker);
        }
        let cur_stake_amount = self.get_user_stake(staker);
        let cur_stake_total = self.get_total_staked();
        let new_stake_amount = cur_stake_amount + amount;
        let new_total_staked = cur_stake_total + amount;
        self.write_user_stake(staker, new_stake_amount);
        self.total_staked = new_total_staked;
    }

    /// Debits `amount` from the stake record of `staker` and from the
    /// global total; fails, touching nothing, when the record is too small.
    /// On success the host returns the same amount to `staker` through the
    /// transfer gateway.
    pub fn unstake(&mut self, staker: u64, amount: i128) -> (r: Result<(), GovernanceError>)
        requires
            old(self).wf(),
            amount >= 0,
        ensures
            match r {
                Ok(()) => {
                    &&& amount <= old(self).spec_stake(staker)
                    &&& final(self).spec_stake(staker) == old(self).spec_stake(staker) - amount
                    &&& forall|p: u64|
                        p != staker ==> final(self).spec_stake(p) == old(self).spec_stake(p)
                    &&& final(self).total_staked == old(self).total_staked - amount
                    &&& *final(self) == (TokenSale {
                        stakes: final(self).stakes,
                        total_staked: final(self).total_staked,
                        ..*old(self)
                    })
                },
                Err(e) => {
                    &&& e == GovernanceError::InsufficientStake
                    &&& amount > old(self).spec_stake(staker)
                    &&& *final(self) == *old(self)
                },
            },
            final(self).wf(),
    {
        let cur_stake_amount = self.get_user_stake(staker);
        if amount > cur_stake_amount {
            return Err(GovernanceError::InsufficientStake);
        }
        proof {
            lemma_stake_bounds(*self, staker);
        }
        let cur_stake_total = self.get_total_staked();
        let new_staked_amount = cur_stake_amount - amount;
        let new_total_staked = cur_stake_total - amount;
        self.total_staked = new_total_staked;
        self.write_user_stake(staker, new_staked_amount);
        Ok(())
    }

    /// The staked balance of `staker`; 0 when no record exists.
    pub fn get_user_stake(&self, staker: u64) -> (r: i128)
        requires
            alist_unique(self.stakes@),
        ensures
            r == self.spec_stake(staker),
    {
        match self.find_stake(staker) {
            Some(i) => {
                proof {
                    lemma_lookup_at_index(self.stakes@, i as int);
                }
                self.stakes[i].1
            },
            None => {
                proof {
                    lemma_lookup_absent(self.stakes@, staker);
                }
                0
            },
        }
    }

    /// The global total of all staked balances.
    pub fn get_total_staked(&self) -> (r: i128)
        ensures
            r == self.total_staked,
    {
        self.total_staked
    }
}

/// A staked balance is never negative and never exceeds the global total.
pub proof fn lemma_stake_bounds(s: TokenSale, p: u64)
    requires
        s.wf(),
    ensures
        0 <= s.spec_stake(p),
        s.spec_stake(p) <= s.total_staked,
{
    lemma_sum_nonneg(s.stakes@);
    if alist_lookup(s.stakes@, p) is Some {
        lemma_lookup_some_index(s.stakes@, p);
        let i = choose|i: int|
            0 <= i < s.stakes@.len() && s.stakes@[i].0 == p && Some(s.stakes@[i].1)
                == alist_lookup(s.stakes@, p);
        lemma_entry_le_sum(s.stakes@, i);
    }
}

/// A present key has a witness entry carrying the looked-up amount.
proof fn lemma_lookup_some_index(s: Seq<(u64, i128)>, k: u64)
    requires
        alist_lookup(s, k) is Some,
    ensures
        exists|i: int|
            0 <= i < s.len() && s[i].0 == k && Some(s[i].1) == alist_lookup(s, k),
    decreases s.len(),
{
    if s.len() > 0 {
        if s.last().0 == k {
            assert(s[s.len() - 1] == s.last());
        } else {
            lemma_lookup_some_index(s.drop_last(), k);
            let i = choose|i: int|
                0 <= i < s.drop_last().len() && s.drop_last()[i].0 == k && Some(
                    s.drop_last()[i].1,
                ) == alist_lookup(s.drop_last(), k);
            assert(s[i] == s.drop_last()[i]);
        }
    }
}

} // verus!
