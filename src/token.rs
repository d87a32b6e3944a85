//! The token ledger: a fixed total supply spread over account balances.
use crate::account::AccountId;
use crate::ledger::{
    balance_in, keys_unique, lemma_absent, lemma_balance_le_total, lemma_entry, lemma_push,
    lemma_update, total_in,
};
use vstd::prelude::*;

verus! {

/// A quantity of indivisible token units.
pub type Balance = u128;

/// Why a transfer was refused.
#[derive(Clone, Copy, Debug, PartialEq, Eq, Structural)]
pub enum Error {
    /// The sender holds fewer units than the amount asked for.
    InsufficientBalance,
}

/// A ledger of balances whose sum is the total supply fixed at construction.
pub struct SimpleToken {
    balances: Vec<(AccountId, Balance)>,
    total_supply: Balance,
}

impl SimpleToken {
    /// The balance table, one entry per account that has ever been credited.
    pub closed spec fn entries(&self) -> Seq<(AccountId, Balance)> {
        self.balances@
    }

    /// The total supply fixed at construction.
    pub closed spec fn supply(&self) -> nat {
        self.total_supply as nat
    }

    /// What `a` holds; zero for an account that was never credited.
    pub open spec fn balance(&self, a: AccountId) -> nat {
        balance_in(self.entries(), a)
    }

    /// Every unit of the supply is held by some account: the balances add
    /// up to the total supply.
    pub open spec fn conserved(&self) -> bool {
        total_in(self.entries()) == self.supply()
    }

    /// The ledger invariant: each account has at most one entry, and the
    /// supply is conserved.
    pub closed spec fn wf(&self) -> bool {
        keys_unique(self.balances@) && total_in(self.balances@) == self.total_supply
    }

    /// Creates a ledger that credits the whole `total_supply` to `caller`.
    pub fn new(total_supply: Balance, caller: AccountId) -> (r: Self)
        ensures
            r.wf(),
            r.conserved(),
            r.supply() == total_supply,
            r.balance(caller) == total_supply,
            forall|a: AccountId| a != caller ==> #[trigger] r.balance(a) == 0,
    {
        let mut balances: Vec<(AccountId, Balance)> = Vec::new();
        balances.push((caller, total_supply));
        proof {
            lemma_push(Seq::empty(), (caller, total_supply));
            assert(balances@ =~= Seq::<(AccountId, Balance)>::empty().push((caller, total_supply)));
        }
        SimpleToken { balances, total_supply }
    }

    /// The total supply.
    pub fn total_supply(&self) -> (r: Balance)
        ensures
            r == self.supply(),
    {
        self.total_supply
    }

    /// Position of the entry of `a`, if it has one.
    fn find(&self, a: AccountId) -> (r: Option<usize>)
        ensures
            match r {
                Some(i) => i < self.balances@.len() && self.balances@[i as int].0 == a,
                None => forall|i: int|
                    0 <= i < self.balances@.len() ==> #[trigger] self.balances@[i].0 != a,
            },
    {
        let mut i: usize = 0;
        while i < self.balances.len()
            invariant
                i <= self.balances@.len(),
                forall|j: int| 0 <= j < i ==> #[trigger] self.balances@[j].0 != a,
            decreases self.balances@.len() - i,
        {
            if self.balances[i].0 == a {
                return Some(i);
            }
            i = i + 1;
        }
        None
    }

    /// What `a` holds, read from a table with unique keys.
    fn stored(&self, a: AccountId) -> (r: Balance)
        requires
            keys_unique(self.balances@),
        ensures
            r == balance_in(self.balances@, a),
    {
        match self.find(a) {
            Some(i) => {
                proof {
                    lemma_entry(self.balances@, i as int);
                }
                self.balances[i].1
            },
            None => {
                proof {
                    lemma_absent(self.balances@, a);
                }
                0
            },
        }
    }

    /// Sets what `a` holds to `v`, leaving every other account as it was.
    fn set_balance(&mut self, a: AccountId, v: Balance)
        requires
            keys_unique(old(self).balances@),
        ensures
            keys_unique(final(self).balances@),
            final(self).total_supply == old(self).total_supply,
            forall|b: AccountId| #[trigger]
                balance_in(final(self).balances@, b) == if b == a {
                    v as nat
                } else {
                    balance_in(old(self).balances@, b)
                },
            total_in(final(self).balances@) == total_in(old(self).balances@) - balance_in(
                old(self).balances@,
                a,
            ) + v,
    {
        match self.find(a) {
            Some(i) => {
                proof {
                    lemma_entry(self.balances@, i as int);
                    lemma_update(self.balances@, i as int, v);
                }
                self.balances.set(i, (a, v));
            },
            None => {
                proof {
                    lemma_absent(self.balances@, a);
                    lemma_push(self.balances@, (a, v));
                }
                self.balances.push((a, v));
            },
        }
    }

    /// What `account` holds; zero for an account that was never credited.
    pub fn balance_of(&self, account: AccountId) -> (r: Balance)
        requires
            self.wf(),
        ensures
            r == self.balance(account),
    {
        self.stored(account)
    }

    /// Moves `value` units from `from` to `to`.
    ///
    /// Fails, changing nothing, when `from` holds less than `value`. A
    /// transfer from an account to itself leaves its balance as it was.
    pub fn transfer(&mut self, from: AccountId, to: AccountId, value: Balance) -> (r: Result<
        (),
        Error,
    >)
        requires
            old(self).wf(),
        ensures
            final(self).wf(),
            final(self).conserved(),
            final(self).supply() == old(self).supply(),
            r is Ok <==> value <= old(self).balance(from),
            r is Err ==> r == Err::<(), Error>(Error::InsufficientBalance),
            r is Err ==> final(self).entries() == old(self).entries(),
            r is Err ==> forall|a: AccountId| #[trigger]
                final(self).balance(a) == old(self).balance(a),
            r is Ok ==> forall|a: AccountId| #[trigger]
                final(self).balance(a) == old(self).balance(a) - (if a == from {
                    value as int
                } else {
                    0
                }) + (if a == to {
                    value as int
                } else {
                    0
                }),
            r is Ok && from != to ==> final(self).balance(from) == old(self).balance(from) - value
                && final(self).balance(to) == old(self).balance(to) + value,
            from == to && value <= old(self).balance(from) ==> r is Ok && final(self).balance(from)
                == old(self).balance(from),
    {
        let from_balance = self.stored(from);
        if from_balance < value {
            return Err(Error::InsufficientBalance);
        }
        self.set_balance(from, from_balance - value);
        // Read after the debit, so that a transfer to oneself gives back
        // exactly what it took.
        let to_balance = self.stored(to);
        proof {
            lemma_balance_le_total(self.balances@, to);
        }
        self.set_balance(to, to_balance + value);
        Ok(())
    }
}

impl Default for SimpleToken {
    /// An empty ledger: no supply, and nothing held by anyone.
    fn default() -> (r: Self)
        ensures
            r.wf(),
            r.supply() == 0,
            forall|a: AccountId| #[trigger] r.balance(a) == 0,
    {
        SimpleToken { balances: Vec::new(), total_supply: 0 }
    }
}

/// Conservation: in every state that construction and transfers lead to,
/// the balances of all accounts add up to the total supply.
pub proof fn lemma_conservation(t: &SimpleToken)
    requires
        t.wf(),
    ensures
        t.conserved(),
{
}

/// No account ever holds a negative amount, nor more than the total supply.
pub proof fn lemma_balance_within_supply(t: &SimpleToken, a: AccountId)
    requires
        t.wf(),
    ensures
        0 <= t.balance(a) <= t.supply(),
{
    lemma_balance_le_total(t.entries(), a);
}

} // verus!
