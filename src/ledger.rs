//! The mathematical model of a balance table: a sequence of
//! (account, amount) entries, and what it says about each account.
use crate::account::AccountId;
use vstd::prelude::*;

verus! {

/// What `a` holds according to the entries `s`: the amounts recorded
/// under `a`, added up (zero when `a` has no entry).
pub open spec fn balance_in(s: Seq<(AccountId, u128)>, a: AccountId) -> nat
    decreases s.len(),
{
    if s.len() == 0 {
        0
    } else {
        balance_in(s.drop_last(), a) + if s.last().0 == a {
            s.last().1 as nat
        } else {
            0
        }
    }
}

/// All units recorded in the entries `s`, whoever holds them.
pub open spec fn total_in(s: Seq<(AccountId, u128)>) -> nat
    decreases s.len(),
{
    if s.len() == 0 {
        0
    } else {
        total_in(s.drop_last()) + s.last().1 as nat
    }
}

/// No account has two entries.
pub open spec fn keys_unique(s: Seq<(AccountId, u128)>) -> bool {
    forall|i: int, j: int| 0 <= i < j < s.len() ==> s[i].0 != s[j].0
}

/// An account without an entry holds nothing.
pub proof fn lemma_absent(s: Seq<(AccountId, u128)>, a: AccountId)
    requires
        forall|i: int| 0 <= i < s.len() ==> s[i].0 != a,
    ensures
        balance_in(s, a) == 0,
    decreases s.len(),
{
    if s.len() > 0 {
        lemma_absent(s.drop_last(), a);
    }
}

/// With unique keys, an account's balance is the amount of its entry.
pub proof fn lemma_entry(s: Seq<(AccountId, u128)>, i: int)
    requires
        keys_unique(s),
        0 <= i < s.len(),
    ensures
        balance_in(s, s[i].0) == s[i].1 as nat,
    decreases s.len(),
{
    let d = s.drop_last();
    if i == s.len() - 1 {
        lemma_absent(d, s[i].0);
    } else {
        lemma_entry(d, i);
    }
}

/// Rewriting the amount of entry `i` changes the balance of its account,
/// and the total, by the difference, and nothing else.
pub proof fn lemma_update(s: Seq<(AccountId, u128)>, i: int, v: u128)
    requires
        0 <= i < s.len(),
    ensures
        forall|b: AccountId|
            #[trigger] balance_in(s.update(i, (s[i].0, v)), b) == if b == s[i].0 {
                balance_in(s, b) - s[i].1 as nat + v as nat
            } else {
                balance_in(s, b) as int
            },
        total_in(s.update(i, (s[i].0, v))) == total_in(s) - s[i].1 as nat + v as nat,
        balance_in(s, s[i].0) >= s[i].1 as nat,
        keys_unique(s) ==> keys_unique(s.update(i, (s[i].0, v))),
    decreases s.len(),
{
    let t = s.update(i, (s[i].0, v));
    let d = s.drop_last();
    if i == s.len() - 1 {
        assert(t.drop_last() =~= d);
    } else {
        lemma_update(d, i, v);
        assert(t.drop_last() =~= d.update(i, (d[i].0, v)));
    }
    assert forall|b: AccountId|
        #[trigger] balance_in(t, b) == if b == s[i].0 {
            balance_in(s, b) - s[i].1 as nat + v as nat
        } else {
            balance_in(s, b) as int
        } by {
        if i < s.len() - 1 {
            assert(balance_in(d.update(i, (d[i].0, v)), b) == balance_in(t.drop_last(), b));
        }
    }
}

/// Appending an entry adds its amount to its account and to the total.
pub proof fn lemma_push(s: Seq<(AccountId, u128)>, e: (AccountId, u128))
    ensures
        forall|b: AccountId|
            #[trigger] balance_in(s.push(e), b) == balance_in(s, b) + if b == e.0 {
                e.1 as nat
            } else {
                0
            },
        total_in(s.push(e)) == total_in(s) + e.1 as nat,
{
    assert(s.push(e).drop_last() =~= s);
}

/// No single account holds more than the entries hold in total.
pub proof fn lemma_balance_le_total(s: Seq<(AccountId, u128)>, a: AccountId)
    ensures
        balance_in(s, a) <= total_in(s),
    decreases s.len(),
{
    if s.len() > 0 {
        lemma_balance_le_total(s.drop_last(), a);
    }
}

} // verus!
