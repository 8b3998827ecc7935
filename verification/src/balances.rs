use crate::account::AccountId;
use vstd::prelude::*;

verus! {

/// The balance each entry key maps to; an account without an entry holds 0.
pub open spec fn lookup(s: Seq<(AccountId, u128)>, a: AccountId) -> u128
    decreases s.len(),
{
    if s.len() == 0 {
        0
    } else if s[0].0 == a {
        s[0].1
    } else {
        lookup(s.drop_first(), a)
    }
}

/// Whether some entry carries the key `a`.
pub open spec fn has_key(s: Seq<(AccountId, u128)>, a: AccountId) -> bool {
    exists|i: int| 0 <= i < s.len() && s[i].0 == a
}

/// No two entries share a key.
pub open spec fn unique_keys(s: Seq<(AccountId, u128)>) -> bool {
    forall|i: int, j: int| 0 <= i < j < s.len() ==> s[i].0 != s[j].0
}

/// The sum of all entry values, as an unbounded integer.
pub open spec fn sum(s: Seq<(AccountId, u128)>) -> int
    decreases s.len(),
{
    if s.len() == 0 {
        0
    } else {
        s[0].1 + sum(s.drop_first())
    }
}

pub proof fn lemma_sum_nonneg(s: Seq<(AccountId, u128)>)
    ensures
        sum(s) >= 0,
    decreases s.len(),
{
    if s.len() > 0 {
        lemma_sum_nonneg(s.drop_first());
    }
}

/// A key that no entry carries looks up to 0.
pub proof fn lemma_lookup_absent(s: Seq<(AccountId, u128)>, a: AccountId)
    requires
        !has_key(s, a),
    ensures
        lookup(s, a) == 0,
    decreases s.len(),
{
    if s.len() > 0 {
        assert(s[0].0 != a);
        assert(forall|i: int|
            0 <= i < s.drop_first().len() ==> s.drop_first()[i] == s[i + 1]);
        lemma_lookup_absent(s.drop_first(), a);
    }
}

/// With unique keys, the entry at an index is what its key looks up to.
pub proof fn lemma_lookup_at_index(s: Seq<(AccountId, u128)>, i: int)
    requires
        unique_keys(s),
        0 <= i < s.len(),
    ensures
        lookup(s, s[i].0) == s[i].1,
    decreases s.len(),
{
    if i > 0 {
        assert(s[0].0 != s[i].0);
        assert(s.drop_first()[i - 1] == s[i]);
        assert(unique_keys(s.drop_first())) by {
            assert(forall|p: int, q: int|
                0 <= p < q < s.drop_first().len() ==> s.drop_first()[p] == s[p + 1]
                    && s.drop_first()[q] == s[q + 1]);
        }
        lemma_lookup_at_index(s.drop_first(), i - 1);
    }
}

/// Every value is at most the sum of all values.
pub proof fn lemma_lookup_le_sum(s: Seq<(AccountId, u128)>, a: AccountId)
    ensures
        lookup(s, a) <= sum(s),
    decreases s.len(),
{
    if s.len() > 0 {
        lemma_sum_nonneg(s.drop_first());
        lemma_lookup_le_sum(s.drop_first(), a);
    }
}

/// Updating the entry at `i` in place changes only that key's value.
pub proof fn lemma_lookup_update(s: Seq<(AccountId, u128)>, i: int, v: u128, b: AccountId)
    requires
        unique_keys(s),
        0 <= i < s.len(),
    ensures
        lookup(s.update(i, (s[i].0, v)), b) == if b == s[i].0 {
            v
        } else {
            lookup(s, b)
        },
    decreases s.len(),
{
    let t = s.update(i, (s[i].0, v));
    if i == 0 {
        if b != s[0].0 {
            assert(t.drop_first() =~= s.drop_first());
        }
    } else {
        assert(t[0] == s[0]);
        assert(t.drop_first() =~= s.drop_first().update(i - 1, (s[i].0, v)));
        assert(unique_keys(s.drop_first())) by {
            assert(forall|p: int, q: int|
                0 <= p < q < s.drop_first().len() ==> s.drop_first()[p] == s[p + 1]
                    && s.drop_first()[q] == s[q + 1]);
        }
        assert(s.drop_first()[i - 1] == s[i]);
        lemma_lookup_update(s.drop_first(), i - 1, v, b);
        if b == s[i].0 {
            assert(s[0].0 != s[i].0);
        }
    }
}

/// Updating the entry at `i` in place moves the sum by the value's change.
pub proof fn lemma_sum_update(s: Seq<(AccountId, u128)>, i: int, v: u128)
    requires
        0 <= i < s.len(),
    ensures
        sum(s.update(i, (s[i].0, v))) == sum(s) - s[i].1 + v,
    decreases s.len(),
{
    let t = s.update(i, (s[i].0, v));
    if i == 0 {
        assert(t.drop_first() =~= s.drop_first());
    } else {
        assert(t[0] == s[0]);
        assert(t.drop_first() =~= s.drop_first().update(i - 1, (s[i].0, v)));
        assert(s.drop_first()[i - 1] == s[i]);
        lemma_sum_update(s.drop_first(), i - 1, v);
    }
}

/// Appending a fresh key gives it the appended value and changes no other key.
pub proof fn lemma_lookup_push(s: Seq<(AccountId, u128)>, a: AccountId, v: u128, b: AccountId)
    requires
        !has_key(s, a),
    ensures
        lookup(s.push((a, v)), b) == if b == a {
            v
        } else {
            lookup(s, b)
        },
    decreases s.len(),
{
    let t = s.push((a, v));
    if s.len() == 0 {
        assert(t[0] == (a, v));
        assert(t.drop_first() =~= Seq::<(AccountId, u128)>::empty());
        if b != a {
            assert(lookup(t, b) == lookup(t.drop_first(), b));
        }
    } else {
        assert(s[0].0 != a);
        assert(t[0] == s[0]);
        assert(t.drop_first() =~= s.drop_first().push((a, v)));
        assert(!has_key(s.drop_first(), a)) by {
            assert(forall|i: int|
                0 <= i < s.drop_first().len() ==> s.drop_first()[i] == s[i + 1]);
        }
        lemma_lookup_push(s.drop_first(), a, v, b);
    }
}

/// Appending an entry adds its value to the sum.
pub proof fn lemma_sum_push(s: Seq<(AccountId, u128)>, a: AccountId, v: u128)
    ensures
        sum(s.push((a, v))) == sum(s) + v,
    decreases s.len(),
{
    let t = s.push((a, v));
    if s.len() == 0 {
        assert(t[0] == (a, v));
        assert(t.drop_first() =~= Seq::<(AccountId, u128)>::empty());
        assert(sum(t) == v + sum(t.drop_first()));
    } else {
        assert(t[0] == s[0]);
        assert(t.drop_first() =~= s.drop_first().push((a, v)));
        lemma_sum_push(s.drop_first(), a, v);
    }
}

/// The per-account side of the ledger: a list of (account, balance) entries
/// with pairwise-distinct accounts, standing for the partial mapping from
/// account to balance in which an absent account holds 0.
pub struct BalanceTable {
    pub entries: Vec<(AccountId, u128)>,
}

impl BalanceTable {
    /// No account appears in two entries.
    pub open spec fn wf(&self) -> bool {
        unique_keys(self.entries@)
    }

    /// The balance of `a`: 0 if `a` has no entry.
    pub open spec fn spec_get(&self, a: AccountId) -> u128 {
        lookup(self.entries@, a)
    }

    /// The sum of all balances held in the table.
    pub open spec fn total(&self) -> int {
        sum(self.entries@)
    }

    /// The empty table: every account holds 0.
    pub fn new() -> (r: BalanceTable)
        ensures
            r.wf(),
            r.total() == 0,
            forall|a: AccountId| r.spec_get(a) == 0,
    {
        let r = BalanceTable { entries: Vec::new() };
        proof {
            assert(forall|a: AccountId| lookup(r.entries@, a) == 0);
        }
        r
    }

    /// Read the balance of `a`.
    pub fn get(&self, a: &AccountId) -> (r: u128)
        ensures
            r == self.spec_get(*a),
    {
        let n = self.entries.len();
        let mut i: usize = 0;
        proof {
            assert(self.entries@.skip(0) =~= self.entries@);
        }
        while i < n
            invariant
                n == self.entries@.len(),
                i <= n,
                lookup(self.entries@.skip(i as int), *a) == lookup(self.entries@, *a),
            decreases n - i,
        {
            let (k, v) = self.entries[i];
            proof {
                assert(self.entries@.skip(i as int)[0] == self.entries@[i as int]);
            }
            if k == *a {
                return v;
            }
            proof {
                assert(self.entries@.skip(i as int).drop_first() =~= self.entries@.skip(
                    i as int + 1,
                ));
            }
            i += 1;
        }
        proof {
            assert(self.entries@.skip(n as int) =~= Seq::<(AccountId, u128)>::empty());
        }
        0
    }

    /// Set the balance of `a` to `v`, updating its entry in place or
    /// appending one if `a` had none.
    pub fn set(&mut self, a: AccountId, v: u128)
        requires
            old(self).wf(),
        ensures
            final(self).wf(),
            final(self).spec_get(a) == v,
            forall|b: AccountId| b != a ==> final(self).spec_get(b) == old(self).spec_get(b),
            final(self).total() == old(self).total() - old(self).spec_get(a) + v,
    {
        let n = self.entries.len();
        let mut i: usize = 0;
        while i < n
            invariant
                self.entries@ == old(self).entries@,
                unique_keys(self.entries@),
                n == self.entries@.len(),
                i <= n,
                forall|j: int| 0 <= j < i ==> self.entries@[j].0 != a,
            decreases n - i,
        {
            let (k, _) = self.entries[i];
            if k == a {
                proof {
                    let s = self.entries@;
                    let t = s.update(i as int, (a, v));
                    assert(t =~= s.update(i as int, (s[i as int].0, v)));
                    lemma_lookup_at_index(s, i as int);
                    lemma_sum_update(s, i as int, v);
                    assert forall|b: AccountId|
                        lookup(t, b) == if b == a {
                            v
                        } else {
                            lookup(s, b)
                        } by {
                        lemma_lookup_update(s, i as int, v, b);
                    }
                    assert(unique_keys(t)) by {
                        assert(forall|p: int| 0 <= p < t.len() ==> t[p].0 == s[p].0);
                    }
                }
                self.entries[i] = (a, v);
                return;
            }
            i += 1;
        }
        proof {
            let s = self.entries@;
            let t = s.push((a, v));
            assert(!has_key(s, a));
            lemma_lookup_absent(s, a);
            assert forall|b: AccountId|
                lookup(t, b) == if b == a {
                    v
                } else {
                    lookup(s, b)
                } by {
                lemma_lookup_push(s, a, v, b);
            }
            lemma_sum_push(s, a, v);
            assert(unique_keys(t)) by {
                assert(t[s.len() as int] == (a, v));
                assert(forall|p: int| 0 <= p < s.len() ==> t[p] == s[p]);
                assert forall|p: int, q: int| 0 <= p < q < t.len() implies t[p].0 != t[q].0 by {
                    if q == s.len() as int {
                        assert(t[p].0 != a);
                    }
                }
            }
        }
        self.entries.push((a, v));
    }
}

} // verus!
