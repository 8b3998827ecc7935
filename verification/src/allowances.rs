use crate::account::AccountId;
use vstd::prelude::*;

verus! {

/// The allowance each (owner, spender) entry carries; an absent pair reads 0.
pub open spec fn lookup_pair(s: Seq<(AccountId, AccountId, u128)>, o: AccountId, p: AccountId) -> u128
    decreases s.len(),
{
    if s.len() == 0 {
        0
    } else if s[0].0 == o && s[0].1 == p {
        s[0].2
    } else {
        lookup_pair(s.drop_first(), o, p)
    }
}

/// Whether some entry carries the pair (`o`, `p`).
pub open spec fn has_pair(s: Seq<(AccountId, AccountId, u128)>, o: AccountId, p: AccountId) -> bool {
    exists|i: int| 0 <= i < s.len() && s[i].0 == o && s[i].1 == p
}

/// No two entries share an (owner, spender) pair.
pub open spec fn unique_pairs(s: Seq<(AccountId, AccountId, u128)>) -> bool {
    forall|i: int, j: int|
        0 <= i < j < s.len() ==> !(s[i].0 == s[j].0 && s[i].1 == s[j].1)
}

/// Updating the entry at `i` in place changes only that pair's value.
pub proof fn lemma_pair_update(
    s: Seq<(AccountId, AccountId, u128)>,
    i: int,
    v: u128,
    o: AccountId,
    p: AccountId,
)
    requires
        unique_pairs(s),
        0 <= i < s.len(),
    ensures
        lookup_pair(s.update(i, (s[i].0, s[i].1, v)), o, p) == if o == s[i].0 && p == s[i].1 {
            v
        } else {
            lookup_pair(s, o, p)
        },
    decreases s.len(),
{
    let t = s.update(i, (s[i].0, s[i].1, v));
    if i == 0 {
        if !(o == s[0].0 && p == s[0].1) {
            assert(t.drop_first() =~= s.drop_first());
        }
    } else {
        assert(t[0] == s[0]);
        assert(t.drop_first() =~= s.drop_first().update(i - 1, (s[i].0, s[i].1, v)));
        assert(unique_pairs(s.drop_first())) by {
            assert(forall|q: int|
                0 <= q < s.drop_first().len() ==> s.drop_first()[q] == s[q + 1]);
        }
        assert(s.drop_first()[i - 1] == s[i]);
        lemma_pair_update(s.drop_first(), i - 1, v, o, p);
        if o == s[i].0 && p == s[i].1 {
            assert(!(s[0].0 == s[i].0 && s[0].1 == s[i].1));
        }
    }
}

/// Appending a fresh pair gives it the appended value and changes no other pair.
pub proof fn lemma_pair_push(
    s: Seq<(AccountId, AccountId, u128)>,
    a: AccountId,
    b: AccountId,
    v: u128,
    o: AccountId,
    p: AccountId,
)
    requires
        !has_pair(s, a, b),
    ensures
        lookup_pair(s.push((a, b, v)), o, p) == if o == a && p == b {
            v
        } else {
            lookup_pair(s, o, p)
        },
    decreases s.len(),
{
    let t = s.push((a, b, v));
    if s.len() == 0 {
        assert(t[0] == (a, b, v));
        assert(t.drop_first() =~= Seq::<(AccountId, AccountId, u128)>::empty());
        if !(o == a && p == b) {
            assert(lookup_pair(t, o, p) == lookup_pair(t.drop_first(), o, p));
        }
    } else {
        assert(!(s[0].0 == a && s[0].1 == b));
        assert(t[0] == s[0]);
        assert(t.drop_first() =~= s.drop_first().push((a, b, v)));
        assert(!has_pair(s.drop_first(), a, b)) by {
            assert(forall|i: int|
                0 <= i < s.drop_first().len() ==> s.drop_first()[i] == s[i + 1]);
        }
        lemma_pair_push(s.drop_first(), a, b, v, o, p);
    }
}

/// The authorization side of the ledger: a list of (owner, spender, allowance)
/// entries with pairwise-distinct (owner, spender) pairs, standing for the
/// partial mapping in which an absent pair carries allowance 0.
pub struct AllowanceTable {
    pub entries: Vec<(AccountId, AccountId, u128)>,
}

impl AllowanceTable {
    /// No (owner, spender) pair appears in two entries.
    pub open spec fn wf(&self) -> bool {
        unique_pairs(self.entries@)
    }

    /// The allowance `owner` has granted `spender`: 0 if the pair has no entry.
    pub open spec fn spec_get(&self, owner: AccountId, spender: AccountId) -> u128 {
        lookup_pair(self.entries@, owner, spender)
    }

    /// The empty table: every pair carries 0.
    pub fn new() -> (r: AllowanceTable)
        ensures
            r.wf(),
            forall|o: AccountId, p: AccountId| r.spec_get(o, p) == 0,
    {
        AllowanceTable { entries: Vec::new() }
    }

    /// Read the allowance `owner` has granted `spender`.
    pub fn get(&self, owner: &AccountId, spender: &AccountId) -> (r: u128)
        ensures
            r == self.spec_get(*owner, *spender),
    {
        let n = self.entries.len();
        let mut i: usize = 0;
        proof {
            assert(self.entries@.skip(0) =~= self.entries@);
        }
        while i < n
            invariant
                n == self.entries@.len(),
                i <= n,
                lookup_pair(self.entries@.skip(i as int), *owner, *spender) == lookup_pair(
                    self.entries@,
                    *owner,
                    *spender,
                ),
            decreases n - i,
        {
            let (o, p, v) = self.entries[i];
            proof {
                assert(self.entries@.skip(i as int)[0] == self.entries@[i as int]);
            }
            if o == *owner && p == *spender {
                return v;
            }
            proof {
                assert(self.entries@.skip(i as int).drop_first() =~= self.entries@.skip(
                    i as int + 1,
                ));
            }
            i += 1;
        }
        proof {
            assert(self.entries@.skip(n as int) =~= Seq::<(AccountId, AccountId, u128)>::empty());
        }
        0
    }

    /// Set the allowance of (`owner`, `spender`) to `v`, updating its entry in
    /// place or appending one if the pair had none.
    pub fn set(&mut self, owner: AccountId, spender: AccountId, v: u128)
        requires
            old(self).wf(),
        ensures
            final(self).wf(),
            final(self).spec_get(owner, spender) == v,
            forall|o: AccountId, p: AccountId|
                !(o == owner && p == spender) ==> final(self).spec_get(o, p) == old(self).spec_get(
                    o,
                    p,
                ),
    {
        let n = self.entries.len();
        let mut i: usize = 0;
        while i < n
            invariant
                self.entries@ == old(self).entries@,
                unique_pairs(self.entries@),
                n == self.entries@.len(),
                i <= n,
                forall|j: int|
                    0 <= j < i ==> !(self.entries@[j].0 == owner && self.entries@[j].1 == spender),
            decreases n - i,
        {
            let (o, p, _) = self.entries[i];
            if o == owner && p == spender {
                proof {
                    let s = self.entries@;
                    let t = s.update(i as int, (owner, spender, v));
                    assert(t =~= s.update(i as int, (s[i as int].0, s[i as int].1, v)));
                    assert forall|ob: AccountId, pb: AccountId|
                        lookup_pair(t, ob, pb) == if ob == owner && pb == spender {
                            v
                        } else {
                            lookup_pair(s, ob, pb)
                        } by {
                        lemma_pair_update(s, i as int, v, ob, pb);
                    }
                    assert(unique_pairs(t)) by {
                        assert(forall|q: int|
                            0 <= q < t.len() ==> t[q].0 == s[q].0 && t[q].1 == s[q].1);
                    }
                }
                self.entries[i] = (owner, spender, v);
                return;
            }
            i += 1;
        }
        proof {
            let s = self.entries@;
            let t = s.push((owner, spender, v));
            assert(!has_pair(s, owner, spender));
            assert forall|ob: AccountId, pb: AccountId|
                lookup_pair(t, ob, pb) == if ob == owner && pb == spender {
                    v
                } else {
                    lookup_pair(s, ob, pb)
                } by {
                lemma_pair_push(s, owner, spender, v, ob, pb);
            }
            assert(unique_pairs(t)) by {
                assert(t[s.len() as int] == (owner, spender, v));
                assert(forall|q: int| 0 <= q < s.len() ==> t[q] == s[q]);
                assert forall|q: int, r: int|
                    0 <= q < r < t.len() implies !(t[q].0 == t[r].0 && t[q].1 == t[r].1) by {
                    if r == s.len() as int {
                        assert(!(t[q].0 == owner && t[q].1 == spender));
                    }
                }
            }
        }
        self.entries.push((owner, spender, v));
    }
}

} // verus!
