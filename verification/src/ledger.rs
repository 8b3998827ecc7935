use crate::account::AccountId;
use crate::allowances::AllowanceTable;
use crate::balances::BalanceTable;
use crate::balances::lemma_lookup_le_sum;
use vstd::prelude::*;

verus! {

/// The ways a transfer can be refused. Either failure leaves the whole
/// ledger state exactly as it was before the call.
#[derive(Clone, Copy, Debug, PartialEq, Eq)]
pub enum TransferError {
    /// The requested value exceeds the source account's current balance.
    InsufficientBalance,
    /// The requested value exceeds the remaining owner-to-spender allowance.
    InsufficientAllowance,
}

/// An audit record emitted by a mutating operation, in emission order.
/// A `Transfer` with `from == None` records the genesis mint.
#[derive(Clone, Copy, Debug, PartialEq)]
pub enum Event {
    Transfer { from: Option<AccountId>, to: Option<AccountId>, value: u128 },
    Approval { owner: AccountId, spender: AccountId, value: u128 },
}

/// A fungible-token ledger: a total supply fixed at genesis, a balance per
/// account, and a per-(owner, spender) allowance for delegated transfers.
///
/// The hosting system supplies the caller identity for each mutating
/// operation; emitted event records accumulate in `events` in emission order.
pub struct Erc20 {
    pub total_supply: u128,
    pub balances: BalanceTable,
    pub allowances: AllowanceTable,
    pub events: Vec<Event>,
}

impl Erc20 {
    /// The ledger's invariant: both tables keep one entry per key, and the
    /// balances sum exactly to the total supply (conservation).
    pub open spec fn well_formed(&self) -> bool {
        &&& self.balances.wf()
        &&& self.allowances.wf()
        &&& self.balances.total() == self.total_supply as int
    }

    pub open spec fn spec_total_supply(&self) -> u128 {
        self.total_supply
    }

    /// The balance of `a`; an account with no entry holds 0.
    pub open spec fn spec_balance_of(&self, a: AccountId) -> u128 {
        self.balances.spec_get(a)
    }

    /// The allowance `owner` has granted `spender`; an absent pair carries 0.
    pub open spec fn spec_allowance_of(&self, owner: AccountId, spender: AccountId) -> u128 {
        self.allowances.spec_get(owner, spender)
    }

    pub open spec fn spec_events(&self) -> Seq<Event> {
        self.events@
    }

    /// Whether a transfer of `value` out of `from`, requested by `caller`,
    /// is authorized and covered: the owner moves their own funds freely,
    /// anyone else needs a sufficient allowance, and either way the source
    /// balance must cover the value.
    pub open spec fn transfer_allowed(
        &self,
        caller: AccountId,
        from: AccountId,
        value: u128,
    ) -> bool {
        &&& (caller == from || self.spec_allowance_of(from, caller) >= value)
        &&& self.spec_balance_of(from) >= value
    }

    /// The balance of `a` after `value` moves from `from` to `to`: a
    /// self-transfer leaves every balance as it was.
    pub open spec fn balance_after_move(
        &self,
        from: AccountId,
        to: AccountId,
        value: u128,
        a: AccountId,
    ) -> u128 {
        if from == to {
            self.spec_balance_of(a)
        } else if a == from {
            (self.spec_balance_of(from) - value) as u128
        } else if a == to {
            (self.spec_balance_of(to) + value) as u128
        } else {
            self.spec_balance_of(a)
        }
    }

    /// Genesis: mint `init_supply` units into `genesis_holder` and fix the
    /// total supply, once, before any other operation. Emits the mint record.
    pub fn new(genesis_holder: AccountId, init_supply: u128) -> (r: Erc20)
        ensures
            r.well_formed(),
            r.spec_total_supply() == init_supply,
            r.spec_balance_of(genesis_holder) == init_supply,
            forall|a: AccountId| a != genesis_holder ==> r.spec_balance_of(a) == 0,
            forall|o: AccountId, p: AccountId| r.spec_allowance_of(o, p) == 0,
            r.spec_events() == Seq::<Event>::empty().push(
                (Event::Transfer { from: None, to: Some(genesis_holder), value: init_supply }),
            ),
    {
        let mut balances = BalanceTable::new();
        balances.set(genesis_holder, init_supply);
        let allowances = AllowanceTable::new();
        let mut events: Vec<Event> = Vec::new();
        events.push(Event::Transfer { from: None, to: Some(genesis_holder), value: init_supply });
        let r = Erc20 { total_supply: init_supply, balances, allowances, events };
        proof {
            assert(r.spec_events() =~= Seq::<Event>::empty().push(
                (Event::Transfer { from: None, to: Some(genesis_holder), value: init_supply }),
            ));
        }
        r
    }

    /// The supply fixed at genesis.
    pub fn total_supply(&self) -> (r: u128)
        ensures
            r == self.spec_total_supply(),
    {
        self.total_supply
    }

    /// The balance of `owner`: 0 for an account with no entry, never an error.
    pub fn balance_of(&self, owner: AccountId) -> (r: u128)
        ensures
            r == self.spec_balance_of(owner),
    {
        self.balance_of_or_zero(&owner)
    }

    fn balance_of_or_zero(&self, owner: &AccountId) -> (r: u128)
        ensures
            r == self.spec_balance_of(*owner),
    {
        self.balances.get(owner)
    }

    /// The allowance `owner` has granted `spender`: 0 for an absent pair.
    pub fn allowance_of(&self, owner: AccountId, spender: AccountId) -> (r: u128)
        ensures
            r == self.spec_allowance_of(owner, spender),
    {
        self.allowances.get(&owner, &spender)
    }

    /// The allowance `caller` has granted `spender`.
    pub fn approval(&self, caller: AccountId, spender: AccountId) -> (r: u128)
        ensures
            r == self.spec_allowance_of(caller, spender),
    {
        self.allowance_of(caller, spender)
    }

    /// `caller` grants `spender` the right to move up to `value` of their
    /// funds. Overwrites any earlier grant (0 revokes); always succeeds.
    pub fn approve(&mut self, caller: AccountId, spender: AccountId, value: u128) -> (r: bool)
        requires
            old(self).well_formed(),
        ensures
            final(self).well_formed(),
            r == true,
            final(self).spec_allowance_of(caller, spender) == value,
            forall|o: AccountId, p: AccountId|
                !(o == caller && p == spender) ==> final(self).spec_allowance_of(o, p) == old(
                    self,
                ).spec_allowance_of(o, p),
            final(self).balances == old(self).balances,
            forall|a: AccountId| final(self).spec_balance_of(a) == old(self).spec_balance_of(a),
            final(self).spec_total_supply() == old(self).spec_total_supply(),
            final(self).spec_events() == old(self).spec_events().push(
                (Event::Approval { owner: caller, spender, value }),
            ),
    {
        self.approve_internal(caller, spender, value)
    }

    fn approve_internal(&mut self, owner: AccountId, spender: AccountId, value: u128) -> (r: bool)
        requires
            old(self).allowances.wf(),
        ensures
            final(self).allowances.wf(),
            r == true,
            final(self).spec_allowance_of(owner, spender) == value,
            forall|o: AccountId, p: AccountId|
                !(o == owner && p == spender) ==> final(self).spec_allowance_of(o, p) == old(
                    self,
                ).spec_allowance_of(o, p),
            final(self).balances == old(self).balances,
            final(self).total_supply == old(self).total_supply,
            final(self).spec_events() == old(self).spec_events().push(
                (Event::Approval { owner, spender, value }),
            ),
    {
        self.allowances.set(owner, spender, value);
        self.events.push(Event::Approval { owner, spender, value });
        true
    }

    /// The sole primitive that changes balances: move `value` from `from` to
    /// `to`, entirely or not at all. Fails with `InsufficientBalance`, and
    /// changes nothing, exactly when `from`'s balance does not cover `value`.
    /// A self-move is a no-op on balances but still emits its record.
    pub fn move_funds(&mut self, from: AccountId, to: AccountId, value: u128) -> (r: Result<
        (),
        TransferError,
    >)
        requires
            old(self).well_formed(),
        ensures
            final(self).well_formed(),
            final(self).spec_total_supply() == old(self).spec_total_supply(),
            final(self).allowances == old(self).allowances,
            r is Ok <==> old(self).spec_balance_of(from) >= value,
            r is Err ==> r == Err::<(), TransferError>(TransferError::InsufficientBalance)
                && *final(self) == *old(self),
            r is Ok ==> forall|a: AccountId|
                final(self).spec_balance_of(a) == old(self).balance_after_move(from, to, value, a),
            r is Ok ==> final(self).spec_events() == old(self).spec_events().push(
                (Event::Transfer { from: Some(from), to: Some(to), value }),
            ),
    {
        let from_balance = self.balance_of_or_zero(&from);
        if from_balance < value {
            return Err(TransferError::InsufficientBalance);
        }
        self.balances.set(from, from_balance - value);
        let to_balance = self.balances.get(&to);
        proof {
            lemma_lookup_le_sum(self.balances.entries@, to);
        }
        self.balances.set(to, to_balance + value);
        self.events.push(Event::Transfer { from: Some(from), to: Some(to), value });
        Ok(())
    }

    /// `caller` moves `value` from `owner` to `to`. An owner moving their own
    /// funds bypasses allowances entirely; any other caller needs a prior
    /// allowance covering `value`, checked before the balance moves and
    /// decremented by exactly `value` after it succeeds, so a failed move
    /// never consumes allowance. Any failure leaves the state untouched.
    pub fn transfer_from(
        &mut self,
        caller: AccountId,
        owner: AccountId,
        to: AccountId,
        value: u128,
    ) -> (r: Result<(), TransferError>)
        requires
            old(self).well_formed(),
        ensures
            final(self).well_formed(),
            final(self).spec_total_supply() == old(self).spec_total_supply(),
            r is Ok <==> old(self).transfer_allowed(caller, owner, value),
            r == Err::<(), TransferError>(TransferError::InsufficientAllowance) <==> caller
                != owner && old(self).spec_allowance_of(owner, caller) < value,
            r == Err::<(), TransferError>(TransferError::InsufficientBalance) <==> (caller == owner
                || old(self).spec_allowance_of(owner, caller) >= value) && old(
                self,
            ).spec_balance_of(owner) < value,
            r is Err ==> *final(self) == *old(self),
            r is Ok ==> forall|a: AccountId|
                final(self).spec_balance_of(a) == old(self).balance_after_move(owner, to, value, a),
            r is Ok && caller == owner ==> final(self).allowances == old(self).allowances
                && final(self).spec_events() == old(self).spec_events().push(
                (Event::Transfer { from: Some(owner), to: Some(to), value }),
            ),
            r is Ok && caller != owner ==> final(self).spec_allowance_of(owner, caller) == old(
                self,
            ).spec_allowance_of(owner, caller) - value && forall|o: AccountId, p: AccountId|
                !(o == owner && p == caller) ==> final(self).spec_allowance_of(o, p) == old(
                    self,
                ).spec_allowance_of(o, p),
            r is Ok && caller != owner ==> final(self).spec_events() == old(
                self,
            ).spec_events().push(
                (Event::Transfer { from: Some(owner), to: Some(to), value }),
            ).push(
                (Event::Approval {
                    owner,
                    spender: caller,
                    value: (old(self).spec_allowance_of(owner, caller) - value) as u128,
                }),
            ),
    {
        if caller == owner {
            return self.move_funds(owner, to, value);
        }
        let left_allowance = self.allowance_of(owner, caller);
        if left_allowance < value {
            return Err(TransferError::InsufficientAllowance);
        }
        let moved = self.move_funds(owner, to, value);
        if moved.is_err() {
            return moved;
        }
        let ghost mid = *self;
        // Re-read the pair freshly: the funds move must not have consumed it.
        let remaining = self.allowance_of(owner, caller);
        self.approve_internal(owner, caller, remaining - value);
        proof {
            assert forall|a: AccountId|
                self.spec_balance_of(a) == old(self).balance_after_move(
                    owner,
                    to,
                    value,
                    a,
                ) by {
                assert(mid.spec_balance_of(a) == old(self).balance_after_move(owner, to, value, a));
                assert(self.balances == mid.balances);
            }
        }
        Ok(())
    }

    /// `caller` sends `value` of their own funds to `to`. Returns success;
    /// a failed send changes nothing.
    pub fn transfer(&mut self, caller: AccountId, to: AccountId, value: u128) -> (r: bool)
        requires
            old(self).well_formed(),
        ensures
            final(self).well_formed(),
            final(self).spec_total_supply() == old(self).spec_total_supply(),
            r <==> old(self).spec_balance_of(caller) >= value,
            !r ==> *final(self) == *old(self),
            final(self).allowances == old(self).allowances,
            r ==> forall|a: AccountId|
                final(self).spec_balance_of(a) == old(self).balance_after_move(caller, to, value, a),
            r ==> final(self).spec_events() == old(self).spec_events().push(
                (Event::Transfer { from: Some(caller), to: Some(to), value }),
            ),
    {
        self.transfer_from_to(caller, caller, to, value)
    }

    /// `caller` requests a move of `value` from `from` to `to`, under the
    /// allowance rules unless `caller` is `from`. Returns success; a failed
    /// request changes nothing.
    pub fn transfer_from_to(
        &mut self,
        caller: AccountId,
        from: AccountId,
        to: AccountId,
        value: u128,
    ) -> (r: bool)
        requires
            old(self).well_formed(),
        ensures
            final(self).well_formed(),
            final(self).spec_total_supply() == old(self).spec_total_supply(),
            r <==> old(self).transfer_allowed(caller, from, value),
            !r ==> *final(self) == *old(self),
            r ==> forall|a: AccountId|
                final(self).spec_balance_of(a) == old(self).balance_after_move(from, to, value, a),
            r && caller == from ==> final(self).allowances == old(self).allowances
                && final(self).spec_events() == old(self).spec_events().push(
                (Event::Transfer { from: Some(from), to: Some(to), value }),
            ),
            r && caller != from ==> final(self).spec_allowance_of(from, caller) == old(
                self,
            ).spec_allowance_of(from, caller) - value && forall|o: AccountId, p: AccountId|
                !(o == from && p == caller) ==> final(self).spec_allowance_of(o, p) == old(
                    self,
                ).spec_allowance_of(o, p),
            r && caller != from ==> final(self).spec_events() == old(self).spec_events().push(
                (Event::Transfer { from: Some(from), to: Some(to), value }),
            ).push(
                (Event::Approval {
                    owner: from,
                    spender: caller,
                    value: (old(self).spec_allowance_of(from, caller) - value) as u128,
                }),
            ),
    {
        match self.transfer_from(caller, from, to, value) {
            Ok(()) => true,
            Err(_) => false,
        }
    }

    /// The event records emitted so far, oldest first.
    pub fn events(&self) -> (r: &Vec<Event>)
        ensures
            r@ == self.spec_events(),
    {
        &self.events
    }
}

/// Conservation: in every well-formed state — genesis establishes one and
/// every operation ensures the next — the balances sum exactly to the supply
/// fixed at genesis.
pub proof fn lemma_conservation(l: &Erc20)
    requires
        l.well_formed(),
    ensures
        l.balances.total() == l.spec_total_supply() as int,
{
}

/// Non-negativity: every balance in every state is at least 0; balances are
/// unsigned and every subtraction is gated by a covering check.
pub proof fn lemma_balance_non_negative(l: &Erc20, a: AccountId)
    ensures
        l.spec_balance_of(a) >= 0,
{
}

/// No single account can hold more than the total supply: its balance is one
/// non-negative summand of a sum that conservation pins to the supply.
pub proof fn lemma_balance_bounded(l: &Erc20, a: AccountId)
    requires
        l.well_formed(),
    ensures
        l.spec_balance_of(a) <= l.spec_total_supply(),
{
    lemma_lookup_le_sum(l.balances.entries@, a);
}

/// Self-transfer authorization bypass: an owner moving their own funds is
/// authorized by their balance alone, whatever allowance any pair — the
/// (owner, owner) pair included — happens to carry.
pub proof fn lemma_self_transfer_bypasses_allowance(l: &Erc20, x: AccountId, value: u128)
    ensures
        l.transfer_allowed(x, x, value) <==> l.spec_balance_of(x) >= value,
{
}

} // verus!
