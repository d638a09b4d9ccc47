//! A client's account: available, held and total funds, and the lock.

use crate::amount::{
    fits, lemma_canonical_unique, lemma_units_by_scale, Amount, LEDGER_SCALE,
};
use vstd::prelude::*;

verus! {

pub type ClientId = u16;

/// An account as the rules see it. The three balances are counted in
/// ten-thousandths.
pub struct AccountView {
    pub client: ClientId,
    pub available: int,
    pub held: int,
    pub total: int,
    pub locked: bool,
}

impl AccountView {
    /// A client's account before anything has happened to it.
    pub open spec fn opened(client: ClientId) -> AccountView {
        AccountView { client, available: 0, held: 0, total: 0, locked: false }
    }

    /// The accounting invariant: the total is what is available and what is
    /// held.
    pub open spec fn balanced(self) -> bool {
        self.total == self.available + self.held
    }

    /// Every balance is one the ledger can hold.
    pub open spec fn in_range(self) -> bool {
        fits(self.available) && fits(self.held) && fits(self.total)
    }

    /// Credits `amount`.
    pub open spec fn deposit(self, amount: int) -> AccountView {
        AccountView { available: self.available + amount, total: self.total + amount, ..self }
    }

    /// Debits `amount`.
    pub open spec fn withdraw(self, amount: int) -> AccountView {
        AccountView { available: self.available - amount, total: self.total - amount, ..self }
    }

    /// Moves `amount` from available to held. What is available may go below
    /// zero.
    pub open spec fn hold(self, amount: int) -> AccountView {
        AccountView { available: self.available - amount, held: self.held + amount, ..self }
    }

    /// Moves `amount` from held back to available.
    pub open spec fn release(self, amount: int) -> AccountView {
        AccountView { held: self.held - amount, available: self.available + amount, ..self }
    }

    /// Takes `amount` out of what is held, and locks the account.
    pub open spec fn chargeback(self, amount: int) -> AccountView {
        AccountView { held: self.held - amount, total: self.total - amount, locked: true, ..self }
    }
}

/// A client's account.
#[derive(Clone, Copy, Debug, PartialEq, Eq)]
pub struct Account {
    client_id: ClientId,
    available: Amount,
    held: Amount,
    total: Amount,
    locked: bool,
}

impl View for Account {
    type V = AccountView;

    closed spec fn view(&self) -> AccountView {
        AccountView {
            client: self.client_id,
            available: self.available.units(),
            held: self.held.units(),
            total: self.total.units(),
            locked: self.locked,
        }
    }
}

impl Account {
    /// Each balance is an amount the ledger can hold.
    pub closed spec fn holds_ledger_amounts(&self) -> bool {
        self.available.in_ledger() && self.held.in_ledger() && self.total.in_ledger()
    }

    /// No balance is written with a trailing zero behind the decimal point.
    pub closed spec fn is_normalized(&self) -> bool {
        self.available.is_canonical() && self.held.is_canonical() && self.total.is_canonical()
    }

    /// What holds of every account, at all times.
    pub open spec fn wf(&self) -> bool {
        &&& self.holds_ledger_amounts()
        &&& self.is_normalized()
        &&& self@.in_range()
        &&& self@.balanced()
    }

    /// An account is what the rules see of it: two well-formed accounts with
    /// the same balances, client and lock are the same account, digit for
    /// digit.
    pub proof fn lemma_view_is_the_account(a: Account, b: Account)
        requires
            a.wf(),
            b.wf(),
            a@ == b@,
        ensures
            a == b,
    {
        lemma_canonical_unique(a.available, b.available);
        lemma_canonical_unique(a.held, b.held);
        lemma_canonical_unique(a.total, b.total);
    }

    /// A new account: nothing in it, not locked.
    pub fn new(client_id: ClientId) -> (r: Account)
        ensures
            r.wf(),
            r@ == AccountView::opened(client_id),
    {
        let zero = Amount::zero();
        proof {
            lemma_units_by_scale(zero);
        }
        Account { client_id, available: zero, held: zero, total: zero, locked: false }
    }

    /// The client the account belongs to.
    pub fn client_id(&self) -> (r: ClientId)
        ensures
            r == self@.client,
    {
        self.client_id
    }

    /// What the client may withdraw.
    pub fn available(&self) -> (r: Amount)
        ensures
            r.units() == self@.available,
            self.wf() ==> r.in_ledger() && r.is_canonical(),
    {
        self.available
    }

    /// What is held under dispute.
    pub fn held(&self) -> (r: Amount)
        ensures
            r.units() == self@.held,
            self.wf() ==> r.in_ledger() && r.is_canonical(),
    {
        self.held
    }

    /// Available and held together.
    pub fn total(&self) -> (r: Amount)
        ensures
            r.units() == self@.total,
            self.wf() ==> r.in_ledger() && r.is_canonical(),
    {
        self.total
    }

    /// Whether a chargeback has locked the account.
    pub fn is_locked(&self) -> (r: bool)
        ensures
            r == self@.locked,
    {
        self.locked
    }

    /// Credits a deposit: available and total grow by `amount`.
    pub fn deposit(&mut self, amount: Amount)
        requires
            old(self).wf(),
            !old(self)@.locked,
            amount.in_ledger(),
            old(self)@.deposit(amount.units()).in_range(),
        ensures
            final(self).wf(),
            final(self)@ == old(self)@.deposit(amount.units()),
    {
        self.available = self.available.plus(&amount);
        self.total = self.total.plus(&amount);
        self.normalize();
    }

    /// Debits a withdrawal: available and total shrink by `amount`. The
    /// caller has seen to it that enough is available.
    pub fn withdraw(&mut self, amount: Amount)
        requires
            old(self).wf(),
            !old(self)@.locked,
            amount.in_ledger(),
            old(self)@.withdraw(amount.units()).in_range(),
        ensures
            final(self).wf(),
            final(self)@ == old(self)@.withdraw(amount.units()),
    {
        self.available = self.available.minus(&amount);
        self.total = self.total.minus(&amount);
        self.normalize();
    }

    /// Holds funds for a dispute: `amount` moves from available to held and
    /// the total stays. Available may go below zero, where the client has
    /// withdrawn since the disputed deposit.
    pub fn hold(&mut self, amount: Amount)
        requires
            old(self).wf(),
            !old(self)@.locked,
            amount.in_ledger(),
            old(self)@.hold(amount.units()).in_range(),
        ensures
            final(self).wf(),
            final(self)@ == old(self)@.hold(amount.units()),
    {
        self.available = self.available.minus(&amount);
        self.held = self.held.plus(&amount);
        self.normalize();
    }

    /// Releases held funds: `amount` moves from held back to available and
    /// the total stays.
    pub fn release(&mut self, amount: Amount)
        requires
            old(self).wf(),
            !old(self)@.locked,
            amount.in_ledger(),
            old(self)@.release(amount.units()).in_range(),
        ensures
            final(self).wf(),
            final(self)@ == old(self)@.release(amount.units()),
    {
        self.held = self.held.minus(&amount);
        self.available = self.available.plus(&amount);
        self.normalize();
    }

    /// Charges a disputed deposit back: held and total shrink by `amount`,
    /// available is left alone, and the account is locked for good. This is
    /// the one change that a locked account still takes: a second deposit of
    /// the client may be under dispute when the first is charged back.
    pub fn chargeback(&mut self, amount: Amount)
        requires
            old(self).wf(),
            amount.in_ledger(),
            old(self)@.chargeback(amount.units()).in_range(),
        ensures
            final(self).wf(),
            final(self)@ == old(self)@.chargeback(amount.units()),
    {
        self.held = self.held.minus(&amount);
        self.total = self.total.minus(&amount);
        self.normalize();
        self.locked = true;
    }

    /// Whether [`Account::deposit`] can take `amount` without leaving the
    /// ledger's range.
    pub fn can_deposit(&self, amount: &Amount) -> (ok: bool)
        requires
            self.wf(),
            amount.scale() <= LEDGER_SCALE,
        ensures
            ok == (amount.in_ledger() && self@.deposit(amount.units()).in_range()),
    {
        amount.fits_ledger() && self.available.sum_fits_ledger(amount)
            && self.total.sum_fits_ledger(amount)
    }

    /// Whether [`Account::withdraw`] can take `amount` without leaving the
    /// ledger's range.
    pub fn can_withdraw(&self, amount: &Amount) -> (ok: bool)
        requires
            self.wf(),
            amount.scale() <= LEDGER_SCALE,
        ensures
            ok == (amount.in_ledger() && self@.withdraw(amount.units()).in_range()),
    {
        amount.fits_ledger() && self.available.difference_fits_ledger(amount)
            && self.total.difference_fits_ledger(amount)
    }

    /// Whether [`Account::hold`] can take `amount` without leaving the
    /// ledger's range.
    pub fn can_hold(&self, amount: &Amount) -> (ok: bool)
        requires
            self.wf(),
            amount.scale() <= LEDGER_SCALE,
        ensures
            ok == (amount.in_ledger() && self@.hold(amount.units()).in_range()),
    {
        amount.fits_ledger() && self.available.difference_fits_ledger(amount)
            && self.held.sum_fits_ledger(amount)
    }

    /// Whether [`Account::release`] can take `amount` without leaving the
    /// ledger's range.
    pub fn can_release(&self, amount: &Amount) -> (ok: bool)
        requires
            self.wf(),
            amount.scale() <= LEDGER_SCALE,
        ensures
            ok == (amount.in_ledger() && self@.release(amount.units()).in_range()),
    {
        amount.fits_ledger() && self.held.difference_fits_ledger(amount)
            && self.available.sum_fits_ledger(amount)
    }

    /// Whether [`Account::chargeback`] can take `amount` without leaving the
    /// ledger's range.
    pub fn can_chargeback(&self, amount: &Amount) -> (ok: bool)
        requires
            self.wf(),
            amount.scale() <= LEDGER_SCALE,
        ensures
            ok == (amount.in_ledger() && self@.chargeback(amount.units()).in_range()),
    {
        amount.fits_ledger() && self.held.difference_fits_ledger(amount)
            && self.total.difference_fits_ledger(amount)
    }

    /// Computes the accounting invariant anew, three ways: the total from
    /// available and held, available from total and held, held from total and
    /// available. It says whether the three balances, as they stand, are
    /// balanced; of a well-formed account that is always so.
    pub fn check_invariant(&self) -> (ok: bool)
        requires
            self.holds_ledger_amounts(),
        ensures
            ok == self@.balanced(),
    {
        // A sum or a difference that the ledger cannot hold is none of the
        // three balances, which it holds.
        if !self.available.sum_fits_ledger(&self.held) || !self.total.difference_fits_ledger(
            &self.held,
        ) || !self.total.difference_fits_ledger(&self.available) {
            return false;
        }
        let sum = self.available.plus(&self.held);
        let rest = self.total.minus(&self.held);
        let kept = self.total.minus(&self.available);
        self.total.same_value(&sum) && self.available.same_value(&rest) && self.held.same_value(
            &kept,
        )
    }

    /// Strips the trailing zeros of the three balances.
    fn normalize(&mut self)
        requires
            old(self).holds_ledger_amounts(),
        ensures
            final(self).holds_ledger_amounts(),
            final(self).is_normalized(),
            final(self)@ == old(self)@,
    {
        self.available = self.available.normalize();
        self.held = self.held.normalize();
        self.total = self.total.normalize();
    }
}

} // verus!
