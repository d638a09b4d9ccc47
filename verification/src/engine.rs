//! The engine: it owns the accounts, the ledger of applied deposits and the
//! dispute set, and applies validated transactions to them one by one.

use crate::account::{Account, ClientId};
use crate::amount::lemma_units_by_scale;
use crate::error::{outcome_view, record_outcome_view, Error, ProcessingError};
use crate::model::{EngineView, LedgerEntry, TransactionId};
use crate::transaction::{
    Chargeback, Deposit, Dispute, Resolve, Transaction, TransactionRecord, Withdrawal,
};
use std::collections::{HashMap, HashSet};
use vstd::prelude::*;

verus! {

broadcast use vstd::std_specs::hash::group_hash_axioms;

/// How many records of a run were applied, and how many were turned away.
#[derive(Clone, Copy, Debug, PartialEq, Eq)]
pub struct RunSummary {
    /// The records that were applied.
    pub processed: u64,
    /// The records that a business rule turned away.
    pub skipped: u64,
}

/// The payment engine.
#[derive(Debug)]
pub struct PaymentEngine {
    /// The account of each client.
    accounts: HashMap<ClientId, Account>,
    /// The applied deposits by transaction id, for later disputes.
    deposits: HashMap<TransactionId, Deposit>,
    /// The deposits under dispute.
    disputes: HashSet<TransactionId>,
}

impl View for PaymentEngine {
    type V = EngineView;

    closed spec fn view(&self) -> EngineView {
        EngineView {
            accounts: Map::new(
                |c: ClientId| self.accounts@.contains_key(c),
                |c: ClientId| self.accounts@[c]@,
            ),
            deposits: Map::new(
                |t: TransactionId| self.deposits@.contains_key(t),
                |t: TransactionId|
                    LedgerEntry {
                        client: self.deposits@[t].client_id(),
                        amount: self.deposits@[t].amount().units(),
                    },
            ),
            disputes: self.disputes@,
        }
    }
}

impl Default for PaymentEngine {
    /// An engine with no account, no deposit and no dispute.
    fn default() -> (r: PaymentEngine)
        ensures
            r.wf(),
            r@ == EngineView::empty(),
    {
        PaymentEngine::new()
    }
}

impl PaymentEngine {
    /// Every account and every recorded deposit is kept as its type asks.
    pub closed spec fn well_kept(&self) -> bool {
        &&& forall|c: ClientId| #[trigger]
            self.accounts@.contains_key(c) ==> self.accounts@[c].wf()
        &&& forall|t: TransactionId| #[trigger]
            self.deposits@.contains_key(t) ==> self.deposits@[t].valid()
                && self.deposits@[t].amount().in_ledger()
    }

    /// What holds of the engine at all times.
    pub open spec fn wf(&self) -> bool {
        self.well_kept() && self@.wf()
    }

    /// An engine with no account, no deposit and no dispute.
    pub fn new() -> (r: PaymentEngine)
        ensures
            r.wf(),
            r@ == EngineView::empty(),
    {
        let r = PaymentEngine {
            accounts: HashMap::new(),
            deposits: HashMap::new(),
            disputes: HashSet::new(),
        };
        assert(r@.accounts =~= Map::empty());
        assert(r@.deposits =~= Map::empty());
        r
    }

    /// The number of accounts.
    pub fn account_count(&self) -> (n: usize)
        ensures
            n == self@.accounts.len(),
    {
        assert(self@.accounts.dom() =~= self.accounts@.dom());
        self.accounts.len()
    }

    /// The account of `client_id`, if the client has one.
    pub fn account(&self, client_id: ClientId) -> (r: Option<Account>)
        ensures
            r is Some <==> self@.accounts.contains_key(client_id),
            r matches Some(a) ==> a@ == self@.accounts[client_id] && (self.wf() ==> a.wf()),
    {
        match self.accounts.get(&client_id) {
            Some(account) => Some(*account),
            None => None,
        }
    }

    /// Types a raw record and applies it. A record that cannot be typed
    /// fails, and so does one whose result the ledger cannot hold; either way
    /// nothing changes. A record that a business rule turns away changes
    /// nothing either, and hands back the rule's error.
    pub fn process_record(&mut self, record: TransactionRecord) -> (r: Result<
        Result<(), ProcessingError>,
        Error,
    >)
        requires
            old(self).wf(),
        ensures
            final(self).wf(),
            final(self)@ == old(self)@.process_record(record).state,
            record_outcome_view(r) == old(self)@.process_record(record).outcome,
            r matches Ok(Err(ProcessingError::InsufficientFunds { available, requested, .. }))
                ==> record.amount == Some(requested) && available.is_canonical()
                && available.in_ledger(),
    {
        let transaction = match Transaction::try_from(record) {
            Ok(transaction) => transaction,
            Err(e) => {
                return Err(Error::Transaction(e));
            },
        };
        assert(self@.apply(transaction) == self@.apply_record(record));
        if !self.accepts(&transaction) {
            return Err(Error::OutOfRange(record));
        }
        Ok(self.process_transaction(transaction))
    }

    /// Runs the engine over `records`, in their order. The run stops at the
    /// first record that fails; the records before it stay applied. A record
    /// that a business rule turns away is skipped.
    pub fn process_transactions(&mut self, records: &[TransactionRecord]) -> (r: Result<
        RunSummary,
        Error,
    >)
        requires
            old(self).wf(),
        ensures
            final(self).wf(),
            final(self)@ == old(self)@.run(records@).state,
            match r {
                Ok(summary) => {
                    &&& old(self)@.run(records@).failed is None
                    &&& summary.processed == old(self)@.run(records@).processed
                    &&& summary.skipped == old(self)@.run(records@).skipped
                },
                Err(e) => old(self)@.run(records@).failed == Some(e),
            },
    {
        let ghost start = self@;
        let mut processed: u64 = 0;
        let mut skipped: u64 = 0;
        let mut i: usize = 0;
        while i < records.len()
            invariant
                i <= records.len(),
                start == old(self)@,
                self.wf(),
                self@ == start.run(records@.take(i as int)).state,
                start.run(records@.take(i as int)).failed is None,
                processed == start.run(records@.take(i as int)).processed,
                skipped == start.run(records@.take(i as int)).skipped,
                processed + skipped <= i,
            decreases records.len() - i,
        {
            proof {
                assert(records@.take(i + 1).drop_last() =~= records@.take(i as int));
            }
            match self.process_record(records[i]) {
                Ok(Ok(())) => {
                    processed = processed + 1;
                },
                Ok(Err(_)) => {
                    skipped = skipped + 1;
                },
                Err(e) => {
                    proof {
                        start.lemma_run_stays_stopped(records@, i + 1);
                    }
                    return Err(e);
                },
            }
            i = i + 1;
        }
        proof {
            assert(records@.take(i as int) =~= records@);
        }
        Ok(RunSummary { processed, skipped })
    }

    /// The final snapshot: every account once, in the order of the client
    /// ids.
    pub fn export_accounts(&self) -> (r: Vec<Account>)
        requires
            self.wf(),
        ensures
            r@.map_values(|a: Account| a@) == self@.snapshot(),
            forall|i: int| 0 <= i < r.len() ==> (#[trigger] r[i]).wf(),
    {
        let mut out: Vec<Account> = Vec::new();
        let mut next: u32 = 0;
        proof {
            assert(out@.map_values(|a: Account| a@) =~= self@.accounts_below(0));
        }
        while next <= 0xffff
            invariant
                self.wf(),
                next <= 0x1_0000,
                out@.map_values(|a: Account| a@) == self@.accounts_below(next as nat),
                forall|i: int| 0 <= i < out.len() ==> (#[trigger] out[i]).wf(),
            decreases 0x1_0000 - next,
        {
            let client_id: ClientId = next as ClientId;
            let ghost before = out@;
            match self.accounts.get(&client_id) {
                Some(account) => {
                    out.push(*account);
                    proof {
                        assert(out@.map_values(|a: Account| a@) =~= before.map_values(
                            |a: Account| a@,
                        ).push(account@));
                    }
                },
                None => {},
            }
            next = next + 1;
        }
        out
    }

    /// Applies a deposit: it opens the client's account if there is none,
    /// credits it, and records the deposit in the ledger; a locked account
    /// turns it away.
    pub fn handle_deposit(&mut self, deposit: Deposit) -> (r: Result<(), ProcessingError>)
        requires
            old(self).wf(),
            old(self)@.admits(Transaction::Deposit(deposit)),
        ensures
            final(self).wf(),
            final(self)@ == old(self)@.apply(Transaction::Deposit(deposit)).state,
            outcome_view(r) == old(self)@.apply(Transaction::Deposit(deposit)).outcome,
    {
        let client_id = deposit.client_id();
        let amount = deposit.amount();
        let tx_id = deposit.transaction_id();
        proof {
            use_type_invariant(&deposit);
        }
        let mut account = match self.accounts.get(&client_id) {
            Some(account) => *account,
            None => Account::new(client_id),
        };
        if account.is_locked() {
            return Err(ProcessingError::AccountLocked { client: client_id });
        }
        let ghost after = self@.apply(Transaction::Deposit(deposit)).state;
        proof {
            assert(after.accounts.contains_key(client_id));
            assert(after.deposits.contains_key(tx_id));
        }
        account.deposit(amount);
        self.accounts.insert(client_id, account);
        self.deposits.insert(tx_id, deposit);
        proof {
            assert(self@.accounts =~= after.accounts);
            assert(self@.deposits =~= after.deposits);
        }
        Ok(())
    }

    /// Applies a withdrawal: it debits the client's account, which must
    /// exist, be unlocked and hold at least the amount available.
    pub fn handle_withdrawal(&mut self, withdrawal: Withdrawal) -> (r: Result<
        (),
        ProcessingError,
    >)
        requires
            old(self).wf(),
            old(self)@.admits(Transaction::Withdrawal(withdrawal)),
        ensures
            final(self).wf(),
            final(self)@ == old(self)@.apply(Transaction::Withdrawal(withdrawal)).state,
            outcome_view(r) == old(self)@.apply(Transaction::Withdrawal(withdrawal)).outcome,
            r matches Err(ProcessingError::InsufficientFunds { available, requested, .. })
                ==> requested == withdrawal.amount() && available.is_canonical()
                && available.in_ledger(),
    {
        let client_id = withdrawal.client_id();
        let amount = withdrawal.amount();
        proof {
            use_type_invariant(&withdrawal);
        }
        let mut account = match self.accounts.get(&client_id) {
            Some(account) => *account,
            None => {
                return Err(ProcessingError::AccountNotFound { client: client_id });
            },
        };
        if account.is_locked() {
            return Err(ProcessingError::AccountLocked { client: client_id });
        }
        let available = account.available();
        if available.lt(&amount) {
            return Err(
                ProcessingError::InsufficientFunds {
                    client: client_id,
                    available,
                    requested: amount,
                },
            );
        }
        let ghost after = self@.apply(Transaction::Withdrawal(withdrawal)).state;
        proof {
            assert(after.accounts.contains_key(client_id));
            lemma_units_by_scale(amount);
        }
        account.withdraw(amount);
        self.accounts.insert(client_id, account);
        proof {
            assert(self@.accounts =~= after.accounts);
            assert(self@.deposits =~= after.deposits);
        }
        Ok(())
    }

    /// Applies a dispute: the deposit must be recorded, be the client's own
    /// and not be under dispute, and the account must be unlocked; then the
    /// deposit's amount is held.
    pub fn handle_dispute(&mut self, dispute: Dispute) -> (r: Result<(), ProcessingError>)
        requires
            old(self).wf(),
            old(self)@.admits(Transaction::Dispute(dispute)),
        ensures
            final(self).wf(),
            final(self)@ == old(self)@.apply(Transaction::Dispute(dispute)).state,
            outcome_view(r) == old(self)@.apply(Transaction::Dispute(dispute)).outcome,
    {
        let client_id = dispute.client_id();
        let referenced_tx_id = dispute.referenced_tx_id();
        let deposit = match self.deposits.get(&referenced_tx_id) {
            Some(deposit) => *deposit,
            None => {
                return Err(ProcessingError::TransactionNotFound { tx: referenced_tx_id });
            },
        };
        if deposit.client_id() != client_id {
            return Err(
                ProcessingError::ClientMismatch {
                    tx: referenced_tx_id,
                    expected: deposit.client_id(),
                    got: client_id,
                },
            );
        }
        if self.disputes.contains(&referenced_tx_id) {
            return Err(ProcessingError::AlreadyUnderDispute { tx: referenced_tx_id });
        }
        let amount = deposit.amount();
        proof {
            assert(self@.deposits.contains_key(referenced_tx_id));
            assert(self@.accounts.contains_key(client_id));
        }
        let mut account = match self.accounts.get(&client_id) {
            Some(account) => *account,
            None => {
                return Err(ProcessingError::AccountNotFound { client: client_id });
            },
        };
        if account.is_locked() {
            return Err(ProcessingError::AccountLocked { client: client_id });
        }
        let ghost after = self@.apply(Transaction::Dispute(dispute)).state;
        proof {
            assert(after.accounts.contains_key(client_id));
        }
        self.disputes.insert(referenced_tx_id);
        account.hold(amount);
        self.accounts.insert(client_id, account);
        proof {
            assert(self@.accounts =~= after.accounts);
            assert(self@.deposits =~= after.deposits);
        }
        Ok(())
    }

    /// Applies a resolve: the deposit must be recorded, be the client's own
    /// and be under dispute, and the account must be unlocked; then the
    /// deposit's amount is released.
    pub fn handle_resolve(&mut self, resolve: Resolve) -> (r: Result<(), ProcessingError>)
        requires
            old(self).wf(),
            old(self)@.admits(Transaction::Resolve(resolve)),
        ensures
            final(self).wf(),
            final(self)@ == old(self)@.apply(Transaction::Resolve(resolve)).state,
            outcome_view(r) == old(self)@.apply(Transaction::Resolve(resolve)).outcome,
    {
        let client_id = resolve.client_id();
        let referenced_tx_id = resolve.referenced_tx_id();
        let deposit = match self.deposits.get(&referenced_tx_id) {
            Some(deposit) => *deposit,
            None => {
                return Err(ProcessingError::TransactionNotFound { tx: referenced_tx_id });
            },
        };
        if deposit.client_id() != client_id {
            return Err(
                ProcessingError::ClientMismatch {
                    tx: referenced_tx_id,
                    expected: deposit.client_id(),
                    got: client_id,
                },
            );
        }
        if !self.disputes.contains(&referenced_tx_id) {
            return Err(ProcessingError::NotUnderDispute { tx: referenced_tx_id });
        }
        let amount = deposit.amount();
        proof {
            assert(self@.deposits.contains_key(referenced_tx_id));
            assert(self@.accounts.contains_key(client_id));
        }
        let mut account = match self.accounts.get(&client_id) {
            Some(account) => *account,
            None => {
                return Err(ProcessingError::AccountNotFound { client: client_id });
            },
        };
        if account.is_locked() {
            return Err(ProcessingError::AccountLocked { client: client_id });
        }
        let ghost after = self@.apply(Transaction::Resolve(resolve)).state;
        proof {
            assert(after.accounts.contains_key(client_id));
        }
        self.disputes.remove(&referenced_tx_id);
        account.release(amount);
        self.accounts.insert(client_id, account);
        proof {
            assert(self@.accounts =~= after.accounts);
            assert(self@.deposits =~= after.deposits);
        }
        Ok(())
    }

    /// Applies a chargeback: the deposit must be recorded, be the client's
    /// own and be under dispute; then its amount is taken out of what is held
    /// and the account is locked. Unlike the other four, a chargeback does
    /// not ask whether the account is locked already.
    pub fn handle_chargeback(&mut self, chargeback: Chargeback) -> (r: Result<
        (),
        ProcessingError,
    >)
        requires
            old(self).wf(),
            old(self)@.admits(Transaction::Chargeback(chargeback)),
        ensures
            final(self).wf(),
            final(self)@ == old(self)@.apply(Transaction::Chargeback(chargeback)).state,
            outcome_view(r) == old(self)@.apply(Transaction::Chargeback(chargeback)).outcome,
    {
        let client_id = chargeback.client_id();
        let referenced_tx_id = chargeback.referenced_tx_id();
        let deposit = match self.deposits.get(&referenced_tx_id) {
            Some(deposit) => *deposit,
            None => {
                return Err(ProcessingError::TransactionNotFound { tx: referenced_tx_id });
            },
        };
        if deposit.client_id() != client_id {
            return Err(
                ProcessingError::ClientMismatch {
                    tx: referenced_tx_id,
                    expected: deposit.client_id(),
                    got: client_id,
                },
            );
        }
        if !self.disputes.contains(&referenced_tx_id) {
            return Err(ProcessingError::NotUnderDispute { tx: referenced_tx_id });
        }
        let amount = deposit.amount();
        proof {
            assert(self@.deposits.contains_key(referenced_tx_id));
            assert(self@.accounts.contains_key(client_id));
        }
        let mut account = match self.accounts.get(&client_id) {
            Some(account) => *account,
            None => {
                return Err(ProcessingError::AccountNotFound { client: client_id });
            },
        };
        let ghost after = self@.apply(Transaction::Chargeback(chargeback)).state;
        proof {
            assert(after.accounts.contains_key(client_id));
        }
        self.disputes.remove(&referenced_tx_id);
        account.chargeback(amount);
        self.accounts.insert(client_id, account);
        proof {
            assert(self@.accounts =~= after.accounts);
            assert(self@.deposits =~= after.deposits);
        }
        Ok(())
    }

    /// Applies a validated transaction: the account changes as the rules
    /// say, or the transaction is turned away and nothing changes.
    pub fn process_transaction(&mut self, transaction: Transaction) -> (r: Result<
        (),
        ProcessingError,
    >)
        requires
            old(self).wf(),
            old(self)@.admits(transaction),
        ensures
            final(self).wf(),
            final(self)@ == old(self)@.apply(transaction).state,
            outcome_view(r) == old(self)@.apply(transaction).outcome,
            r is Err ==> final(self)@ == old(self)@,
            r matches Err(ProcessingError::InsufficientFunds { available, requested, .. })
                ==> transaction.amount() == Some(requested) && available.is_canonical()
                && available.in_ledger(),
    {
        match transaction {
            Transaction::Deposit(deposit) => self.handle_deposit(deposit),
            Transaction::Withdrawal(withdrawal) => self.handle_withdrawal(withdrawal),
            Transaction::Dispute(dispute) => self.handle_dispute(dispute),
            Transaction::Resolve(resolve) => self.handle_resolve(resolve),
            Transaction::Chargeback(chargeback) => self.handle_chargeback(chargeback),
        }
    }

    /// Whether the ledger can hold what `transaction` would leave. Where it
    /// cannot, the sums are beyond what the decimal type adds exactly, and
    /// [`PaymentEngine::process_transaction`] must not be called.
    pub fn accepts(&self, transaction: &Transaction) -> (ok: bool)
        requires
            self.wf(),
        ensures
            ok == self@.admits(*transaction),
    {
        let ghost after = self@.apply(*transaction).state;
        match transaction {
            Transaction::Deposit(deposit) => {
                let client_id = deposit.client_id();
                let amount = deposit.amount();
                proof {
                    use_type_invariant(deposit);
                }
                let ok = match self.accounts.get(&client_id) {
                    Some(account) => account.is_locked() || account.can_deposit(&amount),
                    None => amount.fits_ledger(),
                };
                proof {
                    if self@.apply(*transaction).outcome is Ok {
                        assert(after.accounts.contains_key(client_id));
                        assert(after.deposits.contains_key(deposit.transaction_id()));
                        lemma_units_by_scale(amount);
                        if ok {
                            self@.lemma_touching_one_account(after, client_id);
                        }
                    }
                }
                ok
            },
            Transaction::Withdrawal(withdrawal) => {
                let client_id = withdrawal.client_id();
                let amount = withdrawal.amount();
                proof {
                    use_type_invariant(withdrawal);
                }
                let ok = match self.accounts.get(&client_id) {
                    Some(account) => account.is_locked() || account.available().lt(&amount)
                        || account.can_withdraw(&amount),
                    None => true,
                };
                proof {
                    if self@.apply(*transaction).outcome is Ok {
                        assert(after.accounts.contains_key(client_id));
                        lemma_units_by_scale(amount);
                        if ok {
                            self@.lemma_touching_one_account(after, client_id);
                        }
                    }
                }
                ok
            },
            Transaction::Dispute(dispute) => {
                let client_id = dispute.client_id();
                let referenced_tx_id = dispute.referenced_tx_id();
                let ok = match self.deposits.get(&referenced_tx_id) {
                    Some(deposit) => deposit.client_id() != client_id || self.disputes.contains(
                        &referenced_tx_id,
                    ) || match self.accounts.get(&client_id) {
                        Some(account) => account.is_locked() || account.can_hold(
                            &deposit.amount(),
                        ),
                        None => true,
                    },
                    None => true,
                };
                proof {
                    if self@.apply(*transaction).outcome is Ok {
                        assert(self@.deposits.contains_key(referenced_tx_id));
                        assert(self@.accounts.contains_key(client_id));
                        assert(after.accounts.contains_key(client_id));
                        if ok {
                            self@.lemma_touching_one_account(after, client_id);
                        }
                    }
                }
                ok
            },
            Transaction::Resolve(resolve) => {
                let client_id = resolve.client_id();
                let referenced_tx_id = resolve.referenced_tx_id();
                let ok = match self.deposits.get(&referenced_tx_id) {
                    Some(deposit) => deposit.client_id() != client_id || !self.disputes.contains(
                        &referenced_tx_id,
                    ) || match self.accounts.get(&client_id) {
                        Some(account) => account.is_locked() || account.can_release(
                            &deposit.amount(),
                        ),
                        None => true,
                    },
                    None => true,
                };
                proof {
                    if self@.apply(*transaction).outcome is Ok {
                        assert(self@.deposits.contains_key(referenced_tx_id));
                        assert(self@.accounts.contains_key(client_id));
                        assert(after.accounts.contains_key(client_id));
                        if ok {
                            self@.lemma_touching_one_account(after, client_id);
                        }
                    }
                }
                ok
            },
            Transaction::Chargeback(chargeback) => {
                let client_id = chargeback.client_id();
                let referenced_tx_id = chargeback.referenced_tx_id();
                let ok = match self.deposits.get(&referenced_tx_id) {
                    Some(deposit) => deposit.client_id() != client_id || !self.disputes.contains(
                        &referenced_tx_id,
                    ) || match self.accounts.get(&client_id) {
                        Some(account) => account.can_chargeback(&deposit.amount()),
                        None => true,
                    },
                    None => true,
                };
                proof {
                    if self@.apply(*transaction).outcome is Ok {
                        assert(self@.deposits.contains_key(referenced_tx_id));
                        assert(self@.accounts.contains_key(client_id));
                        assert(after.accounts.contains_key(client_id));
                        if ok {
                            self@.lemma_touching_one_account(after, client_id);
                        }
                    }
                }
                ok
            },
        }
    }
}

} // verus!
