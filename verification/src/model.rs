//! The rules of the engine, as a state machine over mathematical values.
//!
//! A state holds the accounts, the ledger of applied deposits and the set of
//! deposits under dispute. Each kind of transaction is a function from a
//! state to the next state and an outcome. A transaction that is turned away
//! leaves the state as it was.

use crate::account::{AccountView, ClientId};
use crate::amount::fits;
use crate::error::{Error, Rejection, TransactionError};
use crate::transaction::{Transaction, TransactionRecord, TransactionType};
use vstd::prelude::*;

verus! {

pub type TransactionId = u32;

/// What the ledger keeps of an applied deposit: the client it credited, and
/// the amount in ten-thousandths.
pub struct LedgerEntry {
    pub client: ClientId,
    pub amount: int,
}

/// The state of the engine.
pub struct EngineView {
    /// The account of each client that has one.
    pub accounts: Map<ClientId, AccountView>,
    /// The applied deposits, by transaction id.
    pub deposits: Map<TransactionId, LedgerEntry>,
    /// The ids of the deposits under dispute.
    pub disputes: Set<TransactionId>,
}

/// What a transaction does: the state it leaves, and whether it was applied.
pub struct Step {
    pub state: EngineView,
    pub outcome: Result<(), Rejection>,
}

/// What a raw record does: the state it leaves, and whether the record
/// failed, was applied or was turned away.
pub struct RecordStep {
    pub state: EngineView,
    pub outcome: Result<Result<(), Rejection>, Error>,
}

/// A run over a sequence of records: the state it leaves, how many records
/// were applied and how many were turned away, and what stopped it, if
/// anything did.
pub struct Run {
    pub state: EngineView,
    pub processed: nat,
    pub skipped: nat,
    pub failed: Option<Error>,
}

impl EngineView {
    /// No account, no deposit, no dispute.
    pub open spec fn empty() -> EngineView {
        EngineView { accounts: Map::empty(), deposits: Map::empty(), disputes: Set::empty() }
    }

    /// What holds of every state the engine reaches: each account is filed
    /// under its own client, is balanced and within the ledger's range; each
    /// recorded deposit has an amount above zero that the ledger can hold,
    /// and its client has an account; each deposit under dispute is
    /// recorded.
    pub open spec fn wf(self) -> bool {
        &&& self.accounts.dom().finite()
        &&& self.deposits.dom().finite()
        &&& self.disputes.finite()
        &&& forall|c: ClientId| #[trigger]
            self.accounts.contains_key(c) ==> {
                &&& self.accounts[c].client == c
                &&& self.accounts[c].balanced()
                &&& self.accounts[c].in_range()
            }
        &&& forall|t: TransactionId| #[trigger]
            self.deposits.contains_key(t) ==> {
                &&& 0 < self.deposits[t].amount
                &&& fits(self.deposits[t].amount)
                &&& self.accounts.contains_key(self.deposits[t].client)
            }
        &&& forall|t: TransactionId| #[trigger]
            self.disputes.contains(t) ==> self.deposits.contains_key(t)
    }

    /// The accounts of the clients with an id below `n`, in the order of the
    /// ids.
    pub open spec fn accounts_below(self, n: nat) -> Seq<AccountView>
        decreases n,
    {
        if n == 0 {
            Seq::empty()
        } else if self.accounts.contains_key((n - 1) as ClientId) {
            self.accounts_below((n - 1) as nat).push(self.accounts[(n - 1) as ClientId])
        } else {
            self.accounts_below((n - 1) as nat)
        }
    }

    /// All accounts, in the order of the client ids.
    pub open spec fn snapshot(self) -> Seq<AccountView> {
        self.accounts_below(0x1_0000)
    }

    /// The transaction is turned away and nothing changes.
    pub open spec fn rejected(self, why: Rejection) -> Step {
        Step { state: self, outcome: Err(why) }
    }

    /// A deposit opens the client's account if there is none, is turned away
    /// if the account is locked, and otherwise credits the account and is
    /// recorded in the ledger under its id. Where the ledger already holds a
    /// deposit under that id, the new one takes its place.
    pub open spec fn deposit(self, client: ClientId, tx: TransactionId, amount: int) -> Step {
        let account = if self.accounts.contains_key(client) {
            self.accounts[client]
        } else {
            AccountView::opened(client)
        };
        if account.locked {
            self.rejected(Rejection::AccountLocked { client })
        } else {
            Step {
                state: EngineView {
                    accounts: self.accounts.insert(client, account.deposit(amount)),
                    deposits: self.deposits.insert(tx, LedgerEntry { client, amount }),
                    disputes: self.disputes,
                },
                outcome: Ok(()),
            }
        }
    }

    /// A withdrawal needs an account that is not locked and holds at least
    /// `amount` available.
    pub open spec fn withdrawal(self, client: ClientId, amount: int) -> Step {
        if !self.accounts.contains_key(client) {
            self.rejected(Rejection::AccountNotFound { client })
        } else if self.accounts[client].locked {
            self.rejected(Rejection::AccountLocked { client })
        } else if self.accounts[client].available < amount {
            self.rejected(
                Rejection::InsufficientFunds {
                    client,
                    available: self.accounts[client].available,
                    requested: amount,
                },
            )
        } else {
            Step {
                state: EngineView {
                    accounts: self.accounts.insert(client, self.accounts[client].withdraw(amount)),
                    ..self
                },
                outcome: Ok(()),
            }
        }
    }

    /// The deposit that a dispute, a resolve or a chargeback of `client`
    /// refers to: it must be in the ledger, and it must be the client's own.
    /// This is checked before anything else, so that no transaction moves
    /// funds on another client's account.
    pub open spec fn referenced(self, client: ClientId, tx: TransactionId) -> Result<
        LedgerEntry,
        Rejection,
    > {
        if !self.deposits.contains_key(tx) {
            Err(Rejection::TransactionNotFound { tx })
        } else if self.deposits[tx].client != client {
            Err(Rejection::ClientMismatch { tx, expected: self.deposits[tx].client, got: client })
        } else {
            Ok(self.deposits[tx])
        }
    }

    /// A dispute puts a deposit that is not under dispute into the dispute
    /// set and holds its amount, unless the account is locked.
    pub open spec fn dispute(self, client: ClientId, tx: TransactionId) -> Step {
        match self.referenced(client, tx) {
            Err(why) => self.rejected(why),
            Ok(entry) => if self.disputes.contains(tx) {
                self.rejected(Rejection::AlreadyUnderDispute { tx })
            } else if self.accounts[client].locked {
                self.rejected(Rejection::AccountLocked { client })
            } else {
                Step {
                    state: EngineView {
                        accounts: self.accounts.insert(
                            client,
                            self.accounts[client].hold(entry.amount),
                        ),
                        deposits: self.deposits,
                        disputes: self.disputes.insert(tx),
                    },
                    outcome: Ok(()),
                }
            },
        }
    }

    /// A resolve takes a deposit under dispute out of the dispute set and
    /// releases its amount, unless the account is locked.
    pub open spec fn resolve(self, client: ClientId, tx: TransactionId) -> Step {
        match self.referenced(client, tx) {
            Err(why) => self.rejected(why),
            Ok(entry) => if !self.disputes.contains(tx) {
                self.rejected(Rejection::NotUnderDispute { tx })
            } else if self.accounts[client].locked {
                self.rejected(Rejection::AccountLocked { client })
            } else {
                Step {
                    state: EngineView {
                        accounts: self.accounts.insert(
                            client,
                            self.accounts[client].release(entry.amount),
                        ),
                        deposits: self.deposits,
                        disputes: self.disputes.remove(tx),
                    },
                    outcome: Ok(()),
                }
            },
        }
    }

    /// A chargeback takes a deposit under dispute out of the dispute set,
    /// takes its amount out of what is held, and locks the account. The lock
    /// is not asked for: a chargeback is what sets it.
    pub open spec fn chargeback(self, client: ClientId, tx: TransactionId) -> Step {
        match self.referenced(client, tx) {
            Err(why) => self.rejected(why),
            Ok(entry) => if !self.disputes.contains(tx) {
                self.rejected(Rejection::NotUnderDispute { tx })
            } else {
                Step {
                    state: EngineView {
                        accounts: self.accounts.insert(
                            client,
                            self.accounts[client].chargeback(entry.amount),
                        ),
                        deposits: self.deposits,
                        disputes: self.disputes.remove(tx),
                    },
                    outcome: Ok(()),
                }
            },
        }
    }

    /// What a validated transaction does.
    pub open spec fn apply(self, t: Transaction) -> Step {
        match t {
            Transaction::Deposit(d) => self.deposit(
                d.client_id(),
                d.transaction_id(),
                d.amount().units(),
            ),
            Transaction::Withdrawal(w) => self.withdrawal(w.client_id(), w.amount().units()),
            Transaction::Dispute(d) => self.dispute(d.client_id(), d.referenced_tx_id()),
            Transaction::Resolve(r) => self.resolve(r.client_id(), r.referenced_tx_id()),
            Transaction::Chargeback(c) => self.chargeback(c.client_id(), c.referenced_tx_id()),
        }
    }

    /// Whether the state that `t` leaves is one the ledger can hold.
    pub open spec fn admits(self, t: Transaction) -> bool {
        self.apply(t).state.wf()
    }

    /// What a record of valid shape does: what the transaction it stands
    /// for does.
    pub open spec fn apply_record(self, record: TransactionRecord) -> Step {
        match record.tx_type {
            TransactionType::Deposit => self.deposit(
                record.client,
                record.tx,
                record.amount.unwrap().units(),
            ),
            TransactionType::Withdrawal => self.withdrawal(
                record.client,
                record.amount.unwrap().units(),
            ),
            TransactionType::Dispute => self.dispute(record.client, record.tx),
            TransactionType::Resolve => self.resolve(record.client, record.tx),
            TransactionType::Chargeback => self.chargeback(record.client, record.tx),
        }
    }

    /// What a raw record does. A record that cannot be typed fails, and so
    /// does one whose result the ledger cannot hold; either way nothing
    /// changes. Any other record does what the transaction it stands for
    /// does.
    pub open spec fn process_record(self, record: TransactionRecord) -> RecordStep {
        if !record.is_valid() {
            RecordStep {
                state: self,
                outcome: Err(Error::Transaction(TransactionError::InvalidTransaction(record))),
            }
        } else if !self.apply_record(record).state.wf() {
            RecordStep { state: self, outcome: Err(Error::OutOfRange(record)) }
        } else {
            RecordStep {
                state: self.apply_record(record).state,
                outcome: Ok(self.apply_record(record).outcome),
            }
        }
    }

    /// A run over `records`, in their order. The first record that fails
    /// stops the run; what the records before it did stays. A record that a
    /// business rule turns away is counted as skipped, and the run goes on.
    pub open spec fn run(self, records: Seq<TransactionRecord>) -> Run
        decreases records.len(),
    {
        if records.len() == 0 {
            Run { state: self, processed: 0, skipped: 0, failed: None }
        } else {
            let before = self.run(records.drop_last());
            if before.failed is Some {
                before
            } else {
                let step = before.state.process_record(records.last());
                match step.outcome {
                    Err(e) => Run { failed: Some(e), ..before },
                    Ok(Ok(())) => Run {
                        state: step.state,
                        processed: before.processed + 1,
                        ..before
                    },
                    Ok(Err(_)) => Run {
                        state: step.state,
                        skipped: before.skipped + 1,
                        ..before
                    },
                }
            }
        }
    }

    /// A state that differs from a well-formed one in one account, and has
    /// at most one more deposit recorded, for that account's client, is
    /// well-formed where that account and that deposit are.
    pub proof fn lemma_touching_one_account(self, after: EngineView, client: ClientId)
        requires
            self.wf(),
            after.accounts.dom() == self.accounts.dom().insert(client),
            after.accounts[client].client == client,
            after.accounts[client].balanced(),
            after.accounts[client].in_range(),
            forall|c: ClientId|
                c != client && #[trigger] self.accounts.contains_key(c) ==> after.accounts[c]
                    == self.accounts[c],
            after.deposits.dom().finite(),
            after.disputes.finite(),
            forall|t: TransactionId| #[trigger]
                after.disputes.contains(t) ==> after.deposits.contains_key(t),
            forall|t: TransactionId| #[trigger]
                after.deposits.contains_key(t) ==> (self.deposits.contains_key(t)
                    && after.deposits[t] == self.deposits[t]) || (after.deposits[t].client
                    == client && 0 < after.deposits[t].amount && fits(after.deposits[t].amount)),
        ensures
            after.wf(),
    {
        assert forall|c: ClientId| #[trigger] after.accounts.contains_key(c) implies {
            &&& after.accounts[c].client == c
            &&& after.accounts[c].balanced()
            &&& after.accounts[c].in_range()
        } by {
            if c != client {
                assert(self.accounts.contains_key(c));
            }
        }
        assert forall|t: TransactionId| #[trigger] after.deposits.contains_key(t) implies {
            &&& 0 < after.deposits[t].amount
            &&& fits(after.deposits[t].amount)
            &&& after.accounts.contains_key(after.deposits[t].client)
        } by {
            if self.deposits.contains_key(t) && after.deposits[t] == self.deposits[t] {
                assert(self.accounts.contains_key(self.deposits[t].client));
            }
        }
    }

    /// A run that has stopped stays as it is, whatever records follow.
    pub proof fn lemma_run_stays_stopped(self, records: Seq<TransactionRecord>, n: int)
        requires
            0 <= n <= records.len(),
            self.run(records.take(n)).failed is Some,
        ensures
            self.run(records) == self.run(records.take(n)),
        decreases records.len(),
    {
        if n == records.len() {
            assert(records.take(n) =~= records);
        } else {
            assert(records.drop_last().take(n) =~= records.take(n));
            self.lemma_run_stays_stopped(records.drop_last(), n);
        }
    }
}

} // verus!
