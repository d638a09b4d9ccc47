//! The two classes of failure: a record that cannot be typed, and a typed
//! transaction that a business rule turns away.

use crate::amount::Amount;
use crate::text::{number_text, number_to_string};
use crate::transaction::TransactionRecord;
use vstd::prelude::*;
use vstd::string::StringExecFns;

verus! {

/// Why a run over a sequence of records ended before its last record.
#[derive(Clone, Copy, Debug, PartialEq, Eq)]
pub enum Error {
    /// A record could not be typed.
    Transaction(TransactionError),
    /// Applying the record would have taken a balance out of the range in
    /// which amounts are added exactly. The record was not applied.
    OutOfRange(TransactionRecord),
}

/// A record whose shape does not fit the transaction type it declares. It
/// ends the whole run.
#[derive(Clone, Copy, Debug, PartialEq, Eq)]
pub enum TransactionError {
    /// The offending record, for diagnostics.
    InvalidTransaction(TransactionRecord),
}

/// A business rule turned the transaction away. The transaction is skipped
/// and the run goes on.
#[derive(Clone, Copy, Debug, PartialEq, Eq, Structural)]
pub enum ProcessingError {
    /// No applied deposit has this transaction id.
    TransactionNotFound { tx: u32 },
    /// The referenced deposit belongs to `expected`, not to `got`.
    ClientMismatch { tx: u32, expected: u16, got: u16 },
    /// The referenced deposit is not under dispute.
    NotUnderDispute { tx: u32 },
    /// The referenced deposit is under dispute already.
    AlreadyUnderDispute { tx: u32 },
    /// The client has less available than was asked for.
    InsufficientFunds { client: u16, available: Amount, requested: Amount },
    /// The client has no account.
    AccountNotFound { client: u16 },
    /// The client's account is locked.
    AccountLocked { client: u16 },
}

impl Error {
    /// The message of the error.
    pub open spec fn text(&self) -> Seq<char> {
        match *self {
            Error::Transaction(e) => "Transaction error: "@ + e.text(),
            Error::OutOfRange(record) => "Out of range: "@ + record.text(),
        }
    }

    /// The message of the error.
    pub fn to_string(&self) -> (r: String)
        ensures
            r@ == self.text(),
    {
        match self {
            Error::Transaction(e) => {
                let mut r = String::from_str("Transaction error: ");
                r.append(e.to_string().as_str());
                r
            },
            Error::OutOfRange(record) => {
                let mut r = String::from_str("Out of range: ");
                r.append(record.to_string().as_str());
                r
            },
        }
    }
}

impl TransactionError {
    /// The message of the error.
    pub open spec fn text(&self) -> Seq<char> {
        match *self {
            TransactionError::InvalidTransaction(record) => "Invalid transaction: "@
                + record.text(),
        }
    }

    /// The message of the error.
    pub fn to_string(&self) -> (r: String)
        ensures
            r@ == self.text(),
    {
        match self {
            TransactionError::InvalidTransaction(record) => {
                let mut r = String::from_str("Invalid transaction: ");
                r.append(record.to_string().as_str());
                r
            },
        }
    }
}

impl ProcessingError {
    /// The message of the error.
    pub open spec fn text(&self) -> Seq<char> {
        match *self {
            ProcessingError::TransactionNotFound { tx } => "Transaction "@ + number_text(
                tx as nat,
            ) + " not found"@,
            ProcessingError::ClientMismatch { tx, expected, got } => "Client mismatch: transaction "@
                + number_text(tx as nat) + " belongs to client "@ + number_text(expected as nat)
                + ", not "@ + number_text(got as nat),
            ProcessingError::NotUnderDispute { tx } => "Transaction "@ + number_text(tx as nat)
                + " is not under dispute"@,
            ProcessingError::AlreadyUnderDispute { tx } => "Transaction "@ + number_text(
                tx as nat,
            ) + " is already under dispute"@,
            ProcessingError::InsufficientFunds {
                client,
                available,
                requested,
            } => "Insufficient funds: client "@ + number_text(client as nat) + " has "@
                + available.text() + ", requested "@ + requested.text(),
            ProcessingError::AccountNotFound { client } => "Account "@ + number_text(
                client as nat,
            ) + " not found"@,
            ProcessingError::AccountLocked { client } => "Account "@ + number_text(client as nat)
                + " is locked"@,
        }
    }

    /// The message of the error.
    pub fn to_string(&self) -> (r: String)
        ensures
            r@ == self.text(),
    {
        match *self {
            ProcessingError::TransactionNotFound { tx } => {
                let mut r = String::from_str("Transaction ");
                r.append(number_to_string(tx).as_str());
                r.append(" not found");
                r
            },
            ProcessingError::ClientMismatch { tx, expected, got } => {
                let mut r = String::from_str("Client mismatch: transaction ");
                r.append(number_to_string(tx).as_str());
                r.append(" belongs to client ");
                r.append(number_to_string(expected as u32).as_str());
                r.append(", not ");
                r.append(number_to_string(got as u32).as_str());
                r
            },
            ProcessingError::NotUnderDispute { tx } => {
                let mut r = String::from_str("Transaction ");
                r.append(number_to_string(tx).as_str());
                r.append(" is not under dispute");
                r
            },
            ProcessingError::AlreadyUnderDispute { tx } => {
                let mut r = String::from_str("Transaction ");
                r.append(number_to_string(tx).as_str());
                r.append(" is already under dispute");
                r
            },
            ProcessingError::InsufficientFunds { client, available, requested } => {
                let mut r = String::from_str("Insufficient funds: client ");
                r.append(number_to_string(client as u32).as_str());
                r.append(" has ");
                r.append(available.to_string().as_str());
                r.append(", requested ");
                r.append(requested.to_string().as_str());
                r
            },
            ProcessingError::AccountNotFound { client } => {
                let mut r = String::from_str("Account ");
                r.append(number_to_string(client as u32).as_str());
                r.append(" not found");
                r
            },
            ProcessingError::AccountLocked { client } => {
                let mut r = String::from_str("Account ");
                r.append(number_to_string(client as u32).as_str());
                r.append(" is locked");
                r
            },
        }
    }
}

/// A [`ProcessingError`] as the rules see it, with amounts counted in
/// ten-thousandths.
pub enum Rejection {
    /// No applied deposit has this transaction id.
    TransactionNotFound { tx: u32 },
    /// The referenced deposit belongs to `expected`, not to `got`.
    ClientMismatch { tx: u32, expected: u16, got: u16 },
    /// The referenced deposit is not under dispute.
    NotUnderDispute { tx: u32 },
    /// The referenced deposit is under dispute already.
    AlreadyUnderDispute { tx: u32 },
    /// The client has less available than was asked for.
    InsufficientFunds { client: u16, available: int, requested: int },
    /// The client has no account.
    AccountNotFound { client: u16 },
    /// The client's account is locked.
    AccountLocked { client: u16 },
}

impl View for ProcessingError {
    type V = Rejection;

    open spec fn view(&self) -> Rejection {
        match *self {
            ProcessingError::TransactionNotFound { tx } => Rejection::TransactionNotFound { tx },
            ProcessingError::ClientMismatch { tx, expected, got } => Rejection::ClientMismatch {
                tx,
                expected,
                got,
            },
            ProcessingError::NotUnderDispute { tx } => Rejection::NotUnderDispute { tx },
            ProcessingError::AlreadyUnderDispute { tx } => Rejection::AlreadyUnderDispute { tx },
            ProcessingError::InsufficientFunds {
                client,
                available,
                requested,
            } => Rejection::InsufficientFunds {
                client,
                available: available.units(),
                requested: requested.units(),
            },
            ProcessingError::AccountNotFound { client } => Rejection::AccountNotFound { client },
            ProcessingError::AccountLocked { client } => Rejection::AccountLocked { client },
        }
    }
}

/// The outcome of a transaction as the rules see it.
pub open spec fn outcome_view(r: Result<(), ProcessingError>) -> Result<(), Rejection> {
    match r {
        Ok(()) => Ok(()),
        Err(e) => Err(e@),
    }
}

/// The outcome of a raw record as the rules see it.
pub open spec fn record_outcome_view(r: Result<Result<(), ProcessingError>, Error>) -> Result<
    Result<(), Rejection>,
    Error,
> {
    match r {
        Ok(outcome) => Ok(outcome_view(outcome)),
        Err(e) => Err(e),
    }
}

} // verus!
