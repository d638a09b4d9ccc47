//! A payment engine: an ordered stream of deposits, withdrawals, disputes,
//! resolves and chargebacks is applied to per-client accounts, and the
//! accounts are what comes out.
//!
//! Amounts are decimals with at most four fractional digits, and they are
//! added exactly: every balance is a whole number of ten-thousandths, of a
//! magnitude below 2^96. A record that would take a balance beyond that is
//! not applied, and ends the run.
//!
//! A raw [`TransactionRecord`] is first typed into a [`Transaction`]; a
//! record that cannot be typed ends the run. The [`PaymentEngine`] then
//! applies the transaction, or turns it away with a [`ProcessingError`] and
//! goes on. What the engine does is stated by the state machine in
//! [`model`], and [`laws`] proves what holds of that machine.

pub mod account;
pub mod amount;
pub mod engine;
pub mod error;
pub mod laws;
pub mod model;
pub mod text;
pub mod transaction;

pub use account::{Account, ClientId};
pub use amount::Amount;
pub use engine::{PaymentEngine, RunSummary};
pub use error::{Error, ProcessingError, TransactionError};
pub use model::TransactionId;
pub use transaction::{
    Chargeback, Deposit, Dispute, Resolve, Transaction, TransactionRecord, TransactionType,
    Withdrawal,
};
