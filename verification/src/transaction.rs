//! Raw transaction records and the five validated transactions they turn
//! into.

pub mod chargeback;
pub mod deposit;
pub mod dispute;
pub mod resolve;
pub mod withdrawal;

pub use chargeback::Chargeback;
pub use deposit::Deposit;
pub use dispute::Dispute;
pub use resolve::Resolve;
pub use withdrawal::Withdrawal;

use crate::amount::{Amount, LEDGER_SCALE};
use crate::error::TransactionError;
use crate::text::{number_text, number_to_string};
use vstd::prelude::*;
use vstd::std_specs::convert::TryFromSpecImpl;
use vstd::string::StringExecFns;

verus! {

/// The kind of transaction a record declares.
#[derive(Clone, Copy, Debug, PartialEq, Eq, Structural)]
pub enum TransactionType {
    Deposit,
    Withdrawal,
    Dispute,
    Resolve,
    Chargeback,
}

/// A record as it arrives: nothing about it has been checked.
#[derive(Clone, Copy, Debug, PartialEq, Eq)]
pub struct TransactionRecord {
    pub tx_type: TransactionType,
    pub client: u16,
    /// The record's own id for a deposit or a withdrawal; the id of the
    /// deposit it refers to for a dispute, a resolve or a chargeback.
    pub tx: u32,
    /// Present for a deposit or a withdrawal, absent otherwise.
    pub amount: Option<Amount>,
}

impl TransactionType {
    /// The word that stands for the kind in a record.
    pub open spec fn text(self) -> Seq<char> {
        match self {
            TransactionType::Deposit => "deposit"@,
            TransactionType::Withdrawal => "withdrawal"@,
            TransactionType::Dispute => "dispute"@,
            TransactionType::Resolve => "resolve"@,
            TransactionType::Chargeback => "chargeback"@,
        }
    }

    /// The word that stands for the kind in a record.
    pub fn as_str(&self) -> (r: &'static str)
        ensures
            r@ == self.text(),
    {
        match self {
            TransactionType::Deposit => "deposit",
            TransactionType::Withdrawal => "withdrawal",
            TransactionType::Dispute => "dispute",
            TransactionType::Resolve => "resolve",
            TransactionType::Chargeback => "chargeback",
        }
    }

    /// The kind as text.
    pub fn to_string(&self) -> (r: String)
        ensures
            r@ == self.text(),
    {
        String::from_str(self.as_str())
    }
}

impl TransactionRecord {
    /// The record as it is shown in a diagnostic: the kind, then client, id
    /// and, where there is one, the amount, in round brackets.
    pub open spec fn text(&self) -> Seq<char> {
        self.tx_type.text() + " (client: "@ + number_text(self.client as nat) + ", tx: "@
            + number_text(self.tx as nat) + match self.amount {
            Some(amount) => ", amount: "@ + amount.text(),
            None => Seq::empty(),
        } + ")"@
    }

    /// The record as it is shown in a diagnostic.
    pub fn to_string(&self) -> (r: String)
        ensures
            r@ == self.text(),
    {
        let mut r = self.tx_type.to_string();
        r.append(" (client: ");
        r.append(number_to_string(self.client as u32).as_str());
        r.append(", tx: ");
        r.append(number_to_string(self.tx).as_str());
        if let Some(amount) = self.amount {
            r.append(", amount: ");
            r.append(amount.to_string().as_str());
        } else {
            assert(r@ + Seq::<char>::empty() =~= r@);
        }
        r.append(")");
        r
    }

    /// The record carries an amount above zero with at most four fractional
    /// digits.
    pub open spec fn has_valid_amount(&self) -> bool {
        self.amount matches Some(a) && a.mantissa() > 0 && a.scale() <= LEDGER_SCALE
    }

    /// The record's shape fits the transaction type it declares.
    pub open spec fn is_valid(&self) -> bool {
        match self.tx_type {
            TransactionType::Deposit | TransactionType::Withdrawal => self.has_valid_amount(),
            _ => self.amount is None,
        }
    }
}

/// A heading, a client and the id of the deposit that is referred to.
fn reference_to_string(heading: &str, client: u16, referenced_tx: u32) -> (r: String)
    ensures
        r@ == heading@ + number_text(client as nat) + " ref_tx="@ + number_text(
            referenced_tx as nat,
        ),
{
    let mut r = String::from_str(heading);
    r.append(number_to_string(client as u32).as_str());
    r.append(" ref_tx=");
    r.append(number_to_string(referenced_tx).as_str());
    r
}

/// A validated transaction.
#[derive(Clone, Copy, Debug)]
pub enum Transaction {
    Deposit(Deposit),
    Withdrawal(Withdrawal),
    Dispute(Dispute),
    Resolve(Resolve),
    Chargeback(Chargeback),
}

impl TryFromSpecImpl<TransactionRecord> for Transaction {
    open spec fn obeys_try_from_spec() -> bool {
        true
    }

    open spec fn try_from_spec(record: TransactionRecord) -> Result<Transaction, TransactionError> {
        if record.is_valid() {
            Ok(
                match record.tx_type {
                    TransactionType::Deposit => Transaction::Deposit(Deposit::of_record(record)),
                    TransactionType::Withdrawal => Transaction::Withdrawal(
                        Withdrawal::of_record(record),
                    ),
                    TransactionType::Dispute => Transaction::Dispute(Dispute::of_record(record)),
                    TransactionType::Resolve => Transaction::Resolve(Resolve::of_record(record)),
                    TransactionType::Chargeback => Transaction::Chargeback(
                        Chargeback::of_record(record),
                    ),
                },
            )
        } else {
            Err(TransactionError::InvalidTransaction(record))
        }
    }
}

impl TryFrom<TransactionRecord> for Transaction {
    type Error = TransactionError;

    /// Types a raw record, or rejects it with the record itself.
    fn try_from(record: TransactionRecord) -> (r: Result<Transaction, TransactionError>)
        ensures
            r is Ok <==> record.is_valid(),
            r matches Ok(t) ==> t.matches_record(record) && t.valid(),
            r matches Err(e) ==> e == TransactionError::InvalidTransaction(record),
    {
        match record.tx_type {
            TransactionType::Deposit => match Deposit::try_from(record) {
                Ok(d) => Ok(Transaction::Deposit(d)),
                Err(e) => Err(e),
            },
            TransactionType::Withdrawal => match Withdrawal::try_from(record) {
                Ok(w) => Ok(Transaction::Withdrawal(w)),
                Err(e) => Err(e),
            },
            TransactionType::Dispute => match Dispute::try_from(record) {
                Ok(d) => Ok(Transaction::Dispute(d)),
                Err(e) => Err(e),
            },
            TransactionType::Resolve => match Resolve::try_from(record) {
                Ok(r) => Ok(Transaction::Resolve(r)),
                Err(e) => Err(e),
            },
            TransactionType::Chargeback => match Chargeback::try_from(record) {
                Ok(c) => Ok(Transaction::Chargeback(c)),
                Err(e) => Err(e),
            },
        }
    }
}

impl Transaction {
    /// The transaction as it is shown in a log: the kind in square brackets,
    /// then what it holds. A withdrawal is shown without its id.
    pub open spec fn text(&self) -> Seq<char> {
        match self {
            Transaction::Deposit(d) => "[deposit] client="@ + number_text(d.client_id() as nat)
                + " tx="@ + number_text(d.transaction_id() as nat) + " amount="@ + d.amount().text(),
            Transaction::Withdrawal(w) => "[withdrawal] client="@ + number_text(
                w.client_id() as nat,
            ) + " amount="@ + w.amount().text(),
            Transaction::Dispute(d) => "[dispute] client="@ + number_text(d.client_id() as nat)
                + " ref_tx="@ + number_text(d.referenced_tx_id() as nat),
            Transaction::Resolve(r) => "[resolve] client="@ + number_text(r.client_id() as nat)
                + " ref_tx="@ + number_text(r.referenced_tx_id() as nat),
            Transaction::Chargeback(c) => "[chargeback] client="@ + number_text(
                c.client_id() as nat,
            ) + " ref_tx="@ + number_text(c.referenced_tx_id() as nat),
        }
    }

    /// The transaction as it is shown in a log.
    pub fn to_string(&self) -> (r: String)
        ensures
            r@ == self.text(),
    {
        match self {
            Transaction::Deposit(d) => {
                let mut r = String::from_str("[deposit] client=");
                r.append(number_to_string(d.client_id() as u32).as_str());
                r.append(" tx=");
                r.append(number_to_string(d.transaction_id()).as_str());
                r.append(" amount=");
                r.append(d.amount().to_string().as_str());
                r
            },
            Transaction::Withdrawal(w) => {
                let mut r = String::from_str("[withdrawal] client=");
                r.append(number_to_string(w.client_id() as u32).as_str());
                r.append(" amount=");
                r.append(w.amount().to_string().as_str());
                r
            },
            Transaction::Dispute(d) => reference_to_string(
                "[dispute] client=",
                d.client_id(),
                d.referenced_tx_id(),
            ),
            Transaction::Resolve(r) => reference_to_string(
                "[resolve] client=",
                r.client_id(),
                r.referenced_tx_id(),
            ),
            Transaction::Chargeback(c) => reference_to_string(
                "[chargeback] client=",
                c.client_id(),
                c.referenced_tx_id(),
            ),
        }
    }

    /// The transaction's kind.
    pub open spec fn kind(&self) -> TransactionType {
        match self {
            Transaction::Deposit(_) => TransactionType::Deposit,
            Transaction::Withdrawal(_) => TransactionType::Withdrawal,
            Transaction::Dispute(_) => TransactionType::Dispute,
            Transaction::Resolve(_) => TransactionType::Resolve,
            Transaction::Chargeback(_) => TransactionType::Chargeback,
        }
    }

    /// The client the transaction is for.
    pub open spec fn client(&self) -> u16 {
        match self {
            Transaction::Deposit(d) => d.client_id(),
            Transaction::Withdrawal(w) => w.client_id(),
            Transaction::Dispute(d) => d.client_id(),
            Transaction::Resolve(r) => r.client_id(),
            Transaction::Chargeback(c) => c.client_id(),
        }
    }

    /// The transaction's own id, or the id of the deposit it refers to.
    pub open spec fn tx(&self) -> u32 {
        match self {
            Transaction::Deposit(d) => d.transaction_id(),
            Transaction::Withdrawal(w) => w.transaction_id(),
            Transaction::Dispute(d) => d.referenced_tx_id(),
            Transaction::Resolve(r) => r.referenced_tx_id(),
            Transaction::Chargeback(c) => c.referenced_tx_id(),
        }
    }

    /// The amount of a deposit or a withdrawal.
    pub open spec fn amount(&self) -> Option<Amount> {
        match self {
            Transaction::Deposit(d) => Some(d.amount()),
            Transaction::Withdrawal(w) => Some(w.amount()),
            _ => None,
        }
    }

    /// The transaction holds exactly what the record holds.
    pub open spec fn matches_record(&self, record: TransactionRecord) -> bool {
        &&& self.kind() == record.tx_type
        &&& self.client() == record.client
        &&& self.tx() == record.tx
        &&& self.amount() == record.amount
    }

    /// What validation established of the transaction.
    pub open spec fn valid(&self) -> bool {
        match self {
            Transaction::Deposit(d) => d.valid(),
            Transaction::Withdrawal(w) => w.valid(),
            _ => true,
        }
    }
}

} // verus!
