//! Withdrawals.

use crate::amount::{Amount, LEDGER_SCALE};
use crate::error::TransactionError;
use crate::transaction::{TransactionRecord, TransactionType};
use vstd::prelude::*;
use vstd::std_specs::convert::TryFromSpecImpl;

verus! {

/// A validated withdrawal: it debits the client's account. Its amount is above
/// zero and has at most four fractional digits.
#[derive(Clone, Copy, Debug)]
pub struct Withdrawal {
    client_id: u16,
    transaction_id: u32,
    amount: Amount,
}

impl Withdrawal {
    /// The client, as a specification value.
    pub closed spec fn spec_client_id(&self) -> u16 {
        self.client_id
    }

    /// The transaction id, as a specification value.
    pub closed spec fn spec_transaction_id(&self) -> u32 {
        self.transaction_id
    }

    /// The amount, as a specification value.
    pub closed spec fn spec_amount(&self) -> Amount {
        self.amount
    }

    /// What validation established. Every withdrawal meets it.
    #[verifier::type_invariant]
    pub open spec fn valid(&self) -> bool {
        &&& self.amount().wf()
        &&& self.amount().mantissa() > 0
        &&& self.amount().scale() <= LEDGER_SCALE
    }

    /// The withdrawal that a record of valid shape stands for.
    pub closed spec fn of_record(record: TransactionRecord) -> Withdrawal {
        Withdrawal { client_id: record.client, transaction_id: record.tx, amount: record.amount.unwrap() }
    }

    /// The client the withdrawal is for.
    #[verifier::when_used_as_spec(spec_client_id)]
    pub fn client_id(&self) -> (r: u16)
        ensures
            r == self.spec_client_id(),
    {
        self.client_id
    }

    /// The withdrawal's own transaction id.
    #[verifier::when_used_as_spec(spec_transaction_id)]
    pub fn transaction_id(&self) -> (r: u32)
        ensures
            r == self.spec_transaction_id(),
    {
        self.transaction_id
    }

    /// The amount, as the record gave it.
    #[verifier::when_used_as_spec(spec_amount)]
    pub fn amount(&self) -> (r: Amount)
        ensures
            r == self.spec_amount(),
    {
        self.amount
    }
}

impl TryFromSpecImpl<TransactionRecord> for Withdrawal {
    open spec fn obeys_try_from_spec() -> bool {
        true
    }

    open spec fn try_from_spec(record: TransactionRecord) -> Result<Withdrawal, TransactionError> {
        if record.tx_type == TransactionType::Withdrawal && record.has_valid_amount() {
            Ok(Withdrawal::of_record(record))
        } else {
            Err(TransactionError::InvalidTransaction(record))
        }
    }
}

impl TryFrom<TransactionRecord> for Withdrawal {
    type Error = TransactionError;

    /// A record is a withdrawal where it declares one and carries an amount
    /// above zero with at most four fractional digits.
    fn try_from(record: TransactionRecord) -> (r: Result<Withdrawal, TransactionError>)
        ensures
            r is Ok <==> record.tx_type == TransactionType::Withdrawal && record.has_valid_amount(),
            r matches Ok(d) ==> d.valid() && d.client_id() == record.client && d.transaction_id()
                == record.tx && Some(d.amount()) == record.amount,
            r matches Err(e) ==> e == TransactionError::InvalidTransaction(record),
    {
        match record.tx_type {
            TransactionType::Withdrawal => match record.amount {
                Some(amount) => {
                    if amount.is_positive() && amount.scale() <= LEDGER_SCALE {
                        proof {
                            use_type_invariant(&amount);
                        }
                        Ok(Withdrawal { client_id: record.client, transaction_id: record.tx, amount })
                    } else {
                        Err(TransactionError::InvalidTransaction(record))
                    }
                },
                None => Err(TransactionError::InvalidTransaction(record)),
            },
            _ => Err(TransactionError::InvalidTransaction(record)),
        }
    }
}

} // verus!
