//! Chargebacks.

use crate::error::TransactionError;
use crate::transaction::{TransactionRecord, TransactionType};
use vstd::prelude::*;
use vstd::std_specs::convert::TryFromSpecImpl;

verus! {

/// A validated chargeback: it ends a dispute by taking the held funds back,
/// and locks the account.
#[derive(Clone, Copy, Debug)]
pub struct Chargeback {
    client_id: u16,
    referenced_tx_id: u32,
}

impl Chargeback {
    /// The client, as a specification value.
    pub closed spec fn spec_client_id(&self) -> u16 {
        self.client_id
    }

    /// The id of the deposit referred to, as a specification value.
    pub closed spec fn spec_referenced_tx_id(&self) -> u32 {
        self.referenced_tx_id
    }

    /// The chargeback that a record of valid shape stands for.
    pub closed spec fn of_record(record: TransactionRecord) -> Chargeback {
        Chargeback { client_id: record.client, referenced_tx_id: record.tx }
    }

    /// The client the chargeback is for.
    #[verifier::when_used_as_spec(spec_client_id)]
    pub fn client_id(&self) -> (r: u16)
        ensures
            r == self.spec_client_id(),
    {
        self.client_id
    }

    /// The id of the deposit this chargeback refers to.
    #[verifier::when_used_as_spec(spec_referenced_tx_id)]
    pub fn referenced_tx_id(&self) -> (r: u32)
        ensures
            r == self.spec_referenced_tx_id(),
    {
        self.referenced_tx_id
    }
}

impl TryFromSpecImpl<TransactionRecord> for Chargeback {
    open spec fn obeys_try_from_spec() -> bool {
        true
    }

    open spec fn try_from_spec(record: TransactionRecord) -> Result<Chargeback, TransactionError> {
        if record.tx_type == TransactionType::Chargeback && record.amount is None {
            Ok(Chargeback::of_record(record))
        } else {
            Err(TransactionError::InvalidTransaction(record))
        }
    }
}

impl TryFrom<TransactionRecord> for Chargeback {
    type Error = TransactionError;

    /// A record is a chargeback where it declares one and carries no amount.
    fn try_from(record: TransactionRecord) -> (r: Result<Chargeback, TransactionError>)
        ensures
            r is Ok <==> record.tx_type == TransactionType::Chargeback && record.amount is None,
            r matches Ok(d) ==> d.client_id() == record.client && d.referenced_tx_id()
                == record.tx,
            r matches Err(e) ==> e == TransactionError::InvalidTransaction(record),
    {
        match record.tx_type {
            TransactionType::Chargeback => match record.amount {
                None => Ok(Chargeback { client_id: record.client, referenced_tx_id: record.tx }),
                Some(_) => Err(TransactionError::InvalidTransaction(record)),
            },
            _ => Err(TransactionError::InvalidTransaction(record)),
        }
    }
}

} // verus!
