//! Disputes.

use crate::error::TransactionError;
use crate::transaction::{TransactionRecord, TransactionType};
use vstd::prelude::*;
use vstd::std_specs::convert::TryFromSpecImpl;

verus! {

/// A validated dispute: the client's claim that a deposit was made in error.
/// The disputed funds are held until the dispute is resolved or charged back.
#[derive(Clone, Copy, Debug)]
pub struct Dispute {
    client_id: u16,
    referenced_tx_id: u32,
}

impl Dispute {
    /// The client, as a specification value.
    pub closed spec fn spec_client_id(&self) -> u16 {
        self.client_id
    }

    /// The id of the deposit referred to, as a specification value.
    pub closed spec fn spec_referenced_tx_id(&self) -> u32 {
        self.referenced_tx_id
    }

    /// The dispute that a record of valid shape stands for.
    pub closed spec fn of_record(record: TransactionRecord) -> Dispute {
        Dispute { client_id: record.client, referenced_tx_id: record.tx }
    }

    /// The client the dispute is for.
    #[verifier::when_used_as_spec(spec_client_id)]
    pub fn client_id(&self) -> (r: u16)
        ensures
            r == self.spec_client_id(),
    {
        self.client_id
    }

    /// The id of the deposit this dispute refers to.
    #[verifier::when_used_as_spec(spec_referenced_tx_id)]
    pub fn referenced_tx_id(&self) -> (r: u32)
        ensures
            r == self.spec_referenced_tx_id(),
    {
        self.referenced_tx_id
    }
}

impl TryFromSpecImpl<TransactionRecord> for Dispute {
    open spec fn obeys_try_from_spec() -> bool {
        true
    }

    open spec fn try_from_spec(record: TransactionRecord) -> Result<Dispute, TransactionError> {
        if record.tx_type == TransactionType::Dispute && record.amount is None {
            Ok(Dispute::of_record(record))
        } else {
            Err(TransactionError::InvalidTransaction(record))
        }
    }
}

impl TryFrom<TransactionRecord> for Dispute {
    type Error = TransactionError;

    /// A record is a dispute where it declares one and carries no amount.
    fn try_from(record: TransactionRecord) -> (r: Result<Dispute, TransactionError>)
        ensures
            r is Ok <==> record.tx_type == TransactionType::Dispute && record.amount is None,
            r matches Ok(d) ==> d.client_id() == record.client && d.referenced_tx_id()
                == record.tx,
            r matches Err(e) ==> e == TransactionError::InvalidTransaction(record),
    {
        match record.tx_type {
            TransactionType::Dispute => match record.amount {
                None => Ok(Dispute { client_id: record.client, referenced_tx_id: record.tx }),
                Some(_) => Err(TransactionError::InvalidTransaction(record)),
            },
            _ => Err(TransactionError::InvalidTransaction(record)),
        }
    }
}

} // verus!
