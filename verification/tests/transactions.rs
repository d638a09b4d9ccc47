use payment_engine::{
    Amount, Chargeback, Deposit, Dispute, Resolve, Transaction, TransactionError,
    TransactionRecord, TransactionType, Withdrawal,
};

fn dec(mantissa: i128, scale: u32) -> Amount {
    Amount::new(mantissa, scale).unwrap()
}

fn record(
    tx_type: TransactionType,
    client: u16,
    tx: u32,
    amount: Option<Amount>,
) -> TransactionRecord {
    TransactionRecord { tx_type, client, tx, amount }
}

fn deposit_record(amount: Option<Amount>) -> TransactionRecord {
    record(TransactionType::Deposit, 1, 1, amount)
}

fn withdrawal_record(amount: Option<Amount>) -> TransactionRecord {
    record(TransactionType::Withdrawal, 1, 1, amount)
}

// ---- deposit ----

#[test]
fn test_valid_deposit() {
    let record = deposit_record(Some(dec(1005, 1)));
    let deposit = Deposit::try_from(record).unwrap();

    assert_eq!(deposit.client_id(), 1);
    assert_eq!(deposit.transaction_id(), 1);
    assert_eq!(deposit.amount(), dec(1005, 1));
}

#[test]
fn test_valid_deposit_with_4_decimals() {
    let record = deposit_record(Some(dec(12345, 4)));
    let deposit = Deposit::try_from(record).unwrap();
    assert_eq!(deposit.amount(), dec(12345, 4));
}

#[test]
fn deposit_test_rejects_more_than_4_decimals() {
    let record = deposit_record(Some(dec(123456, 5)));
    assert!(Deposit::try_from(record).is_err());
}

#[test]
fn deposit_test_rejects_negative_amount() {
    let record = deposit_record(Some(dec(-100, 0)));
    assert!(Deposit::try_from(record).is_err());
}

#[test]
fn deposit_test_rejects_zero_amount() {
    let record = deposit_record(Some(Amount::zero()));
    assert!(Deposit::try_from(record).is_err());
}

#[test]
fn deposit_test_rejects_missing_amount() {
    let record = deposit_record(None);
    assert!(Deposit::try_from(record).is_err());
}

#[test]
fn deposit_test_rejects_wrong_transaction_type() {
    let record = record(TransactionType::Withdrawal, 1, 1, Some(dec(100, 0)));
    assert!(Deposit::try_from(record).is_err());
}

// ---- withdrawal ----

#[test]
fn test_valid_withdrawal() {
    let record = withdrawal_record(Some(dec(5025, 2)));
    let withdrawal = Withdrawal::try_from(record).unwrap();

    assert_eq!(withdrawal.client_id(), 1);
    assert_eq!(withdrawal.transaction_id(), 1);
    assert_eq!(withdrawal.amount(), dec(5025, 2));
}

#[test]
fn test_valid_withdrawal_with_4_decimals() {
    let record = withdrawal_record(Some(dec(12345, 4)));
    let withdrawal = Withdrawal::try_from(record).unwrap();
    assert_eq!(withdrawal.amount(), dec(12345, 4));
}

#[test]
fn withdrawal_test_rejects_more_than_4_decimals() {
    let record = withdrawal_record(Some(dec(123456, 5)));
    assert!(Withdrawal::try_from(record).is_err());
}

#[test]
fn withdrawal_test_rejects_negative_amount() {
    let record = withdrawal_record(Some(dec(-100, 0)));
    assert!(Withdrawal::try_from(record).is_err());
}

#[test]
fn withdrawal_test_rejects_zero_amount() {
    let record = withdrawal_record(Some(Amount::zero()));
    assert!(Withdrawal::try_from(record).is_err());
}

#[test]
fn withdrawal_test_rejects_missing_amount() {
    let record = withdrawal_record(None);
    assert!(Withdrawal::try_from(record).is_err());
}

#[test]
fn withdrawal_test_rejects_wrong_transaction_type() {
    let record = record(TransactionType::Deposit, 1, 1, Some(dec(100, 0)));
    assert!(Withdrawal::try_from(record).is_err());
}

// ---- dispute ----

#[test]
fn test_valid_dispute() {
    let record = TransactionRecord {
        tx_type: TransactionType::Dispute,
        client: 1,
        tx: 5,
        amount: None,
    };
    let dispute = Dispute::try_from(record).unwrap();

    assert_eq!(dispute.client_id(), 1);
    assert_eq!(dispute.referenced_tx_id(), 5);
}

#[test]
fn dispute_test_rejects_with_amount() {
    let record = TransactionRecord {
        tx_type: TransactionType::Dispute,
        client: 1,
        tx: 5,
        amount: Some(dec(100, 0)),
    };
    assert!(Dispute::try_from(record).is_err());
}

#[test]
fn dispute_test_rejects_wrong_transaction_type() {
    let record = TransactionRecord {
        tx_type: TransactionType::Deposit,
        client: 1,
        tx: 5,
        amount: None,
    };
    assert!(Dispute::try_from(record).is_err());
}

// ---- resolve ----

#[test]
fn test_valid_resolve() {
    let record = TransactionRecord {
        tx_type: TransactionType::Resolve,
        client: 2,
        tx: 5,
        amount: None,
    };
    let resolve = Resolve::try_from(record).unwrap();

    assert_eq!(resolve.client_id(), 2);
    assert_eq!(resolve.referenced_tx_id(), 5);
}

#[test]
fn resolve_test_rejects_with_amount() {
    let record = TransactionRecord {
        tx_type: TransactionType::Resolve,
        client: 1,
        tx: 5,
        amount: Some(dec(100, 0)),
    };
    assert!(Resolve::try_from(record).is_err());
}

#[test]
fn resolve_test_rejects_wrong_transaction_type() {
    let record = TransactionRecord {
        tx_type: TransactionType::Dispute,
        client: 1,
        tx: 5,
        amount: None,
    };
    assert!(Resolve::try_from(record).is_err());
}

// ---- chargeback ----

#[test]
fn test_valid_chargeback() {
    let record = TransactionRecord {
        tx_type: TransactionType::Chargeback,
        client: 3,
        tx: 10,
        amount: None,
    };
    let chargeback = Chargeback::try_from(record).unwrap();

    assert_eq!(chargeback.client_id(), 3);
    assert_eq!(chargeback.referenced_tx_id(), 10);
}

#[test]
fn chargeback_test_rejects_with_amount() {
    let record = TransactionRecord {
        tx_type: TransactionType::Chargeback,
        client: 1,
        tx: 5,
        amount: Some(dec(100, 0)),
    };
    assert!(Chargeback::try_from(record).is_err());
}

#[test]
fn chargeback_test_rejects_wrong_transaction_type() {
    let record = TransactionRecord {
        tx_type: TransactionType::Resolve,
        client: 1,
        tx: 5,
        amount: None,
    };
    assert!(Chargeback::try_from(record).is_err());
}

// ---- the typed transaction ----

#[test]
fn rejection_carries_the_offending_record() {
    let bad = deposit_record(Some(dec(123456, 5)));
    assert_eq!(Deposit::try_from(bad).unwrap_err(), TransactionError::InvalidTransaction(bad));
    assert_eq!(Transaction::try_from(bad).unwrap_err(), TransactionError::InvalidTransaction(bad));
    let bad = record(TransactionType::Resolve, 2, 9, Some(dec(1, 0)));
    assert_eq!(Resolve::try_from(bad).unwrap_err(), TransactionError::InvalidTransaction(bad));
    assert_eq!(Transaction::try_from(bad).unwrap_err(), TransactionError::InvalidTransaction(bad));
}

#[test]
fn each_kind_of_record_is_typed_as_its_own_kind() {
    let amount = dec(15, 1);
    match Transaction::try_from(record(TransactionType::Deposit, 3, 8, Some(amount))).unwrap() {
        Transaction::Deposit(d) => {
            assert_eq!((d.client_id(), d.transaction_id(), d.amount()), (3, 8, amount))
        }
        other => panic!("typed as {:?}", other),
    }
    match Transaction::try_from(record(TransactionType::Withdrawal, 3, 8, Some(amount))).unwrap() {
        Transaction::Withdrawal(w) => {
            assert_eq!((w.client_id(), w.transaction_id(), w.amount()), (3, 8, amount))
        }
        other => panic!("typed as {:?}", other),
    }
    match Transaction::try_from(record(TransactionType::Dispute, 3, 8, None)).unwrap() {
        Transaction::Dispute(d) => assert_eq!((d.client_id(), d.referenced_tx_id()), (3, 8)),
        other => panic!("typed as {:?}", other),
    }
    match Transaction::try_from(record(TransactionType::Resolve, 3, 8, None)).unwrap() {
        Transaction::Resolve(r) => assert_eq!((r.client_id(), r.referenced_tx_id()), (3, 8)),
        other => panic!("typed as {:?}", other),
    }
    match Transaction::try_from(record(TransactionType::Chargeback, 3, 8, None)).unwrap() {
        Transaction::Chargeback(c) => assert_eq!((c.client_id(), c.referenced_tx_id()), (3, 8)),
        other => panic!("typed as {:?}", other),
    }
}

#[test]
fn the_typed_transaction_rejects_what_its_kind_rejects() {
    for tx_type in [TransactionType::Deposit, TransactionType::Withdrawal] {
        assert!(Transaction::try_from(record(tx_type, 1, 1, None)).is_err());
        assert!(Transaction::try_from(record(tx_type, 1, 1, Some(Amount::zero()))).is_err());
        assert!(Transaction::try_from(record(tx_type, 1, 1, Some(dec(-1, 4)))).is_err());
        assert!(Transaction::try_from(record(tx_type, 1, 1, Some(dec(1, 5)))).is_err());
        assert!(Transaction::try_from(record(tx_type, 1, 1, Some(dec(1, 4)))).is_ok());
        assert!(Transaction::try_from(record(tx_type, 1, 1, Some(dec(1, 0)))).is_ok());
    }
    for tx_type in
        [TransactionType::Dispute, TransactionType::Resolve, TransactionType::Chargeback]
    {
        assert!(Transaction::try_from(record(tx_type, 1, 1, None)).is_ok());
        assert!(Transaction::try_from(record(tx_type, 1, 1, Some(dec(1, 0)))).is_err());
    }
}

#[test]
fn each_conversion_refuses_every_other_kind() {
    let kinds = [
        TransactionType::Deposit,
        TransactionType::Withdrawal,
        TransactionType::Dispute,
        TransactionType::Resolve,
        TransactionType::Chargeback,
    ];
    for kind in kinds {
        for amount in [None, Some(dec(100, 0))] {
            let r = record(kind, 1, 5, amount);
            let with = amount.is_some();
            assert_eq!(Deposit::try_from(r).is_ok(), kind == TransactionType::Deposit && with);
            assert_eq!(
                Withdrawal::try_from(r).is_ok(),
                kind == TransactionType::Withdrawal && with
            );
            assert_eq!(Dispute::try_from(r).is_ok(), kind == TransactionType::Dispute && !with);
            assert_eq!(Resolve::try_from(r).is_ok(), kind == TransactionType::Resolve && !with);
            assert_eq!(
                Chargeback::try_from(r).is_ok(),
                kind == TransactionType::Chargeback && !with
            );
        }
    }
}

#[test]
fn ids_at_the_ends_of_their_ranges_are_kept() {
    let record = record(TransactionType::Deposit, u16::MAX, u32::MAX, Some(dec(1, 4)));
    let deposit = Deposit::try_from(record).unwrap();
    assert_eq!(deposit.client_id(), 65535);
    assert_eq!(deposit.transaction_id(), 4294967295);
    let record = TransactionRecord { tx_type: TransactionType::Dispute, client: 0, tx: 0, amount: None };
    let dispute = Dispute::try_from(record).unwrap();
    assert_eq!(dispute.client_id(), 0);
    assert_eq!(dispute.referenced_tx_id(), 0);
}
