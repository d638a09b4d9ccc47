//! What holds of the rules, whatever the state and the transaction.

use crate::account::{AccountView, ClientId};
use crate::error::Rejection;
use crate::model::{EngineView, TransactionId};
use crate::transaction::{Transaction, TransactionRecord};
use vstd::prelude::*;

verus! {

/// Each of the five changes to an account keeps the total equal to what is
/// available and what is held.
pub proof fn law_account_changes_keep_the_balance(account: AccountView, amount: int)
    requires
        account.balanced(),
    ensures
        account.deposit(amount).balanced(),
        account.withdraw(amount).balanced(),
        account.hold(amount).balanced(),
        account.release(amount).balanced(),
        account.chargeback(amount).balanced(),
{
}

/// Of the five changes to an account only a chargeback touches the lock, and
/// it sets it: no change unlocks an account.
pub proof fn law_account_changes_never_unlock(account: AccountView, amount: int)
    ensures
        account.deposit(amount).locked == account.locked,
        account.withdraw(amount).locked == account.locked,
        account.hold(amount).locked == account.locked,
        account.release(amount).locked == account.locked,
        account.chargeback(amount).locked,
{
}

/// Holding an amount and releasing it again leaves the account exactly as it
/// was.
pub proof fn law_hold_then_release_restores(account: AccountView, amount: int)
    ensures
        account.hold(amount).release(amount) == account,
{
}

/// A transaction that is turned away changes nothing.
pub proof fn law_rejection_changes_nothing(state: EngineView, transaction: Transaction)
    requires
        state.apply(transaction).outcome is Err,
    ensures
        state.apply(transaction).state == state,
{
}

/// Whatever the transaction, every account is balanced afterwards, and is
/// still filed under its own client.
pub proof fn law_every_account_stays_balanced(state: EngineView, transaction: Transaction)
    requires
        state.wf(),
    ensures
        forall|c: ClientId| #[trigger]
            state.apply(transaction).state.accounts.contains_key(c) ==> {
                &&& state.apply(transaction).state.accounts[c].client == c
                &&& state.apply(transaction).state.accounts[c].balanced()
            },
{
    let after = state.apply(transaction).state;
    if state.deposits.contains_key(transaction.tx()) {
        assert(state.accounts.contains_key(state.deposits[transaction.tx()].client));
    }
    assert forall|c: ClientId| #[trigger] after.accounts.contains_key(c) implies {
        &&& after.accounts[c].client == c
        &&& after.accounts[c].balanced()
    } by {
        if c != transaction.client() {
            assert(state.accounts.contains_key(c));
        }
    }
}

/// No transaction removes an account, and no transaction unlocks one: once
/// locked, an account stays locked.
pub proof fn law_lock_is_permanent(state: EngineView, transaction: Transaction, client: ClientId)
    requires
        state.wf(),
        state.accounts.contains_key(client),
    ensures
        state.apply(transaction).state.accounts.contains_key(client),
        state.accounts[client].locked ==> state.apply(transaction).state.accounts[client].locked,
{
}

/// A locked account takes no deposit, no withdrawal, no dispute and no
/// resolve: each is turned away, and nothing changes.
pub proof fn law_locked_account_is_frozen(state: EngineView, transaction: Transaction)
    requires
        state.wf(),
        !(transaction is Chargeback),
        state.accounts.contains_key(transaction.client()),
        state.accounts[transaction.client()].locked,
    ensures
        state.apply(transaction).outcome is Err,
        state.apply(transaction).state == state,
{
}

/// The ledger records a deposit when it is applied, under its own id, and at
/// no other time: whatever else happens leaves the ledger as it was.
pub proof fn law_ledger_records_applied_deposits(state: EngineView, transaction: Transaction)
    ensures
        transaction is Deposit && state.apply(transaction).outcome is Ok ==> {
            &&& state.apply(transaction).state.deposits.dom() == state.deposits.dom().insert(
                transaction.tx(),
            )
            &&& state.apply(transaction).state.deposits[transaction.tx()].client
                == transaction.client()
            &&& state.apply(transaction).state.deposits[transaction.tx()].amount
                == transaction.amount().unwrap().units()
            &&& forall|t: TransactionId|
                t != transaction.tx() && #[trigger] state.deposits.contains_key(t)
                    ==> state.apply(transaction).state.deposits[t] == state.deposits[t]
        },
        !(transaction is Deposit && state.apply(transaction).outcome is Ok) ==> state.apply(
            transaction,
        ).state.deposits == state.deposits,
{
}

/// Only the account of the transaction's own client can change.
pub proof fn law_other_accounts_are_untouched(
    state: EngineView,
    transaction: Transaction,
    other: ClientId,
)
    requires
        other != transaction.client(),
    ensures
        state.apply(transaction).state.accounts.contains_key(other)
            == state.accounts.contains_key(other),
        state.accounts.contains_key(other) ==> state.apply(transaction).state.accounts[other]
            == state.accounts[other],
{
}

/// A dispute, a resolve or a chargeback that names a deposit of another
/// client is turned away as a mismatch, whatever the dispute set and the lock
/// say, and nothing changes.
pub proof fn law_foreign_deposit_is_never_touched(
    state: EngineView,
    client: ClientId,
    tx: TransactionId,
)
    requires
        state.deposits.contains_key(tx),
        state.deposits[tx].client != client,
    ensures
        state.dispute(client, tx) == state.rejected(
            Rejection::ClientMismatch { tx, expected: state.deposits[tx].client, got: client },
        ),
        state.resolve(client, tx) == state.dispute(client, tx),
        state.chargeback(client, tx) == state.dispute(client, tx),
{
}

/// A dispute, a resolve or a chargeback that names a transaction id without
/// an applied deposit is turned away as not found, and nothing changes.
pub proof fn law_unknown_deposit_is_not_found(
    state: EngineView,
    client: ClientId,
    tx: TransactionId,
)
    requires
        !state.deposits.contains_key(tx),
    ensures
        state.dispute(client, tx) == state.rejected(Rejection::TransactionNotFound { tx }),
        state.resolve(client, tx) == state.dispute(client, tx),
        state.chargeback(client, tx) == state.dispute(client, tx),
{
}

/// Disputing a deposit and then resolving the dispute restores the state
/// exactly: every balance, the ledger and the dispute set are as before.
pub proof fn law_dispute_then_resolve_restores(
    state: EngineView,
    client: ClientId,
    tx: TransactionId,
)
    requires
        state.wf(),
        state.dispute(client, tx).outcome is Ok,
    ensures
        state.dispute(client, tx).state.resolve(client, tx).outcome is Ok,
        state.dispute(client, tx).state.resolve(client, tx).state == state,
{
    let disputed = state.dispute(client, tx).state;
    let resolved = disputed.resolve(client, tx).state;
    assert(state.accounts.contains_key(client));
    assert(resolved.accounts =~= state.accounts);
    assert(resolved.disputes =~= state.disputes);
}

/// A resolved dispute leaves the deposit as it was before the dispute, so it
/// can be disputed again: the second dispute is applied as the first was.
pub proof fn law_resolved_deposit_can_be_disputed_again(
    state: EngineView,
    client: ClientId,
    tx: TransactionId,
)
    requires
        state.wf(),
        state.dispute(client, tx).outcome is Ok,
    ensures
        state.dispute(client, tx).state.resolve(client, tx).state.dispute(client, tx)
            == state.dispute(client, tx),
{
    law_dispute_then_resolve_restores(state, client, tx);
}

/// Disputing a deposit a second time is turned away and changes nothing: two
/// disputes in a row leave what one leaves.
pub proof fn law_second_dispute_changes_nothing(
    state: EngineView,
    client: ClientId,
    tx: TransactionId,
)
    requires
        state.dispute(client, tx).outcome is Ok,
    ensures
        state.dispute(client, tx).state.dispute(client, tx) == state.dispute(
            client,
            tx,
        ).state.rejected(Rejection::AlreadyUnderDispute { tx }),
{
}

/// A chargeback ends the dispute for good: the account is locked, so the
/// deposit cannot be disputed again, and with the dispute gone it can be
/// neither resolved nor charged back again.
pub proof fn law_chargeback_is_terminal(state: EngineView, client: ClientId, tx: TransactionId)
    requires
        state.wf(),
        state.chargeback(client, tx).outcome is Ok,
    ensures
        state.chargeback(client, tx).state.accounts[client].locked,
        state.chargeback(client, tx).state.dispute(client, tx).outcome is Err,
        state.chargeback(client, tx).state.resolve(client, tx).outcome is Err,
        state.chargeback(client, tx).state.chargeback(client, tx).outcome is Err,
{
    assert(state.accounts.contains_key(client));
}

/// A record does what the transaction does that holds what the record
/// holds.
pub proof fn law_record_stands_for_its_transaction(
    state: EngineView,
    record: TransactionRecord,
    transaction: Transaction,
)
    requires
        transaction.matches_record(record),
    ensures
        state.apply_record(record) == state.apply(transaction),
{
    assert(transaction.kind() == record.tx_type);
}

/// A record that fails changes nothing, and so does a record that a business
/// rule turns away: only a record that is applied changes the state.
pub proof fn law_only_applied_records_change_the_state(
    state: EngineView,
    record: TransactionRecord,
)
    ensures
        !(state.process_record(record).outcome matches Ok(Ok(_))) ==> state.process_record(
            record,
        ).state == state,
{
}

/// A record leaves every account balanced and within the ledger's range,
/// whatever the record is.
pub proof fn law_record_keeps_every_account_balanced(state: EngineView, record: TransactionRecord)
    requires
        state.wf(),
    ensures
        state.process_record(record).state.wf(),
{
}

/// A run leaves a state in which every account is balanced and within the
/// ledger's range, whatever the records are and wherever the run stops.
pub proof fn law_run_keeps_every_account_balanced(
    state: EngineView,
    records: Seq<TransactionRecord>,
)
    requires
        state.wf(),
    ensures
        state.run(records).state.wf(),
    decreases records.len(),
{
    if records.len() > 0 {
        law_run_keeps_every_account_balanced(state, records.drop_last());
    }
}

/// A run removes no account and unlocks none: an account that is locked
/// stays locked through every record that follows.
pub proof fn law_run_never_unlocks(
    state: EngineView,
    records: Seq<TransactionRecord>,
    client: ClientId,
)
    requires
        state.wf(),
        state.accounts.contains_key(client),
    ensures
        state.run(records).state.accounts.contains_key(client),
        state.accounts[client].locked ==> state.run(records).state.accounts[client].locked,
    decreases records.len(),
{
    if records.len() > 0 {
        law_run_never_unlocks(state, records.drop_last(), client);
        law_run_keeps_every_account_balanced(state, records.drop_last());
    }
}

/// A run that is not stopped has applied or skipped each of its records.
pub proof fn law_run_counts_every_record(state: EngineView, records: Seq<TransactionRecord>)
    ensures
        state.run(records).failed is None ==> state.run(records).processed + state.run(
            records,
        ).skipped == records.len(),
    decreases records.len(),
{
    if records.len() > 0 {
        law_run_counts_every_record(state, records.drop_last());
    }
}

/// Records are applied one after the other: a run over two sequences in a
/// row leaves the state that a run over the first and then a run over the
/// second leave, where the first is not stopped.
pub proof fn law_run_goes_record_by_record(
    state: EngineView,
    first: Seq<TransactionRecord>,
    second: Seq<TransactionRecord>,
)
    requires
        state.run(first).failed is None,
    ensures
        state.run(first + second).state == state.run(first).state.run(second).state,
        state.run(first + second).failed == state.run(first).state.run(second).failed,
        state.run(first + second).processed == state.run(first).processed + state.run(
            first,
        ).state.run(second).processed,
        state.run(first + second).skipped == state.run(first).skipped + state.run(
            first,
        ).state.run(second).skipped,
    decreases second.len(),
{
    if second.len() == 0 {
        assert(first + second =~= first);
    } else {
        assert((first + second).drop_last() =~= first + second.drop_last());
        assert((first + second).last() == second.last());
        law_run_goes_record_by_record(state, first, second.drop_last());
    }
}

/// The accounts below a client id are listed by rising client id, each is
/// an account of the state, and each account of the state with an id below
/// the bound is listed.
pub proof fn lemma_accounts_below_are_in_order(state: EngineView, n: nat)
    requires
        state.wf(),
        n <= 0x1_0000,
    ensures
        forall|i: int|
            0 <= i < state.accounts_below(n).len() ==> {
                &&& (#[trigger] state.accounts_below(n)[i]).client < n
                &&& state.accounts.contains_key(state.accounts_below(n)[i].client)
                &&& state.accounts[state.accounts_below(n)[i].client] == state.accounts_below(
                    n,
                )[i]
            },
        forall|i: int, j: int|
            0 <= i < j < state.accounts_below(n).len() ==> (#[trigger] state.accounts_below(
                n,
            )[i]).client < (#[trigger] state.accounts_below(n)[j]).client,
        forall|c: ClientId|
            c < n && #[trigger] state.accounts.contains_key(c) ==> exists|i: int|
                0 <= i < state.accounts_below(n).len() && (#[trigger] state.accounts_below(
                    n,
                )[i]).client == c,
        state.accounts_below(n).len() == state.accounts.dom().filter(|c: ClientId| c < n).len(),
    decreases n,
{
    let listed = state.accounts_below(n);
    let below = state.accounts.dom().filter(|c: ClientId| c < n);
    if n == 0 {
        assert(below =~= Set::empty());
    } else {
        let last = (n - 1) as ClientId;
        let before = state.accounts_below((n - 1) as nat);
        let below_before = state.accounts.dom().filter(|c: ClientId| c < n - 1);
        lemma_accounts_below_are_in_order(state, (n - 1) as nat);
        if state.accounts.contains_key(last) {
            assert(listed == before.push(state.accounts[last]));
            assert(below =~= below_before.insert(last));
            assert forall|c: ClientId|
                c < n && #[trigger] state.accounts.contains_key(c) implies exists|i: int|
                0 <= i < listed.len() && (#[trigger] listed[i]).client == c by {
                if c < n - 1 {
                    let i = choose|i: int| 0 <= i < before.len() && (#[trigger] before[i]).client == c;
                    assert(listed[i] == before[i]);
                } else {
                    assert(listed[listed.len() - 1].client == c);
                }
            }
        } else {
            assert(below =~= below_before);
        }
    }
}

/// The snapshot lists every account exactly once, by rising client id.
pub proof fn law_snapshot_lists_every_account_once(state: EngineView)
    requires
        state.wf(),
    ensures
        state.snapshot().len() == state.accounts.len(),
        forall|i: int|
            0 <= i < state.snapshot().len() ==> {
                &&& state.accounts.contains_key((#[trigger] state.snapshot()[i]).client)
                &&& state.accounts[state.snapshot()[i].client] == state.snapshot()[i]
            },
        forall|i: int, j: int|
            0 <= i < j < state.snapshot().len() ==> (#[trigger] state.snapshot()[i]).client < (
            #[trigger] state.snapshot()[j]).client,
        forall|c: ClientId| #[trigger]
            state.accounts.contains_key(c) ==> exists|i: int|
                0 <= i < state.snapshot().len() && (#[trigger] state.snapshot()[i]).client == c,
{
    let listed = state.accounts_below(0x1_0000);
    lemma_accounts_below_are_in_order(state, 0x1_0000);
    assert(state.accounts.dom().filter(|c: ClientId| c < 0x1_0000) =~= state.accounts.dom());
    assert forall|c: ClientId| #[trigger] state.accounts.contains_key(c) implies exists|i: int|
        0 <= i < state.snapshot().len() && (#[trigger] state.snapshot()[i]).client == c by {
        assert(c < 0x1_0000);
        let i = choose|i: int| 0 <= i < listed.len() && (#[trigger] listed[i]).client == c;
        assert(state.snapshot()[i].client == c);
    }
}

} // verus!
