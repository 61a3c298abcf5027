use my_transaction_engine::{Ledger, RejectReason, Transaction, TransactionKind};

fn tx(kind: TransactionKind, id: u32, client: u16, amount: i128) -> Transaction {
    Transaction { id, kind, client_id: client, amount }
}

fn dep(id: u32, client: u16, amount: i128) -> Transaction {
    tx(TransactionKind::Deposit, id, client, amount)
}

fn wd(id: u32, client: u16, amount: i128) -> Transaction {
    tx(TransactionKind::Withdrawal, id, client, amount)
}

fn refer(kind: TransactionKind, id: u32, client: u16) -> Transaction {
    tx(kind, id, client, 0)
}

fn balances(l: &Ledger, client: u16) -> (i128, i128, i128, bool) {
    let c = l.clients.iter().find(|c| c.id == client).unwrap();
    (c.available, c.held, c.total, c.locked)
}

// Amounts are in ten-thousandths: 50_000 stands for 5.0000.

#[test]
fn test_deposit_then_dispute_scenario() {
    let mut l = Ledger::default();
    assert_eq!(l.process_tx(dep(1, 1, 50_000)), Ok(()));
    assert_eq!(l.process_tx(refer(TransactionKind::Dispute, 1, 1)), Ok(()));
    assert_eq!(balances(&l, 1), (0, 50_000, 50_000, false));
}

#[test]
fn test_chargeback_of_withdrawal_scenario() {
    let mut l = Ledger::default();
    assert_eq!(l.process_tx(dep(1, 1, 50_000)), Ok(()));
    assert_eq!(l.process_tx(wd(2, 1, 25_000)), Ok(()));
    assert_eq!(l.process_tx(refer(TransactionKind::Dispute, 2, 1)), Ok(()));
    assert_eq!(balances(&l, 1), (50_000, -25_000, 25_000, false));
    assert_eq!(l.process_tx(refer(TransactionKind::Chargeback, 2, 1)), Ok(()));
    // chargeback of a withdrawal: held += amount, total += amount, locked
    assert_eq!(balances(&l, 1), (50_000, 0, 50_000, true));
}

#[test]
fn test_total_tracks_available_minus_held() {
    // a deposit onto an account with frozen funds recomputes
    // total = available - held, the engine's documented divergence from
    // total = available + held
    let mut l = Ledger::default();
    assert_eq!(l.process_tx(dep(1, 1, 50_000)), Ok(()));
    assert_eq!(l.process_tx(refer(TransactionKind::Dispute, 1, 1)), Ok(()));
    assert_eq!(l.process_tx(dep(2, 1, 30_000)), Ok(()));
    assert_eq!(balances(&l, 1), (30_000, 50_000, -20_000, false));
}

#[test]
fn test_total_consistency_when_nothing_held() {
    let mut l = Ledger::default();
    assert_eq!(l.process_tx(dep(1, 1, 50_000)), Ok(()));
    assert_eq!(l.process_tx(wd(2, 1, 20_000)), Ok(()));
    let (available, held, total, _) = balances(&l, 1);
    assert_eq!(total, available + held);
    assert_eq!((available, held, total), (30_000, 0, 30_000));
}

#[test]
fn test_negative_amount_rejected() {
    let mut l = Ledger::default();
    assert_eq!(l.process_tx(dep(1, 1, -1)), Err(RejectReason::NegativeAmount));
    assert!(l.clients.is_empty());
}

#[test]
fn test_duplicate_id_rejected() {
    let mut l = Ledger::default();
    assert_eq!(l.process_tx(dep(1, 1, 10_000)), Ok(()));
    assert_eq!(l.process_tx(dep(1, 1, 10_000)), Err(RejectReason::DuplicateTransactionId));
    // the duplicate guard is global: a withdrawal reusing the id is rejected too
    assert_eq!(l.process_tx(wd(1, 1, 10_000)), Err(RejectReason::DuplicateTransactionId));
    assert_eq!(balances(&l, 1), (10_000, 0, 10_000, false));
}

#[test]
fn test_withdrawal_from_unknown_account_rejected() {
    let mut l = Ledger::default();
    assert_eq!(l.process_tx(wd(1, 7, 10_000)), Err(RejectReason::UnknownAccount));
    assert!(l.clients.is_empty());
}

#[test]
fn test_insufficient_funds_rejected() {
    let mut l = Ledger::default();
    assert_eq!(l.process_tx(dep(1, 1, 10_000)), Ok(()));
    assert_eq!(l.process_tx(wd(2, 1, 10_001)), Err(RejectReason::InsufficientFunds));
    assert_eq!(balances(&l, 1), (10_000, 0, 10_000, false));
}

#[test]
fn test_dispute_of_unknown_tx_rejected() {
    let mut l = Ledger::default();
    assert_eq!(l.process_tx(dep(1, 1, 10_000)), Ok(()));
    assert_eq!(
        l.process_tx(refer(TransactionKind::Dispute, 42, 1)),
        Err(RejectReason::UnknownReferencedTransaction)
    );
    assert_eq!(balances(&l, 1), (10_000, 0, 10_000, false));
}

#[test]
fn test_resolve_of_undisputed_tx_rejected() {
    let mut l = Ledger::default();
    assert_eq!(l.process_tx(dep(1, 1, 10_000)), Ok(()));
    assert_eq!(l.process_tx(refer(TransactionKind::Resolve, 1, 1)), Err(RejectReason::NotDisputed));
    assert_eq!(balances(&l, 1), (10_000, 0, 10_000, false));
}

#[test]
fn test_chargeback_of_undisputed_tx_rejected() {
    let mut l = Ledger::default();
    assert_eq!(l.process_tx(dep(1, 1, 10_000)), Ok(()));
    assert_eq!(
        l.process_tx(refer(TransactionKind::Chargeback, 1, 1)),
        Err(RejectReason::NotDisputed)
    );
    assert_eq!(balances(&l, 1), (10_000, 0, 10_000, false));
}

#[test]
fn test_locked_account_rejects_everything() {
    let mut l = Ledger::default();
    assert_eq!(l.process_tx(dep(1, 1, 50_000)), Ok(()));
    assert_eq!(l.process_tx(refer(TransactionKind::Dispute, 1, 1)), Ok(()));
    assert_eq!(l.process_tx(refer(TransactionKind::Chargeback, 1, 1)), Ok(()));
    assert_eq!(balances(&l, 1), (0, 0, 0, true));
    assert_eq!(l.process_tx(dep(2, 1, 10_000)), Err(RejectReason::AccountLocked));
    assert_eq!(l.process_tx(wd(3, 1, 10_000)), Err(RejectReason::AccountLocked));
    assert_eq!(l.process_tx(refer(TransactionKind::Dispute, 1, 1)), Err(RejectReason::AccountLocked));
    assert_eq!(l.process_tx(refer(TransactionKind::Resolve, 1, 1)), Err(RejectReason::AccountLocked));
    assert_eq!(
        l.process_tx(refer(TransactionKind::Chargeback, 1, 1)),
        Err(RejectReason::AccountLocked)
    );
    assert_eq!(balances(&l, 1), (0, 0, 0, true));
}

#[test]
fn test_redispute_double_counts() {
    // re-disputing an already disputed id re-applies the adjustment
    let mut l = Ledger::default();
    assert_eq!(l.process_tx(dep(1, 1, 50_000)), Ok(()));
    assert_eq!(l.process_tx(refer(TransactionKind::Dispute, 1, 1)), Ok(()));
    assert_eq!(l.process_tx(refer(TransactionKind::Dispute, 1, 1)), Ok(()));
    assert_eq!(balances(&l, 1), (-50_000, 100_000, 50_000, false));
}

#[test]
fn test_balance_out_of_range_rejected() {
    let mut l = Ledger::default();
    assert_eq!(l.process_tx(dep(1, 1, i128::MAX)), Ok(()));
    assert_eq!(l.process_tx(dep(2, 1, 1)), Err(RejectReason::BalanceOutOfRange));
    assert_eq!(balances(&l, 1), (i128::MAX, 0, i128::MAX, false));
}

#[test]
fn test_dispute_against_other_client_adjusts_that_client() {
    // a dispute row names its own client; the referenced transaction's owner
    // is not consulted
    let mut l = Ledger::default();
    assert_eq!(l.process_tx(dep(1, 1, 50_000)), Ok(()));
    assert_eq!(l.process_tx(dep(2, 2, 70_000)), Ok(()));
    assert_eq!(l.process_tx(refer(TransactionKind::Dispute, 1, 2)), Ok(()));
    assert_eq!(balances(&l, 1), (50_000, 0, 50_000, false));
    assert_eq!(balances(&l, 2), (20_000, 50_000, 70_000, false));
}
