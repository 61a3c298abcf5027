//! Laws of the ledger engine, proved of the transition function
//! `model::step` (which `Ledger::process_tx` is proved to implement).

use vstd::prelude::*;

use crate::model::{
    acct_idx, in_range, is_locked, lemma_acct_idx, lemma_acct_idx_is, lemma_tx_idx, step,
    AccountModel, LedgerModel, TxModel,
};
use crate::types::{RejectReason, TransactionKind};

verus! {

/// A rejected transaction leaves the ledger unchanged, whatever the reason.
pub proof fn lemma_rejection_unchanged(m: LedgerModel, t: TxModel)
    ensures
        step(m, t).1 is Err ==> step(m, t).0 == m,
{
}

/// After an accepted deposit or withdrawal the target account exists and its
/// index is unchanged (or, for a first deposit, it is the newly appended
/// account); helper for the laws below.
proof fn lemma_target_account(m: LedgerModel, t: TxModel) -> (i: int)
    requires
        t.kind == TransactionKind::Deposit || t.kind == TransactionKind::Withdrawal,
        step(m, t).1 is Ok,
    ensures
        acct_idx(step(m, t).0.accounts, t.client_id) == Some(i),
        0 <= i < step(m, t).0.accounts.len(),
        step(m, t).0.accounts[i].id == t.client_id,
        match acct_idx(m.accounts, t.client_id) {
            Some(k) => i == k && step(m, t).0.accounts[i].held == m.accounts[k].held
                && step(m, t).0.accounts[i].locked == m.accounts[k].locked,
            None => i == m.accounts.len() && step(m, t).0.accounts[i].held == 0 && !step(
                m,
                t,
            ).0.accounts[i].locked,
        },
        step(m, t).0.accounts[i].total == step(m, t).0.accounts[i].available - step(
            m,
            t,
        ).0.accounts[i].held,
        forall|j: int|
            0 <= j < m.accounts.len() && j != i ==> step(m, t).0.accounts[j] == m.accounts[j],
{
    let m2 = step(m, t).0;
    lemma_acct_idx(m.accounts, t.client_id);
    match acct_idx(m.accounts, t.client_id) {
        Some(k) => {
            assert(forall|j: int| 0 <= j < k ==> m2.accounts[j].id != t.client_id);
            lemma_acct_idx_is(m2.accounts, t.client_id, k);
            k
        },
        None => {
            let n = m.accounts.len() as int;
            assert(forall|j: int| 0 <= j < n ==> m2.accounts[j].id != t.client_id);
            lemma_acct_idx_is(m2.accounts, t.client_id, n);
            n
        },
    }
}

/// After every accepted deposit or withdrawal the target account satisfies
/// `total == available - held` (the engine recomputes `total` that way).
pub proof fn lemma_accepted_total_recomputed(m: LedgerModel, t: TxModel)
    requires
        t.kind == TransactionKind::Deposit || t.kind == TransactionKind::Withdrawal,
        step(m, t).1 is Ok,
    ensures
        ({
            let accounts = step(m, t).0.accounts;
            match acct_idx(accounts, t.client_id) {
                Some(i) => accounts[i].total == accounts[i].available - accounts[i].held,
                None => false,
            }
        }),
{
    let i = lemma_target_account(m, t);
}

/// For an accepted deposit or withdrawal against an account holding no
/// disputed funds (`held == 0`, as for every freshly created account), the
/// accounting invariant `total == available + held` holds afterwards.
///
/// The restriction to `held == 0` is necessary: the engine recomputes
/// `total = available - held`, so a deposit onto an account whose `held` is
/// not zero (one with an open dispute of a deposit) leaves
/// `total != available + held`.
pub proof fn lemma_total_consistency(m: LedgerModel, t: TxModel)
    requires
        t.kind == TransactionKind::Deposit || t.kind == TransactionKind::Withdrawal,
        step(m, t).1 is Ok,
        match acct_idx(m.accounts, t.client_id) {
            Some(i) => m.accounts[i].held == 0,
            None => true,
        },
    ensures
        ({
            let accounts = step(m, t).0.accounts;
            match acct_idx(accounts, t.client_id) {
                Some(i) => accounts[i].total == accounts[i].available + accounts[i].held,
                None => false,
            }
        }),
{
    let i = lemma_target_account(m, t);
}

/// Replaying an accepted deposit or withdrawal is rejected as a duplicate
/// and changes nothing.
pub proof fn lemma_duplicate_rejected(m: LedgerModel, t: TxModel)
    requires
        t.kind == TransactionKind::Deposit || t.kind == TransactionKind::Withdrawal,
        step(m, t).1 is Ok,
    ensures
        step(step(m, t).0, t) == (step(m, t).0, Err::<(), RejectReason>(
            RejectReason::DuplicateTransactionId,
        )),
{
    let m2 = step(m, t).0;
    let i = lemma_target_account(m, t);
    assert(!is_locked(m2, t.client_id));
    lemma_tx_idx(m2.txs, t.id);
    assert(m2.txs[m2.txs.len() - 1].id == t.id);
    assert(tx_idx_some(m2.txs, t.id));
}

/// Shorthand: the id is recorded.
spec fn tx_idx_some(txs: Seq<TxModel>, id: int) -> bool {
    crate::model::tx_idx(txs, id) is Some
}

/// A withdrawal exceeding the available funds is rejected with
/// `InsufficientFunds` and leaves the ledger unchanged.
pub proof fn lemma_insufficient_funds_rejected(m: LedgerModel, t: TxModel, i: int)
    requires
        t.kind == TransactionKind::Withdrawal,
        t.amount >= 0,
        !is_locked(m, t.client_id),
        crate::model::tx_idx(m.txs, t.id) is None,
        acct_idx(m.accounts, t.client_id) == Some(i),
        0 <= i < m.accounts.len(),
        m.accounts[i].available - t.amount < 0,
    ensures
        step(m, t) == (m, Err::<(), RejectReason>(RejectReason::InsufficientFunds)),
{
}

/// A dispute referencing an id absent from history is rejected with
/// `UnknownReferencedTransaction` and leaves the ledger unchanged.
pub proof fn lemma_unknown_dispute_rejected(m: LedgerModel, t: TxModel)
    requires
        t.kind == TransactionKind::Dispute,
        t.amount >= 0,
        !is_locked(m, t.client_id),
        crate::model::tx_idx(m.txs, t.id) is None,
    ensures
        step(m, t) == (m, Err::<(), RejectReason>(RejectReason::UnknownReferencedTransaction)),
{
}

/// A resolve or chargeback referencing a recorded id that is not currently
/// disputed is rejected with `NotDisputed` and leaves the ledger unchanged.
pub proof fn lemma_undisputed_rejected(m: LedgerModel, t: TxModel)
    requires
        t.kind == TransactionKind::Resolve || t.kind == TransactionKind::Chargeback,
        t.amount >= 0,
        !is_locked(m, t.client_id),
        crate::model::tx_idx(m.txs, t.id) is Some,
        !m.disputed.contains(t.id),
    ensures
        step(m, t) == (m, Err::<(), RejectReason>(RejectReason::NotDisputed)),
{
}

/// An accepted chargeback locks the target account.
pub proof fn lemma_chargeback_locks(m: LedgerModel, t: TxModel)
    requires
        t.kind == TransactionKind::Chargeback,
        step(m, t).1 is Ok,
    ensures
        is_locked(step(m, t).0, t.client_id),
{
    let m2 = step(m, t).0;
    lemma_acct_idx(m.accounts, t.client_id);
    let i = acct_idx(m.accounts, t.client_id).unwrap();
    assert(forall|j: int| 0 <= j < i ==> m2.accounts[j].id != t.client_id);
    lemma_acct_idx_is(m2.accounts, t.client_id, i);
}

/// Every transaction of any kind against a locked account is rejected: with
/// `AccountLocked` when its amount is non-negative (dispute, resolve and
/// chargeback rows always are), and with `NegativeAmount` otherwise. The
/// ledger is unchanged either way.
pub proof fn lemma_locked_rejects(m: LedgerModel, t: TxModel)
    requires
        is_locked(m, t.client_id),
    ensures
        t.amount >= 0 ==> step(m, t) == (m, Err::<(), RejectReason>(RejectReason::AccountLocked)),
        step(m, t).1 is Err,
        step(m, t).0 == m,
{
}

/// In a well-formed ledger only deposits and withdrawals are ever recorded,
/// so no dispute, resolve or chargeback can find a referenced transaction of
/// another kind: the `InvalidReferencedKind` rejection is unreachable.
pub proof fn lemma_invalid_kind_unreachable(m: LedgerModel, t: TxModel)
    requires
        m.wf(),
    ensures
        step(m, t).1 != Err::<(), RejectReason>(RejectReason::InvalidReferencedKind),
{
    lemma_tx_idx(m.txs, t.id);
}

/// An account once locked stays locked, whatever transaction is applied.
pub proof fn lemma_lock_permanent(m: LedgerModel, t: TxModel, cid: int)
    requires
        is_locked(m, cid),
    ensures
        is_locked(step(m, t).0, cid),
{
    let m2 = step(m, t).0;
    if step(m, t).1 is Ok {
        lemma_acct_idx(m.accounts, cid);
        let k = acct_idx(m.accounts, cid).unwrap();
        assert(t.client_id != cid);
        if t.kind == TransactionKind::Deposit || t.kind == TransactionKind::Withdrawal {
            let i = lemma_target_account(m, t);
            lemma_acct_idx(m.accounts, t.client_id);
            assert(i != k);
            assert(m2.accounts[k] == m.accounts[k]);
            assert forall|j: int| 0 <= j < k implies m2.accounts[j].id != cid by {
                if j != i {
                    assert(m2.accounts[j] == m.accounts[j]);
                }
            }
            lemma_acct_idx_is(m2.accounts, cid, k);
        } else {
            lemma_acct_idx(m.accounts, t.client_id);
            let i = acct_idx(m.accounts, t.client_id).unwrap();
            assert(m.accounts[i].id == t.client_id);
            assert(i != k);
            assert(m2.accounts[k].id == cid && m2.accounts[k].locked);
            assert(forall|j: int| 0 <= j < k ==> m2.accounts[j].id != cid);
            lemma_acct_idx_is(m2.accounts, cid, k);
        }
    }
}

} // verus!
