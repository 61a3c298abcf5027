//! The mathematical model of the ledger engine.
//!
//! `step` is the whole specification of transaction processing: given a
//! ledger state and one transaction it yields the next state and either
//! acceptance or a typed rejection. The executable engine is proved to
//! implement `step` exactly, and the engine's laws are proved of `step`.

use vstd::prelude::*;

use crate::types::{RejectReason, TransactionKind};

verus! {

/// Ghost image of one account, over unbounded integers.
pub struct AccountModel {
    pub id: int,
    pub available: int,
    pub held: int,
    pub total: int,
    pub locked: bool,
}

/// Ghost image of one recorded (or incoming) transaction.
pub struct TxModel {
    pub id: int,
    pub kind: TransactionKind,
    pub client_id: int,
    pub amount: int,
}

/// Ghost image of the whole engine state: accounts in creation order, the
/// history of accepted deposits and withdrawals in acceptance order, and the
/// ids currently under dispute.
pub struct LedgerModel {
    pub accounts: Seq<AccountModel>,
    pub txs: Seq<TxModel>,
    pub disputed: Set<int>,
}

/// Index of the first account with the given client id, if present.
pub open spec fn acct_idx(accounts: Seq<AccountModel>, id: int) -> Option<int>
    decreases accounts.len(),
{
    if accounts.len() == 0 {
        None
    } else if accounts[0].id == id {
        Some(0)
    } else {
        match acct_idx(accounts.drop_first(), id) {
            Some(i) => Some(i + 1),
            None => None,
        }
    }
}

/// Index of the first recorded transaction with the given id, if present.
pub open spec fn tx_idx(txs: Seq<TxModel>, id: int) -> Option<int>
    decreases txs.len(),
{
    if txs.len() == 0 {
        None
    } else if txs[0].id == id {
        Some(0)
    } else {
        match tx_idx(txs.drop_first(), id) {
            Some(i) => Some(i + 1),
            None => None,
        }
    }
}

pub proof fn lemma_acct_idx(accounts: Seq<AccountModel>, id: int)
    ensures
        match acct_idx(accounts, id) {
            Some(i) => 0 <= i < accounts.len() && accounts[i].id == id && (forall|j: int|
                0 <= j < i ==> accounts[j].id != id),
            None => forall|j: int| 0 <= j < accounts.len() ==> accounts[j].id != id,
        },
    decreases accounts.len(),
{
    if accounts.len() > 0 && accounts[0].id != id {
        let rest = accounts.drop_first();
        lemma_acct_idx(rest, id);
        match acct_idx(rest, id) {
            Some(i) => {
                assert(rest[i] == accounts[i + 1]);
                assert forall|j: int| 0 <= j < i + 1 implies accounts[j].id != id by {
                    if j > 0 {
                        assert(rest[j - 1] == accounts[j]);
                    }
                }
            },
            None => {
                assert forall|j: int| 0 <= j < accounts.len() implies accounts[j].id != id by {
                    if j > 0 {
                        assert(rest[j - 1] == accounts[j]);
                    }
                }
            },
        }
    }
}

/// A found first match determines `acct_idx`.
pub proof fn lemma_acct_idx_is(accounts: Seq<AccountModel>, id: int, i: int)
    requires
        0 <= i < accounts.len(),
        accounts[i].id == id,
        forall|j: int| 0 <= j < i ==> accounts[j].id != id,
    ensures
        acct_idx(accounts, id) == Some(i),
{
    lemma_acct_idx(accounts, id);
    if let Some(k) = acct_idx(accounts, id) {
        if k < i {
            assert(accounts[k].id != id);
        } else if i < k {
            assert(accounts[i].id != id);
        }
    } else {
        assert(accounts[i].id != id);
    }
}

pub proof fn lemma_acct_idx_none(accounts: Seq<AccountModel>, id: int)
    requires
        forall|j: int| 0 <= j < accounts.len() ==> accounts[j].id != id,
    ensures
        acct_idx(accounts, id) is None,
{
    lemma_acct_idx(accounts, id);
    if let Some(k) = acct_idx(accounts, id) {
        assert(accounts[k].id != id);
    }
}

pub proof fn lemma_tx_idx(txs: Seq<TxModel>, id: int)
    ensures
        match tx_idx(txs, id) {
            Some(i) => 0 <= i < txs.len() && txs[i].id == id && (forall|j: int|
                0 <= j < i ==> txs[j].id != id),
            None => forall|j: int| 0 <= j < txs.len() ==> txs[j].id != id,
        },
    decreases txs.len(),
{
    if txs.len() > 0 && txs[0].id != id {
        let rest = txs.drop_first();
        lemma_tx_idx(rest, id);
        match tx_idx(rest, id) {
            Some(i) => {
                assert(rest[i] == txs[i + 1]);
                assert forall|j: int| 0 <= j < i + 1 implies txs[j].id != id by {
                    if j > 0 {
                        assert(rest[j - 1] == txs[j]);
                    }
                }
            },
            None => {
                assert forall|j: int| 0 <= j < txs.len() implies txs[j].id != id by {
                    if j > 0 {
                        assert(rest[j - 1] == txs[j]);
                    }
                }
            },
        }
    }
}

/// A found first match determines `tx_idx`.
pub proof fn lemma_tx_idx_is(txs: Seq<TxModel>, id: int, i: int)
    requires
        0 <= i < txs.len(),
        txs[i].id == id,
        forall|j: int| 0 <= j < i ==> txs[j].id != id,
    ensures
        tx_idx(txs, id) == Some(i),
{
    lemma_tx_idx(txs, id);
    if let Some(k) = tx_idx(txs, id) {
        if k < i {
            assert(txs[k].id != id);
        } else if i < k {
            assert(txs[i].id != id);
        }
    } else {
        assert(txs[i].id != id);
    }
}

pub proof fn lemma_tx_idx_none(txs: Seq<TxModel>, id: int)
    requires
        forall|j: int| 0 <= j < txs.len() ==> txs[j].id != id,
    ensures
        tx_idx(txs, id) is None,
{
    lemma_tx_idx(txs, id);
    if let Some(k) = tx_idx(txs, id) {
        assert(txs[k].id != id);
    }
}

/// Whether the account with this client id exists and is locked.
pub open spec fn is_locked(m: LedgerModel, client_id: int) -> bool {
    match acct_idx(m.accounts, client_id) {
        Some(i) => m.accounts[i].locked,
        None => false,
    }
}

/// Whether a value fits the engine's fixed-point representation.
pub open spec fn in_range(v: int) -> bool {
    i128::MIN <= v <= i128::MAX
}

impl LedgerModel {
    /// The empty ledger.
    pub open spec fn empty() -> LedgerModel {
        LedgerModel { accounts: Seq::empty(), txs: Seq::empty(), disputed: Set::empty() }
    }

    /// Validity: account ids are unique, recorded transaction ids are unique,
    /// and only deposits and withdrawals with non-negative amounts are
    /// recorded.
    pub open spec fn wf(self) -> bool {
        &&& (forall|i: int, j: int|
            0 <= i < j < self.accounts.len() ==> self.accounts[i].id != self.accounts[j].id)
        &&& (forall|i: int, j: int| 0 <= i < j < self.txs.len() ==> self.txs[i].id != self.txs[j].id)
        &&& (forall|i: int|
            0 <= i < self.txs.len() ==> (self.txs[i].kind == TransactionKind::Deposit
                || self.txs[i].kind == TransactionKind::Withdrawal))
        &&& (forall|i: int| 0 <= i < self.txs.len() ==> self.txs[i].amount >= 0)
    }
}

/// Deposit: reject a reused id; otherwise create the account if absent, add
/// the amount to `available` and recompute `total = available - held`.
pub open spec fn step_deposit(m: LedgerModel, t: TxModel) -> (LedgerModel, Result<
    (),
    RejectReason,
>) {
    if tx_idx(m.txs, t.id) is Some {
        (m, Err(RejectReason::DuplicateTransactionId))
    } else {
        let (accounts, i) = match acct_idx(m.accounts, t.client_id) {
            Some(i) => (m.accounts, i),
            None => (
                m.accounts.push(
                    AccountModel {
                        id: t.client_id,
                        available: 0,
                        held: 0,
                        total: 0,
                        locked: false,
                    },
                ),
                m.accounts.len() as int,
            ),
        };
        let a = accounts[i];
        let available = a.available + t.amount;
        let total = available - a.held;
        if !in_range(available) || !in_range(total) {
            (m, Err(RejectReason::BalanceOutOfRange))
        } else {
            (
                LedgerModel {
                    accounts: accounts.update(
                        i,
                        AccountModel { available, total, ..a },
                    ),
                    txs: m.txs.push(t),
                    disputed: m.disputed,
                },
                Ok(()),
            )
        }
    }
}

/// Withdrawal: reject a reused id, an unknown account or insufficient
/// available funds; otherwise subtract the amount from `available` and
/// recompute `total = available - held`.
pub open spec fn step_withdrawal(m: LedgerModel, t: TxModel) -> (LedgerModel, Result<
    (),
    RejectReason,
>) {
    if tx_idx(m.txs, t.id) is Some {
        (m, Err(RejectReason::DuplicateTransactionId))
    } else {
        match acct_idx(m.accounts, t.client_id) {
            None => (m, Err(RejectReason::UnknownAccount)),
            Some(i) => {
                let a = m.accounts[i];
                if a.available - t.amount < 0 {
                    (m, Err(RejectReason::InsufficientFunds))
                } else {
                    let available = a.available - t.amount;
                    let total = available - a.held;
                    if !in_range(total) {
                        (m, Err(RejectReason::BalanceOutOfRange))
                    } else {
                        (
                            LedgerModel {
                                accounts: m.accounts.update(
                                    i,
                                    AccountModel { available, total, ..a },
                                ),
                                txs: m.txs.push(t),
                                disputed: m.disputed,
                            },
                            Ok(()),
                        )
                    }
                }
            },
        }
    }
}

/// Dispute: the referenced transaction must exist and be a deposit or a
/// withdrawal, and the named account must exist. A disputed deposit moves its
/// amount from `available` to `held`; a disputed withdrawal moves it back the
/// other way (which may drive `held` negative). `total` is untouched. The id
/// joins the disputed set; re-disputing an already disputed id is accepted
/// again and re-applies the adjustment.
pub open spec fn step_dispute(m: LedgerModel, t: TxModel) -> (LedgerModel, Result<
    (),
    RejectReason,
>) {
    match tx_idx(m.txs, t.id) {
        None => (m, Err(RejectReason::UnknownReferencedTransaction)),
        Some(j) => {
            let d = m.txs[j];
            match acct_idx(m.accounts, t.client_id) {
                None => (m, Err(RejectReason::UnknownAccount)),
                Some(i) => {
                    let a = m.accounts[i];
                    if d.kind == TransactionKind::Deposit || d.kind == TransactionKind::Withdrawal {
                        let available = if d.kind == TransactionKind::Deposit {
                            a.available - d.amount
                        } else {
                            a.available + d.amount
                        };
                        let held = if d.kind == TransactionKind::Deposit {
                            a.held + d.amount
                        } else {
                            a.held - d.amount
                        };
                        if !in_range(available) || !in_range(held) {
                            (m, Err(RejectReason::BalanceOutOfRange))
                        } else {
                            (
                                LedgerModel {
                                    accounts: m.accounts.update(
                                        i,
                                        AccountModel { available, held, ..a },
                                    ),
                                    txs: m.txs,
                                    disputed: m.disputed.insert(t.id),
                                },
                                Ok(()),
                            )
                        }
                    } else {
                        (m, Err(RejectReason::InvalidReferencedKind))
                    }
                },
            }
        },
    }
}

/// Resolve: the referenced transaction must exist and be currently disputed,
/// and the named account must exist. The dispute-time adjustment is reversed
/// and the id leaves the disputed set.
pub open spec fn step_resolve(m: LedgerModel, t: TxModel) -> (LedgerModel, Result<
    (),
    RejectReason,
>) {
    match tx_idx(m.txs, t.id) {
        None => (m, Err(RejectReason::UnknownReferencedTransaction)),
        Some(j) => {
            let d = m.txs[j];
            if !m.disputed.contains(t.id) {
                (m, Err(RejectReason::NotDisputed))
            } else {
                match acct_idx(m.accounts, t.client_id) {
                    None => (m, Err(RejectReason::UnknownAccount)),
                    Some(i) => {
                        let a = m.accounts[i];
                        if d.kind == TransactionKind::Deposit || d.kind
                            == TransactionKind::Withdrawal {
                            let available = if d.kind == TransactionKind::Deposit {
                                a.available + d.amount
                            } else {
                                a.available - d.amount
                            };
                            let held = if d.kind == TransactionKind::Deposit {
                                a.held - d.amount
                            } else {
                                a.held + d.amount
                            };
                            if !in_range(available) || !in_range(held) {
                                (m, Err(RejectReason::BalanceOutOfRange))
                            } else {
                                (
                                    LedgerModel {
                                        accounts: m.accounts.update(
                                            i,
                                            AccountModel { available, held, ..a },
                                        ),
                                        txs: m.txs,
                                        disputed: m.disputed.remove(t.id),
                                    },
                                    Ok(()),
                                )
                            }
                        } else {
                            (m, Err(RejectReason::InvalidReferencedKind))
                        }
                    },
                }
            }
        },
    }
}

/// Chargeback: the referenced transaction must exist and be currently
/// disputed, and the named account must exist. A charged-back deposit removes
/// the amount from `held` and `total`; a charged-back withdrawal adds it to
/// both. The account is locked. The id stays in the disputed set.
pub open spec fn step_chargeback(m: LedgerModel, t: TxModel) -> (LedgerModel, Result<
    (),
    RejectReason,
>) {
    match tx_idx(m.txs, t.id) {
        None => (m, Err(RejectReason::UnknownReferencedTransaction)),
        Some(j) => {
            let d = m.txs[j];
            if !m.disputed.contains(t.id) {
                (m, Err(RejectReason::NotDisputed))
            } else {
                match acct_idx(m.accounts, t.client_id) {
                    None => (m, Err(RejectReason::UnknownAccount)),
                    Some(i) => {
                        let a = m.accounts[i];
                        if d.kind == TransactionKind::Deposit || d.kind
                            == TransactionKind::Withdrawal {
                            let held = if d.kind == TransactionKind::Deposit {
                                a.held - d.amount
                            } else {
                                a.held + d.amount
                            };
                            let total = if d.kind == TransactionKind::Deposit {
                                a.total - d.amount
                            } else {
                                a.total + d.amount
                            };
                            if !in_range(held) || !in_range(total) {
                                (m, Err(RejectReason::BalanceOutOfRange))
                            } else {
                                (
                                    LedgerModel {
                                        accounts: m.accounts.update(
                                            i,
                                            AccountModel { held, total, locked: true, ..a },
                                        ),
                                        txs: m.txs,
                                        disputed: m.disputed,
                                    },
                                    Ok(()),
                                )
                            }
                        } else {
                            (m, Err(RejectReason::InvalidReferencedKind))
                        }
                    },
                }
            }
        },
    }
}

/// One engine step: the global preconditions (non-negative amount, target
/// account not locked) followed by the per-kind transition.
pub open spec fn step(m: LedgerModel, t: TxModel) -> (LedgerModel, Result<(), RejectReason>) {
    if t.amount < 0 {
        (m, Err(RejectReason::NegativeAmount))
    } else if is_locked(m, t.client_id) {
        (m, Err(RejectReason::AccountLocked))
    } else {
        match t.kind {
            TransactionKind::Deposit => step_deposit(m, t),
            TransactionKind::Withdrawal => step_withdrawal(m, t),
            TransactionKind::Dispute => step_dispute(m, t),
            TransactionKind::Resolve => step_resolve(m, t),
            TransactionKind::Chargeback => step_chargeback(m, t),
        }
    }
}

} // verus!
