//! Value types of the ledger: accounts, transactions and rejection reasons.
//!
//! Monetary values are fixed-point with four fractional digits: an `i128`
//! counts ten-thousandths of a currency unit, so `12500` stands for `1.25`.

use vstd::prelude::*;

verus! {

/// Number of fractional digits of every monetary value.
pub const DECIMAL_COUNT: u32 = 4;

/// Client (account) identifier.
pub type ClientId = u16;

/// Global transaction identifier, unique across all accounts.
pub type TransactionId = u32;

/// The five transaction kinds of the input log.
#[derive(Debug, PartialEq, Eq, Structural, Copy, Clone)]
pub enum TransactionKind {
    Deposit,
    Withdrawal,
    Dispute,
    Resolve,
    Chargeback,
}

/// One account: balances in ten-thousandths, and the lock flag set by a
/// chargeback.
#[derive(Debug, PartialEq, Eq, Structural, Copy, Clone)]
pub struct Client {
    pub id: ClientId,
    pub locked: bool,
    pub available: i128,
    pub held: i128,
    pub total: i128,
}

impl Client {
    /// A newly-seen account: all balances zero, unlocked.
    pub fn new(id: ClientId) -> (c: Client)
        ensures
            c.id == id,
            !c.locked,
            c.available == 0,
            c.held == 0,
            c.total == 0,
    {
        Client { id, locked: false, available: 0, held: 0, total: 0 }
    }
}

impl Default for Client {
    fn default() -> (c: Client)
        ensures
            c.id == 0 && !c.locked && c.available == 0 && c.held == 0 && c.total == 0,
    {
        Client { id: 0, locked: false, available: 0, held: 0, total: 0 }
    }
}

/// A raw input row after field parsing: the amount is `None` where the row
/// carried no amount value.
#[derive(Debug, Copy, Clone)]
pub struct InputRecord {
    pub transaction_kind: TransactionKind,
    pub client_id: ClientId,
    pub transaction_id: TransactionId,
    pub amount: Option<i128>,
}

/// One transaction handed to the ledger engine. For dispute, resolve and
/// chargeback the amount is zero and `id` references a prior transaction.
#[derive(Debug, Copy, Clone)]
pub struct Transaction {
    pub id: TransactionId,
    pub kind: TransactionKind,
    pub client_id: ClientId,
    pub amount: i128,
}

impl From<InputRecord> for Transaction {
    /// An absent amount becomes zero.
    fn from(input: InputRecord) -> (t: Transaction) {
        Transaction {
            id: input.transaction_id,
            kind: input.transaction_kind,
            client_id: input.client_id,
            amount: match input.amount {
                Some(a) => a,
                None => 0,
            },
        }
    }
}

impl vstd::std_specs::convert::FromSpecImpl<InputRecord> for Transaction {
    open spec fn obeys_from_spec() -> bool {
        true
    }

    open spec fn from_spec(input: InputRecord) -> Transaction {
        Transaction {
            id: input.transaction_id,
            kind: input.transaction_kind,
            client_id: input.client_id,
            amount: match input.amount {
                Some(a) => a,
                None => 0,
            },
        }
    }
}

/// Why the engine rejected a transaction. Every rejection is non-fatal and
/// leaves the ledger unchanged.
#[derive(Debug, PartialEq, Eq, Structural, Copy, Clone)]
pub enum RejectReason {
    /// The transaction's own amount is below zero.
    NegativeAmount,
    /// The target account was locked by an earlier chargeback.
    AccountLocked,
    /// A deposit or withdrawal reuses an already-recorded transaction id.
    DuplicateTransactionId,
    /// A withdrawal, dispute, resolve or chargeback names a never-seen account.
    UnknownAccount,
    /// A withdrawal would drive the available balance below zero.
    InsufficientFunds,
    /// A dispute, resolve or chargeback references an id absent from history.
    UnknownReferencedTransaction,
    /// The referenced transaction is itself not a deposit or withdrawal.
    InvalidReferencedKind,
    /// A resolve or chargeback references an id not currently disputed.
    NotDisputed,
    /// A balance update would leave the fixed-point range of an `i128`.
    BalanceOutOfRange,
}

} // verus!
