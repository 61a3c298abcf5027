//! A transaction ledger: replays a log of account transactions (deposits,
//! withdrawals, disputes, resolves, chargebacks) and produces final
//! per-account balances, enforcing fund-sufficiency, duplicate detection,
//! a dispute lifecycle and account locking after chargeback.
//!
//! Amounts are fixed-point values with four fractional digits, held as a
//! signed count of ten-thousandths.

pub mod types;
pub mod model;
pub mod ledger;
pub mod laws;
pub mod numeric;
pub mod amount;
pub mod processor;

pub use crate::ledger::Ledger;
pub use crate::processor::try_run;
pub use crate::types::{Client, ClientId, InputRecord, RejectReason, Transaction, TransactionId, TransactionKind, DECIMAL_COUNT};
