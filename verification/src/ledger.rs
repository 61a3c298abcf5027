//! The executable ledger engine, proved to implement `model::step`.

use vstd::prelude::*;

use crate::model::{
    acct_idx, lemma_acct_idx_is, lemma_acct_idx_none, lemma_tx_idx_is, lemma_tx_idx_none,
    AccountModel, LedgerModel, TxModel,
};
use crate::types::{Client, ClientId, RejectReason, Transaction, TransactionId, TransactionKind};

verus! {

impl View for Client {
    type V = AccountModel;

    open spec fn view(&self) -> AccountModel {
        AccountModel {
            id: self.id as int,
            available: self.available as int,
            held: self.held as int,
            total: self.total as int,
            locked: self.locked,
        }
    }
}

impl View for Transaction {
    type V = TxModel;

    open spec fn view(&self) -> TxModel {
        TxModel {
            id: self.id as int,
            kind: self.kind,
            client_id: self.client_id as int,
            amount: self.amount as int,
        }
    }
}

/// The ledger engine: accounts in creation order, the history of accepted
/// deposits and withdrawals, and the transaction ids currently under dispute.
pub struct Ledger {
    pub clients: Vec<Client>,
    pub transactions: Vec<Transaction>,
    pub disputed_transactions: Vec<TransactionId>,
}

/// The disputed id list as mathematical integers.
pub open spec fn ids_of(v: Seq<TransactionId>) -> Seq<int> {
    v.map_values(|id: TransactionId| id as int)
}

/// The account list as its ghost image.
pub open spec fn accounts_of(v: Seq<Client>) -> Seq<AccountModel> {
    v.map_values(|c: Client| c@)
}

impl View for Ledger {
    type V = LedgerModel;

    open spec fn view(&self) -> LedgerModel {
        LedgerModel {
            accounts: accounts_of(self.clients@),
            txs: self.transactions@.map_values(|t: Transaction| t@),
            disputed: ids_of(self.disputed_transactions@).to_set(),
        }
    }
}

/// Pushing an id onto the disputed list inserts it into the disputed set.
proof fn lemma_ids_push(v: Seq<TransactionId>, x: TransactionId)
    ensures
        ids_of(v.push(x)).to_set() =~= ids_of(v).to_set().insert(x as int),
{
    let w = v.push(x);
    assert forall|y: int| ids_of(w).to_set().contains(y) implies ids_of(v).to_set().insert(
        x as int,
    ).contains(y) by {
        let j = choose|j: int| 0 <= j < ids_of(w).len() && ids_of(w)[j] == y;
        if j < v.len() {
            assert(w[j] == v[j]);
            assert(ids_of(v)[j] == y);
        } else {
            assert(w[j] == x);
        }
    }
    assert forall|y: int| ids_of(v).to_set().insert(x as int).contains(y) implies ids_of(
        w,
    ).to_set().contains(y) by {
        if y == x as int {
            assert(w[v.len() as int] == x);
            assert(ids_of(w)[v.len() as int] == y);
        } else {
            let j = choose|j: int| 0 <= j < ids_of(v).len() && ids_of(v)[j] == y;
            assert(w[j] == v[j]);
            assert(ids_of(w)[j] == y);
        }
    }
}

/// Removing the only occurrence of an id from the disputed list removes it
/// from the disputed set.
proof fn lemma_ids_remove(v: Seq<TransactionId>, k: int, x: TransactionId)
    requires
        0 <= k < v.len(),
        v[k] == x,
        forall|i: int, j: int| 0 <= i < j < v.len() ==> v[i] != v[j],
    ensures
        ids_of(v.remove(k)).to_set() =~= ids_of(v).to_set().remove(x as int),
{
    let w = v.remove(k);
    assert forall|y: int| ids_of(w).to_set().contains(y) implies ids_of(v).to_set().remove(
        x as int,
    ).contains(y) by {
        let j = choose|j: int| 0 <= j < ids_of(w).len() && ids_of(w)[j] == y;
        if j < k {
            assert(w[j] == v[j]);
            assert(ids_of(v)[j] == y);
            assert(v[j] != v[k]);
        } else {
            assert(w[j] == v[j + 1]);
            assert(ids_of(v)[j + 1] == y);
            assert(v[k] != v[j + 1]);
        }
    }
    assert forall|y: int| ids_of(v).to_set().remove(x as int).contains(y) implies ids_of(
        w,
    ).to_set().contains(y) by {
        let j = choose|j: int| 0 <= j < ids_of(v).len() && ids_of(v)[j] == y;
        if j < k {
            assert(w[j] == v[j]);
            assert(ids_of(w)[j] == y);
        } else if j == k {
            assert(false);
        } else {
            assert(w[j - 1] == v[j]);
            assert(ids_of(w)[j - 1] == y);
        }
    }
}

impl Default for Ledger {
    fn default() -> (l: Ledger)
        ensures
            l@ == LedgerModel::empty(),
            l.wf(),
    {
        let l = Ledger { clients: Vec::new(), transactions: Vec::new(), disputed_transactions: Vec::new() };
        proof {
            assert(l@.accounts =~= Seq::<AccountModel>::empty());
            assert(l@.txs =~= Seq::<TxModel>::empty());
            assert(l@.disputed =~= Set::<int>::empty());
        }
        l
    }
}

impl Ledger {
    /// Validity: the model is well formed and the disputed ids are stored
    /// without duplicates.
    pub open spec fn wf(&self) -> bool {
        &&& self@.wf()
        &&& (forall|i: int, j: int|
            0 <= i < j < self.disputed_transactions@.len()
                ==> self.disputed_transactions@[i] != self.disputed_transactions@[j])
    }

    /// Index of the account owned by `id`, if any.
    fn find_client(&self, id: ClientId) -> (r: Option<usize>)
        ensures
            match r {
                Some(i) => i < self.clients@.len() && acct_idx(self@.accounts, id as int) == Some(
                    i as int,
                ),
                None => acct_idx(self@.accounts, id as int) is None,
            },
    {
        let n = self.clients.len();
        let mut i: usize = 0;
        while i < n
            invariant
                i <= n == self.clients@.len(),
                forall|j: int| 0 <= j < i ==> self@.accounts[j].id != id as int,
            decreases n - i,
        {
            if self.clients[i].id == id {
                proof {
                    lemma_acct_idx_is(self@.accounts, id as int, i as int);
                }
                return Some(i);
            }
            i += 1;
        }
        proof {
            lemma_acct_idx_none(self@.accounts, id as int);
        }
        None
    }

    /// Index of the recorded transaction with id `id`, if any.
    fn find_tx(&self, id: TransactionId) -> (r: Option<usize>)
        ensures
            match r {
                Some(i) => i < self.transactions@.len() && crate::model::tx_idx(
                    self@.txs,
                    id as int,
                ) == Some(i as int),
                None => crate::model::tx_idx(self@.txs, id as int) is None,
            },
    {
        let n = self.transactions.len();
        let mut i: usize = 0;
        while i < n
            invariant
                i <= n == self.transactions@.len(),
                forall|j: int| 0 <= j < i ==> self@.txs[j].id != id as int,
            decreases n - i,
        {
            if self.transactions[i].id == id {
                proof {
                    lemma_tx_idx_is(self@.txs, id as int, i as int);
                }
                return Some(i);
            }
            i += 1;
        }
        proof {
            lemma_tx_idx_none(self@.txs, id as int);
        }
        None
    }

    /// Index of `id` in the disputed list, if present.
    fn find_disputed(&self, id: TransactionId) -> (r: Option<usize>)
        ensures
            match r {
                Some(i) => i < self.disputed_transactions@.len()
                    && self.disputed_transactions@[i as int] == id && self@.disputed.contains(
                    id as int,
                ),
                None => !self.disputed_transactions@.contains(id) && !self@.disputed.contains(
                    id as int,
                ),
            },
    {
        let n = self.disputed_transactions.len();
        let mut i: usize = 0;
        while i < n
            invariant
                i <= n == self.disputed_transactions@.len(),
                forall|j: int| 0 <= j < i ==> self.disputed_transactions@[j] != id,
            decreases n - i,
        {
            if self.disputed_transactions[i] == id {
                proof {
                    let ids = ids_of(self.disputed_transactions@);
                    assert(ids[i as int] == id as int);
                    assert(ids.contains(id as int));
                }
                return Some(i);
            }
            i += 1;
        }
        proof {
            let ids = ids_of(self.disputed_transactions@);
            if self@.disputed.contains(id as int) {
                assert(ids.contains(id as int));
                let j = choose|j: int| 0 <= j < ids.len() && ids[j] == id as int;
                assert(self.disputed_transactions@[j] != id);
                assert(false);
            }
            if self.disputed_transactions@.contains(id) {
                let j = choose|j: int|
                    0 <= j < self.disputed_transactions@.len() && self.disputed_transactions@[j]
                        == id;
                assert(false);
            }
        }
        None
    }

    /// Deposit: reject a reused transaction id or a balance leaving the
    /// fixed-point range; otherwise create the account if absent, add the
    /// amount to `available`, recompute `total = available - held` and record
    /// the transaction.
    fn process_deposit(&mut self, tx: Transaction) -> (r: Result<(), RejectReason>)
        requires
            old(self).wf(),
            tx.kind == TransactionKind::Deposit,
            tx.amount >= 0,
        ensures
            final(self).wf(),
            (final(self)@, r) == crate::model::step_deposit(old(self)@, tx@),
    {
        if self.find_tx(tx.id).is_some() {
            return Err(RejectReason::DuplicateTransactionId);
        }
        proof {
            crate::model::lemma_tx_idx(self@.txs, tx.id as int);
        }
        let i: usize = match self.find_client(tx.client_id) {
            Some(i) => i,
            None => {
                proof {
                    crate::model::lemma_acct_idx(self@.accounts, tx.client_id as int);
                }
                let n = self.clients.len();
                self.clients.push(Client::new(tx.client_id));
                proof {
                    assert(self@.accounts =~= old(self)@.accounts.push(
                        (AccountModel {
                            id: tx.client_id as int,
                            available: 0,
                            held: 0,
                            total: 0,
                            locked: false,
                        }),
                    ));
                    assert(self@.txs =~= old(self)@.txs);
                    assert(self@.disputed =~= old(self)@.disputed);
                }
                n
            },
        };
        let a = self.clients[i];
        let available = match a.available.checked_add(tx.amount) {
            Some(v) => v,
            None => {
                return Err(RejectReason::BalanceOutOfRange);
            },
        };
        let total = match available.checked_sub(a.held) {
            Some(v) => v,
            None => {
                return Err(RejectReason::BalanceOutOfRange);
            },
        };
        let ghost pre = self@;
        self.clients[i] = Client { available, total, ..a };
        self.transactions.push(tx);
        proof {
            assert(self@.accounts =~= pre.accounts.update(
                i as int,
                (AccountModel { available: available as int, total: total as int, ..(a@) }),
            ));
            assert(self@.txs =~= pre.txs.push(tx@));
            assert(self@.disputed =~= pre.disputed);
        }
        Ok(())
    }

    /// Withdrawal: reject a reused transaction id, an unknown account,
    /// insufficient available funds or a total leaving the fixed-point range;
    /// otherwise subtract the amount from `available`, recompute
    /// `total = available - held` and record the transaction.
    fn process_withdrawal(&mut self, tx: Transaction) -> (r: Result<(), RejectReason>)
        requires
            old(self).wf(),
            tx.kind == TransactionKind::Withdrawal,
            tx.amount >= 0,
        ensures
            final(self).wf(),
            (final(self)@, r) == crate::model::step_withdrawal(old(self)@, tx@),
    {
        if self.find_tx(tx.id).is_some() {
            return Err(RejectReason::DuplicateTransactionId);
        }
        proof {
            crate::model::lemma_tx_idx(self@.txs, tx.id as int);
        }
        let i: usize = match self.find_client(tx.client_id) {
            Some(i) => i,
            None => {
                return Err(RejectReason::UnknownAccount);
            },
        };
        let a = self.clients[i];
        if a.available < tx.amount {
            return Err(RejectReason::InsufficientFunds);
        }
        let available = a.available - tx.amount;
        let total = match available.checked_sub(a.held) {
            Some(v) => v,
            None => {
                return Err(RejectReason::BalanceOutOfRange);
            },
        };
        let ghost pre = self@;
        self.clients[i] = Client { available, total, ..a };
        self.transactions.push(tx);
        proof {
            assert(self@.accounts =~= pre.accounts.update(
                i as int,
                (AccountModel { available: available as int, total: total as int, ..(a@) }),
            ));
            assert(self@.txs =~= pre.txs.push(tx@));
            assert(self@.disputed =~= pre.disputed);
        }
        Ok(())
    }

    /// Dispute: the referenced transaction and the named account must exist.
    /// A disputed deposit moves its amount from `available` to `held`; a
    /// disputed withdrawal moves it the other way. The id joins the disputed
    /// set; a re-dispute is accepted again and re-applies the adjustment.
    fn process_dispute(&mut self, tx: Transaction) -> (r: Result<(), RejectReason>)
        requires
            old(self).wf(),
            tx.kind == TransactionKind::Dispute,
        ensures
            final(self).wf(),
            (final(self)@, r) == crate::model::step_dispute(old(self)@, tx@),
    {
        let j: usize = match self.find_tx(tx.id) {
            Some(j) => j,
            None => {
                return Err(RejectReason::UnknownReferencedTransaction);
            },
        };
        let d = self.transactions[j];
        let i: usize = match self.find_client(tx.client_id) {
            Some(i) => i,
            None => {
                return Err(RejectReason::UnknownAccount);
            },
        };
        let a = self.clients[i];
        let (available, held) = match d.kind {
            TransactionKind::Deposit => (a.available.checked_sub(d.amount), a.held.checked_add(d.amount)),
            TransactionKind::Withdrawal => (a.available.checked_add(d.amount), a.held.checked_sub(d.amount)),
            _ => {
                return Err(RejectReason::InvalidReferencedKind);
            },
        };
        let (available, held) = match (available, held) {
            (Some(av), Some(hd)) => (av, hd),
            _ => {
                return Err(RejectReason::BalanceOutOfRange);
            },
        };
        let ghost pre = self@;
        self.clients[i] = Client { available, held, ..a };
        proof {
            assert(self@.accounts =~= pre.accounts.update(
                i as int,
                (AccountModel { available: available as int, held: held as int, ..(a@) }),
            ));
            assert(self@.txs =~= pre.txs);
            assert(self@.disputed =~= pre.disputed);
        }
        let ghost mid = self@;
        let ghost dv = self.disputed_transactions@;
        if self.find_disputed(tx.id).is_none() {
            self.disputed_transactions.push(tx.id);
            proof {
                lemma_ids_push(dv, tx.id);
                assert(self@.disputed =~= mid.disputed.insert(tx.id as int));
                assert forall|p: int, q: int|
                    0 <= p < q < self.disputed_transactions@.len()
                        implies self.disputed_transactions@[p]
                        != self.disputed_transactions@[q] by {
                    if q == dv.len() {
                        assert(self.disputed_transactions@[p] == dv[p]);
                        assert(!dv.contains(tx.id));
                    }
                }
            }
        } else {
            proof {
                assert(self@.disputed =~= mid.disputed.insert(tx.id as int));
            }
        }
        Ok(())
    }

    /// Resolve: the referenced transaction must exist and be currently
    /// disputed, and the named account must exist. Reverses exactly the
    /// dispute-time adjustment and removes the id from the disputed set.
    fn process_resolve(&mut self, tx: Transaction) -> (r: Result<(), RejectReason>)
        requires
            old(self).wf(),
            tx.kind == TransactionKind::Resolve,
        ensures
            final(self).wf(),
            (final(self)@, r) == crate::model::step_resolve(old(self)@, tx@),
    {
        let j: usize = match self.find_tx(tx.id) {
            Some(j) => j,
            None => {
                return Err(RejectReason::UnknownReferencedTransaction);
            },
        };
        let d = self.transactions[j];
        let k: usize = match self.find_disputed(tx.id) {
            Some(k) => k,
            None => {
                return Err(RejectReason::NotDisputed);
            },
        };
        let i: usize = match self.find_client(tx.client_id) {
            Some(i) => i,
            None => {
                return Err(RejectReason::UnknownAccount);
            },
        };
        let a = self.clients[i];
        let (available, held) = match d.kind {
            TransactionKind::Deposit => (a.available.checked_add(d.amount), a.held.checked_sub(d.amount)),
            TransactionKind::Withdrawal => (a.available.checked_sub(d.amount), a.held.checked_add(d.amount)),
            _ => {
                return Err(RejectReason::InvalidReferencedKind);
            },
        };
        let (available, held) = match (available, held) {
            (Some(av), Some(hd)) => (av, hd),
            _ => {
                return Err(RejectReason::BalanceOutOfRange);
            },
        };
        let ghost pre = self@;
        self.clients[i] = Client { available, held, ..a };
        proof {
            assert(self@.accounts =~= pre.accounts.update(
                i as int,
                (AccountModel { available: available as int, held: held as int, ..(a@) }),
            ));
            assert(self@.txs =~= pre.txs);
            assert(self@.disputed =~= pre.disputed);
        }
        let ghost mid = self@;
        let ghost dv = self.disputed_transactions@;
        self.disputed_transactions.remove(k);
        proof {
            lemma_ids_remove(dv, k as int, tx.id);
            assert(self@.disputed =~= mid.disputed.remove(tx.id as int));
            assert forall|p: int, q: int|
                0 <= p < q < self.disputed_transactions@.len()
                    implies self.disputed_transactions@[p] != self.disputed_transactions@[q] by {
                if q < k {
                    assert(dv[p] != dv[q]);
                } else if p < k {
                    assert(dv[p] != dv[q + 1]);
                } else {
                    assert(dv[p + 1] != dv[q + 1]);
                }
            }
        }
        Ok(())
    }

    /// Chargeback: the referenced transaction must exist and be currently
    /// disputed, and the named account must exist. A charged-back deposit
    /// removes the amount from `held` and `total`; a charged-back withdrawal
    /// adds it to both. The account is locked; the id stays disputed.
    fn process_chargeback(&mut self, tx: Transaction) -> (r: Result<(), RejectReason>)
        requires
            old(self).wf(),
            tx.kind == TransactionKind::Chargeback,
        ensures
            final(self).wf(),
            (final(self)@, r) == crate::model::step_chargeback(old(self)@, tx@),
    {
        let j: usize = match self.find_tx(tx.id) {
            Some(j) => j,
            None => {
                return Err(RejectReason::UnknownReferencedTransaction);
            },
        };
        let d = self.transactions[j];
        if self.find_disputed(tx.id).is_none() {
            return Err(RejectReason::NotDisputed);
        }
        let i: usize = match self.find_client(tx.client_id) {
            Some(i) => i,
            None => {
                return Err(RejectReason::UnknownAccount);
            },
        };
        let a = self.clients[i];
        let (held, total) = match d.kind {
            TransactionKind::Deposit => (a.held.checked_sub(d.amount), a.total.checked_sub(d.amount)),
            TransactionKind::Withdrawal => (a.held.checked_add(d.amount), a.total.checked_add(d.amount)),
            _ => {
                return Err(RejectReason::InvalidReferencedKind);
            },
        };
        let (held, total) = match (held, total) {
            (Some(hd), Some(tt)) => (hd, tt),
            _ => {
                return Err(RejectReason::BalanceOutOfRange);
            },
        };
        let ghost pre = self@;
        self.clients[i] = Client { held, total, locked: true, ..a };
        proof {
            assert(self@.accounts =~= pre.accounts.update(
                i as int,
                (AccountModel { held: held as int, total: total as int, locked: true, ..(a@) }),
            ));
            assert(self@.txs =~= pre.txs);
            assert(self@.disputed =~= pre.disputed);
        }
        Ok(())
    }

    /// Applies one transaction: the global preconditions (non-negative
    /// amount, target account not locked) followed by the per-kind
    /// transition. Exactly implements `model::step`; a rejection leaves the
    /// ledger unchanged.
    pub fn process_tx(&mut self, tx: Transaction) -> (r: Result<(), RejectReason>)
        requires
            old(self).wf(),
        ensures
            final(self).wf(),
            (final(self)@, r) == crate::model::step(old(self)@, tx@),
    {
        if tx.amount < 0 {
            return Err(RejectReason::NegativeAmount);
        }
        if let Some(i) = self.find_client(tx.client_id) {
            if self.clients[i].locked {
                return Err(RejectReason::AccountLocked);
            }
        }
        match tx.kind {
            TransactionKind::Deposit => self.process_deposit(tx),
            TransactionKind::Withdrawal => self.process_withdrawal(tx),
            TransactionKind::Dispute => self.process_dispute(tx),
            TransactionKind::Resolve => self.process_resolve(tx),
            TransactionKind::Chargeback => self.process_chargeback(tx),
        }
    }
}

} // verus!
