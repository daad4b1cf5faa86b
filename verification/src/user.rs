//! One client's account: its balances, its transaction history, and the
//! rules by which requests change them.

use vstd::prelude::*;
use std::collections::HashMap;
use crate::model::{
    apply, chargeback, deposit, dispute, resolve, withdrawal, lemma_requests_keep_wf,
    lemma_wf_bounds, UserView, BALANCE_LIMIT,
};

verus! {

broadcast use vstd::std_specs::hash::group_hash_axioms;

/// What a request asks for.
#[derive(Copy, Clone, Debug, PartialEq, Eq, Structural)]
pub enum TransactionType {
    Deposit,
    Withdrawal,
    Dispute,
    Resolve,
    Chargeback,
}

/// One request. `amount` counts ten-thousandths of a unit; only deposits and
/// withdrawals read it.
#[derive(Copy, Clone, Debug, PartialEq, Eq)]
pub struct TransactionRequset {
    pub kind: TransactionType,
    pub client: u16,
    pub tx: u32,
    pub amount: Option<u64>,
}

/// Where an entry of the history stands in the dispute lifecycle.
#[derive(Copy, Clone, Debug, PartialEq, Eq, Structural)]
pub enum TransactionState {
    Normal,
    Disputed,
    Chargedback,
}

/// An accepted deposit or withdrawal, as the history keeps it.
#[derive(Copy, Clone, Debug, PartialEq, Eq)]
pub struct Transatcion {
    pub tx_type: TransactionType,
    pub amount: u64,
    pub state: TransactionState,
}

/// Why a request was rejected, with the client and transaction id that the
/// request named.
#[derive(Copy, Clone, Debug, PartialEq, Eq, Structural)]
pub enum ErrorKind {
    /// The account is frozen; it accepts nothing any more.
    AccountFrozen { client: u16, tx: u32 },
    /// A deposit or withdrawal reuses an id of the account's history.
    DuplicateTransactionId { client: u16, tx: u32 },
    /// A deposit or withdrawal carries no amount, or a zero amount.
    InvalidAmount { client: u16, tx: u32 },
    /// A withdrawal asks for more than is available.
    InsufficientFunds { client: u16, tx: u32 },
    /// A dispute, resolution or chargeback names an id not in the history.
    UnknownTransaction { client: u16, tx: u32 },
    /// A dispute, resolution or chargeback names an entry in the wrong state.
    InvalidStateTransition { client: u16, tx: u32 },
}

/// The two balances of an account, in ten-thousandths of a unit.
#[derive(Copy, Clone, Debug, PartialEq, Eq)]
pub struct Account {
    pub total: i128,
    pub held: i128,
}

impl Account {
    /// Both balances are within `BALANCE_LIMIT`, so that their difference can
    /// be computed.
    pub open spec fn in_range(&self) -> bool {
        &&& -BALANCE_LIMIT <= self.total <= BALANCE_LIMIT
        &&& -BALANCE_LIMIT <= self.held <= BALANCE_LIMIT
    }

    /// The funds that are not held.
    pub fn avalible(&self) -> (r: i128)
        requires
            self.in_range(),
        ensures
            r == self.total - self.held,
    {
        self.total - self.held
    }
}

impl Default for Account {
    fn default() -> (r: Account)
        ensures
            r.total == 0,
            r.held == 0,
    {
        Account { total: 0, held: 0 }
    }
}

/// One client's account with its history.
pub struct User {
    pub id: u16,
    pub account: Account,
    pub tx_history: HashMap<u32, Transatcion>,
    pub frozen: bool,
}

impl View for User {
    type V = UserView;

    open spec fn view(&self) -> UserView {
        UserView {
            id: self.id,
            total: self.account.total as int,
            held: self.account.held as int,
            history: self.tx_history@,
            frozen: self.frozen,
        }
    }
}

impl Default for User {
    fn default() -> (r: User)
        ensures
            r@ == UserView::fresh(0),
            r.wf(),
    {
        User::new(0)
    }
}

impl User {
    /// The balances are what the history accounts for, on top of a bounded
    /// opening balance.
    pub open spec fn wf(&self) -> bool {
        self@.wf()
    }

    /// A new account for client `id`: zero balances, no history, not frozen.
    pub fn new(id: u16) -> (r: User)
        ensures
            r@ == UserView::fresh(id),
            r.wf(),
    {
        let r = User {
            id,
            account: Account { total: 0, held: 0 },
            tx_history: HashMap::new(),
            frozen: false,
        };
        proof {
            crate::model::lemma_fresh_is_wf(id);
        }
        r
    }

    /// Applies one request: rejects it if the account is frozen, and otherwise
    /// handles it by its kind.
    pub fn process_tx(&mut self, tx: TransactionRequset) -> (res: Result<(), ErrorKind>)
        requires
            old(self).wf(),
        ensures
            final(self).wf(),
            (final(self)@, res) == apply(old(self)@, tx),
    {
        if self.frozen {
            return Err(ErrorKind::AccountFrozen { client: tx.client, tx: tx.tx });
        }
        match tx.kind {
            TransactionType::Deposit => self.process_deposit(tx),
            TransactionType::Withdrawal => self.process_withdrawal(tx),
            TransactionType::Dispute => self.process_dispute(tx),
            TransactionType::Resolve => self.process_resolve(tx),
            TransactionType::Chargeback => self.process_chargeback(tx),
        }
    }

    /// Records a deposit under a new id and adds its amount to the total.
    /// The frozen flag is not looked at.
    pub fn process_deposit(&mut self, tx: TransactionRequset) -> (res: Result<(), ErrorKind>)
        requires
            old(self).wf(),
        ensures
            final(self).wf(),
            (final(self)@, res) == deposit(old(self)@, tx),
    {
        proof {
            lemma_wf_bounds(self@);
            lemma_requests_keep_wf(self@, tx);
        }
        if self.tx_history.contains_key(&tx.tx) {
            return Err(ErrorKind::DuplicateTransactionId { client: tx.client, tx: tx.tx });
        }
        let amount: u64 = match tx.amount {
            Some(a) => a,
            None => 0,
        };
        if amount == 0 {
            return Err(ErrorKind::InvalidAmount { client: tx.client, tx: tx.tx });
        }
        self.tx_history.insert(
            tx.tx,
            Transatcion {
                tx_type: TransactionType::Deposit,
                amount,
                state: TransactionState::Normal,
            },
        );
        self.account.total = self.account.total + amount as i128;
        Ok(())
    }

    /// Records a withdrawal under a new id and takes its amount off the
    /// total, if that much is available. The frozen flag is not looked at.
    pub fn process_withdrawal(&mut self, tx: TransactionRequset) -> (res: Result<(), ErrorKind>)
        requires
            old(self).wf(),
        ensures
            final(self).wf(),
            (final(self)@, res) == withdrawal(old(self)@, tx),
    {
        proof {
            lemma_wf_bounds(self@);
            lemma_requests_keep_wf(self@, tx);
        }
        if self.tx_history.contains_key(&tx.tx) {
            return Err(ErrorKind::DuplicateTransactionId { client: tx.client, tx: tx.tx });
        }
        let amount: u64 = match tx.amount {
            Some(a) => a,
            None => 0,
        };
        if amount == 0 {
            return Err(ErrorKind::InvalidAmount { client: tx.client, tx: tx.tx });
        }
        if amount as i128 > self.account.avalible() {
            return Err(ErrorKind::InsufficientFunds { client: tx.client, tx: tx.tx });
        }
        self.tx_history.insert(
            tx.tx,
            Transatcion {
                tx_type: TransactionType::Withdrawal,
                amount,
                state: TransactionState::Normal,
            },
        );
        self.account.total = self.account.total - amount as i128;
        Ok(())
    }

    /// Opens a dispute on an entry in the normal state: its amount becomes
    /// held. The frozen flag is not looked at.
    pub fn process_dispute(&mut self, tx: TransactionRequset) -> (res: Result<(), ErrorKind>)
        requires
            old(self).wf(),
        ensures
            final(self).wf(),
            (final(self)@, res) == dispute(old(self)@, tx),
    {
        proof {
            lemma_wf_bounds(self@);
            lemma_requests_keep_wf(self@, tx);
        }
        let entry: Transatcion = match self.tx_history.get(&tx.tx) {
            None => {
                return Err(ErrorKind::UnknownTransaction { client: tx.client, tx: tx.tx });
            },
            Some(e) => *e,
        };
        if entry.state != TransactionState::Normal {
            return Err(ErrorKind::InvalidStateTransition { client: tx.client, tx: tx.tx });
        }
        self.tx_history.insert(
            tx.tx,
            Transatcion {
                tx_type: entry.tx_type,
                amount: entry.amount,
                state: TransactionState::Disputed,
            },
        );
        self.account.held = self.account.held + entry.amount as i128;
        Ok(())
    }

    /// Closes a dispute in the client's favour: the entry is normal again and
    /// its amount is no longer held. The frozen flag is not looked at.
    pub fn process_resolve(&mut self, tx: TransactionRequset) -> (res: Result<(), ErrorKind>)
        requires
            old(self).wf(),
        ensures
            final(self).wf(),
            (final(self)@, res) == resolve(old(self)@, tx),
    {
        proof {
            lemma_wf_bounds(self@);
            lemma_requests_keep_wf(self@, tx);
        }
        let entry: Transatcion = match self.tx_history.get(&tx.tx) {
            None => {
                return Err(ErrorKind::UnknownTransaction { client: tx.client, tx: tx.tx });
            },
            Some(e) => *e,
        };
        if entry.state != TransactionState::Disputed {
            return Err(ErrorKind::InvalidStateTransition { client: tx.client, tx: tx.tx });
        }
        self.tx_history.insert(
            tx.tx,
            Transatcion {
                tx_type: entry.tx_type,
                amount: entry.amount,
                state: TransactionState::Normal,
            },
        );
        self.account.held = self.account.held - entry.amount as i128;
        Ok(())
    }

    /// Closes a dispute by reversing the entry: its amount leaves both the
    /// held and the total balance, and the account is frozen for good.
    pub fn process_chargeback(&mut self, tx: TransactionRequset) -> (res: Result<(), ErrorKind>)
        requires
            old(self).wf(),
        ensures
            final(self).wf(),
            (final(self)@, res) == chargeback(old(self)@, tx),
    {
        proof {
            lemma_wf_bounds(self@);
            lemma_requests_keep_wf(self@, tx);
        }
        let entry: Transatcion = match self.tx_history.get(&tx.tx) {
            None => {
                return Err(ErrorKind::UnknownTransaction { client: tx.client, tx: tx.tx });
            },
            Some(e) => *e,
        };
        if entry.state != TransactionState::Disputed {
            return Err(ErrorKind::InvalidStateTransition { client: tx.client, tx: tx.tx });
        }
        self.tx_history.insert(
            tx.tx,
            Transatcion {
                tx_type: entry.tx_type,
                amount: entry.amount,
                state: TransactionState::Chargedback,
            },
        );
        self.account.held = self.account.held - entry.amount as i128;
        self.account.total = self.account.total - entry.amount as i128;
        self.frozen = true;
        Ok(())
    }
}

} // verus!
