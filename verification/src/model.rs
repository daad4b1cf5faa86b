//! The mathematical model of one account: its state as plain values, and the
//! effect of each kind of transaction on it.

use vstd::prelude::*;
use crate::sums::{lemma_sum_all_bounds, lemma_sum_all_differs_at, sum_all};
use crate::user::{
    ErrorKind, TransactionRequset, TransactionState, TransactionType, Transatcion,
};

verus! {

/// Largest opening balance, in either direction, that an account may start
/// from before any transaction is recorded: 2^100.
pub const OPENING_LIMIT: i128 = 0x10_0000_0000_0000_0000_0000_0000;

/// Bound on the size of either balance of a well-formed account: 2^101.
pub const BALANCE_LIMIT: i128 = 0x20_0000_0000_0000_0000_0000_0000;

/// An account as the contracts see it.
pub struct UserView {
    pub id: u16,
    pub total: int,
    pub held: int,
    pub history: Map<u32, Transatcion>,
    pub frozen: bool,
}

/// What the entry under each id adds to the held balance: its amount while it
/// is disputed, nothing otherwise.
pub open spec fn held_weight(h: Map<u32, Transatcion>) -> spec_fn(u32) -> int {
    |k: u32|
        if h.contains_key(k) && h[k].state == TransactionState::Disputed {
            h[k].amount as int
        } else {
            0
        }
}

/// What the entry under each id adds to the total balance: a deposit its
/// amount, a withdrawal the negated amount, and once charged back the amount
/// is taken off again.
pub open spec fn total_weight(h: Map<u32, Transatcion>) -> spec_fn(u32) -> int {
    |k: u32|
        if h.contains_key(k) {
            (if h[k].tx_type == TransactionType::Withdrawal {
                -(h[k].amount as int)
            } else {
                h[k].amount as int
            }) - (if h[k].state == TransactionState::Chargedback {
                h[k].amount as int
            } else {
                0
            })
        } else {
            0
        }
}

impl UserView {
    /// The funds that are not held.
    pub open spec fn available(self) -> int {
        self.total - self.held
    }

    /// The part of the held balance that no entry of the history accounts for.
    pub open spec fn opening_held(self) -> int {
        self.held - sum_all(held_weight(self.history))
    }

    /// The part of the total balance that no entry of the history accounts for.
    pub open spec fn opening_total(self) -> int {
        self.total - sum_all(total_weight(self.history))
    }

    /// The balances are what the history accounts for on top of an opening
    /// balance of bounded size, whose held part is not negative.
    pub open spec fn wf(self) -> bool {
        &&& 0 <= self.opening_held() <= OPENING_LIMIT
        &&& -OPENING_LIMIT <= self.opening_total() <= OPENING_LIMIT
    }

    /// A new account: zero balances, no history, not frozen.
    pub open spec fn fresh(id: u16) -> UserView {
        UserView { id, total: 0, held: 0, history: Map::empty(), frozen: false }
    }
}

/// The amount that a deposit or withdrawal request carries, if it is usable:
/// present and not zero.
pub open spec fn valid_amount(tx: TransactionRequset) -> Option<u64> {
    match tx.amount {
        Some(a) if a != 0 => Some(a),
        _ => None,
    }
}

/// The entry that an accepted deposit or withdrawal leaves in the history.
pub open spec fn new_entry(tx_type: TransactionType, amount: u64) -> Transatcion {
    Transatcion { tx_type, amount, state: TransactionState::Normal }
}

/// The entry `e` moved to another state.
pub open spec fn with_state(e: Transatcion, state: TransactionState) -> Transatcion {
    Transatcion { tx_type: e.tx_type, amount: e.amount, state }
}

/// Effect of a deposit on an account that is not frozen.
pub open spec fn deposit(s: UserView, tx: TransactionRequset) -> (UserView, Result<(), ErrorKind>) {
    if s.history.contains_key(tx.tx) {
        (s, Err(ErrorKind::DuplicateTransactionId { client: tx.client, tx: tx.tx }))
    } else {
        match valid_amount(tx) {
            None => (s, Err(ErrorKind::InvalidAmount { client: tx.client, tx: tx.tx })),
            Some(a) => (
                UserView {
                    total: s.total + a,
                    history: s.history.insert(tx.tx, new_entry(TransactionType::Deposit, a)),
                    ..s
                },
                Ok(()),
            ),
        }
    }
}

/// Effect of a withdrawal on an account that is not frozen.
pub open spec fn withdrawal(s: UserView, tx: TransactionRequset) -> (
    UserView,
    Result<(), ErrorKind>,
) {
    if s.history.contains_key(tx.tx) {
        (s, Err(ErrorKind::DuplicateTransactionId { client: tx.client, tx: tx.tx }))
    } else {
        match valid_amount(tx) {
            None => (s, Err(ErrorKind::InvalidAmount { client: tx.client, tx: tx.tx })),
            Some(a) => if a > s.available() {
                (s, Err(ErrorKind::InsufficientFunds { client: tx.client, tx: tx.tx }))
            } else {
                (
                    UserView {
                        total: s.total - a,
                        history: s.history.insert(
                            tx.tx,
                            new_entry(TransactionType::Withdrawal, a),
                        ),
                        ..s
                    },
                    Ok(()),
                )
            },
        }
    }
}

/// Effect of a dispute on an account that is not frozen.
pub open spec fn dispute(s: UserView, tx: TransactionRequset) -> (UserView, Result<(), ErrorKind>) {
    if !s.history.contains_key(tx.tx) {
        (s, Err(ErrorKind::UnknownTransaction { client: tx.client, tx: tx.tx }))
    } else if s.history[tx.tx].state != TransactionState::Normal {
        (s, Err(ErrorKind::InvalidStateTransition { client: tx.client, tx: tx.tx }))
    } else {
        let e = s.history[tx.tx];
        (
            UserView {
                held: s.held + e.amount,
                history: s.history.insert(tx.tx, with_state(e, TransactionState::Disputed)),
                ..s
            },
            Ok(()),
        )
    }
}

/// Effect of a resolution on an account that is not frozen.
pub open spec fn resolve(s: UserView, tx: TransactionRequset) -> (UserView, Result<(), ErrorKind>) {
    if !s.history.contains_key(tx.tx) {
        (s, Err(ErrorKind::UnknownTransaction { client: tx.client, tx: tx.tx }))
    } else if s.history[tx.tx].state != TransactionState::Disputed {
        (s, Err(ErrorKind::InvalidStateTransition { client: tx.client, tx: tx.tx }))
    } else {
        let e = s.history[tx.tx];
        (
            UserView {
                held: s.held - e.amount,
                history: s.history.insert(tx.tx, with_state(e, TransactionState::Normal)),
                ..s
            },
            Ok(()),
        )
    }
}

/// Effect of a chargeback on an account that is not frozen.
pub open spec fn chargeback(s: UserView, tx: TransactionRequset) -> (
    UserView,
    Result<(), ErrorKind>,
) {
    if !s.history.contains_key(tx.tx) {
        (s, Err(ErrorKind::UnknownTransaction { client: tx.client, tx: tx.tx }))
    } else if s.history[tx.tx].state != TransactionState::Disputed {
        (s, Err(ErrorKind::InvalidStateTransition { client: tx.client, tx: tx.tx }))
    } else {
        let e = s.history[tx.tx];
        (
            UserView {
                total: s.total - e.amount,
                held: s.held - e.amount,
                history: s.history.insert(tx.tx, with_state(e, TransactionState::Chargedback)),
                frozen: true,
                ..s
            },
            Ok(()),
        )
    }
}

/// The outcome of a request that is rejected for `reason`: the account as it
/// was, and the reason.
pub open spec fn rejected(s: UserView, reason: ErrorKind) -> (UserView, Result<(), ErrorKind>) {
    (s, Err(reason))
}

/// Effect of any request on any account: the state it leaves and the answer
/// it gets. A frozen account rejects everything.
pub open spec fn apply(s: UserView, tx: TransactionRequset) -> (UserView, Result<(), ErrorKind>) {
    if s.frozen {
        (s, Err(ErrorKind::AccountFrozen { client: tx.client, tx: tx.tx }))
    } else {
        match tx.kind {
            TransactionType::Deposit => deposit(s, tx),
            TransactionType::Withdrawal => withdrawal(s, tx),
            TransactionType::Dispute => dispute(s, tx),
            TransactionType::Resolve => resolve(s, tx),
            TransactionType::Chargeback => chargeback(s, tx),
        }
    }
}

/// Writing `e` under `t` moves both sums by the change of weight at `t`.
pub proof fn lemma_sums_after_insert(h: Map<u32, Transatcion>, t: u32, e: Transatcion)
    ensures
        sum_all(held_weight(h.insert(t, e))) == sum_all(held_weight(h)) + held_weight(
            h.insert(t, e),
        )(t) - held_weight(h)(t),
        sum_all(total_weight(h.insert(t, e))) == sum_all(total_weight(h)) + total_weight(
            h.insert(t, e),
        )(t) - total_weight(h)(t),
{
    let h2 = h.insert(t, e);
    assert forall|k: u32| k != t implies #[trigger] held_weight(h)(k) == held_weight(h2)(k) by {}
    assert forall|k: u32| k != t implies #[trigger] total_weight(h)(k) == total_weight(h2)(k) by {}
    lemma_sum_all_differs_at(held_weight(h), held_weight(h2), t);
    lemma_sum_all_differs_at(total_weight(h), total_weight(h2), t);
}

/// In a well-formed account the held balance is not negative, and both
/// balances stay within `BALANCE_LIMIT`.
pub proof fn lemma_wf_bounds(s: UserView)
    requires
        s.wf(),
    ensures
        0 <= s.held <= BALANCE_LIMIT,
        -BALANCE_LIMIT <= s.total <= BALANCE_LIMIT,
{
    let m = u64::MAX as int;
    assert forall|k: u32| 0 <= #[trigger] held_weight(s.history)(k) <= m by {}
    assert forall|k: u32| -2 * m <= #[trigger] total_weight(s.history)(k) <= m by {}
    lemma_sum_all_bounds(held_weight(s.history), 0, m);
    lemma_sum_all_bounds(total_weight(s.history), -2 * m, m);
}

/// An account without history is well-formed if its balances are within the
/// limits of an opening balance; what it holds is then its opening balance.
pub proof fn lemma_opening_balance_is_wf(s: UserView)
    requires
        s.history == Map::<u32, Transatcion>::empty(),
        0 <= s.held <= OPENING_LIMIT,
        -OPENING_LIMIT <= s.total <= OPENING_LIMIT,
    ensures
        s.wf(),
        s.opening_held() == s.held,
        s.opening_total() == s.total,
{
    assert forall|k: u32| 0 <= #[trigger] held_weight(s.history)(k) <= 0 by {}
    assert forall|k: u32| 0 <= #[trigger] total_weight(s.history)(k) <= 0 by {}
    lemma_sum_all_bounds(held_weight(s.history), 0, 0);
    lemma_sum_all_bounds(total_weight(s.history), 0, 0);
}

/// A new account is well-formed.
pub proof fn lemma_fresh_is_wf(id: u16)
    ensures
        UserView::fresh(id).wf(),
        UserView::fresh(id).opening_held() == 0,
        UserView::fresh(id).opening_total() == 0,
{
    lemma_opening_balance_is_wf(UserView::fresh(id));
}

/// `after` is well-formed and has the identity and opening balance of `before`.
pub open spec fn carries_on(before: UserView, after: UserView) -> bool {
    &&& after.wf()
    &&& after.id == before.id
    &&& after.opening_held() == before.opening_held()
    &&& after.opening_total() == before.opening_total()
}

/// Every request, accepted or not, leaves a well-formed account well-formed,
/// with the opening balance it had.
pub proof fn lemma_requests_keep_wf(s: UserView, tx: TransactionRequset)
    requires
        s.wf(),
    ensures
        carries_on(s, deposit(s, tx).0),
        carries_on(s, withdrawal(s, tx).0),
        carries_on(s, dispute(s, tx).0),
        carries_on(s, resolve(s, tx).0),
        carries_on(s, chargeback(s, tx).0),
        carries_on(s, apply(s, tx).0),
{
    lemma_sums_after_insert(s.history, tx.tx, deposit(s, tx).0.history[tx.tx]);
    lemma_sums_after_insert(s.history, tx.tx, withdrawal(s, tx).0.history[tx.tx]);
    lemma_sums_after_insert(s.history, tx.tx, dispute(s, tx).0.history[tx.tx]);
    lemma_sums_after_insert(s.history, tx.tx, resolve(s, tx).0.history[tx.tx]);
    lemma_sums_after_insert(s.history, tx.tx, chargeback(s, tx).0.history[tx.tx]);
}

} // verus!
