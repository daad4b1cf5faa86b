//! What holds of accounts and of sequences of requests, whatever the values.

use vstd::prelude::*;
use crate::amount::{
    all_digits, amount_of, decimal_text, digit_of, digits_of, digits_value, dot_position,
    fraction_of, fraction_text, fraction_value, is_digit, DOT, MAX_WHOLE, SCALE,
};
use crate::engine::{account_of, registry_wf, route, run};
use crate::model::{
    apply, lemma_fresh_is_wf, lemma_requests_keep_wf, lemma_wf_bounds, rejected, valid_amount,
    UserView,
};
use crate::user::{ErrorKind, TransactionRequset, TransactionState, TransactionType};

verus! {

/// The account after the requests `txs`, applied in order.
pub open spec fn replay(s: UserView, txs: Seq<TransactionRequset>) -> UserView
    decreases txs.len(),
{
    if txs.len() == 0 {
        s
    } else {
        apply(replay(s, txs.drop_last()), txs.last()).0
    }
}

/// Whatever requests a well-formed account has seen, it is still well-formed.
pub proof fn lemma_replay_keeps_wf(s: UserView, txs: Seq<TransactionRequset>)
    requires
        s.wf(),
    ensures
        replay(s, txs).wf(),
    decreases txs.len(),
{
    if txs.len() > 0 {
        lemma_replay_keeps_wf(s, txs.drop_last());
        lemma_requests_keep_wf(replay(s, txs.drop_last()), txs.last());
    }
}

/// The held balance of a well-formed account is never negative, and what is
/// available is the total less the held balance.
pub proof fn lemma_held_is_not_negative(s: UserView)
    requires
        s.wf(),
    ensures
        s.held >= 0,
        s.available() == s.total - s.held,
{
    lemma_wf_bounds(s);
}

/// After any sequence of requests on a new account the held balance is not
/// negative.
pub proof fn lemma_held_is_never_negative(id: u16, txs: Seq<TransactionRequset>)
    ensures
        replay(UserView::fresh(id), txs).held >= 0,
{
    lemma_fresh_is_wf(id);
    lemma_replay_keeps_wf(UserView::fresh(id), txs);
    lemma_wf_bounds(replay(UserView::fresh(id), txs));
}

/// The one request after which more may be held than the account holds in
/// total: an accepted dispute of an entry larger than what is available.
pub open spec fn disputes_beyond_available(s: UserView, tx: TransactionRequset) -> bool {
    &&& tx.kind == TransactionType::Dispute
    &&& apply(s, tx).1 is Ok
    &&& s.history[tx.tx].amount > s.available()
}

/// Where the held balance does not exceed the total, it does not exceed it
/// after the next request either, unless that request disputes an entry
/// larger than what is available.
pub proof fn lemma_held_stays_within_total(s: UserView, tx: TransactionRequset)
    requires
        s.held <= s.total,
        !disputes_beyond_available(s, tx),
    ensures
        apply(s, tx).0.held <= apply(s, tx).0.total,
{
}

/// A dispute of an entry larger than what is available is accepted all the
/// same, and leaves more held than the total.
pub proof fn lemma_dispute_beyond_available_overdraws(s: UserView, tx: TransactionRequset)
    requires
        disputes_beyond_available(s, tx),
    ensures
        apply(s, tx).0.held > apply(s, tx).0.total,
{
}

/// A rejected request changes nothing.
pub proof fn lemma_rejected_request_changes_nothing(s: UserView, tx: TransactionRequset)
    requires
        apply(s, tx).1 is Err,
    ensures
        apply(s, tx).0 == s,
{
}

/// A rejected request is rejected again, for the same reason, when it is
/// sent again.
pub proof fn lemma_rejection_repeats(s: UserView, tx: TransactionRequset)
    requires
        apply(s, tx).1 is Err,
    ensures
        apply(apply(s, tx).0, tx) == apply(s, tx),
{
}

/// On a new account, a deposit followed by a withdrawal of the same amount
/// under another id leaves a total of zero and nothing available.
pub proof fn lemma_deposit_then_withdrawal_is_zero(
    id: u16,
    dep: TransactionRequset,
    wd: TransactionRequset,
)
    requires
        dep.kind == TransactionType::Deposit,
        wd.kind == TransactionType::Withdrawal,
        dep.amount == wd.amount,
        dep.tx != wd.tx || valid_amount(dep) is None,
    ensures
        apply(apply(UserView::fresh(id), dep).0, wd).0.total == 0,
        apply(apply(UserView::fresh(id), dep).0, wd).0.available() == 0,
{
}

/// The same two requests under one id: the withdrawal is a duplicate, and the
/// deposit stays.
pub proof fn lemma_deposit_then_withdrawal_same_id(
    id: u16,
    dep: TransactionRequset,
    wd: TransactionRequset,
)
    requires
        dep.kind == TransactionType::Deposit,
        wd.kind == TransactionType::Withdrawal,
        dep.amount == wd.amount,
        dep.tx == wd.tx,
        valid_amount(dep) is Some,
    ensures
        apply(apply(UserView::fresh(id), dep).0, wd).1 == Err::<(), ErrorKind>(
            ErrorKind::DuplicateTransactionId { client: wd.client, tx: wd.tx },
        ),
        apply(apply(UserView::fresh(id), dep).0, wd).0.total == valid_amount(dep).unwrap(),
{
}

/// On an account that is not frozen, a deposit or withdrawal under an id of
/// the history is rejected as a duplicate, whatever kind the entry under that
/// id is and whatever state it is in.
pub proof fn lemma_known_id_is_duplicate(s: UserView, tx: TransactionRequset)
    requires
        !s.frozen,
        s.history.contains_key(tx.tx),
        tx.kind == TransactionType::Deposit || tx.kind == TransactionType::Withdrawal,
    ensures
        apply(s, tx) == rejected(
            s,
            (ErrorKind::DuplicateTransactionId { client: tx.client, tx: tx.tx }),
        ),
{
}

/// Once a deposit or withdrawal is accepted, the next deposit or withdrawal
/// under its id is rejected as a duplicate.
pub proof fn lemma_replayed_id_is_duplicate(
    s: UserView,
    first: TransactionRequset,
    again: TransactionRequset,
)
    requires
        first.kind == TransactionType::Deposit || first.kind == TransactionType::Withdrawal,
        again.kind == TransactionType::Deposit || again.kind == TransactionType::Withdrawal,
        again.tx == first.tx,
        apply(s, first).1 is Ok,
    ensures
        apply(apply(s, first).0, again) == rejected(
            apply(s, first).0,
            (ErrorKind::DuplicateTransactionId { client: again.client, tx: again.tx }),
        ),
{
}

/// A deposit or withdrawal that was rejected for its amount, or for want of
/// funds, has not used up its id: the history is as it was.
pub proof fn lemma_rejected_request_keeps_id_free(s: UserView, tx: TransactionRequset)
    requires
        apply(s, tx).1 is Err,
    ensures
        apply(s, tx).0.history == s.history,
{
}

/// An accepted dispute followed by the resolution of the same entry is
/// accepted too and gives back the account as it was before the dispute:
/// balances, history and all.
pub proof fn lemma_dispute_then_resolve_round_trip(
    s: UserView,
    dis: TransactionRequset,
    res: TransactionRequset,
)
    requires
        dis.kind == TransactionType::Dispute,
        res.kind == TransactionType::Resolve,
        res.tx == dis.tx,
        apply(s, dis).1 is Ok,
    ensures
        apply(apply(s, dis).0, res) == (s, Ok::<(), ErrorKind>(())),
{
    let after = apply(apply(s, dis).0, res).0;
    assert(after.history =~= s.history);
}

/// An accepted dispute followed by the chargeback of the same entry is
/// accepted too. It leaves the account frozen, takes the entry's amount off
/// the held balance, which is then what it was before the dispute, and off
/// the total; and every later request, whatever it is, is rejected because
/// the account is frozen, and changes nothing.
pub proof fn lemma_dispute_then_chargeback_freezes(
    s: UserView,
    dis: TransactionRequset,
    cb: TransactionRequset,
)
    requires
        dis.kind == TransactionType::Dispute,
        cb.kind == TransactionType::Chargeback,
        cb.tx == dis.tx,
        apply(s, dis).1 is Ok,
    ensures
        ({
            let disputed = apply(s, dis).0;
            let (after, answer) = apply(disputed, cb);
            let amount = s.history[dis.tx].amount;
            &&& answer is Ok
            &&& after.frozen
            &&& after.held == disputed.held - amount
            &&& after.held == s.held
            &&& after.total == disputed.total - amount
            &&& after.total == s.total - amount
            &&& after.history[dis.tx].state == TransactionState::Chargedback
            &&& forall|tx: TransactionRequset| #[trigger]
                apply(after, tx) == rejected(
                    after,
                    (ErrorKind::AccountFrozen { client: tx.client, tx: tx.tx }),
                )
        }),
{
}

/// A frozen account stays frozen and rejects every request.
pub proof fn lemma_frozen_rejects_everything(s: UserView, tx: TransactionRequset)
    requires
        s.frozen,
    ensures
        apply(s, tx) == rejected(
            s,
            (ErrorKind::AccountFrozen { client: tx.client, tx: tx.tx }),
        ),
{
}

/// On an account that is not frozen, a dispute of an id that is not in the
/// history is rejected as unknown and changes nothing.
pub proof fn lemma_dispute_of_unknown_id(s: UserView, tx: TransactionRequset)
    requires
        !s.frozen,
        tx.kind == TransactionType::Dispute,
        !s.history.contains_key(tx.tx),
    ensures
        apply(s, tx) == rejected(
            s,
            (ErrorKind::UnknownTransaction { client: tx.client, tx: tx.tx }),
        ),
{
}

/// On an account that is not frozen, a dispute of an entry that is already
/// disputed or charged back is rejected and changes nothing.
pub proof fn lemma_dispute_of_disputed_entry(s: UserView, tx: TransactionRequset)
    requires
        !s.frozen,
        tx.kind == TransactionType::Dispute,
        s.history.contains_key(tx.tx),
        s.history[tx.tx].state == TransactionState::Disputed || s.history[tx.tx].state
            == TransactionState::Chargedback,
    ensures
        apply(s, tx) == rejected(
            s,
            (ErrorKind::InvalidStateTransition { client: tx.client, tx: tx.tx }),
        ),
{
}

/// A request reaches the account of its own client, which is on record
/// afterwards whatever the answer, and no other account.
pub proof fn lemma_route_touches_one_account(
    e: Map<u16, UserView>,
    tx: TransactionRequset,
    other: u16,
)
    requires
        other != tx.client,
    ensures
        route(e, tx).0.contains_key(tx.client),
        route(e, tx).0[tx.client] == apply(account_of(e, tx.client), tx).0,
        route(e, tx).1 == apply(account_of(e, tx.client), tx).1,
        route(e, tx).0.contains_key(other) == e.contains_key(other),
        account_of(route(e, tx).0, other) == account_of(e, other),
{
}

/// A request leaves a registry of well-formed accounts as one.
pub proof fn lemma_route_keeps_wf(e: Map<u16, UserView>, tx: TransactionRequset)
    requires
        registry_wf(e),
    ensures
        registry_wf(route(e, tx).0),
{
    lemma_fresh_is_wf(tx.client);
    lemma_requests_keep_wf(account_of(e, tx.client), tx);
}

/// Any sequence of requests leaves a registry of well-formed accounts as one.
pub proof fn lemma_run_keeps_wf(e: Map<u16, UserView>, txs: Seq<TransactionRequset>)
    requires
        registry_wf(e),
    ensures
        registry_wf(run(e, txs)),
    decreases txs.len(),
{
    if txs.len() > 0 {
        lemma_run_keeps_wf(e, txs.drop_last());
        lemma_route_keeps_wf(run(e, txs.drop_last()), txs.last());
    }
}

/// Whatever requests an empty registry has seen, no account in it holds a
/// negative amount.
pub proof fn lemma_no_account_holds_a_negative_amount(txs: Seq<TransactionRequset>, client: u16)
    requires
        run(Map::empty(), txs).contains_key(client),
    ensures
        run(Map::empty(), txs)[client].held >= 0,
        run(Map::empty(), txs)[client].available() == run(Map::empty(), txs)[client].total - run(
            Map::empty(),
            txs,
        )[client].held,
{
    assert(registry_wf(Map::<u16, UserView>::empty()));
    lemma_run_keeps_wf(Map::empty(), txs);
    lemma_wf_bounds(run(Map::empty(), txs)[client]);
}

/// The requests of `txs` that are for `client`, in order.
pub open spec fn requests_for(txs: Seq<TransactionRequset>, client: u16) -> Seq<
    TransactionRequset,
>
    decreases txs.len(),
{
    if txs.len() == 0 {
        Seq::empty()
    } else if txs.last().client == client {
        requests_for(txs.drop_last(), client).push(txs.last())
    } else {
        requests_for(txs.drop_last(), client)
    }
}

/// Accounts do not depend on each other: after any sequence of requests, the
/// account of a client is what its own requests alone make of it.
pub proof fn lemma_accounts_are_independent(
    e: Map<u16, UserView>,
    txs: Seq<TransactionRequset>,
    client: u16,
)
    ensures
        account_of(run(e, txs), client) == replay(account_of(e, client), requests_for(txs, client)),
    decreases txs.len(),
{
    if txs.len() > 0 {
        lemma_accounts_are_independent(e, txs.drop_last(), client);
        if txs.last().client == client {
            assert(requests_for(txs, client).drop_last() =~= requests_for(
                txs.drop_last(),
                client,
            ));
        }
    }
}

/// The digits written for a number are digits, at least one, and write that
/// number.
pub proof fn lemma_digits_of_write_the_number(n: nat)
    ensures
        digits_of(n).len() >= 1,
        all_digits(digits_of(n)),
        digits_value(digits_of(n)) == n,
    decreases n,
{
    let text = digits_of(n);
    if n < 10 {
        assert(text.drop_last() =~= Seq::<u8>::empty());
        assert(digits_value(text.drop_last()) == 0);
        assert(digit_of(text.last()) == n);
    } else {
        lemma_digits_of_write_the_number(n / 10);
        assert(text.drop_last() =~= digits_of(n / 10));
        assert(digit_of(text.last()) == n % 10);
        assert(digits_value(text) == digits_value(text.drop_last()) * 10 + digit_of(text.last()));
    }
}

/// The four digits written for a fraction are digits and write that fraction.
pub proof fn lemma_fraction_text_writes_the_fraction(f: nat)
    requires
        f < SCALE,
    ensures
        fraction_text(f).len() == 4,
        all_digits(fraction_text(f)),
        fraction_value(fraction_text(f)) == f,
{
    let text = fraction_text(f);
    let tens = f / 10;
    let hundreds = tens / 10;
    let thousands = hundreds / 10;
    assert(digit_of(text[0]) == thousands);
    assert(digit_of(text[1]) == hundreds % 10);
    assert(digit_of(text[2]) == tens % 10);
    assert(digit_of(text[3]) == f % 10);
}

/// Digits, a point and more bytes split at that point into the digits and
/// those bytes.
pub proof fn lemma_decimal_splits_at_the_point(whole: Seq<u8>, frac: Seq<u8>)
    requires
        all_digits(whole),
    ensures
        dot_position(whole + seq![DOT] + frac) == whole.len(),
        (whole + seq![DOT] + frac).take(whole.len() as int) == whole,
        fraction_of(whole + seq![DOT] + frac) == frac,
{
    let text = whole + seq![DOT] + frac;
    let p = whole.len() as int;
    assert(text[p] == DOT);
    assert forall|j: int| 0 <= j < p implies text[j] != DOT by {
        assert(is_digit(whole[j]));
    }
    text.index_of_first_ensures(DOT);
    assert(text.contains(DOT));
    assert(dot_position(text) == p);
    assert(text.take(p) =~= whole);
    assert(text.skip(p + 1) =~= frac);
}

/// An amount that is written as text and read again is the same amount.
pub proof fn lemma_amount_text_round_trip(v: u64)
    requires
        v / SCALE <= MAX_WHOLE,
    ensures
        amount_of(decimal_text(v as int)) == Some(Some(v)),
{
    let w = (v / 10_000) as nat;
    let f = (v % 10_000) as nat;
    lemma_digits_of_write_the_number(w);
    lemma_fraction_text_writes_the_fraction(f);
    lemma_decimal_splits_at_the_point(digits_of(w), fraction_text(f));
    assert(decimal_text(v as int) =~= digits_of(w) + seq![DOT] + fraction_text(f));
    assert(w * 10_000 + f == v);
}

} // verus!
