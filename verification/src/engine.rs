//! The registry of accounts: routes each request to its client's account,
//! opening the account on first mention.

use vstd::prelude::*;
use std::collections::HashMap;
use crate::model::{apply, lemma_wf_bounds, UserView};
use crate::record::{
    csv_records, parse_record, read_records, request_of, requests_of, rows_view, row_view,
};
use crate::user::{ErrorKind, TransactionRequset, User};

verus! {

broadcast use vstd::std_specs::hash::group_hash_axioms;

/// Number of distinct client ids.
pub const CLIENT_SPACE: u32 = 0x1_0000;

/// All accounts, by client id.
pub struct Engine {
    pub users: HashMap<u16, User>,
}

/// One line of the final report, balances in ten-thousandths of a unit.
#[derive(Copy, Clone, Debug, PartialEq, Eq)]
pub struct ReportRow {
    pub client: u16,
    pub available: i128,
    pub held: i128,
    pub total: i128,
    pub locked: bool,
}

/// Every account of the registry is well-formed and filed under its own id.
pub open spec fn registry_wf(e: Map<u16, UserView>) -> bool {
    forall|c: u16| #[trigger] e.contains_key(c) ==> e[c].wf() && e[c].id == c
}

/// The account that a request for `client` meets: the one on record, or a
/// new one.
pub open spec fn account_of(e: Map<u16, UserView>, client: u16) -> UserView {
    if e.contains_key(client) {
        e[client]
    } else {
        UserView::fresh(client)
    }
}

/// Effect of one request on the registry: the client's account, opened if
/// need be, takes the request, and stays on record whatever the answer.
pub open spec fn route(e: Map<u16, UserView>, tx: TransactionRequset) -> (
    Map<u16, UserView>,
    Result<(), ErrorKind>,
) {
    let (after, res) = apply(account_of(e, tx.client), tx);
    (e.insert(tx.client, after), res)
}

/// The registry after the requests `txs`, applied in order.
pub open spec fn run(e: Map<u16, UserView>, txs: Seq<TransactionRequset>) -> Map<u16, UserView>
    decreases txs.len(),
{
    if txs.len() == 0 {
        e
    } else {
        route(run(e, txs.drop_last()), txs.last()).0
    }
}

/// The answer that the request at position `i` of `txs` gets.
pub open spec fn answer(e: Map<u16, UserView>, txs: Seq<TransactionRequset>, i: int) -> Result<
    (),
    ErrorKind,
> {
    route(run(e, txs.take(i)), txs[i]).1
}

/// What becomes of the row at position `i` of `rows`: `None` if it writes no
/// request, and otherwise the answer that its request gets from the registry
/// as the rows before it have left it.
pub open spec fn row_outcome(
    e: Map<u16, UserView>,
    rows: Seq<Option<Seq<Seq<u8>>>>,
    i: int,
) -> Option<Result<(), ErrorKind>> {
    match request_of(rows[i]) {
        Some(tx) => Some(route(run(e, requests_of(rows.take(i))), tx).1),
        None => None,
    }
}

/// The report line of one account.
pub open spec fn row_of(u: UserView) -> ReportRow {
    ReportRow {
        client: u.id,
        available: (u.total - u.held) as i128,
        held: u.held as i128,
        total: u.total as i128,
        locked: u.frozen,
    }
}

/// The report lines of the accounts with an id below `n`, by ascending id.
pub open spec fn rows_upto(e: Map<u16, UserView>, n: nat) -> Seq<ReportRow>
    decreases n,
{
    if n == 0 {
        Seq::empty()
    } else {
        let rest = rows_upto(e, (n - 1) as nat);
        let c = (n - 1) as u16;
        if e.contains_key(c) {
            rest.push(row_of(e[c]))
        } else {
            rest
        }
    }
}

impl View for Engine {
    type V = Map<u16, UserView>;

    open spec fn view(&self) -> Map<u16, UserView> {
        self.users@.map_values(|u: User| u@)
    }
}

impl User {
    /// The account's line of the report.
    pub fn report_row(&self) -> (row: ReportRow)
        requires
            self.wf(),
        ensures
            row == row_of(self@),
    {
        proof {
            lemma_wf_bounds(self@);
        }
        ReportRow {
            client: self.id,
            available: self.account.avalible(),
            held: self.account.held,
            total: self.account.total,
            locked: self.frozen,
        }
    }
}

impl Engine {
    /// Every account on record is well-formed and filed under its own id.
    pub open spec fn wf(&self) -> bool {
        registry_wf(self@)
    }

    /// A registry with no accounts.
    pub fn new() -> (r: Engine)
        ensures
            r.wf(),
            r@ == Map::<u16, UserView>::empty(),
    {
        let r = Engine { users: HashMap::new() };
        assert(r@ =~= Map::<u16, UserView>::empty());
        r
    }

    /// Hands one request to its client's account, which is opened first if
    /// the client is new, and returns that account's answer.
    pub fn process_tx(&mut self, tx: TransactionRequset) -> (res: Result<(), ErrorKind>)
        requires
            old(self).wf(),
        ensures
            final(self).wf(),
            (final(self)@, res) == route(old(self)@, tx),
    {
        let mut user = match self.users.remove(&tx.client) {
            Some(u) => u,
            None => User::new(tx.client),
        };
        proof {
            crate::model::lemma_requests_keep_wf(user@, tx);
        }
        let res = user.process_tx(tx);
        self.users.insert(tx.client, user);
        assert(self@ =~= route(old(self)@, tx).0);
        res
    }

    /// Applies the requests in order, each to its client's account. A
    /// rejected request changes nothing and does not stop the run; the
    /// answers come back in the order of the requests.
    pub fn process_all(&mut self, txs: &Vec<TransactionRequset>) -> (answers: Vec<
        Result<(), ErrorKind>,
    >)
        requires
            old(self).wf(),
        ensures
            final(self).wf(),
            final(self)@ == run(old(self)@, txs@),
            answers@.len() == txs@.len(),
            forall|i: int| 0 <= i < txs@.len() ==> answers@[i] == answer(old(self)@, txs@, i),
    {
        let ghost start = self@;
        let mut answers: Vec<Result<(), ErrorKind>> = Vec::new();
        let mut i: usize = 0;
        assert(txs@.take(0) =~= Seq::<TransactionRequset>::empty());
        while i < txs.len()
            invariant
                i <= txs.len(),
                self.wf(),
                self@ == run(start, txs@.take(i as int)),
                answers@.len() == i,
                forall|j: int| 0 <= j < i ==> answers@[j] == answer(start, txs@, j),
            decreases txs.len() - i,
        {
            let res = self.process_tx(txs[i]);
            assert(txs@.take(i + 1).drop_last() =~= txs@.take(i as int));
            answers.push(res);
            i = i + 1;
        }
        assert(txs@.take(i as int) =~= txs@);
        answers
    }

    /// Applies the requests that the rows write, in order. A row that writes
    /// no request is passed over and changes nothing. There is one outcome
    /// for each row: `None` for a row that was passed over, and otherwise the
    /// answer to its request.
    pub fn process_records(&mut self, rows: &Vec<Option<Vec<Vec<u8>>>>) -> (outcomes: Vec<
        Option<Result<(), ErrorKind>>,
    >)
        requires
            old(self).wf(),
        ensures
            final(self).wf(),
            final(self)@ == run(old(self)@, requests_of(rows_view(*rows))),
            outcomes@.len() == rows@.len(),
            forall|i: int|
                0 <= i < rows@.len() ==> outcomes@[i] == row_outcome(
                    old(self)@,
                    rows_view(*rows),
                    i,
                ),
    {
        let ghost start = self@;
        let ghost all = rows_view(*rows);
        let mut outcomes: Vec<Option<Result<(), ErrorKind>>> = Vec::new();
        let mut i: usize = 0;
        assert(all.take(0) =~= Seq::<Option<Seq<Seq<u8>>>>::empty());
        while i < rows.len()
            invariant
                i <= rows.len(),
                all == rows_view(*rows),
                self.wf(),
                self@ == run(start, requests_of(all.take(i as int))),
                outcomes@.len() == i,
                forall|j: int| 0 <= j < i ==> outcomes@[j] == row_outcome(start, all, j),
            decreases rows.len() - i,
        {
            let ghost before = requests_of(all.take(i as int));
            assert(all.take(i + 1).drop_last() =~= all.take(i as int));
            assert(all.take(i + 1).last() == row_view(rows@[i as int]));
            let parsed = match &rows[i] {
                Some(fields) => parse_record(fields),
                None => None,
            };
            match parsed {
                Some(tx) => {
                    let res = self.process_tx(tx);
                    assert(before.push(tx).drop_last() =~= before);
                    outcomes.push(Some(res));
                },
                None => {
                    outcomes.push(None);
                },
            }
            i = i + 1;
        }
        assert(all.take(i as int) =~= all);
        outcomes
    }

    /// Applies the requests of a delimited text: a header line, then one row
    /// of `type, client, tx, amount` for each request. There is one outcome
    /// for each row after the header: `None` for a row that writes no request
    /// and was passed over, and otherwise the answer to its request.
    pub fn process_data(&mut self, data: &Vec<u8>) -> (outcomes: Vec<
        Option<Result<(), ErrorKind>>,
    >)
        requires
            old(self).wf(),
        ensures
            final(self).wf(),
            final(self)@ == run(old(self)@, requests_of(csv_records(data@))),
            outcomes@.len() == csv_records(data@).len(),
            forall|i: int|
                0 <= i < outcomes@.len() ==> outcomes@[i] == row_outcome(
                    old(self)@,
                    csv_records(data@),
                    i,
                ),
    {
        let rows = read_records(data);
        self.process_records(&rows)
    }

    /// The report: one line for each account on record, by ascending client
    /// id.
    pub fn report(&self) -> (rows: Vec<ReportRow>)
        requires
            self.wf(),
        ensures
            rows@ == rows_upto(self@, CLIENT_SPACE as nat),
    {
        let mut rows: Vec<ReportRow> = Vec::new();
        let mut c: u32 = 0;
        while c < CLIENT_SPACE
            invariant
                c <= CLIENT_SPACE,
                self.wf(),
                rows@ == rows_upto(self@, c as nat),
            decreases CLIENT_SPACE - c,
        {
            let id: u16 = c as u16;
            match self.users.get(&id) {
                Some(user) => {
                    assert(self@.contains_key(id) && self@[id] == user@);
                    rows.push(user.report_row());
                },
                None => {},
            }
            c = c + 1;
        }
        rows
    }
}

} // verus!
