//! Requests as delimited text: the rows of a file become requests, and the
//! rows that are no request are left out.

use vstd::prelude::*;
use crate::amount::{amount_of, number_of, parse_amount, parse_number};
use crate::user::{TransactionRequset, TransactionType};

verus! {

/// Largest client id.
pub const MAX_CLIENT: u64 = 0xFFFF;

/// Largest transaction id.
pub const MAX_TX: u64 = 0xFFFF_FFFF;

/// Number of fields in a row: type, client, tx, amount.
pub const FIELDS: usize = 4;

/// The word that stands for each kind of request, in ASCII: `deposit`,
/// `withdrawal`, `dispute`, `resolve`, `chargeback`.
pub open spec fn token(kind: TransactionType) -> Seq<u8> {
    match kind {
        TransactionType::Deposit => seq![100u8, 101u8, 112u8, 111u8, 115u8, 105u8, 116u8],
        TransactionType::Withdrawal => seq![
            119u8,
            105u8,
            116u8,
            104u8,
            100u8,
            114u8,
            97u8,
            119u8,
            97u8,
            108u8,
        ],
        TransactionType::Dispute => seq![100u8, 105u8, 115u8, 112u8, 117u8, 116u8, 101u8],
        TransactionType::Resolve => seq![114u8, 101u8, 115u8, 111u8, 108u8, 118u8, 101u8],
        TransactionType::Chargeback => seq![
            99u8,
            104u8,
            97u8,
            114u8,
            103u8,
            101u8,
            98u8,
            97u8,
            99u8,
            107u8,
        ],
    }
}

/// The kind of request that a type field names: the field is exactly one of
/// the five words, in lower case.
pub open spec fn kind_of(s: Seq<u8>) -> Option<TransactionType> {
    if s == token(TransactionType::Deposit) {
        Some(TransactionType::Deposit)
    } else if s == token(TransactionType::Withdrawal) {
        Some(TransactionType::Withdrawal)
    } else if s == token(TransactionType::Dispute) {
        Some(TransactionType::Dispute)
    } else if s == token(TransactionType::Resolve) {
        Some(TransactionType::Resolve)
    } else if s == token(TransactionType::Chargeback) {
        Some(TransactionType::Chargeback)
    } else {
        None
    }
}

/// The request that a row of fields writes, if it writes one: four fields,
/// each of them well-formed.
pub open spec fn record_of(fields: Seq<Seq<u8>>) -> Option<TransactionRequset> {
    if fields.len() != FIELDS {
        None
    } else {
        match (
            kind_of(fields[0]),
            number_of(fields[1], MAX_CLIENT),
            number_of(fields[2], MAX_TX),
            amount_of(fields[3]),
        ) {
            (Some(kind), Some(client), Some(tx), Some(amount)) => Some(
                TransactionRequset { kind, client: client as u16, tx: tx as u32, amount },
            ),
            _ => None,
        }
    }
}

/// The request of a row that may have failed to split into fields.
pub open spec fn request_of(row: Option<Seq<Seq<u8>>>) -> Option<TransactionRequset> {
    match row {
        Some(fields) => record_of(fields),
        None => None,
    }
}

/// The requests that the rows write, in the order of the rows; rows that
/// write none are left out.
pub open spec fn requests_of(rows: Seq<Option<Seq<Seq<u8>>>>) -> Seq<TransactionRequset>
    decreases rows.len(),
{
    if rows.len() == 0 {
        Seq::empty()
    } else {
        match request_of(rows.last()) {
            Some(tx) => requests_of(rows.drop_last()).push(tx),
            None => requests_of(rows.drop_last()),
        }
    }
}

/// A row of fields as plain values.
pub open spec fn fields_view(fields: Vec<Vec<u8>>) -> Seq<Seq<u8>> {
    fields@.map_values(|f: Vec<u8>| f@)
}

/// A row that may have failed, as plain values.
pub open spec fn row_view(row: Option<Vec<Vec<u8>>>) -> Option<Seq<Seq<u8>>> {
    match row {
        Some(fields) => Some(fields_view(fields)),
        None => None,
    }
}

/// Rows as plain values.
pub open spec fn rows_view(rows: Vec<Option<Vec<Vec<u8>>>>) -> Seq<Option<Seq<Seq<u8>>>> {
    rows@.map_values(|row: Option<Vec<Vec<u8>>>| row_view(row))
}

/// The rows of a delimited text after its header line, as the `csv` crate
/// splits them with surrounding whitespace trimmed from every field; `None`
/// stands for a row that the crate reports as an error.
pub uninterp spec fn csv_records(data: Seq<u8>) -> Seq<Option<Seq<Seq<u8>>>>;

/// Splits delimited text into rows of fields.
///
/// Calls `csv::ReaderBuilder::from_reader` on the bytes, with `Trim::All` and
/// the crate's other defaults, and walks `Reader::byte_records`. Nothing is
/// proved of the splitting: the contract only gives the result its name,
/// `csv_records`, which is sound because the crate reads nothing but the
/// bytes it is handed.
#[verifier::external_body]
pub(crate) fn read_records(data: &Vec<u8>) -> (rows: Vec<Option<Vec<Vec<u8>>>>)
    ensures
        rows_view(rows) == csv_records(data@),
{
    let mut reader = csv::ReaderBuilder::new().trim(csv::Trim::All).from_reader(data.as_slice());
    reader.byte_records().map(
        |row| row.ok().map(|fields| fields.iter().map(|field| field.to_vec()).collect()),
    ).collect()
}

/// The word for `kind`, as bytes.
pub fn token_bytes(kind: TransactionType) -> (r: Vec<u8>)
    ensures
        r@ == token(kind),
{
    let r = match kind {
        TransactionType::Deposit => vec![100u8, 101u8, 112u8, 111u8, 115u8, 105u8, 116u8],
        TransactionType::Withdrawal => vec![
            119u8,
            105u8,
            116u8,
            104u8,
            100u8,
            114u8,
            97u8,
            119u8,
            97u8,
            108u8,
        ],
        TransactionType::Dispute => vec![100u8, 105u8, 115u8, 112u8, 117u8, 116u8, 101u8],
        TransactionType::Resolve => vec![114u8, 101u8, 115u8, 111u8, 108u8, 118u8, 101u8],
        TransactionType::Chargeback => vec![
            99u8,
            104u8,
            97u8,
            114u8,
            103u8,
            101u8,
            98u8,
            97u8,
            99u8,
            107u8,
        ],
    };
    assert(r@ =~= token(kind));
    r
}

/// Whether two byte strings are the same.
pub fn same_bytes(a: &Vec<u8>, b: &Vec<u8>) -> (r: bool)
    ensures
        r == (a@ == b@),
{
    if a.len() != b.len() {
        return false;
    }
    let mut i: usize = 0;
    while i < a.len()
        invariant
            i <= a.len(),
            a.len() == b.len(),
            forall|j: int| 0 <= j < i ==> a@[j] == b@[j],
        decreases a.len() - i,
    {
        if a[i] != b[i] {
            return false;
        }
        i = i + 1;
    }
    assert(a@ =~= b@);
    true
}

/// Reads a type field.
pub fn parse_kind(s: &Vec<u8>) -> (r: Option<TransactionType>)
    ensures
        r == kind_of(s@),
{
    if same_bytes(s, &token_bytes(TransactionType::Deposit)) {
        Some(TransactionType::Deposit)
    } else if same_bytes(s, &token_bytes(TransactionType::Withdrawal)) {
        Some(TransactionType::Withdrawal)
    } else if same_bytes(s, &token_bytes(TransactionType::Dispute)) {
        Some(TransactionType::Dispute)
    } else if same_bytes(s, &token_bytes(TransactionType::Resolve)) {
        Some(TransactionType::Resolve)
    } else if same_bytes(s, &token_bytes(TransactionType::Chargeback)) {
        Some(TransactionType::Chargeback)
    } else {
        None
    }
}

/// Reads one row of fields as a request.
pub fn parse_record(fields: &Vec<Vec<u8>>) -> (r: Option<TransactionRequset>)
    ensures
        r == record_of(fields_view(*fields)),
{
    if fields.len() != FIELDS {
        return None;
    }
    let kind = parse_kind(&fields[0]);
    let client = parse_number(&fields[1], MAX_CLIENT);
    let tx = parse_number(&fields[2], MAX_TX);
    let amount = parse_amount(&fields[3]);
    match (kind, client, tx, amount) {
        (Some(kind), Some(client), Some(tx), Some(amount)) => Some(
            TransactionRequset { kind, client: client as u16, tx: tx as u32, amount },
        ),
        _ => None,
    }
}

/// Reads every row that writes a request, in order, and leaves the others
/// out.
pub fn parse_records(rows: &Vec<Option<Vec<Vec<u8>>>>) -> (txs: Vec<TransactionRequset>)
    ensures
        txs@ == requests_of(rows_view(*rows)),
{
    let ghost all = rows_view(*rows);
    let mut txs: Vec<TransactionRequset> = Vec::new();
    let mut i: usize = 0;
    assert(all.take(0) =~= Seq::<Option<Seq<Seq<u8>>>>::empty());
    while i < rows.len()
        invariant
            i <= rows.len(),
            all == rows_view(*rows),
            txs@ == requests_of(all.take(i as int)),
        decreases rows.len() - i,
    {
        assert(all.take(i + 1).drop_last() =~= all.take(i as int));
        assert(all.take(i + 1).last() == row_view(rows@[i as int]));
        match &rows[i] {
            Some(fields) => {
                match parse_record(fields) {
                    Some(tx) => {
                        txs.push(tx);
                    },
                    None => {},
                }
            },
            None => {},
        }
        i = i + 1;
    }
    assert(all.take(i as int) =~= all);
    txs
}

} // verus!
