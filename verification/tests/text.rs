use ledger::amount::{
    decimal_parts, digit, find_dot, format_decimal, parse_amount, parse_digits, parse_number,
    push_digits,
};
use ledger::engine::{Engine, ReportRow};
use ledger::record::{parse_kind, parse_record, parse_records, same_bytes, token_bytes};
use ledger::user::{ErrorKind, TransactionRequset, TransactionType};
use std::collections::HashMap;

fn bytes(s: &str) -> Vec<u8> {
    s.as_bytes().to_vec()
}

fn row(fields: &[&str]) -> Vec<Vec<u8>> {
    fields.iter().map(|f| bytes(f)).collect()
}

fn bal(x: f64) -> i128 {
    (x * 10_000.0).round() as i128
}

#[test]
fn test_process_data() {
    let data = "type,client,tx,amount
        deposit,    1,      1,  1.0
        deposit,    2,      2,  2.0
        deposit,    1,      3,  2.0
        withdrawal, 1,      4,  1.5
        withdrawal, 2,      5,  3.0";

    let mut engine = Engine { users: HashMap::new() };

    let outcomes = engine.process_data(&bytes(data));
    assert_eq!(
        outcomes,
        vec![
            Some(Ok(())),
            Some(Ok(())),
            Some(Ok(())),
            Some(Ok(())),
            Some(Err(ErrorKind::InsufficientFunds { client: 2, tx: 5 }))
        ]
    );
    assert_eq!(engine.users.get(&1).unwrap().account.avalible(), bal(1.5));
    assert_eq!(engine.users.get(&1).unwrap().account.held, bal(0.0));
    assert_eq!(engine.users.get(&1).unwrap().account.total, bal(1.5));

    assert_eq!(engine.users.get(&2).unwrap().account.avalible(), bal(2.0));
    assert_eq!(engine.users.get(&2).unwrap().account.held, bal(0.0));
    assert_eq!(engine.users.get(&2).unwrap().account.total, bal(2.0));
}

#[test]
fn header_line_is_no_request() {
    let mut engine = Engine::new();
    assert!(engine.process_data(&bytes("deposit,1,1,1.0\n")).is_empty());
    assert!(engine.users.is_empty());
    assert!(engine.process_data(&bytes("")).is_empty());
    assert!(engine.users.is_empty());
}

#[test]
fn malformed_rows_are_passed_over() {
    let data = "type, client, tx, amount\n\
                deposit, 1, 1, 10.0\n\
                Deposit, 1, 2, 1.0\n\
                refund, 1, 3, 1.0\n\
                deposit, 70000, 4, 1.0\n\
                deposit, 1, -5, 1.0\n\
                deposit, 1, 6, 1e3\n\
                deposit, 1, 7, -1.0\n\
                dispute, 1, 1\n\
                deposit, 1, 8, 2.5, extra\n\
                deposit, 1, 9, 5.0\n\
                dispute, 1, 1,\n\
                chargeback, 1, 1,\n";
    let mut engine = Engine::new();
    let outcomes = engine.process_data(&bytes(data));
    assert_eq!(
        outcomes,
        vec![
            Some(Ok(())),
            None,
            None,
            None,
            None,
            None,
            None,
            None,
            None,
            Some(Ok(())),
            Some(Ok(())),
            Some(Ok(())),
        ]
    );
    assert_eq!(
        engine.report(),
        vec![ReportRow { client: 1, available: bal(5.0), held: 0, total: bal(5.0), locked: true }]
    );
}

#[test]
fn rows_that_failed_to_split_are_passed_over() {
    let rows = vec![
        Some(row(&["deposit", "3", "1", "4.25"])),
        None,
        Some(row(&["deposit", "3", "x", "4.25"])),
        Some(row(&["withdrawal", "3", "2", "0.25"])),
    ];
    assert_eq!(
        parse_records(&rows),
        vec![
            TransactionRequset {
                kind: TransactionType::Deposit,
                client: 3,
                tx: 1,
                amount: Some(42_500)
            },
            TransactionRequset {
                kind: TransactionType::Withdrawal,
                client: 3,
                tx: 2,
                amount: Some(2_500)
            },
        ]
    );
    let mut engine = Engine::new();
    assert_eq!(engine.process_records(&rows), vec![Some(Ok(())), None, None, Some(Ok(()))]);
    assert_eq!(engine.users.get(&3).unwrap().account.total, bal(4.0));
}

#[test]
fn kinds_are_exact_lower_case_words() {
    assert_eq!(parse_kind(&bytes("deposit")), Some(TransactionType::Deposit));
    assert_eq!(parse_kind(&bytes("withdrawal")), Some(TransactionType::Withdrawal));
    assert_eq!(parse_kind(&bytes("dispute")), Some(TransactionType::Dispute));
    assert_eq!(parse_kind(&bytes("resolve")), Some(TransactionType::Resolve));
    assert_eq!(parse_kind(&bytes("chargeback")), Some(TransactionType::Chargeback));
    assert_eq!(parse_kind(&bytes("Deposit")), None);
    assert_eq!(parse_kind(&bytes("deposit ")), None);
    assert_eq!(parse_kind(&bytes("deposi")), None);
    assert_eq!(parse_kind(&bytes("")), None);
    assert_eq!(token_bytes(TransactionType::Deposit), bytes("deposit"));
    assert_eq!(token_bytes(TransactionType::Withdrawal), bytes("withdrawal"));
    assert_eq!(token_bytes(TransactionType::Dispute), bytes("dispute"));
    assert_eq!(token_bytes(TransactionType::Resolve), bytes("resolve"));
    assert_eq!(token_bytes(TransactionType::Chargeback), bytes("chargeback"));
    assert!(same_bytes(&bytes("abc"), &bytes("abc")));
    assert!(!same_bytes(&bytes("abc"), &bytes("abd")));
    assert!(!same_bytes(&bytes("abc"), &bytes("ab")));
}

#[test]
fn numbers_are_digits_within_their_limit() {
    assert_eq!(parse_number(&bytes("0"), 65_535), Some(0));
    assert_eq!(parse_number(&bytes("65535"), 65_535), Some(65_535));
    assert_eq!(parse_number(&bytes("65536"), 65_535), None);
    assert_eq!(parse_number(&bytes("00012"), 65_535), Some(12));
    assert_eq!(parse_number(&bytes("4294967295"), 4_294_967_295), Some(4_294_967_295));
    assert_eq!(parse_number(&bytes("4294967296"), 4_294_967_295), None);
    assert_eq!(parse_number(&bytes("99999999999999999999999999"), 4_294_967_295), None);
    assert_eq!(parse_number(&bytes("18446744073709551615"), u64::MAX), Some(u64::MAX));
    assert_eq!(parse_number(&bytes("18446744073709551616"), u64::MAX), None);
    assert_eq!(parse_number(&bytes(""), 65_535), None);
    assert_eq!(parse_number(&bytes("+1"), 65_535), None);
    assert_eq!(parse_number(&bytes("-1"), 65_535), None);
    assert_eq!(parse_number(&bytes("1 2"), 65_535), None);
    assert_eq!(parse_number(&bytes("12a"), 65_535), None);
    assert_eq!(parse_digits(&bytes("ab123cd"), 2, 5, 1000), Some(123));
    assert_eq!(parse_digits(&bytes("ab123cd"), 2, 2, 1000), Some(0));
    assert_eq!(parse_digits(&bytes("ab123cd"), 1, 5, 1000), None);
    assert_eq!(parse_digits(&bytes("ab123cd"), 2, 5, 122), None);
    assert_eq!(digit(b'0'), Some(0));
    assert_eq!(digit(b'9'), Some(9));
    assert_eq!(digit(b'/'), None);
    assert_eq!(digit(b':'), None);
    assert_eq!(find_dot(&bytes("12.5.6")), 2);
    assert_eq!(find_dot(&bytes("125")), 3);
    assert_eq!(find_dot(&bytes("")), 0);
}

#[test]
fn amounts_are_read_in_ten_thousandths() {
    assert_eq!(parse_amount(&bytes("")), Some(None));
    assert_eq!(parse_amount(&bytes("0")), Some(Some(0)));
    assert_eq!(parse_amount(&bytes("1")), Some(Some(10_000)));
    assert_eq!(parse_amount(&bytes("1.0")), Some(Some(10_000)));
    assert_eq!(parse_amount(&bytes("1.5")), Some(Some(15_000)));
    assert_eq!(parse_amount(&bytes("1.23")), Some(Some(12_300)));
    assert_eq!(parse_amount(&bytes("0.0001")), Some(Some(1)));
    assert_eq!(parse_amount(&bytes("12.3456")), Some(Some(123_456)));
    assert_eq!(parse_amount(&bytes("12.34567")), Some(Some(123_456)));
    assert_eq!(parse_amount(&bytes("12.34569999")), Some(Some(123_456)));
    assert_eq!(parse_amount(&bytes("007.5")), Some(Some(75_000)));
    assert_eq!(parse_amount(&bytes("3.")), Some(Some(30_000)));
    assert_eq!(parse_amount(&bytes(".5")), Some(Some(5_000)));
    assert_eq!(
        parse_amount(&bytes("1844674407370954.9999")),
        Some(Some(18_446_744_073_709_549_999))
    );
    assert_eq!(parse_amount(&bytes("1844674407370955")), None);
    assert_eq!(parse_amount(&bytes(".")), None);
    assert_eq!(parse_amount(&bytes("-1.0")), None);
    assert_eq!(parse_amount(&bytes("+1.0")), None);
    assert_eq!(parse_amount(&bytes("1.2.3")), None);
    assert_eq!(parse_amount(&bytes("1,5")), None);
    assert_eq!(parse_amount(&bytes("1e3")), None);
    assert_eq!(parse_amount(&bytes("1.5x")), None);
    assert_eq!(parse_amount(&bytes("x.5")), None);
    assert_eq!(parse_amount(&bytes(" 1.5")), None);
}

#[test]
fn records_need_four_good_fields() {
    assert_eq!(
        parse_record(&row(&["deposit", "1", "2", "3.5"])),
        Some(TransactionRequset {
            kind: TransactionType::Deposit,
            client: 1,
            tx: 2,
            amount: Some(35_000)
        })
    );
    assert_eq!(
        parse_record(&row(&["dispute", "65535", "4294967295", ""])),
        Some(TransactionRequset {
            kind: TransactionType::Dispute,
            client: 65_535,
            tx: 4_294_967_295,
            amount: None
        })
    );
    assert_eq!(
        parse_record(&row(&["deposit", "1", "2", ""])),
        Some(TransactionRequset { kind: TransactionType::Deposit, client: 1, tx: 2, amount: None })
    );
    assert_eq!(parse_record(&row(&["dispute", "1", "2"])), None);
    assert_eq!(parse_record(&row(&["dispute", "1", "2", "", ""])), None);
    assert_eq!(parse_record(&row(&[])), None);
    assert_eq!(parse_record(&row(&["deposit", "65536", "2", "3.5"])), None);
    assert_eq!(parse_record(&row(&["deposit", "1", "4294967296", "3.5"])), None);
    assert_eq!(parse_record(&row(&["deposit", "1", "2", "abc"])), None);
    assert_eq!(parse_record(&row(&["dispute", "1", "2", "abc"])), None);
    assert_eq!(parse_record(&row(&["type", "client", "tx", "amount"])), None);
}

#[test]
fn balances_split_into_sign_whole_and_fraction() {
    assert_eq!(decimal_parts(0), (false, 0, 0));
    assert_eq!(decimal_parts(15_000), (false, 1, 5_000));
    assert_eq!(decimal_parts(1), (false, 0, 1));
    assert_eq!(decimal_parts(-1), (true, 0, 1));
    assert_eq!(decimal_parts(-100_000), (true, 10, 0));
    assert_eq!(decimal_parts(123_456), (false, 12, 3_456));
    assert_eq!(
        decimal_parts(i128::MIN),
        (true, 17_014_118_346_046_923_173_168_730_371_588_410, 5_728)
    );
    assert_eq!(
        decimal_parts(i128::MAX),
        (false, 17_014_118_346_046_923_173_168_730_371_588_410, 5_727)
    );
}

#[test]
fn balances_are_written_with_four_decimals() {
    assert_eq!(format_decimal(0), bytes("0.0000"));
    assert_eq!(format_decimal(15_000), bytes("1.5000"));
    assert_eq!(format_decimal(12_300), bytes("1.2300"));
    assert_eq!(format_decimal(1), bytes("0.0001"));
    assert_eq!(format_decimal(1_020_304), bytes("102.0304"));
    assert_eq!(format_decimal(-1), bytes("-0.0001"));
    assert_eq!(format_decimal(-100_000), bytes("-10.0000"));
    assert_eq!(
        format_decimal(i128::MIN),
        bytes("-17014118346046923173168730371588410.5728")
    );
    let mut out = bytes("n=");
    push_digits(0, &mut out);
    push_digits(9070, &mut out);
    push_digits(u128::MAX, &mut out);
    assert_eq!(out, bytes("n=09070340282366920938463463374607431768211455"));
}

#[test]
fn written_amounts_read_back() {
    for v in [0u64, 1, 9, 10, 9_999, 10_000, 10_001, 123_456, 18_446_744_073_709_549_999] {
        assert_eq!(parse_amount(&format_decimal(v as i128)), Some(Some(v)));
    }
    assert_eq!(parse_amount(&format_decimal(18_446_744_073_709_550_000)), None);
}

#[test]
fn report_of_a_run_is_written_as_text() {
    let data = "type,client,tx,amount\n\
                deposit,1,1,10.0\n\
                deposit,1,2,5.0\n\
                dispute,1,1,\n";
    let mut engine = Engine::new();
    assert_eq!(engine.process_data(&bytes(data)), vec![Some(Ok(())), Some(Ok(())), Some(Ok(()))]);
    let rows = engine.report();
    assert_eq!(rows.len(), 1);
    assert_eq!(format_decimal(rows[0].available), bytes("5.0000"));
    assert_eq!(format_decimal(rows[0].held), bytes("10.0000"));
    assert_eq!(format_decimal(rows[0].total), bytes("15.0000"));
    assert!(!rows[0].locked);
}
