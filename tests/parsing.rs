use ledger::amount::{amount_parts, parse_amount, parse_numeral, UNITS_PER_WHOLE};
use ledger::record::{RecordError, Tx, TxType};

#[test]
fn amounts_read_as_fixed_point_units() {
    assert_eq!(parse_amount("1.0"), Some(UNITS_PER_WHOLE));
    assert_eq!(parse_amount("1.5"), Some(15_000));
    assert_eq!(parse_amount("0.5"), Some(5_000));
    assert_eq!(parse_amount("1.1"), Some(11_000));
    assert_eq!(parse_amount("2"), Some(20_000));
    assert_eq!(parse_amount("0.0001"), Some(1));
    assert_eq!(parse_amount("12.345"), Some(123_450));
    assert_eq!(parse_amount("-0.5"), Some(-5_000));
    assert_eq!(parse_amount("+3.25"), Some(32_500));
    assert_eq!(parse_amount("007"), Some(70_000));
}

#[test]
fn malformed_amounts_are_refused() {
    assert_eq!(parse_amount(""), None);
    assert_eq!(parse_amount("-"), None);
    assert_eq!(parse_amount("."), None);
    assert_eq!(parse_amount(".5"), None);
    assert_eq!(parse_amount("1."), None);
    assert_eq!(parse_amount("1.23456"), None);
    assert_eq!(parse_amount("1.2.3"), None);
    assert_eq!(parse_amount("1e3"), None);
    assert_eq!(parse_amount(" 1.0"), None);
    assert_eq!(parse_amount("--1"), None);
}

#[test]
fn amounts_at_the_edge_of_i64() {
    assert_eq!(parse_amount("922337203685477.5807"), Some(i64::MAX));
    assert_eq!(parse_amount("-922337203685477.5807"), Some(-i64::MAX));
    assert_eq!(parse_amount("922337203685477.5808"), None);
    assert_eq!(parse_amount("922337203685478"), None);
    assert_eq!(parse_amount("99999999999999999999999"), None);
}

#[test]
fn numerals_read_within_their_bound() {
    assert_eq!(parse_numeral("0", 10), Some(0));
    assert_eq!(parse_numeral("65535", u16::MAX as u64), Some(65535));
    assert_eq!(parse_numeral("65536", u16::MAX as u64), None);
    assert_eq!(parse_numeral("", 10), None);
    assert_eq!(parse_numeral("1a", 10), None);
    assert_eq!(parse_numeral("-1", 10), None);
    assert_eq!(parse_numeral("18446744073709551615", u64::MAX), Some(u64::MAX));
    assert_eq!(parse_numeral("18446744073709551616", u64::MAX), None);
}

#[test]
fn record_types_ignore_case() {
    assert_eq!(TxType::parse("deposit"), Some(TxType::Deposit));
    assert_eq!(TxType::parse("Withdrawal"), Some(TxType::Withdrawal));
    assert_eq!(TxType::parse("DISPUTE"), Some(TxType::Dispute));
    assert_eq!(TxType::parse("reSolve"), Some(TxType::Resolve));
    assert_eq!(TxType::parse("chargeback"), Some(TxType::Chargeback));
    assert_eq!(TxType::parse("withdraw"), None);
    assert_eq!(TxType::parse("deposits"), None);
    assert_eq!(TxType::parse(""), None);
}

#[test]
fn records_read_from_fields() {
    assert_eq!(
        Tx::from_fields("deposit", "1", "2", "1.5"),
        Ok(Tx { tx_type: TxType::Deposit, client_id: 1, tx_id: 2, amount: Some(15_000) })
    );
    assert_eq!(
        Tx::from_fields("Dispute", "65535", "4294967295", ""),
        Ok(Tx { tx_type: TxType::Dispute, client_id: 65535, tx_id: u32::MAX, amount: None })
    );
    assert_eq!(
        Tx::from_fields("withdrawal", "3", "4", ""),
        Ok(Tx { tx_type: TxType::Withdrawal, client_id: 3, tx_id: 4, amount: None })
    );
}

#[test]
fn record_errors_name_the_first_bad_field() {
    assert_eq!(Tx::from_fields("transfer", "x", "y", "z"), Err(RecordError::BadType));
    assert_eq!(Tx::from_fields("deposit", "65536", "y", "z"), Err(RecordError::BadClient));
    assert_eq!(Tx::from_fields("deposit", "1", "4294967296", "z"), Err(RecordError::BadTxId));
    assert_eq!(Tx::from_fields("deposit", "1", "2", "1,5"), Err(RecordError::BadAmount));
}

#[test]
fn amounts_split_for_display() {
    assert_eq!(amount_parts(15_000), (false, 1, 5_000));
    assert_eq!(amount_parts(-5_000), (true, 0, 5_000));
    assert_eq!(amount_parts(0), (false, 0, 0));
    assert_eq!(amount_parts(i64::MIN), (true, 922_337_203_685_477, 5_808));
}
