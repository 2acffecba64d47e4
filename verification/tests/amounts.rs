use betswap::amount::{format_decimal, parse_amount};
use betswap::arith::checked_mul_div;
use betswap::hashlock::bytes_equal;
use betswap::ids::sequence_id;
use betswap::table::Table;

#[test]
fn parse_amount_reads_decimal() {
    assert_eq!(parse_amount(&"0".to_string()), Some(0));
    assert_eq!(parse_amount(&"12".to_string()), Some(12));
    assert_eq!(parse_amount(&"+12".to_string()), Some(12));
    assert_eq!(parse_amount(&"007".to_string()), Some(7));
    assert_eq!(
        parse_amount(&"340282366920938463463374607431768211455".to_string()),
        Some(u128::MAX)
    );
}

#[test]
fn parse_amount_rejects_what_is_not_an_amount() {
    for text in [
        "", "+", "-1", "1 ", " 1", "1.0", "1e3", "0x10", "++1", "1+", "١٢",
        "340282366920938463463374607431768211456",
        "3402823669209384634633746074317682114550",
    ] {
        assert_eq!(parse_amount(&text.to_string()), None, "{}", text);
    }
}

#[test]
fn parse_amount_agrees_with_std() {
    for text in ["0", "1", "99", "+5", "-5", "", "+", "18446744073709551616", "12a", "000"] {
        assert_eq!(parse_amount(&text.to_string()), text.parse::<u128>().ok(), "{}", text);
    }
}

#[test]
fn format_decimal_writes_shortest_text() {
    assert_eq!(format_decimal(0), "0");
    assert_eq!(format_decimal(9), "9");
    assert_eq!(format_decimal(10), "10");
    assert_eq!(format_decimal(1234567890), "1234567890");
    assert_eq!(format_decimal(u64::MAX), "18446744073709551615");
}

#[test]
fn format_and_parse_round_trip() {
    for n in [0u64, 1, 10, 99, 100, 12345, u64::MAX] {
        assert_eq!(parse_amount(&format_decimal(n)), Some(n as u128));
    }
}

#[test]
fn sequence_ids_are_prefix_and_number() {
    assert_eq!(sequence_id("quote_", 0), "quote_0");
    assert_eq!(sequence_id("htlc-", 42), "htlc-42");
    assert_eq!(sequence_id("", 7), "7");
}

#[test]
fn mul_div_is_exact() {
    assert_eq!(checked_mul_div(10_000, 250, 10_000), Some(250));
    assert_eq!(checked_mul_div(40, 150, 100), Some(60));
    assert_eq!(checked_mul_div(7, 3, 2), Some(10));
    assert_eq!(checked_mul_div(0, u128::MAX, 1), Some(0));
    assert_eq!(checked_mul_div(u128::MAX, 1, 1), Some(u128::MAX));
    assert_eq!(checked_mul_div(u128::MAX, u64::MAX as u128, u64::MAX), Some(u128::MAX));
    assert_eq!(checked_mul_div(u128::MAX, 2, 2), Some(u128::MAX));
    assert_eq!(checked_mul_div(u128::MAX, 3, 4), Some(u128::MAX / 4 * 3 + 2));
}

#[test]
fn mul_div_reports_overflow_of_the_quotient() {
    assert_eq!(checked_mul_div(u128::MAX, 2, 1), None);
    assert_eq!(checked_mul_div(u128::MAX, u128::MAX, u64::MAX), None);
    assert_eq!(checked_mul_div(u128::MAX, 101, 100), None);
    assert_eq!(checked_mul_div(1u128 << 127, 2, 1), None);
    assert_eq!(checked_mul_div(1u128 << 127, 2, 2), Some(1u128 << 127));
}

#[test]
fn bytes_equal_compares_content() {
    assert!(bytes_equal(&[], &[]));
    assert!(bytes_equal(&[1, 2, 3], &[1, 2, 3]));
    assert!(!bytes_equal(&[1, 2, 3], &[1, 2]));
    assert!(!bytes_equal(&[1, 2, 3], &[1, 2, 4]));
}

#[test]
fn table_keeps_first_insertion_order() {
    let mut t: Table<String, u32> = Table::new();
    assert_eq!(t.len(), 0);
    t.insert("b".to_string(), 1);
    t.insert("a".to_string(), 2);
    t.insert("b".to_string(), 3);
    assert_eq!(t.len(), 2);
    assert_eq!(t.get(&"b".to_string()), Some(&3));
    assert_eq!(t.get(&"a".to_string()), Some(&2));
    assert_eq!(t.get(&"c".to_string()), None);
    assert_eq!(t.position(&"b".to_string()), Some(0));
    assert_eq!(t.position(&"a".to_string()), Some(1));
    assert_eq!(t.key_at(0), "b");
    assert_eq!(*t.value_at(0), 3);
    assert_eq!(t.key_at(1), "a");
}

#[test]
fn table_with_byte_keys() {
    let mut t: Table<Vec<u8>, bool> = Table::new();
    t.insert(vec![1, 2], true);
    t.insert(vec![], false);
    assert_eq!(t.get(&vec![1, 2]), Some(&true));
    assert_eq!(t.get(&vec![]), Some(&false));
    assert_eq!(t.get(&vec![1]), None);
}
