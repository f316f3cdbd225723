//! Numerals, words and little-endian numbers.

use ursula_runtime::ids::BucketStreamId;
use ursula_runtime::table::Table;
use ursula_runtime::text::{
    decimal_text, hexadecimal_text, is_blank, parse_u64, parse_usize, same_text, starts_with,
    zero_padded_text,
};
use ursula_runtime::wire::{get_le, put_u16, put_u32, put_u64, put_u8};

#[test]
fn numerals_are_written_and_read() {
    assert_eq!(decimal_text(0), "0");
    assert_eq!(decimal_text(u128::MAX), format!("{}", u128::MAX));
    assert_eq!(hexadecimal_text(48_879), "beef");
    assert_eq!(zero_padded_text("7", 3), "007");
    assert_eq!(zero_padded_text("12345", 3), "12345");
    assert_eq!(parse_u64("18446744073709551615"), Some(u64::MAX));
    assert_eq!(parse_u64("18446744073709551616"), None);
    assert_eq!(parse_usize("+12"), Some(12));
    assert_eq!(parse_usize("+"), None);
    assert_eq!(parse_usize(""), None);
    assert_eq!(parse_usize("1 "), None);
}

#[test]
fn words_are_compared() {
    assert!(is_blank(" \t\n"));
    assert!(!is_blank(" x "));
    assert!(same_text("a", "a"));
    assert!(!same_text("a", "b"));
    assert!(starts_with("chunks/1", "chunks/"));
    assert!(!starts_with("chunk", "chunks"));
}

#[test]
fn numbers_are_little_endian() {
    let mut out = Vec::new();
    put_u8(&mut out, 1);
    put_u16(&mut out, 0x0302);
    put_u32(&mut out, 0x0706_0504);
    put_u64(&mut out, 0x0f0e_0d0c_0b0a_0908);
    assert_eq!(out, (1..=15).collect::<Vec<u8>>());
    assert_eq!(get_le(&out[1..3]), 0x0302);
}

#[test]
fn a_table_keeps_one_value_for_a_key() {
    let mut table: Table<BucketStreamId, u64> = Table::new();
    table.insert(BucketStreamId::new("b", "s"), 1);
    table.insert(BucketStreamId::new("b", "t"), 2);
    table.insert(BucketStreamId::new("b", "s"), 3);
    assert_eq!(table.len(), 2);
    assert_eq!(table.get(&BucketStreamId::new("b", "s")), Some(&3));
    assert_eq!(table.remove(&BucketStreamId::new("b", "s")), Some(3));
    assert!(!table.contains_key(&BucketStreamId::new("b", "s")));
    assert!(table.contains_key(&BucketStreamId::new("b", "t")));
}
