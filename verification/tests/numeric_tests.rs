use wvm_backfill::errors::PipelineError;
use wvm_backfill::numeric::{parse_block_hex, parse_u64_decimal, u64_to_dec_string};
use wvm_backfill::wvm_client::{
    block_hex_to_decimal, block_number_to_hex, parse_latest_block_number,
    try_block_hex_to_decimal,
};

#[test]
fn hex_to_decimal_exact_value() {
    assert_eq!(block_hex_to_decimal("0x64"), "100");
    assert_eq!(block_hex_to_decimal("0x0"), "0");
    assert_eq!(block_hex_to_decimal("0xff"), "255");
    assert_eq!(block_hex_to_decimal("0xFF"), "255");
    assert_eq!(block_hex_to_decimal("0xffffffffffffffff"), "18446744073709551615");
}

#[test]
fn try_hex_to_decimal_rejects_bad_payloads() {
    assert_eq!(try_block_hex_to_decimal("64"), None);
    assert_eq!(try_block_hex_to_decimal("0x"), None);
    assert_eq!(try_block_hex_to_decimal("0xzz"), None);
    assert_eq!(try_block_hex_to_decimal(""), None);
    assert_eq!(try_block_hex_to_decimal("0x10000000000000000"), None);
    assert_eq!(try_block_hex_to_decimal("0x64").as_deref(), Some("100"));
}

#[test]
fn block_number_to_hex_wire_form() {
    assert_eq!(block_number_to_hex(0), "0x0");
    assert_eq!(block_number_to_hex(255), "0xff");
    assert_eq!(block_number_to_hex(2500), "0x9c4");
}

#[test]
fn hex_then_decimal_round_trip() {
    for n in [0u64, 1, 9, 4096, 123_456_789, u64::MAX] {
        let hex = block_number_to_hex(n);
        assert_eq!(block_hex_to_decimal(&hex), n.to_string());
    }
}

#[test]
fn decimal_rendering() {
    assert_eq!(u64_to_dec_string(0), "0");
    assert_eq!(u64_to_dec_string(10), "10");
    assert_eq!(u64_to_dec_string(90061), "90061");
}

#[test]
fn decimal_parsing_exact_and_rejections() {
    assert_eq!(parse_u64_decimal("123"), Some(123));
    assert_eq!(parse_u64_decimal("0"), Some(0));
    assert_eq!(parse_u64_decimal("18446744073709551615"), Some(u64::MAX));
    assert_eq!(parse_u64_decimal("18446744073709551616"), None);
    assert_eq!(parse_u64_decimal(""), None);
    assert_eq!(parse_u64_decimal("+5"), None);
    assert_eq!(parse_u64_decimal("12a"), None);
}

#[test]
fn hex_parsing_exact_and_rejections() {
    assert_eq!(parse_block_hex("0x1f"), Some(31));
    assert_eq!(parse_block_hex("0X1f"), None);
    assert_eq!(parse_block_hex("1f"), None);
    assert_eq!(parse_block_hex("0xffffffffffffffff"), Some(u64::MAX));
    assert_eq!(parse_block_hex("0x10000000000000000"), None);
}

#[test]
fn latest_height_decode() {
    assert_eq!(parse_latest_block_number("0x9c4"), Ok(2500));
    assert_eq!(
        parse_latest_block_number("not-hex"),
        Err(PipelineError::MalformedResponse)
    );
    assert_eq!(
        parse_latest_block_number(""),
        Err(PipelineError::MalformedResponse)
    );
}
