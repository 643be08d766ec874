use orderbook_merger::OrderBookError;
use orderbook_merger::decimal::{
    DisplayAmount, ToDisplay, ToStorage, display_to_storage, magnitude_le, parse_decimal_bytes,
    storage_to_display, sub_value,
};

fn amount(mantissa: u128, scale: u32) -> DisplayAmount {
    DisplayAmount { negative: false, mantissa, scale }
}

#[test]
fn storage_round_trip_exact_scale() {
    // 10.50 at scale 2 becomes the raw mantissa and comes back unchanged
    let d = amount(1050, 2);
    let key = display_to_storage(&d, 2).unwrap();
    assert_eq!(key, 1050);
    let back = storage_to_display(key, 2).unwrap();
    assert_eq!(back, d);
}

#[test]
fn storage_round_trip_rescales_up() {
    // 10.5 written at scale 1 keys the same as 10.50 at scale 2
    let d = amount(105, 1);
    let key = display_to_storage(&d, 2).unwrap();
    assert_eq!(key, 1050);
    let two_digit = amount(1050, 2);
    assert_eq!(display_to_storage(&two_digit, 2).unwrap(), key);
    // the reloaded decimal denotes the same number at the finer scale
    let back = storage_to_display(key, 2).unwrap();
    assert!(magnitude_le(&back, &d) && magnitude_le(&d, &back));
}

#[test]
fn storage_rounds_half_to_even() {
    // 2.5 and 3.5 both round to the nearest even integer
    assert_eq!(display_to_storage(&amount(25, 1), 0).unwrap(), 2);
    assert_eq!(display_to_storage(&amount(35, 1), 0).unwrap(), 4);
    // 2.51 rounds up as usual
    assert_eq!(display_to_storage(&amount(251, 2), 0).unwrap(), 3);
}

#[test]
fn storage_value_out_of_range() {
    // 2^64 does not fit a storage key
    let d = amount(1u128 << 64, 0);
    assert_eq!(display_to_storage(&d, 0), Err(OrderBookError::ValueOutOfRange));
    // a small mantissa blown up by the scale does not fit either
    let d = amount(u64::MAX as u128, 2);
    assert_eq!(display_to_storage(&d, 4), Err(OrderBookError::ValueOutOfRange));
}

#[test]
fn storage_trait_forms_agree() {
    let d = amount(12345, 3);
    assert_eq!(d.to_storage(3).unwrap(), 12345);
    let loaded = 12345u64.to_display(3).unwrap();
    assert_eq!(loaded, d);
    assert_eq!(7u64.to_display(99), Err(OrderBookError::ValueOutOfRange));
}

#[test]
fn parse_plain_integer() {
    let d = parse_decimal_bytes(b"42").unwrap();
    assert_eq!(d, amount(42, 0));
}

#[test]
fn parse_fractional() {
    let d = parse_decimal_bytes(b"0.00100000").unwrap();
    assert_eq!(d, amount(100000, 8));
    let d = parse_decimal_bytes(b"8.77900000").unwrap();
    assert_eq!(d, amount(877900000, 8));
}

#[test]
fn parse_rejects_malformed() {
    assert_eq!(parse_decimal_bytes(b""), None);
    assert_eq!(parse_decimal_bytes(b"."), None);
    assert_eq!(parse_decimal_bytes(b"1."), None);
    assert_eq!(parse_decimal_bytes(b".5"), None);
    assert_eq!(parse_decimal_bytes(b"1.2.3"), None);
    assert_eq!(parse_decimal_bytes(b"-1"), None);
    assert_eq!(parse_decimal_bytes(b"1e5"), None);
    assert_eq!(parse_decimal_bytes(b"12a"), None);
}

#[test]
fn parse_rejects_out_of_range() {
    // thirty digits overflow the 96-bit mantissa
    assert_eq!(parse_decimal_bytes(b"999999999999999999999999999999"), None);
    // twenty-nine fractional digits exceed the largest scale
    assert_eq!(parse_decimal_bytes(b"1.00000000000000000000000000000"), None);
}

#[test]
fn magnitude_comparison_across_scales() {
    // 100.50 == 100.5 in value, at different scales
    assert!(magnitude_le(&amount(10050, 2), &amount(1005, 1)));
    assert!(magnitude_le(&amount(1005, 1), &amount(10050, 2)));
    // 99.9 < 100
    assert!(magnitude_le(&amount(999, 1), &amount(100, 0)));
    assert!(!magnitude_le(&amount(100, 0), &amount(999, 1)));
}

#[test]
fn subtraction_at_common_scale() {
    // 11 - 10.5 = 0.5
    let d = sub_value(&amount(11, 0), &amount(105, 1)).unwrap();
    assert_eq!(d, amount(5, 1));
    // 10.5 - 11 = -0.5
    let d = sub_value(&amount(105, 1), &amount(11, 0)).unwrap();
    assert!(d.negative);
    assert_eq!(d.mantissa, 5);
    assert_eq!(d.scale, 1);
    // a zero difference carries no sign
    let d = sub_value(&amount(7, 0), &amount(700, 2)).unwrap();
    assert!(!d.negative);
    assert_eq!(d.mantissa, 0);
}
