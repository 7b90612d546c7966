use rust_ingestion::decimal::{parse_price_cents, render_cents, render_u64};

#[test]
fn parses_integer_and_fraction_forms() {
    assert_eq!(parse_price_cents(b"65000.50"), Some(6500050));
    assert_eq!(parse_price_cents(b"65000.5"), Some(6500050));
    assert_eq!(parse_price_cents(b"65000"), Some(6500000));
    assert_eq!(parse_price_cents(b"0.07"), Some(7));
    assert_eq!(parse_price_cents(b"0"), Some(0));
}

#[test]
fn truncates_fraction_digits_beyond_cents() {
    assert_eq!(parse_price_cents(b"0.999"), Some(99));
    assert_eq!(parse_price_cents(b"12.345678"), Some(1234));
}

#[test]
fn rejects_malformed_number_text() {
    assert_eq!(parse_price_cents(b""), None);
    assert_eq!(parse_price_cents(b"abc"), None);
    assert_eq!(parse_price_cents(b"1.2.3"), None);
    assert_eq!(parse_price_cents(b"65000."), None);
    assert_eq!(parse_price_cents(b".5"), None);
    assert_eq!(parse_price_cents(b"-3"), None);
    assert_eq!(parse_price_cents(b"6.5e4"), None);
}

#[test]
fn rejects_oversized_integer_part() {
    // more than seventeen integer digits would overflow the cents
    assert_eq!(parse_price_cents(b"123456789012345678"), None);
    assert_eq!(parse_price_cents(b"99999999999999999"), Some(9999999999999999900));
}

#[test]
fn renders_cents_with_two_fraction_digits() {
    assert_eq!(render_cents(6500050), "65000.50");
    assert_eq!(render_cents(7), "0.07");
    assert_eq!(render_cents(0), "0.00");
    assert_eq!(render_cents(100), "1.00");
}

#[test]
fn renders_plain_integers() {
    assert_eq!(render_u64(0), "0");
    assert_eq!(render_u64(820000), "820000");
    assert_eq!(render_u64(18446744073709551615), "18446744073709551615");
}

#[test]
fn parse_and_render_round_trip_on_canonical_text() {
    let cents = parse_price_cents(b"65000.50").unwrap();
    assert_eq!(render_cents(cents), "65000.50");
}
