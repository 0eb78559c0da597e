use cz4r::errors::CustomError;
use cz4r::money::format_cents;
use cz4r::money::format_hundredths;
use cz4r::money::parse_money_cents;

#[test]
fn cents_display_two_decimals() {
    assert_eq!(format_cents(0), "0.00");
    assert_eq!(format_cents(5), "0.05");
    assert_eq!(format_cents(1234), "12.34");
    assert_eq!(format_cents(100), "1.00");
    assert_eq!(format_cents(999999), "9999.99");
}

#[test]
fn money_round_trip_returns_the_cents() {
    for cents in [0i64, 1, 99, 100, 101, 1234, 100000, 987654321, i64::MAX / 100] {
        let shown = format_cents(cents);
        assert_eq!(parse_money_cents(&shown), Ok(cents));
    }
}

#[test]
fn malformed_amount_is_invalid_client_data() {
    assert_eq!(parse_money_cents("abc"), Err(CustomError::InvalidClientData));
    assert_eq!(parse_money_cents(""), Err(CustomError::InvalidClientData));
    assert_eq!(parse_money_cents("12.3.4"), Err(CustomError::InvalidClientData));
}

#[test]
fn plain_amounts_parse_to_cents() {
    // the decimal parser also accepts fewer than two decimals
    assert_eq!(parse_money_cents("5"), Ok(500));
    assert_eq!(parse_money_cents("5.5"), Ok(550));
    assert_eq!(parse_money_cents("12.34"), Ok(1234));
}

#[test]
fn signed_hundredths_display() {
    assert_eq!(format_hundredths(-105), "-1.05");
    assert_eq!(format_hundredths(105), "1.05");
    assert_eq!(format_hundredths(0), "0.00");
}
