use chat_ledger::amount::Amount;
use chat_ledger::amount::parse_amount;
use chat_ledger::utils::format_pounds;

#[test]
fn parses_plain_integers() {
    assert_eq!(parse_amount("3"), Some(Amount { pence: 300 }));
    assert_eq!(parse_amount("0"), Some(Amount { pence: 0 }));
    assert_eq!(parse_amount("1000"), Some(Amount { pence: 100000 }));
}

#[test]
fn parses_fractions() {
    assert_eq!(parse_amount("4.50"), Some(Amount { pence: 450 }));
    assert_eq!(parse_amount("4.5"), Some(Amount { pence: 450 }));
    assert_eq!(parse_amount("3.00"), Some(Amount { pence: 300 }));
    assert_eq!(parse_amount("0.07"), Some(Amount { pence: 7 }));
    assert_eq!(parse_amount("0.7"), Some(Amount { pence: 70 }));
}

#[test]
fn parses_signs() {
    assert_eq!(parse_amount("-2.75"), Some(Amount { pence: -275 }));
    assert_eq!(parse_amount("+1.5"), Some(Amount { pence: 150 }));
    assert_eq!(parse_amount("-0"), Some(Amount { pence: 0 }));
}

#[test]
fn rejects_non_numbers() {
    assert_eq!(parse_amount("not-a-number"), None);
    assert_eq!(parse_amount(""), None);
    assert_eq!(parse_amount("-"), None);
    assert_eq!(parse_amount("+"), None);
    assert_eq!(parse_amount("."), None);
    assert_eq!(parse_amount("4."), None);
    assert_eq!(parse_amount(".5"), None);
    assert_eq!(parse_amount("1.2.3"), None);
    assert_eq!(parse_amount("4.505"), None);
    assert_eq!(parse_amount("4,50"), None);
    assert_eq!(parse_amount(" 4.50"), None);
}

#[test]
fn rejects_amounts_that_do_not_fit() {
    assert_eq!(parse_amount("92233720368547758.07"), Some(Amount { pence: i64::MAX }));
    assert_eq!(parse_amount("92233720368547758.08"), None);
    assert_eq!(parse_amount("99999999999999999999"), None);
    assert_eq!(
        parse_amount("-92233720368547758.07"),
        Some(Amount { pence: -i64::MAX })
    );
}

#[test]
fn accepts_leading_zeros() {
    assert_eq!(parse_amount("007"), Some(Amount { pence: 700 }));
    assert_eq!(parse_amount("00000000000000000004.50"), Some(Amount { pence: 450 }));
}

#[test]
fn formats_pounds_with_two_decimals() {
    assert_eq!(format_pounds(Amount { pence: 450 }), "£4.50");
    assert_eq!(format_pounds(Amount { pence: 300 }), "£3.00");
    assert_eq!(format_pounds(Amount { pence: 7 }), "£0.07");
    assert_eq!(format_pounds(Amount { pence: 0 }), "£0.00");
    assert_eq!(format_pounds(Amount { pence: 100000 }), "£1000.00");
    assert_eq!(format_pounds(Amount { pence: -450 }), "£-4.50");
}
