//! Tests of the fiat lexer: token parsing, code recognition and names.

use cryptoprice::fiat::{parse_fiat_amount, is_known_fiat, fiat_name, canonical_fiat_code};

#[test]
fn parse_basic_cases() {
    let fa = parse_fiat_amount("3.5EUR").unwrap();
    assert_eq!(fa.amount, 3_500_000_000);
    assert_eq!(fa.currency, "EUR");

    let fa = parse_fiat_amount("100usd").unwrap();
    assert_eq!(fa.amount, 100_000_000_000);
    assert_eq!(fa.currency, "USD");
}

#[test]
fn parse_lowercase_currency() {
    let fa = parse_fiat_amount("42gbp").unwrap();
    assert_eq!(fa.currency, "GBP");
}

#[test]
fn rejects_crypto_symbols() {
    assert!(parse_fiat_amount("1inch").is_none());
    assert!(parse_fiat_amount("3btc").is_none());
}

#[test]
fn rejects_plain_words() {
    assert!(parse_fiat_amount("btc").is_none());
    assert!(parse_fiat_amount("hello").is_none());
}

#[test]
fn rejects_negative_and_zero() {
    assert!(parse_fiat_amount("-5USD").is_none());
    assert!(parse_fiat_amount("0USD").is_none());
}

#[test]
fn rejects_no_number() {
    assert!(parse_fiat_amount("EUR").is_none());
}

#[test]
fn is_known_fiat_works() {
    assert!(is_known_fiat("USD"));
    assert!(is_known_fiat("eur"));
    assert!(is_known_fiat("Gbp"));
    assert!(!is_known_fiat("BTC"));
    assert!(!is_known_fiat("ETH"));
    assert!(!is_known_fiat(""));
}

#[test]
fn fiat_name_known_codes() {
    assert_eq!(fiat_name("USD"), "US Dollar");
    assert_eq!(fiat_name("eur"), "Euro");
    assert_eq!(fiat_name("GBP"), "British Pound");
}

#[test]
fn fiat_name_unknown_returns_code() {
    assert_eq!(fiat_name("XYZ"), "XYZ");
}

#[test]
fn parse_accepts_explicit_plus_and_bare_dot_forms() {
    let fa = parse_fiat_amount("+3.5eur").unwrap();
    assert_eq!(fa.amount, 3_500_000_000);
    assert_eq!(fa.currency, "EUR");

    let fa = parse_fiat_amount("3.usd").unwrap();
    assert_eq!(fa.amount, 3_000_000_000);

    let fa = parse_fiat_amount(".5usd").unwrap();
    assert_eq!(fa.amount, 500_000_000);
}

#[test]
fn parse_rejects_malformed_numbers() {
    assert!(parse_fiat_amount("3..5EUR").is_none());
    assert!(parse_fiat_amount("3,5EUR").is_none());
    assert!(parse_fiat_amount(".USD").is_none());
    assert!(parse_fiat_amount("+USD").is_none());
    assert!(parse_fiat_amount("--3USD").is_none());
}

#[test]
fn parse_truncates_fraction_beyond_nine_digits() {
    let fa = parse_fiat_amount("1.0000000019EUR").unwrap();
    assert_eq!(fa.amount, 1_000_000_001);
}

#[test]
fn parse_rejects_amounts_beyond_fixed_point_range() {
    // u64::MAX nano-units is about 1.8e10 whole units.
    assert!(parse_fiat_amount("99999999999999999999USD").is_none());
}

#[test]
fn canonical_code_folds_case() {
    assert_eq!(canonical_fiat_code("chf"), Some("CHF"));
    assert_eq!(canonical_fiat_code("jPy"), Some("JPY"));
    assert_eq!(canonical_fiat_code("doge"), None);
}
