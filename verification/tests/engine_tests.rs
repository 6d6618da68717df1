//! Tests of the conversion engine: partitioning, ordering, the two rate
//! conventions, and the fixed-point arithmetic.

use cryptoprice::engine::{
    RateEntry, assemble_conversions, build_crypto_conversions, build_fiat_conversions,
    fiat_rates_url, mul_rate, invert_rate, div_price, partition_targets, require_nonempty_rates,
};
use cryptoprice::fiat::parse_fiat_amount;
use cryptoprice::types::CoinPrice;

fn rate(code: &str, nanos: u64) -> RateEntry {
    RateEntry { code: code.to_string(), rate: nanos }
}

fn btc_price(nanos: u64) -> CoinPrice {
    CoinPrice {
        symbol: "BTC".to_string(),
        name: "Bitcoin".to_string(),
        price: nanos,
        change_24h: None,
        market_cap: None,
        currency: "USD".to_string(),
        provider: "CoinGecko".to_string(),
        timestamp: 1_771_545_600,
    }
}

#[test]
fn partition_preserves_order_within_each_side() {
    let targets = vec!["EUR".to_string(), "btc".to_string(), "GBP".to_string()];
    let (fiat, crypto) = partition_targets(&targets);
    assert_eq!(fiat, vec!["EUR".to_string(), "GBP".to_string()]);
    assert_eq!(crypto, vec!["btc".to_string()]);
}

#[test]
fn conversions_list_fiat_legs_before_crypto_legs() {
    // 3.5 USD against targets EUR, btc, GBP: the fiat conversions come
    // first, in target order, then the crypto conversion.
    let fiat = parse_fiat_amount("3.5USD").unwrap();
    let targets = vec!["EUR".to_string(), "btc".to_string(), "GBP".to_string()];
    let (fiat_targets, crypto_targets) = partition_targets(&targets);
    assert_eq!(crypto_targets, vec!["btc".to_string()]);
    let rates = vec![rate("EUR", 850_000_000), rate("GBP", 740_000_000)];
    let prices = vec![btc_price(50_000_000_000_000)];
    let out = assemble_conversions(&fiat, &fiat_targets, &rates, &prices, 7);
    assert_eq!(out.len(), 3);
    assert_eq!(out[0].to_symbol, "EUR");
    assert_eq!(out[1].to_symbol, "GBP");
    assert_eq!(out[2].to_symbol, "BTC");
}

#[test]
fn fiat_leg_uses_inverse_rate_convention() {
    // 1 USD = 0.85 EUR: to_amount = from * 0.85, rate = 1 / 0.85.
    let fiat = parse_fiat_amount("3.5USD").unwrap();
    let targets = vec!["eur".to_string()];
    let rates = vec![rate("EUR", 850_000_000)];
    let out = build_fiat_conversions(fiat.amount, "USD", &targets, &rates, 7);
    assert_eq!(out.len(), 1);
    assert_eq!(out[0].from_amount, 3_500_000_000);
    assert_eq!(out[0].to_amount, 2_975_000_000);
    assert_eq!(out[0].rate, 1_176_470_588);
    assert_eq!(out[0].to_symbol, "EUR");
    assert_eq!(out[0].to_name, "Euro");
    assert_eq!(out[0].provider, "Frankfurter/ECB");
    assert_eq!(out[0].timestamp, 7);
}

#[test]
fn crypto_leg_uses_direct_rate_convention() {
    // BTC at 50000 USD: to_amount = from / 50000, rate = 50000.
    let fiat = parse_fiat_amount("3.5USD").unwrap();
    let prices = vec![btc_price(50_000_000_000_000)];
    let out = build_crypto_conversions(fiat.amount, "USD", &prices, 7);
    assert_eq!(out.len(), 1);
    assert_eq!(out[0].to_amount, 70_000);
    assert_eq!(out[0].rate, 50_000_000_000_000);
    assert_eq!(out[0].to_symbol, "BTC");
    assert_eq!(out[0].to_name, "Bitcoin");
    assert_eq!(out[0].provider, "CoinGecko");
}

#[test]
fn targets_missing_from_rate_map_are_dropped_without_error() {
    let fiat = parse_fiat_amount("2USD").unwrap();
    let targets = vec!["EUR".to_string(), "NOK".to_string()];
    let rates = vec![rate("EUR", 850_000_000)];
    let out = build_fiat_conversions(fiat.amount, "USD", &targets, &rates, 0);
    assert_eq!(out.len(), 1);
    assert_eq!(out[0].to_symbol, "EUR");
}

#[test]
fn fixed_point_arithmetic_saturates_and_truncates() {
    assert_eq!(mul_rate(3_000_000_000, 1_000_000_000), 3_000_000_000);
    assert_eq!(mul_rate(u64::MAX, u64::MAX), u64::MAX);
    assert_eq!(invert_rate(0), u64::MAX);
    assert_eq!(invert_rate(1_000_000_000), 1_000_000_000);
    assert_eq!(div_price(1_000_000_000, 0), u64::MAX);
    assert_eq!(div_price(1_000_000_000, 3_000_000_000), 333_333_333);
}

#[test]
fn empty_rate_map_is_no_results() {
    let r = require_nonempty_rates(vec![]);
    assert!(matches!(r, Err(cryptoprice::errors::Error::NoResults)));
    let r = require_nonempty_rates(vec![rate("EUR", 1)]);
    assert!(r.is_ok());
}

#[test]
fn fx_url_uppercases_base_and_targets() {
    let url = fiat_rates_url("usd", &vec!["eur".to_string(), "Gbp".to_string()]);
    assert_eq!(url, "https://api.frankfurter.dev/v1/latest?from=USD&to=EUR,GBP");
}
