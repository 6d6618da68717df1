//! Tests of the provider registry, the search-query resolver, and the
//! request/response computation of the two crypto providers.

use cryptoprice::cmc::{CmcEntry, CmcQuote, cmc_assemble, cmc_check_status, cmc_price_url};
use cryptoprice::coingecko::{
    CoinEntry, capitalize, coingecko_assemble, coingecko_price_url, resolve,
};
use cryptoprice::errors::Error;
use cryptoprice::query::resolve_search_query;
use cryptoprice::registry::{available_providers, get_provider};
use cryptoprice::types::HistoryInterval;

#[test]
fn registry_lists_the_four_sources_in_order() {
    let ps = available_providers(None);
    let ids: Vec<&str> = ps.iter().map(|p| p.id.as_str()).collect();
    assert_eq!(ids, vec!["coingecko", "stooq", "yahoo", "cmc"]);
    assert!(!ps[0].requires_api_key);
    assert!(ps[3].requires_api_key);
    assert!(ps[3].api_key.is_none());

    let ps = available_providers(Some("k-123".to_string()));
    assert_eq!(ps[3].api_key.as_deref(), Some("k-123"));
}

#[test]
fn provider_lookup_is_case_insensitive_and_exact() {
    let ps = available_providers(None);
    assert_eq!(get_provider(&ps, "coingecko"), Some(0));
    assert_eq!(get_provider(&ps, "CMC"), Some(3));
    assert_eq!(get_provider(&ps, "Yahoo"), Some(2));
    assert_eq!(get_provider(&ps, "coin"), None);
    assert_eq!(get_provider(&ps, ""), None);
}

#[test]
fn search_flag_wins_and_is_trimmed() {
    let q = resolve_search_query(&Some("  apple inc ".to_string()), &vec!["btc".to_string()]);
    assert_eq!(q.as_deref(), Some("apple inc"));
}

#[test]
fn search_keyword_collects_remaining_tokens() {
    let syms = vec!["search".to_string(), " apple ".to_string(), "".to_string(), "inc".to_string()];
    let q = resolve_search_query(&None, &syms);
    assert_eq!(q.as_deref(), Some("apple inc"));
}

#[test]
fn search_keyword_is_stripped_once_more_if_repeated() {
    let syms = vec!["SEARCH".to_string(), "Search".to_string(), "apple".to_string()];
    let q = resolve_search_query(&None, &syms);
    assert_eq!(q.as_deref(), Some("apple"));
}

#[test]
fn plain_symbols_are_no_search() {
    assert_eq!(resolve_search_query(&None, &vec!["btc".to_string()]), None);
    assert_eq!(resolve_search_query(&None, &vec![]), None);
}

#[test]
fn resolve_maps_known_tickers_and_capitalizes_the_rest() {
    assert_eq!(resolve("btc"), ("bitcoin".to_string(), "Bitcoin".to_string()));
    assert_eq!(resolve("BITCOIN"), ("bitcoin".to_string(), "Bitcoin".to_string()));
    assert_eq!(resolve("avax"), ("avalanche-2".to_string(), "Avalanche".to_string()));
    assert_eq!(resolve("FOO"), ("foo".to_string(), "Foo".to_string()));
    assert_eq!(capitalize("doge"), "Doge");
    assert_eq!(capitalize(""), "");
}

#[test]
fn coingecko_url_carries_ids_and_lowercased_currency() {
    let url = coingecko_price_url(
        "https://api.coingecko.com/api/v3",
        &vec!["btc".to_string(), "eth".to_string()],
        "USD",
    );
    assert_eq!(
        url,
        "https://api.coingecko.com/api/v3/simple/price?ids=bitcoin,ethereum&vs_currencies=usd&include_24hr_change=true&include_market_cap=true"
    );
}

#[test]
fn coingecko_assembles_prices_in_request_order() {
    // The decoded shape of a response quoting bitcoin at 50000 USD
    // (+1.5% on the day) and ethereum at 3000 USD (-0.5%).
    let data = vec![
        CoinEntry {
            id: "ethereum".to_string(),
            price: 3_000_000_000_000,
            change_24h: Some(-500_000_000),
            market_cap: Some(500_000_000),
        },
        CoinEntry {
            id: "bitcoin".to_string(),
            price: 50_000_000_000_000,
            change_24h: Some(1_500_000_000),
            market_cap: Some(999_999_999),
        },
    ];
    let symbols = vec!["btc".to_string(), "eth".to_string()];
    let prices = coingecko_assemble(&symbols, &data, "usd", 42).unwrap();
    assert_eq!(prices.len(), 2);
    assert_eq!(prices[0].symbol, "BTC");
    assert_eq!(prices[0].name, "Bitcoin");
    assert_eq!(prices[0].price, 50_000_000_000_000);
    assert_eq!(prices[0].change_24h, Some(1_500_000_000));
    assert_eq!(prices[0].market_cap, Some(999_999_999));
    assert_eq!(prices[0].currency, "USD");
    assert_eq!(prices[0].provider, "CoinGecko");
    assert_eq!(prices[1].symbol, "ETH");
    assert_eq!(prices[1].name, "Ethereum");
    assert_eq!(prices[1].price, 3_000_000_000_000);
}

#[test]
fn coingecko_empty_match_is_no_results() {
    let symbols = vec!["btc".to_string()];
    let r = coingecko_assemble(&symbols, &vec![], "usd", 0);
    assert!(matches!(r, Err(Error::NoResults)));
}

#[test]
fn coingecko_drops_symbols_the_response_lacks() {
    let data = vec![CoinEntry {
        id: "bitcoin".to_string(),
        price: 1,
        change_24h: None,
        market_cap: None,
    }];
    let symbols = vec!["btc".to_string(), "eth".to_string()];
    let prices = coingecko_assemble(&symbols, &data, "usd", 0).unwrap();
    assert_eq!(prices.len(), 1);
    assert_eq!(prices[0].symbol, "BTC");
}

#[test]
fn cmc_url_uppercases_symbols_and_currency() {
    let url = cmc_price_url(
        "https://pro-api.coinmarketcap.com/v1",
        &vec!["btc".to_string(), "eth".to_string()],
        "usd",
    );
    assert_eq!(
        url,
        "https://pro-api.coinmarketcap.com/v1/cryptocurrency/quotes/latest?symbol=BTC,ETH&convert=USD"
    );
}

#[test]
fn cmc_status_error_message_becomes_api_error() {
    let r = cmc_check_status(&Some("API key missing.".to_string()));
    match r {
        Err(Error::Api(m)) => assert_eq!(m, "CoinMarketCap: API key missing."),
        _ => panic!("expected an Api error"),
    }
    assert!(cmc_check_status(&Some(String::new())).is_ok());
    assert!(cmc_check_status(&None).is_ok());
}

#[test]
fn cmc_assembles_quoted_symbols_and_drops_the_rest() {
    let data = vec![
        CmcEntry {
            key: "BTC".to_string(),
            symbol: "BTC".to_string(),
            name: "Bitcoin".to_string(),
            quote: Some(CmcQuote {
                price: 50_000_000_000_000,
                change_24h: Some(1_500_000_000),
                market_cap: Some(1_000_000_000),
            }),
        },
        CmcEntry {
            key: "XXX".to_string(),
            symbol: "XXX".to_string(),
            name: "NoQuote".to_string(),
            quote: None,
        },
    ];
    let symbols = vec!["btc".to_string(), "xxx".to_string(), "eth".to_string()];
    let prices = cmc_assemble(&symbols, &data, "usd", 9).unwrap();
    assert_eq!(prices.len(), 1);
    assert_eq!(prices[0].symbol, "BTC");
    assert_eq!(prices[0].name, "Bitcoin");
    assert_eq!(prices[0].price, 50_000_000_000_000);
    assert_eq!(prices[0].currency, "USD");
    assert_eq!(prices[0].provider, "CoinMarketCap");

    let r = cmc_assemble(&vec!["eth".to_string()], &data, "usd", 9);
    assert!(matches!(r, Err(Error::NoResults)));
}

#[test]
fn interval_names_are_lowercase() {
    assert_eq!(HistoryInterval::Auto.as_str(), "auto");
    assert_eq!(HistoryInterval::Hourly.as_str(), "hourly");
    assert_eq!(HistoryInterval::Daily.as_str(), "daily");
}
