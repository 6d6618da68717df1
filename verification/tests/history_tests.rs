//! Tests of history windowing, the window-fetch fallback decision and
//! the fiat chart validations.

use cryptoprice::errors::{Error, unsupported_history_error, unsupported_window_error};
use cryptoprice::history::{
    WindowFetchOutcome, filter_histories_by_time_window, require_nonempty_histories,
    resolve_window_fetch, validate_fiat_chart_request,
};
use cryptoprice::types::{HistoryInterval, PriceHistory, PricePoint};

fn series(symbol: &str, stamps: &[i64]) -> PriceHistory {
    PriceHistory {
        symbol: symbol.to_string(),
        name: symbol.to_string(),
        currency: "USD".to_string(),
        provider: "CoinGecko".to_string(),
        points: stamps.iter().map(|&t| PricePoint { timestamp: t, price: 1_000_000_000 }).collect(),
    }
}

fn stamps(h: &PriceHistory) -> Vec<i64> {
    h.points.iter().map(|p| p.timestamp).collect()
}

#[test]
fn windowing_clips_points_and_drops_empty_series() {
    let mut hs = vec![series("BTC", &[5, 15, 25, 35]), series("ETH", &[1, 2])];
    filter_histories_by_time_window(&mut hs, Some(10), 30);
    assert_eq!(hs.len(), 1);
    assert_eq!(hs[0].symbol, "BTC");
    assert_eq!(stamps(&hs[0]), vec![15, 25]);
}

#[test]
fn windowing_without_start_keeps_everything_up_to_end() {
    let mut hs = vec![series("BTC", &[5, 15, 25, 35])];
    filter_histories_by_time_window(&mut hs, None, 30);
    assert_eq!(stamps(&hs[0]), vec![5, 15, 25]);
}

#[test]
fn windowing_is_idempotent() {
    let mut hs = vec![series("BTC", &[5, 15, 25, 35]), series("ETH", &[40])];
    filter_histories_by_time_window(&mut hs, Some(10), 30);
    let first = hs.iter().map(stamps).collect::<Vec<_>>();
    filter_histories_by_time_window(&mut hs, Some(10), 30);
    let second = hs.iter().map(stamps).collect::<Vec<_>>();
    assert_eq!(first, second);
}

#[test]
fn window_fallback_triggers_on_the_marker_alone() {
    // The window-unsupported Config error selects the fallback ...
    let r = resolve_window_fetch(Err(unsupported_window_error("stooq")));
    assert!(matches!(r, WindowFetchOutcome::FallBackToDays));

    // ... any other error propagates unchanged:
    let r = resolve_window_fetch(Err(Error::Api("server said 503".to_string())));
    match r {
        WindowFetchOutcome::Failed(Error::Api(m)) => assert_eq!(m, "server said 503"),
        _ => panic!("expected the Api error back"),
    }
    let r = resolve_window_fetch(Err(unsupported_history_error("stooq")));
    assert!(matches!(r, WindowFetchOutcome::Failed(Error::Config(_))));
    let r = resolve_window_fetch(Err(Error::Parse("bad field".to_string())));
    assert!(matches!(r, WindowFetchOutcome::Failed(Error::Parse(_))));
    let r = resolve_window_fetch(Err(Error::NoResults));
    assert!(matches!(r, WindowFetchOutcome::Failed(Error::NoResults)));

    // ... and success passes through.
    let r = resolve_window_fetch(Ok(vec![series("BTC", &[1])]));
    match r {
        WindowFetchOutcome::Done(hs) => assert_eq!(hs.len(), 1),
        _ => panic!("expected the series back"),
    }
}

#[test]
fn window_unsupported_message_names_the_provider() {
    match unsupported_window_error("yahoo") {
        Error::Config(m) => {
            assert_eq!(m, "provider 'yahoo' does not support explicit chart date windows")
        },
        _ => panic!("expected a Config error"),
    }
}

#[test]
fn empty_history_set_is_no_results() {
    assert!(matches!(require_nonempty_histories(vec![]), Err(Error::NoResults)));
    assert!(require_nonempty_histories(vec![series("BTC", &[1])]).is_ok());
}

#[test]
fn fiat_chart_rejects_hourly_sampling() {
    let targets = vec!["eur".to_string()];
    let r = validate_fiat_chart_request(&targets, HistoryInterval::Hourly);
    match r {
        Err(Error::Config(m)) => assert_eq!(
            m,
            "fiat chart mode supports daily history only -- use --sampling auto or --sampling daily"
        ),
        _ => panic!("expected a Config error"),
    }
    assert!(validate_fiat_chart_request(&targets, HistoryInterval::Auto).is_ok());
    assert!(validate_fiat_chart_request(&targets, HistoryInterval::Daily).is_ok());
}

#[test]
fn fiat_chart_rejects_empty_and_non_fiat_targets() {
    let r = validate_fiat_chart_request(&vec![], HistoryInterval::Auto);
    assert!(matches!(r, Err(Error::Config(_))));
    let r = validate_fiat_chart_request(
        &vec!["eur".to_string(), "btc".to_string()],
        HistoryInterval::Auto,
    );
    match r {
        Err(Error::Config(m)) => assert_eq!(
            m,
            "fiat chart mode only supports fiat currency codes (example: usd eur gbp)"
        ),
        _ => panic!("expected a Config error"),
    }
}
