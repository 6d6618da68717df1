//! Shared result types produced by price providers.
//!
//! Monetary quantities are held as fixed-point integers: a price, a rate
//! or an amount is a count of nano-units (billionths of one currency
//! unit); a market capitalization is a count of whole units; a 24-hour
//! change is nano-percent. Timestamps are Unix seconds.

use vstd::prelude::*;

verus! {

/// Number of nano-units in one whole currency unit.
pub const NANOS_PER_UNIT: u64 = 1_000_000_000;

/// Sampling interval requested when fetching historical chart data.
/// It is a request, not a guarantee; providers may silently coarsen.
#[derive(Debug, Clone, Copy, PartialEq, Eq, Structural)]
pub enum HistoryInterval {
    Auto,
    Hourly,
    Daily,
}

impl HistoryInterval {
    /// The CLI-facing lowercase name of the interval.
    pub open spec fn spec_str(self) -> Seq<char> {
        match self {
            HistoryInterval::Auto => "auto"@,
            HistoryInterval::Hourly => "hourly"@,
            HistoryInterval::Daily => "daily"@,
        }
    }

    /// Render the interval as the CLI-facing lowercase string.
    pub fn as_str(self) -> (r: &'static str)
        ensures
            r@ == self.spec_str(),
    {
        match self {
            HistoryInterval::Auto => "auto",
            HistoryInterval::Hourly => "hourly",
            HistoryInterval::Daily => "daily",
        }
    }
}

/// A single coin's price data returned by a provider.
#[derive(Debug, Clone)]
pub struct CoinPrice {
    pub symbol: String,
    pub name: String,
    /// Price of one unit of the coin, in nano-units of `currency`.
    pub price: u64,
    /// 24-hour change in nano-percent, when the provider reports it.
    pub change_24h: Option<i64>,
    /// Market capitalization in whole units of `currency`.
    pub market_cap: Option<u64>,
    pub currency: String,
    pub provider: String,
    /// Unix seconds at which the price was fetched.
    pub timestamp: i64,
}

/// Mathematical image of a [`CoinPrice`].
pub struct CoinPriceV {
    pub symbol: Seq<char>,
    pub name: Seq<char>,
    pub price: u64,
    pub change_24h: Option<i64>,
    pub market_cap: Option<u64>,
    pub currency: Seq<char>,
    pub provider: Seq<char>,
    pub timestamp: i64,
}

impl View for CoinPrice {
    type V = CoinPriceV;

    open spec fn view(&self) -> CoinPriceV {
        CoinPriceV {
            symbol: self.symbol@,
            name: self.name@,
            price: self.price,
            change_24h: self.change_24h,
            market_cap: self.market_cap,
            currency: self.currency@,
            provider: self.provider@,
            timestamp: self.timestamp,
        }
    }
}

/// A single historical price point for a coin.
#[derive(Debug, Clone, Copy, PartialEq, Eq, Structural)]
pub struct PricePoint {
    /// Unix seconds of the sample.
    pub timestamp: i64,
    /// Price in nano-units of the series' currency.
    pub price: u64,
}

/// A single ticker search match returned by a provider.
#[derive(Debug, Clone)]
pub struct TickerMatch {
    pub symbol: String,
    pub name: String,
    pub exchange: String,
    pub asset_type: String,
    pub provider: String,
}

/// Historical price series for one coin.
#[derive(Debug, Clone)]
pub struct PriceHistory {
    pub symbol: String,
    pub name: String,
    pub currency: String,
    pub provider: String,
    pub points: Vec<PricePoint>,
}

/// Mathematical image of a [`PriceHistory`].
pub struct PriceHistoryV {
    pub symbol: Seq<char>,
    pub name: Seq<char>,
    pub currency: Seq<char>,
    pub provider: Seq<char>,
    pub points: Seq<PricePoint>,
}

impl View for PriceHistory {
    type V = PriceHistoryV;

    open spec fn view(&self) -> PriceHistoryV {
        PriceHistoryV {
            symbol: self.symbol@,
            name: self.name@,
            currency: self.currency@,
            provider: self.provider@,
            points: self.points@,
        }
    }
}

/// The views of a vector of histories.
pub open spec fn histories_view(hs: Seq<PriceHistory>) -> Seq<PriceHistoryV> {
    hs.map_values(|h: PriceHistory| h@)
}

/// The views of a vector of prices.
pub open spec fn prices_view(ps: Seq<CoinPrice>) -> Seq<CoinPriceV> {
    ps.map_values(|p: CoinPrice| p@)
}

} // verus!
