//! The CoinMarketCap request-side and response-side computation:
//! request URL building, the status-message check, and assembly of the
//! decoded per-symbol quotes into [`CoinPrice`] records (symbols with no
//! match or no quote in the requested currency silently dropped, an
//! empty result set failing with `NoResults`).
//!
//! The HTTP exchange and the decoding of the JSON body (including the
//! array-or-object shape of duplicate symbols) are the application's.

use vstd::prelude::*;

use crate::errors::{Error, ErrorV};
use crate::strutil::{upper_seq, to_upper_string};
use crate::types::{CoinPrice, CoinPriceV, prices_view};

verus! {

/// The tokens joined with commas.
pub open spec fn join_commas(ts: Seq<Seq<char>>) -> Seq<char>
    decreases ts.len(),
{
    if ts.len() == 0 {
        Seq::empty()
    } else if ts.len() == 1 {
        ts[0]
    } else {
        join_commas(ts.drop_last()) + seq![','] + ts.last()
    }
}

/// The symbols uppercased, in order.
pub open spec fn upper_symbols(symbols: Seq<Seq<char>>) -> Seq<Seq<char>> {
    symbols.map_values(|s: Seq<char>| upper_seq(s))
}

/// Build the latest-quotes request URL for the given symbols and
/// conversion currency.
pub fn cmc_price_url(base: &str, symbols: &Vec<String>, currency: &str) -> (r: String)
    ensures
        r@ == base@ + "/cryptocurrency/quotes/latest?symbol="@ + join_commas(
            upper_symbols(symbols@.map_values(|s: String| s@)),
        ) + "&convert="@ + upper_seq(currency@),
{
    let ghost sv = symbols@.map_values(|s: String| s@);
    let mut out = String::new();
    out.append(base);
    out.append("/cryptocurrency/quotes/latest?symbol=");
    let n = symbols.len();
    let mut i: usize = 0;
    while i < n
        invariant
            0 <= i <= n,
            n == symbols@.len(),
            sv == symbols@.map_values(|s: String| s@),
            out@ == base@ + "/cryptocurrency/quotes/latest?symbol="@ + join_commas(
                upper_symbols(sv.take(i as int)),
            ),
        decreases n - i,
    {
        proof {
            let pre = upper_symbols(sv.take(i + 1));
            assert(pre.drop_last() =~= upper_symbols(sv.take(i as int)));
            assert(pre.last() == upper_seq(sv[i as int]));
            assert(sv[i as int] == symbols@[i as int]@);
        }
        if i > 0 {
            out.append(",");
            proof {
                reveal_strlit(",");
                assert(","@ =~= seq![',']);
            }
        }
        let up = to_upper_string(symbols[i].as_str());
        out.append(up.as_str());
        proof {
            if i == 0 {
                assert(upper_symbols(sv.take(1)).len() == 1);
            }
            assert(out@ =~= base@ + "/cryptocurrency/quotes/latest?symbol="@ + join_commas(
                upper_symbols(sv.take(i + 1)),
            ));
        }
        i += 1;
    }
    proof {
        assert(sv.take(n as int) =~= sv);
    }
    out.append("&convert=");
    let cur = to_upper_string(currency);
    out.append(cur.as_str());
    proof {
        assert(out@ =~= base@ + "/cryptocurrency/quotes/latest?symbol="@ + join_commas(
            upper_symbols(sv),
        ) + "&convert="@ + upper_seq(currency@));
    }
    out
}

/// Check the response's status block: a non-empty error message fails
/// with an `Api` error naming the source.
pub fn cmc_check_status(error_message: &Option<String>) -> (r: Result<(), Error>)
    ensures
        match r {
            Ok(()) => match error_message {
                Some(m) => m@.len() == 0,
                None => true,
            },
            Err(e) => error_message matches Some(m) && m@.len() > 0 && e@ == ErrorV::Api(
                "CoinMarketCap: "@ + m@,
            ),
        },
{
    match error_message {
        Some(m) => {
            if m.as_str().is_empty() {
                Ok(())
            } else {
                let mut s = String::new();
                s.append("CoinMarketCap: ");
                s.append(m.as_str());
                proof {
                    assert(s@ =~= "CoinMarketCap: "@ + m@);
                }
                Err(Error::Api(s))
            }
        },
        None => Ok(()),
    }
}

/// The quote of a coin in the requested conversion currency, already in
/// plain fixed-point values.
#[derive(Debug, Clone, Copy, PartialEq, Eq, Structural)]
pub struct CmcQuote {
    /// Price in nano-units (zero when the response carried none).
    pub price: u64,
    /// 24-hour change in nano-percent, when present.
    pub change_24h: Option<i64>,
    /// Market capitalization in whole units, when present.
    pub market_cap: Option<u64>,
}

/// One decoded entry of the latest-quotes response.
#[derive(Debug, Clone)]
pub struct CmcEntry {
    /// The key the entry stood under in the response's data map.
    pub key: String,
    /// The coin's ticker symbol as the source reports it.
    pub symbol: String,
    /// The coin's name as the source reports it.
    pub name: String,
    /// Its quote in the requested currency, when the response had one.
    pub quote: Option<CmcQuote>,
}

/// Mathematical image of a [`CmcEntry`].
pub struct CmcEntryV {
    pub key: Seq<char>,
    pub symbol: Seq<char>,
    pub name: Seq<char>,
    pub quote: Option<CmcQuote>,
}

impl View for CmcEntry {
    type V = CmcEntryV;

    open spec fn view(&self) -> CmcEntryV {
        CmcEntryV {
            key: self.key@,
            symbol: self.symbol@,
            name: self.name@,
            quote: self.quote,
        }
    }
}

/// The views of decoded entries.
pub open spec fn cmc_entries_view(es: Seq<CmcEntry>) -> Seq<CmcEntryV> {
    es.map_values(|e: CmcEntry| e@)
}

/// First entry under the given key, if any.
pub open spec fn lookup_cmc(data: Seq<CmcEntryV>, key: Seq<char>) -> Option<CmcEntryV>
    decreases data.len(),
{
    if data.len() == 0 {
        None
    } else if data[0].key == key {
        Some(data[0])
    } else {
        lookup_cmc(data.drop_first(), key)
    }
}

proof fn lemma_lookup_cmc_at(data: Seq<CmcEntryV>, key: Seq<char>, i: int)
    requires
        0 <= i < data.len(),
        forall|j: int| 0 <= j < i ==> (#[trigger] data[j]).key != key,
        data[i].key == key,
    ensures
        lookup_cmc(data, key) == Some(data[i]),
    decreases data.len(),
{
    if i > 0 {
        lemma_lookup_cmc_at(data.drop_first(), key, i - 1);
    }
}

proof fn lemma_lookup_cmc_none(data: Seq<CmcEntryV>, key: Seq<char>)
    requires
        forall|j: int| 0 <= j < data.len() ==> (#[trigger] data[j]).key != key,
    ensures
        lookup_cmc(data, key) is None,
    decreases data.len(),
{
    if data.len() > 0 {
        lemma_lookup_cmc_none(data.drop_first(), key);
    }
}

/// Find the first decoded entry standing under the given key.
fn find_cmc(data: &Vec<CmcEntry>, key: &String) -> (r: Option<usize>)
    ensures
        match r {
            Some(i) => i < data@.len() && cmc_entries_view(data@)[i as int].key == key@
                && lookup_cmc(cmc_entries_view(data@), key@) == Some(
                cmc_entries_view(data@)[i as int],
            ),
            None => lookup_cmc(cmc_entries_view(data@), key@) is None,
        },
{
    let n = data.len();
    let ghost dv = cmc_entries_view(data@);
    let mut i: usize = 0;
    while i < n
        invariant
            0 <= i <= n,
            n == data@.len(),
            dv == cmc_entries_view(data@),
            forall|j: int| 0 <= j < i ==> (#[trigger] dv[j]).key != key@,
        decreases n - i,
    {
        if data[i].key.eq(key) {
            proof {
                lemma_lookup_cmc_at(dv, key@, i as int);
            }
            return Some(i);
        }
        i += 1;
    }
    proof {
        lemma_lookup_cmc_none(dv, key@);
    }
    None
}

/// The price records assembled from the decoded response: one per
/// requested symbol whose uppercase form the response carries with a
/// quote, in request order; the rest are dropped.
pub open spec fn cmc_prices(
    symbols: Seq<Seq<char>>,
    data: Seq<CmcEntryV>,
    currency: Seq<char>,
    ts: i64,
) -> Seq<CoinPriceV>
    decreases symbols.len(),
{
    if symbols.len() == 0 {
        Seq::empty()
    } else {
        let up = upper_seq(symbols[0]);
        let rest = cmc_prices(symbols.drop_first(), data, currency, ts);
        match lookup_cmc(data, up) {
            Some(e) => match e.quote {
                Some(q) => seq![
                    CoinPriceV {
                        symbol: e.symbol,
                        name: e.name,
                        price: q.price,
                        change_24h: q.change_24h,
                        market_cap: q.market_cap,
                        currency: upper_seq(currency),
                        provider: "CoinMarketCap"@,
                        timestamp: ts,
                    },
                ] + rest,
                None => rest,
            },
            None => rest,
        }
    }
}

/// Assemble the decoded quotes into price records, one per requested
/// symbol the response carries with a quote, in request order; fails
/// with `NoResults` exactly when nothing matched.
pub fn cmc_assemble(
    symbols: &Vec<String>,
    data: &Vec<CmcEntry>,
    currency: &str,
    timestamp: i64,
) -> (r: Result<Vec<CoinPrice>, Error>)
    ensures
        match r {
            Ok(out) => prices_view(out@) == cmc_prices(
                symbols@.map_values(|s: String| s@),
                cmc_entries_view(data@),
                currency@,
                timestamp,
            ) && out@.len() > 0,
            Err(e) => e@ is NoResults && cmc_prices(
                symbols@.map_values(|s: String| s@),
                cmc_entries_view(data@),
                currency@,
                timestamp,
            ).len() == 0,
        },
{
    let n = symbols.len();
    let ghost sv = symbols@.map_values(|s: String| s@);
    let ghost dv = cmc_entries_view(data@);
    let ghost total = cmc_prices(sv, dv, currency@, timestamp);
    let mut out: Vec<CoinPrice> = Vec::new();
    proof {
        assert(sv.skip(0) =~= sv);
        assert(prices_view(out@) =~= Seq::<CoinPriceV>::empty());
    }
    let mut i: usize = 0;
    while i < n
        invariant
            0 <= i <= n,
            n == symbols@.len(),
            sv == symbols@.map_values(|s: String| s@),
            dv == cmc_entries_view(data@),
            total == cmc_prices(sv, dv, currency@, timestamp),
            prices_view(out@) + cmc_prices(sv.skip(i as int), dv, currency@, timestamp) == total,
        decreases n - i,
    {
        proof {
            assert(sv.skip(i as int)[0] == sv[i as int]);
            assert(sv.skip(i as int).drop_first() =~= sv.skip(i + 1));
            assert(sv[i as int] == symbols@[i as int]@);
        }
        let up = to_upper_string(symbols[i].as_str());
        match find_cmc(data, &up) {
            Some(idx) => {
                let e = &data[idx];
                match &e.quote {
                    Some(q) => {
                        let p = CoinPrice {
                            symbol: e.symbol.clone(),
                            name: e.name.clone(),
                            price: q.price,
                            change_24h: q.change_24h,
                            market_cap: q.market_cap,
                            currency: to_upper_string(currency),
                            provider: "CoinMarketCap".to_owned(),
                            timestamp,
                        };
                        let ghost pv = CoinPriceV {
                            symbol: e@.symbol,
                            name: e@.name,
                            price: q.price,
                            change_24h: q.change_24h,
                            market_cap: q.market_cap,
                            currency: upper_seq(currency@),
                            provider: "CoinMarketCap"@,
                            timestamp,
                        };
                        let ghost before = prices_view(out@);
                        proof {
                            assert(p@ == pv);
                        }
                        out.push(p);
                        proof {
                            assert(prices_view(out@) =~= before.push(pv));
                            assert(cmc_prices(sv.skip(i as int), dv, currency@, timestamp)
                                == seq![pv] + cmc_prices(sv.skip(i + 1), dv, currency@, timestamp));
                            assert(before.push(pv) + cmc_prices(
                                sv.skip(i + 1),
                                dv,
                                currency@,
                                timestamp,
                            ) =~= before + cmc_prices(sv.skip(i as int), dv, currency@, timestamp));
                        }
                    },
                    None => {
                        proof {
                            assert(cmc_prices(sv.skip(i as int), dv, currency@, timestamp)
                                == cmc_prices(sv.skip(i + 1), dv, currency@, timestamp));
                        }
                    },
                }
            },
            None => {
                proof {
                    assert(cmc_prices(sv.skip(i as int), dv, currency@, timestamp) == cmc_prices(
                        sv.skip(i + 1),
                        dv,
                        currency@,
                        timestamp,
                    ));
                }
            },
        }
        i += 1;
    }
    proof {
        assert(sv.skip(n as int) =~= Seq::<Seq<char>>::empty());
        assert(prices_view(out@) =~= total);
    }
    if out.len() == 0 {
        Err(Error::NoResults)
    } else {
        Ok(out)
    }
}

} // verus!
