//! The CoinGecko request-side and response-side computation: symbol
//! resolution to API ids and display names, request URL building, and
//! assembly of the fetched per-id price data into [`CoinPrice`] records
//! (symbols with no match silently dropped, an empty result set failing
//! with `NoResults`).
//!
//! The HTTP exchange itself and the decoding of the JSON body into
//! plain per-id entries are the application's.

use vstd::prelude::*;

use crate::errors::{Error, ErrorV};
use crate::strutil::{
    lower_seq, upper_seq, upper_char, lower_matches, to_lower_string, to_upper_string,
    upper_char_exec, push_char,
};
use crate::types::{CoinPrice, CoinPriceV, prices_view};

verus! {

/// A word with its first character uppercased (ASCII).
pub open spec fn capitalize_seq(s: Seq<char>) -> Seq<char> {
    if s.len() == 0 {
        s
    } else {
        seq![upper_char(s[0])] + s.drop_first()
    }
}

/// Uppercase the first character of a word (ASCII).
pub fn capitalize(s: &str) -> (r: String)
    ensures
        r@ == capitalize_seq(s@),
{
    let n = s.unicode_len();
    let mut out = String::new();
    if n == 0 {
        proof {
            assert(out@ =~= s@);
        }
        return out;
    }
    push_char(&mut out, upper_char_exec(s.get_char(0)));
    let rest = s.substring_char(1, n);
    out.append(rest);
    proof {
        assert(out@ =~= capitalize_seq(s@));
    }
    out
}

/// The CoinGecko API id and display name of a ticker symbol: a fixed
/// table of common tickers, with the lowercased symbol itself (name
/// capitalized) as the fallback.
pub open spec fn resolve_spec(sym: Seq<char>) -> (Seq<char>, Seq<char>) {
    let l = lower_seq(sym);
    if l == "btc"@ || l == "bitcoin"@ {
        ("bitcoin"@, "Bitcoin"@)
    } else if l == "eth"@ || l == "ethereum"@ {
        ("ethereum"@, "Ethereum"@)
    } else if l == "usdt"@ || l == "tether"@ {
        ("tether"@, "Tether"@)
    } else if l == "bnb"@ {
        ("binancecoin"@, "BNB"@)
    } else if l == "sol"@ || l == "solana"@ {
        ("solana"@, "Solana"@)
    } else if l == "xrp"@ || l == "ripple"@ {
        ("ripple"@, "XRP"@)
    } else if l == "usdc"@ {
        ("usd-coin"@, "USDC"@)
    } else if l == "ada"@ || l == "cardano"@ {
        ("cardano"@, "Cardano"@)
    } else if l == "doge"@ || l == "dogecoin"@ {
        ("dogecoin"@, "Dogecoin"@)
    } else if l == "dot"@ || l == "polkadot"@ {
        ("polkadot"@, "Polkadot"@)
    } else if l == "matic"@ || l == "polygon"@ {
        ("matic-network"@, "Polygon"@)
    } else if l == "ltc"@ || l == "litecoin"@ {
        ("litecoin"@, "Litecoin"@)
    } else if l == "avax"@ || l == "avalanche"@ {
        ("avalanche-2"@, "Avalanche"@)
    } else if l == "link"@ || l == "chainlink"@ {
        ("chainlink"@, "Chainlink"@)
    } else if l == "atom"@ || l == "cosmos"@ {
        ("cosmos"@, "Cosmos"@)
    } else if l == "uni"@ || l == "uniswap"@ {
        ("uniswap"@, "Uniswap"@)
    } else if l == "xlm"@ || l == "stellar"@ {
        ("stellar"@, "Stellar"@)
    } else if l == "shib"@ {
        ("shiba-inu"@, "Shiba Inu"@)
    } else if l == "trx"@ || l == "tron"@ {
        ("tron"@, "TRON"@)
    } else if l == "ton"@ {
        ("the-open-network"@, "Toncoin"@)
    } else if l == "pepe"@ {
        ("pepe"@, "Pepe"@)
    } else if l == "near"@ {
        ("near"@, "NEAR"@)
    } else if l == "apt"@ || l == "aptos"@ {
        ("aptos"@, "Aptos"@)
    } else if l == "arb"@ || l == "arbitrum"@ {
        ("arbitrum"@, "Arbitrum"@)
    } else if l == "op"@ || l == "optimism"@ {
        ("optimism"@, "Optimism"@)
    } else if l == "sui"@ {
        ("sui"@, "Sui"@)
    } else {
        (l, capitalize_seq(l))
    }
}

/// Map a ticker symbol to its CoinGecko API id and display name.
pub fn resolve(symbol: &str) -> (r: (String, String))
    ensures
        (r.0@, r.1@) == resolve_spec(symbol@),
{
    if lower_matches(symbol, "btc") || lower_matches(symbol, "bitcoin") {
        ("bitcoin".to_owned(), "Bitcoin".to_owned())
    } else if lower_matches(symbol, "eth") || lower_matches(symbol, "ethereum") {
        ("ethereum".to_owned(), "Ethereum".to_owned())
    } else if lower_matches(symbol, "usdt") || lower_matches(symbol, "tether") {
        ("tether".to_owned(), "Tether".to_owned())
    } else if lower_matches(symbol, "bnb") {
        ("binancecoin".to_owned(), "BNB".to_owned())
    } else if lower_matches(symbol, "sol") || lower_matches(symbol, "solana") {
        ("solana".to_owned(), "Solana".to_owned())
    } else if lower_matches(symbol, "xrp") || lower_matches(symbol, "ripple") {
        ("ripple".to_owned(), "XRP".to_owned())
    } else if lower_matches(symbol, "usdc") {
        ("usd-coin".to_owned(), "USDC".to_owned())
    } else if lower_matches(symbol, "ada") || lower_matches(symbol, "cardano") {
        ("cardano".to_owned(), "Cardano".to_owned())
    } else if lower_matches(symbol, "doge") || lower_matches(symbol, "dogecoin") {
        ("dogecoin".to_owned(), "Dogecoin".to_owned())
    } else if lower_matches(symbol, "dot") || lower_matches(symbol, "polkadot") {
        ("polkadot".to_owned(), "Polkadot".to_owned())
    } else if lower_matches(symbol, "matic") || lower_matches(symbol, "polygon") {
        ("matic-network".to_owned(), "Polygon".to_owned())
    } else if lower_matches(symbol, "ltc") || lower_matches(symbol, "litecoin") {
        ("litecoin".to_owned(), "Litecoin".to_owned())
    } else if lower_matches(symbol, "avax") || lower_matches(symbol, "avalanche") {
        ("avalanche-2".to_owned(), "Avalanche".to_owned())
    } else if lower_matches(symbol, "link") || lower_matches(symbol, "chainlink") {
        ("chainlink".to_owned(), "Chainlink".to_owned())
    } else if lower_matches(symbol, "atom") || lower_matches(symbol, "cosmos") {
        ("cosmos".to_owned(), "Cosmos".to_owned())
    } else if lower_matches(symbol, "uni") || lower_matches(symbol, "uniswap") {
        ("uniswap".to_owned(), "Uniswap".to_owned())
    } else if lower_matches(symbol, "xlm") || lower_matches(symbol, "stellar") {
        ("stellar".to_owned(), "Stellar".to_owned())
    } else if lower_matches(symbol, "shib") {
        ("shiba-inu".to_owned(), "Shiba Inu".to_owned())
    } else if lower_matches(symbol, "trx") || lower_matches(symbol, "tron") {
        ("tron".to_owned(), "TRON".to_owned())
    } else if lower_matches(symbol, "ton") {
        ("the-open-network".to_owned(), "Toncoin".to_owned())
    } else if lower_matches(symbol, "pepe") {
        ("pepe".to_owned(), "Pepe".to_owned())
    } else if lower_matches(symbol, "near") {
        ("near".to_owned(), "NEAR".to_owned())
    } else if lower_matches(symbol, "apt") || lower_matches(symbol, "aptos") {
        ("aptos".to_owned(), "Aptos".to_owned())
    } else if lower_matches(symbol, "arb") || lower_matches(symbol, "arbitrum") {
        ("arbitrum".to_owned(), "Arbitrum".to_owned())
    } else if lower_matches(symbol, "op") || lower_matches(symbol, "optimism") {
        ("optimism".to_owned(), "Optimism".to_owned())
    } else if lower_matches(symbol, "sui") {
        ("sui".to_owned(), "Sui".to_owned())
    } else {
        let lower = to_lower_string(symbol);
        let name = capitalize(lower.as_str());
        (lower, name)
    }
}


/// The tokens joined with commas.
pub open spec fn join_commas(ts: Seq<Seq<char>>) -> Seq<char>
    decreases ts.len(),
{
    if ts.len() == 0 {
        Seq::empty()
    } else if ts.len() == 1 {
        ts[0]
    } else {
        join_commas(ts.drop_last()) + seq![','] + ts.last()
    }
}

/// The CoinGecko API ids the symbols resolve to, in order.
pub open spec fn resolved_ids(symbols: Seq<Seq<char>>) -> Seq<Seq<char>> {
    symbols.map_values(|s: Seq<char>| resolve_spec(s).0)
}

/// Build the simple-price request URL for the given symbols and
/// currency.
pub fn coingecko_price_url(base: &str, symbols: &Vec<String>, currency: &str) -> (r: String)
    ensures
        r@ == base@ + "/simple/price?ids="@ + join_commas(
            resolved_ids(symbols@.map_values(|s: String| s@)),
        ) + "&vs_currencies="@ + lower_seq(currency@)
            + "&include_24hr_change=true&include_market_cap=true"@,
{
    let ghost sv = symbols@.map_values(|s: String| s@);
    let mut out = String::new();
    out.append(base);
    out.append("/simple/price?ids=");
    let n = symbols.len();
    let mut i: usize = 0;
    while i < n
        invariant
            0 <= i <= n,
            n == symbols@.len(),
            sv == symbols@.map_values(|s: String| s@),
            out@ == base@ + "/simple/price?ids="@ + join_commas(resolved_ids(sv.take(i as int))),
        decreases n - i,
    {
        proof {
            let pre = resolved_ids(sv.take(i + 1));
            assert(pre.drop_last() =~= resolved_ids(sv.take(i as int)));
            assert(pre.last() == resolve_spec(sv[i as int]).0);
            assert(sv[i as int] == symbols@[i as int]@);
        }
        if i > 0 {
            out.append(",");
            proof {
                reveal_strlit(",");
                assert(","@ =~= seq![',']);
            }
        }
        let (id, _name) = resolve(symbols[i].as_str());
        out.append(id.as_str());
        proof {
            if i == 0 {
                assert(resolved_ids(sv.take(1)).len() == 1);
                assert(out@ =~= base@ + "/simple/price?ids="@ + join_commas(
                    resolved_ids(sv.take(1)),
                ));
            } else {
                assert(out@ =~= base@ + "/simple/price?ids="@ + join_commas(
                    resolved_ids(sv.take(i + 1)),
                ));
            }
        }
        i += 1;
    }
    proof {
        assert(sv.take(n as int) =~= sv);
    }
    out.append("&vs_currencies=");
    let cur = to_lower_string(currency);
    out.append(cur.as_str());
    out.append("&include_24hr_change=true&include_market_cap=true");
    proof {
        assert(out@ =~= base@ + "/simple/price?ids="@ + join_commas(resolved_ids(sv))
            + "&vs_currencies="@ + lower_seq(currency@)
            + "&include_24hr_change=true&include_market_cap=true"@);
    }
    out
}

/// One decoded entry of the simple-price response: the per-id price
/// data, already in plain fixed-point values.
#[derive(Debug, Clone)]
pub struct CoinEntry {
    /// The CoinGecko API id the data belongs to.
    pub id: String,
    /// Price in nano-units of the requested currency (zero when the
    /// response carried no price for it).
    pub price: u64,
    /// 24-hour change in nano-percent, when present.
    pub change_24h: Option<i64>,
    /// Market capitalization in whole units, when present.
    pub market_cap: Option<u64>,
}

/// Mathematical image of a [`CoinEntry`].
pub struct CoinEntryV {
    pub id: Seq<char>,
    pub price: u64,
    pub change_24h: Option<i64>,
    pub market_cap: Option<u64>,
}

impl View for CoinEntry {
    type V = CoinEntryV;

    open spec fn view(&self) -> CoinEntryV {
        CoinEntryV {
            id: self.id@,
            price: self.price,
            change_24h: self.change_24h,
            market_cap: self.market_cap,
        }
    }
}

/// The views of decoded entries.
pub open spec fn entries_view(es: Seq<CoinEntry>) -> Seq<CoinEntryV> {
    es.map_values(|e: CoinEntry| e@)
}

/// First entry with the given id, if any.
pub open spec fn lookup_entry(data: Seq<CoinEntryV>, id: Seq<char>) -> Option<CoinEntryV>
    decreases data.len(),
{
    if data.len() == 0 {
        None
    } else if data[0].id == id {
        Some(data[0])
    } else {
        lookup_entry(data.drop_first(), id)
    }
}

proof fn lemma_lookup_entry_at(data: Seq<CoinEntryV>, id: Seq<char>, i: int)
    requires
        0 <= i < data.len(),
        forall|j: int| 0 <= j < i ==> (#[trigger] data[j]).id != id,
        data[i].id == id,
    ensures
        lookup_entry(data, id) == Some(data[i]),
    decreases data.len(),
{
    if i > 0 {
        lemma_lookup_entry_at(data.drop_first(), id, i - 1);
    }
}

proof fn lemma_lookup_entry_none(data: Seq<CoinEntryV>, id: Seq<char>)
    requires
        forall|j: int| 0 <= j < data.len() ==> (#[trigger] data[j]).id != id,
    ensures
        lookup_entry(data, id) is None,
    decreases data.len(),
{
    if data.len() > 0 {
        lemma_lookup_entry_none(data.drop_first(), id);
    }
}

/// Find the first decoded entry with the given id.
fn find_entry(data: &Vec<CoinEntry>, id: &String) -> (r: Option<usize>)
    ensures
        match r {
            Some(i) => i < data@.len() && entries_view(data@)[i as int].id == id@ && lookup_entry(
                entries_view(data@),
                id@,
            ) == Some(entries_view(data@)[i as int]),
            None => lookup_entry(entries_view(data@), id@) is None,
        },
{
    let n = data.len();
    let ghost dv = entries_view(data@);
    let mut i: usize = 0;
    while i < n
        invariant
            0 <= i <= n,
            n == data@.len(),
            dv == entries_view(data@),
            forall|j: int| 0 <= j < i ==> (#[trigger] dv[j]).id != id@,
        decreases n - i,
    {
        if data[i].id.eq(id) {
            proof {
                lemma_lookup_entry_at(dv, id@, i as int);
            }
            return Some(i);
        }
        i += 1;
    }
    proof {
        lemma_lookup_entry_none(dv, id@);
    }
    None
}

/// The price records assembled from the decoded response: one per
/// requested symbol whose resolved id the response carries, in request
/// order; symbols with no match are dropped.
pub open spec fn cg_prices(
    symbols: Seq<Seq<char>>,
    data: Seq<CoinEntryV>,
    currency: Seq<char>,
    ts: i64,
) -> Seq<CoinPriceV>
    decreases symbols.len(),
{
    if symbols.len() == 0 {
        Seq::empty()
    } else {
        let idname = resolve_spec(symbols[0]);
        let rest = cg_prices(symbols.drop_first(), data, currency, ts);
        match lookup_entry(data, idname.0) {
            Some(e) => seq![
                CoinPriceV {
                    symbol: upper_seq(symbols[0]),
                    name: idname.1,
                    price: e.price,
                    change_24h: e.change_24h,
                    market_cap: e.market_cap,
                    currency: upper_seq(currency),
                    provider: "CoinGecko"@,
                    timestamp: ts,
                },
            ] + rest,
            None => rest,
        }
    }
}

/// Assemble the fetched per-id data into price records, one per
/// requested symbol the response carries, in request order; fails with
/// `NoResults` exactly when nothing matched.
pub fn coingecko_assemble(
    symbols: &Vec<String>,
    data: &Vec<CoinEntry>,
    currency: &str,
    timestamp: i64,
) -> (r: Result<Vec<CoinPrice>, Error>)
    ensures
        match r {
            Ok(out) => prices_view(out@) == cg_prices(
                symbols@.map_values(|s: String| s@),
                entries_view(data@),
                currency@,
                timestamp,
            ) && out@.len() > 0,
            Err(e) => e@ is NoResults && cg_prices(
                symbols@.map_values(|s: String| s@),
                entries_view(data@),
                currency@,
                timestamp,
            ).len() == 0,
        },
{
    let n = symbols.len();
    let ghost sv = symbols@.map_values(|s: String| s@);
    let ghost dv = entries_view(data@);
    let ghost total = cg_prices(sv, dv, currency@, timestamp);
    let mut out: Vec<CoinPrice> = Vec::new();
    proof {
        assert(sv.skip(0) =~= sv);
        assert(prices_view(out@) =~= Seq::<CoinPriceV>::empty());
    }
    let mut i: usize = 0;
    while i < n
        invariant
            0 <= i <= n,
            n == symbols@.len(),
            sv == symbols@.map_values(|s: String| s@),
            dv == entries_view(data@),
            total == cg_prices(sv, dv, currency@, timestamp),
            prices_view(out@) + cg_prices(sv.skip(i as int), dv, currency@, timestamp) == total,
        decreases n - i,
    {
        proof {
            assert(sv.skip(i as int)[0] == sv[i as int]);
            assert(sv.skip(i as int).drop_first() =~= sv.skip(i + 1));
            assert(sv[i as int] == symbols@[i as int]@);
        }
        let (id, name) = resolve(symbols[i].as_str());
        match find_entry(data, &id) {
            Some(idx) => {
                let e = &data[idx];
                let p = CoinPrice {
                    symbol: to_upper_string(symbols[i].as_str()),
                    name,
                    price: e.price,
                    change_24h: e.change_24h,
                    market_cap: e.market_cap,
                    currency: to_upper_string(currency),
                    provider: "CoinGecko".to_owned(),
                    timestamp,
                };
                let ghost pv = CoinPriceV {
                    symbol: upper_seq(sv[i as int]),
                    name: resolve_spec(sv[i as int]).1,
                    price: e@.price,
                    change_24h: e@.change_24h,
                    market_cap: e@.market_cap,
                    currency: upper_seq(currency@),
                    provider: "CoinGecko"@,
                    timestamp,
                };
                let ghost before = prices_view(out@);
                proof {
                    assert(p@ == pv);
                }
                out.push(p);
                proof {
                    assert(prices_view(out@) =~= before.push(pv));
                    assert(cg_prices(sv.skip(i as int), dv, currency@, timestamp) == seq![pv]
                        + cg_prices(sv.skip(i + 1), dv, currency@, timestamp));
                    assert(before.push(pv) + cg_prices(sv.skip(i + 1), dv, currency@, timestamp)
                        =~= before + cg_prices(sv.skip(i as int), dv, currency@, timestamp));
                }
            },
            None => {
                proof {
                    assert(cg_prices(sv.skip(i as int), dv, currency@, timestamp) == cg_prices(
                        sv.skip(i + 1),
                        dv,
                        currency@,
                        timestamp,
                    ));
                }
            },
        }
        i += 1;
    }
    proof {
        assert(sv.skip(n as int) =~= Seq::<Seq<char>>::empty());
        assert(prices_view(out@) =~= total);
    }
    if out.len() == 0 {
        proof {
            assert(total.len() == 0);
        }
        Err(Error::NoResults)
    } else {
        Ok(out)
    }
}

} // verus!
