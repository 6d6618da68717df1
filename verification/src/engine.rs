//! The aggregation/conversion engine: partitioning of mixed target
//! lists into fiat and crypto legs, and assembly of per-target
//! conversion records from fetched FX rates and coin prices.
//!
//! Rate conventions (deliberately different per leg): for a fiat target
//! with raw rate `r` ("1 source unit = `r` target units") the record
//! holds `to_amount = from_amount * r` and `rate = 1 / r`; for a crypto
//! target priced at `p` source units per coin it holds
//! `to_amount = from_amount / p` and `rate = p`.
//!
//! All quantities are fixed-point nano-units; divisions truncate, a zero
//! divisor saturates to `u64::MAX`, and oversized products saturate to
//! `u64::MAX`.

use vstd::prelude::*;

use crate::errors::Error;
use crate::fiat::{FiatAmount, fiat_display_name, fiat_name, is_fiat_code, is_known_fiat};
use crate::strutil::{upper_seq, upper_matches, to_upper_string};
use crate::types::{CoinPrice, CoinPriceV, prices_view};

verus! {

/// One entry of an FX rate map: `code` is the target currency, `rate`
/// the nano-unit value of one source unit expressed in the target.
#[derive(Debug, Clone)]
pub struct RateEntry {
    pub code: String,
    pub rate: u64,
}

/// Mathematical image of a [`RateEntry`].
pub struct RateEntryV {
    pub code: Seq<char>,
    pub rate: u64,
}

impl View for RateEntry {
    type V = RateEntryV;

    open spec fn view(&self) -> RateEntryV {
        RateEntryV { code: self.code@, rate: self.rate }
    }
}

/// The views of a rate map.
pub open spec fn rates_view(rs: Seq<RateEntry>) -> Seq<RateEntryV> {
    rs.map_values(|r: RateEntry| r@)
}

/// The views of a target list.
pub open spec fn targets_view(ts: Seq<String>) -> Seq<Seq<char>> {
    ts.map_values(|t: String| t@)
}

/// Result of a fiat-to-target conversion.
#[derive(Debug, Clone)]
pub struct Conversion {
    /// Source amount in nano-units.
    pub from_amount: u64,
    pub from_currency: String,
    pub to_symbol: String,
    pub to_name: String,
    /// Converted amount in nano-units of the target.
    pub to_amount: u64,
    /// One target unit expressed in nano-units (see the module note on
    /// the two conventions).
    pub rate: u64,
    pub provider: String,
    /// Unix seconds at which the conversion was made.
    pub timestamp: i64,
}

/// Mathematical image of a [`Conversion`].
pub struct ConversionV {
    pub from_amount: u64,
    pub from_currency: Seq<char>,
    pub to_symbol: Seq<char>,
    pub to_name: Seq<char>,
    pub to_amount: u64,
    pub rate: u64,
    pub provider: Seq<char>,
    pub timestamp: i64,
}

impl View for Conversion {
    type V = ConversionV;

    open spec fn view(&self) -> ConversionV {
        ConversionV {
            from_amount: self.from_amount,
            from_currency: self.from_currency@,
            to_symbol: self.to_symbol@,
            to_name: self.to_name@,
            to_amount: self.to_amount,
            rate: self.rate,
            provider: self.provider@,
            timestamp: self.timestamp,
        }
    }
}

/// The views of a conversion list.
pub open spec fn conversions_view(cs: Seq<Conversion>) -> Seq<ConversionV> {
    cs.map_values(|c: Conversion| c@)
}

/// Label attached to conversions computed from the FX source's rates.
pub const FX_PROVIDER_LABEL: &'static str = "Frankfurter/ECB";

/// `amount * rate`, both nano-unit fixed point, truncating; saturates
/// at `u64::MAX`.
pub open spec fn mul_rate_spec(amount: int, rate: int) -> int {
    let v = (amount * rate) / 1_000_000_000;
    if v > u64::MAX {
        u64::MAX as int
    } else {
        v
    }
}

/// The inverse rate `1 / rate` in nano-units: one target unit expressed
/// in source units. A zero rate saturates to `u64::MAX`.
pub open spec fn invert_rate_spec(rate: int) -> int {
    if rate == 0 {
        u64::MAX as int
    } else {
        1_000_000_000_000_000_000int / rate
    }
}

/// `amount / price`, both nano-unit fixed point, truncating; a zero
/// price saturates to `u64::MAX`, as does an oversized quotient.
pub open spec fn div_price_spec(amount: int, price: int) -> int {
    if price == 0 {
        u64::MAX as int
    } else {
        let v = (amount * 1_000_000_000) / price;
        if v > u64::MAX {
            u64::MAX as int
        } else {
            v
        }
    }
}

/// Fixed-point multiply by a rate.
pub fn mul_rate(amount: u64, rate: u64) -> (r: u64)
    ensures
        r == mul_rate_spec(amount as int, rate as int),
{
    proof {
        assert((amount as int) * (rate as int) <= (u64::MAX as int) * (u64::MAX as int))
            by (nonlinear_arith)
            requires
                amount <= u64::MAX,
                rate <= u64::MAX,
        ;
    }
    let p: u128 = (amount as u128) * (rate as u128);
    let q: u128 = p / 1_000_000_000;
    if q > u64::MAX as u128 {
        u64::MAX
    } else {
        q as u64
    }
}

/// Fixed-point inverse of a rate.
pub fn invert_rate(rate: u64) -> (r: u64)
    ensures
        r == invert_rate_spec(rate as int),
{
    if rate == 0 {
        u64::MAX
    } else {
        1_000_000_000_000_000_000u64 / rate
    }
}

/// Fixed-point division of an amount by a price.
pub fn div_price(amount: u64, price: u64) -> (r: u64)
    ensures
        r == div_price_spec(amount as int, price as int),
{
    if price == 0 {
        return u64::MAX;
    }
    proof {
        assert((amount as int) * 1_000_000_000 <= (u64::MAX as int) * 1_000_000_000)
            by (nonlinear_arith)
            requires
                amount <= u64::MAX,
        ;
    }
    let p: u128 = (amount as u128) * 1_000_000_000;
    let q: u128 = p / (price as u128);
    if q > u64::MAX as u128 {
        u64::MAX
    } else {
        q as u64
    }
}

/// First rate entry whose code equals `code`, if any.
pub open spec fn lookup_rate(rates: Seq<RateEntryV>, code: Seq<char>) -> Option<u64>
    decreases rates.len(),
{
    if rates.len() == 0 {
        None
    } else if rates[0].code == code {
        Some(rates[0].rate)
    } else {
        lookup_rate(rates.drop_first(), code)
    }
}

/// If no entry before `i` matches and entry `i` does, the lookup finds
/// entry `i`.
proof fn lemma_lookup_rate_at(rates: Seq<RateEntryV>, code: Seq<char>, i: int)
    requires
        0 <= i < rates.len(),
        forall|j: int| 0 <= j < i ==> (#[trigger] rates[j]).code != code,
        rates[i].code == code,
    ensures
        lookup_rate(rates, code) == Some(rates[i].rate),
    decreases rates.len(),
{
    if i > 0 {
        lemma_lookup_rate_at(rates.drop_first(), code, i - 1);
    }
}

/// If no entry matches, the lookup finds nothing.
proof fn lemma_lookup_rate_none(rates: Seq<RateEntryV>, code: Seq<char>)
    requires
        forall|j: int| 0 <= j < rates.len() ==> (#[trigger] rates[j]).code != code,
    ensures
        lookup_rate(rates, code) is None,
    decreases rates.len(),
{
    if rates.len() > 0 {
        lemma_lookup_rate_none(rates.drop_first(), code);
    }
}

/// Find the first FX rate entry whose code is the uppercase folding of
/// `target`; returns its index.
pub fn find_rate(rates: &Vec<RateEntry>, target: &str) -> (r: Option<usize>)
    ensures
        match r {
            Some(i) => i < rates@.len() && rates_view(rates@)[i as int].code == upper_seq(target@)
                && lookup_rate(rates_view(rates@), upper_seq(target@)) == Some(
                rates_view(rates@)[i as int].rate,
            ),
            None => lookup_rate(rates_view(rates@), upper_seq(target@)) is None,
        },
{
    let n = rates.len();
    let ghost rv = rates_view(rates@);
    let ghost code = upper_seq(target@);
    let mut i: usize = 0;
    while i < n
        invariant
            0 <= i <= n,
            n == rates@.len(),
            rv == rates_view(rates@),
            code == upper_seq(target@),
            forall|j: int| 0 <= j < i ==> (#[trigger] rv[j]).code != code,
        decreases n - i,
    {
        if upper_matches(target, rates[i].code.as_str()) {
            proof {
                lemma_lookup_rate_at(rv, code, i as int);
            }
            return Some(i);
        }
        i += 1;
    }
    proof {
        lemma_lookup_rate_none(rv, code);
    }
    None
}


/// The conversion record built for a fiat target: inverse-rate
/// convention, the FX source's label as provider.
pub open spec fn fiat_conv(amount: u64, from: Seq<char>, code: Seq<char>, rate: u64, ts: i64) -> ConversionV {
    ConversionV {
        from_amount: amount,
        from_currency: from,
        to_symbol: code,
        to_name: fiat_display_name(code),
        to_amount: mul_rate_spec(amount as int, rate as int) as u64,
        rate: invert_rate_spec(rate as int) as u64,
        provider: FX_PROVIDER_LABEL@,
        timestamp: ts,
    }
}

/// The conversion records built for fiat targets, in target order;
/// targets absent from the rate map are dropped without error.
pub open spec fn fiat_convs(
    amount: u64,
    from: Seq<char>,
    targets: Seq<Seq<char>>,
    rates: Seq<RateEntryV>,
    ts: i64,
) -> Seq<ConversionV>
    decreases targets.len(),
{
    if targets.len() == 0 {
        Seq::empty()
    } else {
        let code = upper_seq(targets[0]);
        let rest = fiat_convs(amount, from, targets.drop_first(), rates, ts);
        match lookup_rate(rates, code) {
            Some(r) => seq![fiat_conv(amount, from, code, r, ts)] + rest,
            None => rest,
        }
    }
}

/// The conversion record built for one crypto price: direct-rate
/// convention, the price's own provider label.
pub open spec fn crypto_conv(amount: u64, from: Seq<char>, p: CoinPriceV, ts: i64) -> ConversionV {
    ConversionV {
        from_amount: amount,
        from_currency: from,
        to_symbol: p.symbol,
        to_name: p.name,
        to_amount: div_price_spec(amount as int, p.price as int) as u64,
        rate: p.price,
        provider: p.provider,
        timestamp: ts,
    }
}

/// The conversion records built for crypto prices, in price order.
pub open spec fn crypto_convs(
    amount: u64,
    from: Seq<char>,
    prices: Seq<CoinPriceV>,
    ts: i64,
) -> Seq<ConversionV> {
    prices.map_values(|p: CoinPriceV| crypto_conv(amount, from, p, ts))
}

/// Append the fiat-leg conversions for `targets` to `out`.
fn push_fiat_conversions(
    out: &mut Vec<Conversion>,
    amount: u64,
    from_currency: &str,
    targets: &Vec<String>,
    rates: &Vec<RateEntry>,
    timestamp: i64,
)
    ensures
        conversions_view(final(out)@) == conversions_view(old(out)@) + fiat_convs(
            amount,
            from_currency@,
            targets_view(targets@),
            rates_view(rates@),
            timestamp,
        ),
{
    let n = targets.len();
    let ghost tv = targets_view(targets@);
    let ghost rv = rates_view(rates@);
    let ghost total = fiat_convs(amount, from_currency@, tv, rv, timestamp);
    let ghost base = conversions_view(out@);
    proof {
        assert(tv.skip(0) =~= tv);
    }
    let mut i: usize = 0;
    while i < n
        invariant
            0 <= i <= n,
            n == targets@.len(),
            tv == targets_view(targets@),
            rv == rates_view(rates@),
            total == fiat_convs(amount, from_currency@, tv, rv, timestamp),
            base == conversions_view(old(out)@),
            conversions_view(out@) + fiat_convs(
                amount,
                from_currency@,
                tv.skip(i as int),
                rv,
                timestamp,
            ) == base + total,
        decreases n - i,
    {
        proof {
            assert(tv.skip(i as int)[0] == targets@[i as int]@);
            assert(tv.skip(i as int).drop_first() =~= tv.skip(i + 1));
        }
        match find_rate(rates, targets[i].as_str()) {
            Some(idx) => {
                let rate = rates[idx].rate;
                let c = Conversion {
                    from_amount: amount,
                    from_currency: from_currency.to_owned(),
                    to_symbol: rates[idx].code.as_str().to_owned(),
                    to_name: fiat_name(rates[idx].code.as_str()).to_owned(),
                    to_amount: mul_rate(amount, rate),
                    rate: invert_rate(rate),
                    provider: FX_PROVIDER_LABEL.to_owned(),
                    timestamp,
                };
                let ghost code = upper_seq(targets@[i as int]@);
                let ghost cv = fiat_conv(amount, from_currency@, code, rate, timestamp);
                let ghost before = conversions_view(out@);
                proof {
                    assert(c@ == cv);
                }
                out.push(c);
                proof {
                    assert(conversions_view(out@) =~= before.push(cv));
                    assert(fiat_convs(amount, from_currency@, tv.skip(i as int), rv, timestamp)
                        == seq![cv] + fiat_convs(amount, from_currency@, tv.skip(i + 1), rv, timestamp));
                    assert(before.push(cv) + fiat_convs(amount, from_currency@, tv.skip(i + 1), rv, timestamp)
                        =~= before + fiat_convs(amount, from_currency@, tv.skip(i as int), rv, timestamp));
                }
            },
            None => {
            },
        }
        i += 1;
    }
    proof {
        assert(tv.skip(n as int) =~= Seq::<Seq<char>>::empty());
        assert(conversions_view(out@) =~= base + total);
    }
}


/// Append the crypto-leg conversions for `prices` to `out`.
fn push_crypto_conversions(
    out: &mut Vec<Conversion>,
    amount: u64,
    from_currency: &str,
    prices: &Vec<CoinPrice>,
    timestamp: i64,
)
    ensures
        conversions_view(final(out)@) == conversions_view(old(out)@) + crypto_convs(
            amount,
            from_currency@,
            prices_view(prices@),
            timestamp,
        ),
{
    let n = prices.len();
    let ghost pv = prices_view(prices@);
    let ghost base = conversions_view(out@);
    let mut i: usize = 0;
    while i < n
        invariant
            0 <= i <= n,
            n == prices@.len(),
            pv == prices_view(prices@),
            base == conversions_view(old(out)@),
            conversions_view(out@) == base + crypto_convs(
                amount,
                from_currency@,
                pv.take(i as int),
                timestamp,
            ),
        decreases n - i,
    {
        let p = &prices[i];
        let c = Conversion {
            from_amount: amount,
            from_currency: from_currency.to_owned(),
            to_symbol: p.symbol.clone(),
            to_name: p.name.clone(),
            to_amount: div_price(amount, p.price),
            rate: p.price,
            provider: p.provider.clone(),
            timestamp,
        };
        let ghost cv = crypto_conv(amount, from_currency@, pv[i as int], timestamp);
        let ghost before = conversions_view(out@);
        proof {
            assert(c@ == cv);
        }
        out.push(c);
        proof {
            assert(conversions_view(out@) =~= before.push(cv));
            assert(crypto_convs(amount, from_currency@, pv.take(i + 1), timestamp) =~= crypto_convs(
                amount,
                from_currency@,
                pv.take(i as int),
                timestamp,
            ).push(cv));
            assert(before.push(cv) =~= base + crypto_convs(
                amount,
                from_currency@,
                pv.take(i + 1),
                timestamp,
            ));
        }
        i += 1;
    }
    proof {
        assert(pv.take(n as int) =~= pv);
    }
}

/// Build the fiat-leg conversions alone (the "only fiat targets" shape).
pub fn build_fiat_conversions(
    amount: u64,
    from_currency: &str,
    targets: &Vec<String>,
    rates: &Vec<RateEntry>,
    timestamp: i64,
) -> (r: Vec<Conversion>)
    ensures
        conversions_view(r@) == fiat_convs(
            amount,
            from_currency@,
            targets_view(targets@),
            rates_view(rates@),
            timestamp,
        ),
{
    let mut out: Vec<Conversion> = Vec::new();
    proof {
        assert(conversions_view(out@) =~= Seq::<ConversionV>::empty());
    }
    push_fiat_conversions(&mut out, amount, from_currency, targets, rates, timestamp);
    proof {
        assert(conversions_view(out@) =~= fiat_convs(
            amount,
            from_currency@,
            targets_view(targets@),
            rates_view(rates@),
            timestamp,
        ));
    }
    out
}

/// Build the crypto-leg conversions alone (the "only crypto targets" shape).
pub fn build_crypto_conversions(
    amount: u64,
    from_currency: &str,
    prices: &Vec<CoinPrice>,
    timestamp: i64,
) -> (r: Vec<Conversion>)
    ensures
        conversions_view(r@) == crypto_convs(
            amount,
            from_currency@,
            prices_view(prices@),
            timestamp,
        ),
{
    let mut out: Vec<Conversion> = Vec::new();
    proof {
        assert(conversions_view(out@) =~= Seq::<ConversionV>::empty());
    }
    push_crypto_conversions(&mut out, amount, from_currency, prices, timestamp);
    proof {
        assert(conversions_view(out@) =~= crypto_convs(
            amount,
            from_currency@,
            prices_view(prices@),
            timestamp,
        ));
    }
    out
}

/// Assemble the full conversion list for a parsed fiat amount: fiat
/// conversions first (in fiat-target order), then crypto conversions
/// (in price order), whatever order the two fetches completed in.
///
/// A leg that was not fetched is passed as an empty rate map or price
/// list and contributes nothing.
pub fn assemble_conversions(
    fiat: &FiatAmount,
    fiat_targets: &Vec<String>,
    rates: &Vec<RateEntry>,
    prices: &Vec<CoinPrice>,
    timestamp: i64,
) -> (r: Vec<Conversion>)
    ensures
        conversions_view(r@) == fiat_convs(
            fiat.amount,
            fiat.currency@,
            targets_view(fiat_targets@),
            rates_view(rates@),
            timestamp,
        ) + crypto_convs(fiat.amount, fiat.currency@, prices_view(prices@), timestamp),
{
    let mut out: Vec<Conversion> = Vec::new();
    proof {
        assert(conversions_view(out@) =~= Seq::<ConversionV>::empty());
    }
    push_fiat_conversions(&mut out, fiat.amount, fiat.currency.as_str(), fiat_targets, rates, timestamp);
    push_crypto_conversions(&mut out, fiat.amount, fiat.currency.as_str(), prices, timestamp);
    proof {
        assert(Seq::<ConversionV>::empty() + fiat_convs(
            fiat.amount,
            fiat.currency@,
            targets_view(fiat_targets@),
            rates_view(rates@),
            timestamp,
        ) + crypto_convs(fiat.amount, fiat.currency@, prices_view(prices@), timestamp)
            =~= fiat_convs(
            fiat.amount,
            fiat.currency@,
            targets_view(fiat_targets@),
            rates_view(rates@),
            timestamp,
        ) + crypto_convs(fiat.amount, fiat.currency@, prices_view(prices@), timestamp));
    }
    out
}

/// Partition a mixed target list into fiat targets and crypto targets,
/// preserving input order within each side.
pub fn partition_targets(targets: &Vec<String>) -> (r: (Vec<String>, Vec<String>))
    ensures
        targets_view(r.0@) == targets_view(targets@).filter(
            |t: Seq<char>| is_fiat_code(upper_seq(t)),
        ),
        targets_view(r.1@) == targets_view(targets@).filter(
            |t: Seq<char>| !is_fiat_code(upper_seq(t)),
        ),
{
    let n = targets.len();
    let ghost tv = targets_view(targets@);
    let ghost pfiat = |t: Seq<char>| is_fiat_code(upper_seq(t));
    let ghost pcrypto = |t: Seq<char>| !is_fiat_code(upper_seq(t));
    let mut fiat: Vec<String> = Vec::new();
    let mut crypto: Vec<String> = Vec::new();
    proof {
        reveal(Seq::filter);
        assert(tv.take(0) =~= Seq::<Seq<char>>::empty());
        assert(Seq::<Seq<char>>::empty().filter(pfiat) =~= Seq::<Seq<char>>::empty());
        assert(Seq::<Seq<char>>::empty().filter(pcrypto) =~= Seq::<Seq<char>>::empty());
        assert(targets_view(fiat@) =~= Seq::<Seq<char>>::empty());
        assert(targets_view(crypto@) =~= Seq::<Seq<char>>::empty());
    }
    let mut i: usize = 0;
    while i < n
        invariant
            0 <= i <= n,
            n == targets@.len(),
            tv == targets_view(targets@),
            pfiat == |t: Seq<char>| is_fiat_code(upper_seq(t)),
            pcrypto == |t: Seq<char>| !is_fiat_code(upper_seq(t)),
            targets_view(fiat@) == tv.take(i as int).filter(pfiat),
            targets_view(crypto@) == tv.take(i as int).filter(pcrypto),
        decreases n - i,
    {
        let t = &targets[i];
        let ghost fbefore = targets_view(fiat@);
        let ghost cbefore = targets_view(crypto@);
        proof {
            assert(tv.take(i + 1).drop_last() =~= tv.take(i as int));
            assert(tv.take(i + 1).last() == tv[i as int]);
        }
        if is_known_fiat(t.as_str()) {
            fiat.push(t.clone());
            proof {
                reveal(Seq::filter);
                assert(tv[i as int] == targets@[i as int]@);
                assert(pfiat(tv[i as int]));
                assert(targets_view(fiat@) =~= fbefore.push(tv[i as int]));
                assert(tv.take(i + 1).filter(pfiat) == tv.take(i as int).filter(pfiat).push(
                    tv[i as int],
                ));
                assert(tv.take(i + 1).filter(pcrypto) == tv.take(i as int).filter(pcrypto));
            }
        } else {
            crypto.push(t.clone());
            proof {
                reveal(Seq::filter);
                assert(tv[i as int] == targets@[i as int]@);
                assert(pcrypto(tv[i as int]));
                assert(targets_view(crypto@) =~= cbefore.push(tv[i as int]));
                assert(tv.take(i + 1).filter(pcrypto) == tv.take(i as int).filter(pcrypto).push(
                    tv[i as int],
                ));
                assert(tv.take(i + 1).filter(pfiat) == tv.take(i as int).filter(pfiat));
            }
        }
        i += 1;
    }
    proof {
        assert(tv.take(n as int) =~= tv);
    }
    (fiat, crypto)
}


/// Fail with `NoResults` when the FX source returned an empty rate
/// map; otherwise hand the rates back unchanged.
pub fn require_nonempty_rates(rates: Vec<RateEntry>) -> (r: Result<Vec<RateEntry>, Error>)
    ensures
        match r {
            Ok(out) => rates@.len() > 0 && out@ == rates@,
            Err(e) => rates@.len() == 0 && e@ is NoResults,
        },
{
    if rates.len() == 0 {
        Err(Error::NoResults)
    } else {
        Ok(rates)
    }
}


/// The targets uppercased and joined with commas, as the FX request
/// wants them.
pub open spec fn joined_upper(ts: Seq<Seq<char>>) -> Seq<char>
    decreases ts.len(),
{
    if ts.len() == 0 {
        Seq::empty()
    } else if ts.len() == 1 {
        upper_seq(ts[0])
    } else {
        joined_upper(ts.drop_last()) + seq![','] + upper_seq(ts.last())
    }
}

/// Build the FX source's latest-rates request URL for the given base
/// currency and targets.
pub fn fiat_rates_url(from: &str, targets: &Vec<String>) -> (r: String)
    ensures
        r@ == "https://api.frankfurter.dev/v1/latest?from="@ + upper_seq(from@) + "&to="@
            + joined_upper(targets_view(targets@)),
{
    let ghost tv = targets_view(targets@);
    let mut out = String::new();
    out.append("https://api.frankfurter.dev/v1/latest?from=");
    let f = to_upper_string(from);
    out.append(f.as_str());
    out.append("&to=");
    let n = targets.len();
    let mut i: usize = 0;
    while i < n
        invariant
            0 <= i <= n,
            n == targets@.len(),
            tv == targets_view(targets@),
            out@ == "https://api.frankfurter.dev/v1/latest?from="@ + upper_seq(from@) + "&to="@
                + joined_upper(tv.take(i as int)),
        decreases n - i,
    {
        proof {
            assert(tv.take(i + 1).drop_last() =~= tv.take(i as int));
            assert(tv.take(i + 1).last() == tv[i as int]);
            assert(tv[i as int] == targets@[i as int]@);
        }
        if i > 0 {
            out.append(",");
            proof {
                reveal_strlit(",");
                assert(","@ =~= seq![',']);
            }
        }
        let up = to_upper_string(targets[i].as_str());
        out.append(up.as_str());
        proof {
            if i == 0 {
                assert(joined_upper(tv.take(1)) == upper_seq(tv.take(1)[0]));
            }
            assert(out@ =~= "https://api.frankfurter.dev/v1/latest?from="@ + upper_seq(from@)
                + "&to="@ + joined_upper(tv.take(i + 1)));
        }
        i += 1;
    }
    proof {
        assert(tv.take(n as int) =~= tv);
    }
    out
}

} // verus!
