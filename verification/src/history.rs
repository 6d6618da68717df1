//! History fetch orchestration support and time-window filtering.
//!
//! After either fetch path (explicit window or day count), every series
//! is clipped to the `[start, end]` timestamp window and series left
//! empty are dropped. The window-to-day-count fallback decision is made
//! here: it triggers exactly on a `Config` error carrying the
//! window-unsupported marker, and on nothing else.

use vstd::prelude::*;

use crate::errors::{Error, ErrorV, is_window_unsupported};
use crate::engine::targets_view;
use crate::fiat::{is_fiat_code, is_known_fiat};
use crate::strutil::upper_seq;
use crate::types::{HistoryInterval, PriceHistory, PriceHistoryV, PricePoint, histories_view};

verus! {

/// The point lies inside the window: at or before `end`, and at or
/// after `start` when a start bound exists.
pub open spec fn in_window(p: PricePoint, start: Option<i64>, end: i64) -> bool {
    &&& p.timestamp <= end
    &&& match start {
        Some(s) => p.timestamp >= s,
        None => true,
    }
}

/// The points of a series that lie inside the window, in order.
pub open spec fn clip_points(pts: Seq<PricePoint>, start: Option<i64>, end: i64) -> Seq<
    PricePoint,
> {
    pts.filter(|p: PricePoint| in_window(p, start, end))
}

/// A series with its points clipped to the window.
pub open spec fn clip_history(h: PriceHistoryV, start: Option<i64>, end: i64) -> PriceHistoryV {
    PriceHistoryV { points: clip_points(h.points, start, end), ..h }
}

/// All series clipped to the window, series left empty dropped.
pub open spec fn window_filter(hs: Seq<PriceHistoryV>, start: Option<i64>, end: i64) -> Seq<
    PriceHistoryV,
> {
    hs.map_values(|h: PriceHistoryV| clip_history(h, start, end)).filter(
        |h: PriceHistoryV| h.points.len() != 0,
    )
}

/// A sequence whose elements all satisfy the predicate filters to itself.
proof fn lemma_filter_all<A>(s: Seq<A>, p: spec_fn(A) -> bool)
    requires
        forall|i: int| 0 <= i < s.len() ==> p(#[trigger] s[i]),
    ensures
        s.filter(p) == s,
    decreases s.len(),
{
    reveal(Seq::filter);
    if s.len() > 0 {
        lemma_filter_all(s.drop_last(), p);
        assert(s.drop_last().push(s.last()) =~= s);
    }
}

/// Filtering twice with the same predicate is filtering once.
proof fn lemma_filter_idempotent<A>(s: Seq<A>, p: spec_fn(A) -> bool)
    ensures
        s.filter(p).filter(p) == s.filter(p),
{
    let f = s.filter(p);
    assert forall|i: int| 0 <= i < f.len() implies p(#[trigger] f[i]) by {
        Seq::lemma_filter_pred(s, p, i);
    }
    lemma_filter_all(f, p);
}

/// Clipping a series twice changes nothing after the first time.
proof fn lemma_clip_history_idempotent(h: PriceHistoryV, start: Option<i64>, end: i64)
    ensures
        clip_history(clip_history(h, start, end), start, end) == clip_history(h, start, end),
{
    lemma_filter_idempotent(h.points, |p: PricePoint| in_window(p, start, end));
}

/// Window filtering is idempotent: re-applying the filter to an
/// already-filtered list of series removes nothing further.
pub proof fn lemma_window_filter_idempotent(hs: Seq<PriceHistoryV>, start: Option<i64>, end: i64)
    ensures
        window_filter(window_filter(hs, start, end), start, end) == window_filter(hs, start, end),
{
    let clipf = |h: PriceHistoryV| clip_history(h, start, end);
    let nonempty = |h: PriceHistoryV| h.points.len() != 0;
    let m1 = hs.map_values(clipf);
    let m = m1.filter(nonempty);
    assert forall|i: int| 0 <= i < m.len() implies clipf(#[trigger] m[i]) == m[i] by {
        Seq::lemma_filter_contains_rev(m1, nonempty, m[i]);
        let j = choose|j: int| 0 <= j < m1.len() && m1[j] == m[i];
        assert(m1[j] == clipf(hs[j]));
        lemma_clip_history_idempotent(hs[j], start, end);
    }
    assert(m.map_values(clipf) =~= m);
    assert forall|i: int| 0 <= i < m.len() implies nonempty(#[trigger] m[i]) by {
        Seq::lemma_filter_pred(m1, nonempty, i);
    }
    lemma_filter_all(m, nonempty);
}

/// Clip every series to the window and drop the series left empty.
pub fn filter_histories_by_time_window(
    histories: &mut Vec<PriceHistory>,
    start: Option<i64>,
    end: i64,
)
    ensures
        histories_view(final(histories)@) == window_filter(
            histories_view(old(histories)@),
            start,
            end,
        ),
{
    let ghost hv = histories_view(histories@);
    let ghost clipf = |h: PriceHistoryV| clip_history(h, start, end);
    let ghost nonempty = |h: PriceHistoryV| h.points.len() != 0;
    let n = histories.len();
    let mut out: Vec<PriceHistory> = Vec::new();
    proof {
        reveal(Seq::filter);
        assert(hv.take(0) =~= Seq::<PriceHistoryV>::empty());
        assert(histories_view(out@) =~= Seq::<PriceHistoryV>::empty());
        assert(hv.take(0).map_values(clipf) =~= Seq::<PriceHistoryV>::empty());
    }
    let mut i: usize = 0;
    while i < n
        invariant
            0 <= i <= n,
            n == histories@.len(),
            hv == histories_view(histories@),
            clipf == (|h: PriceHistoryV| clip_history(h, start, end)),
            nonempty == (|h: PriceHistoryV| h.points.len() != 0),
            histories_view(out@) == hv.take(i as int).map_values(clipf).filter(nonempty),
        decreases n - i,
    {
        let h = &histories[i];
        let m = h.points.len();
        let mut pts: Vec<PricePoint> = Vec::new();
        let ghost pwin = |p: PricePoint| in_window(p, start, end);
        proof {
            reveal(Seq::filter);
            assert(h.points@.take(0) =~= Seq::<PricePoint>::empty());
            assert(pts@ =~= Seq::<PricePoint>::empty());
        }
        let mut j: usize = 0;
        while j < m
            invariant
                0 <= j <= m,
                m == histories@[i as int].points@.len(),
                0 <= i < histories@.len(),
                pwin == (|p: PricePoint| in_window(p, start, end)),
                pts@ == histories@[i as int].points@.take(j as int).filter(pwin),
            decreases m - j,
        {
            let p = histories[i].points[j];
            proof {
                reveal(Seq::filter);
                let pref = histories@[i as int].points@.take(j + 1);
                assert(pref.drop_last() =~= histories@[i as int].points@.take(j as int));
                assert(pref.last() == p);
            }
            let keep = match start {
                Some(s) => p.timestamp <= end && p.timestamp >= s,
                None => p.timestamp <= end,
            };
            if keep {
                pts.push(p);
            }
            j += 1;
        }
        proof {
            assert(histories@[i as int].points@.take(m as int) =~= histories@[i as int].points@);
            assert(pts@ == clip_points(histories@[i as int].points@, start, end));
        }
        let ghost obefore = histories_view(out@);
        if pts.len() > 0 {
            let nh = PriceHistory {
                symbol: h.symbol.clone(),
                name: h.name.clone(),
                currency: h.currency.clone(),
                provider: h.provider.clone(),
                points: pts,
            };
            proof {
                assert(nh@ == clipf(hv[i as int]));
            }
            out.push(nh);
            proof {
                reveal(Seq::filter);
                let mpre = hv.take(i + 1).map_values(clipf);
                assert(mpre.drop_last() =~= hv.take(i as int).map_values(clipf));
                assert(mpre.last() == clipf(hv[i as int]));
                assert(histories_view(out@) =~= obefore.push(clipf(hv[i as int])));
            }
        } else {
            proof {
                reveal(Seq::filter);
                let mpre = hv.take(i + 1).map_values(clipf);
                assert(mpre.drop_last() =~= hv.take(i as int).map_values(clipf));
                assert(mpre.last() == clipf(hv[i as int]));
                assert(!nonempty(clipf(hv[i as int])));
            }
        }
        i += 1;
    }
    proof {
        assert(hv.take(n as int) =~= hv);
    }
    *histories = out;
}

/// The one decision of the history-fetch protocol: what to do with the
/// outcome of the explicit-window fetch.
pub enum WindowFetchOutcome {
    /// The window fetch succeeded; use its series.
    Done(Vec<PriceHistory>),
    /// The provider declined explicit windows; fall back to the
    /// day-count fetch.
    FallBackToDays,
    /// Any other error: propagate it unchanged, with no fallback.
    Failed(Error),
}

/// Decide how to continue after the explicit-window fetch: success
/// passes through, the window-unsupported `Config` error (and it alone)
/// selects the day-count fallback, every other error propagates.
pub fn resolve_window_fetch(result: Result<Vec<PriceHistory>, Error>) -> (r: WindowFetchOutcome)
    ensures
        match result {
            Ok(hs) => r matches WindowFetchOutcome::Done(out) && out@ == hs@,
            Err(e) => if is_window_unsupported(e@) {
                r is FallBackToDays
            } else {
                r matches WindowFetchOutcome::Failed(e2) && e2@ == e@
            },
        },
{
    match result {
        Ok(hs) => WindowFetchOutcome::Done(hs),
        Err(e) => {
            if e.window_fallback_applies() {
                WindowFetchOutcome::FallBackToDays
            } else {
                WindowFetchOutcome::Failed(e)
            }
        },
    }
}

/// Fail with `NoResults` when the windowing left nothing; otherwise
/// hand the series back unchanged.
pub fn require_nonempty_histories(histories: Vec<PriceHistory>) -> (r: Result<
    Vec<PriceHistory>,
    Error,
>)
    ensures
        match r {
            Ok(out) => histories@.len() > 0 && out@ == histories@,
            Err(e) => histories@.len() == 0 && e@ is NoResults,
        },
{
    if histories.len() == 0 {
        Err(Error::NoResults)
    } else {
        Ok(histories)
    }
}


/// Every target is a known fiat code under case folding.
pub open spec fn all_fiat(ts: Seq<Seq<char>>) -> bool {
    forall|i: int| 0 <= i < ts.len() ==> is_fiat_code(upper_seq(#[trigger] ts[i]))
}

/// Validate a fiat chart request: it needs at least one target, all
/// targets must be fiat codes, and hourly sampling is rejected (the FX
/// source offers daily granularity only); `auto` and `daily` pass.
pub fn validate_fiat_chart_request(targets: &Vec<String>, sampling: HistoryInterval) -> (r: Result<
    (),
    Error,
>)
    ensures
        r is Ok <==> (targets@.len() > 0 && all_fiat(targets_view(targets@)) && sampling
            != HistoryInterval::Hourly),
        r matches Err(e) ==> e@ == ErrorV::Config(
            if targets@.len() == 0 {
                "fiat chart mode requires a base and at least one target currency -- usage: cryptoprice --chart usd eur"@
            } else if !all_fiat(targets_view(targets@)) {
                "fiat chart mode only supports fiat currency codes (example: usd eur gbp)"@
            } else {
                "fiat chart mode supports daily history only -- use --sampling auto or --sampling daily"@
            },
        ),
{
    if targets.len() == 0 {
        return Err(
            Error::Config(
                "fiat chart mode requires a base and at least one target currency -- usage: cryptoprice --chart usd eur".to_owned(),
            ),
        );
    }
    let n = targets.len();
    let ghost tv = targets_view(targets@);
    let mut i: usize = 0;
    while i < n
        invariant
            0 <= i <= n,
            n == targets@.len(),
            tv == targets_view(targets@),
            forall|j: int| 0 <= j < i ==> is_fiat_code(upper_seq(#[trigger] tv[j])),
        decreases n - i,
    {
        if !is_known_fiat(targets[i].as_str()) {
            proof {
                assert(tv[i as int] == targets@[i as int]@);
                assert(!all_fiat(tv));
            }
            return Err(
                Error::Config(
                    "fiat chart mode only supports fiat currency codes (example: usd eur gbp)".to_owned(),
                ),
            );
        }
        i += 1;
    }
    if sampling == HistoryInterval::Hourly {
        return Err(
            Error::Config(
                "fiat chart mode supports daily history only -- use --sampling auto or --sampling daily".to_owned(),
            ),
        );
    }
    Ok(())
}

} // verus!
