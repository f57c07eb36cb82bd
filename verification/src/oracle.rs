//! Oracle exchange rates: the history of each denomination, the current
//! rates, and their time-weighted averages.
//!
//! A history lists the updates of one denomination, the most recent first,
//! no two at the same time. The rate of an update holds from its time
//! until the next update; the average over a window is the integral of
//! that step function over the window, divided by the window's length.

use crate::block::BlockInfo;
use crate::decimal::lemma_div_by_seconds;
use crate::decimal::lemma_mul_by_seconds;
use crate::decimal::Decimal;
use crate::error::SeiError;
use crate::proto_structs::DenomOracleExchangeRatePair;
use crate::proto_structs::DenomOracleExchangeRatePairView;
use crate::proto_structs::OracleExchangeRate;
use crate::proto_structs::OracleTwap;
use crate::proto_structs::OracleTwapView;
use vstd::prelude::*;

verus! {

/// The updates of one denomination.
pub struct DenomRates {
    pub denom: String,
    pub history: Vec<OracleExchangeRate>,
}

/// What a [`DenomRates`] holds, with its denomination as a character
/// sequence.
pub struct DenomRatesView {
    pub denom: Seq<char>,
    pub history: Seq<OracleExchangeRate>,
}

impl View for DenomRates {
    type V = DenomRatesView;

    open spec fn view(&self) -> DenomRatesView {
        DenomRatesView { denom: self.denom@, history: self.history@ }
    }
}

impl DeepView for DenomRates {
    type V = DenomRatesView;

    open spec fn deep_view(&self) -> DenomRatesView {
        self@
    }
}

/// The histories of all denominations, in the order in which the
/// denominations were first seen.
pub struct ExchangeRates {
    entries: Vec<DenomRates>,
}

/// The answer to `ExchangeRates`.
#[derive(Debug, PartialEq)]
pub struct ExchangeRatesResponse {
    pub denom_oracle_exchange_rate_pairs: Vec<DenomOracleExchangeRatePair>,
}

/// The answer to `OracleTwaps`.
#[derive(Debug, PartialEq)]
pub struct OracleTwapsResponse {
    pub oracle_twaps: Vec<OracleTwap>,
}

/// Whether a history is in order: not empty, the most recent update
/// first, no two updates at the same time.
pub open spec fn history_wf(h: Seq<OracleExchangeRate>) -> bool {
    &&& h.len() > 0
    &&& forall|i: int, j: int| 0 <= i < j < h.len() ==> h[i].last_update > h[j].last_update
}

/// Whether the histories are in order and no denomination occurs twice.
pub open spec fn rates_wf(s: Seq<DenomRatesView>) -> bool {
    &&& forall|i: int| 0 <= i < s.len() ==> history_wf(#[trigger] s[i].history)
    &&& forall|i: int, j: int| 0 <= i < j < s.len() ==> s[i].denom != s[j].denom
}

/// The place of the denomination `denom` in `s`: the length of `s` where
/// it has none.
pub open spec fn denom_index(s: Seq<DenomRatesView>, denom: Seq<char>) -> int
    decreases s.len(),
{
    if s.len() == 0 {
        0
    } else if s[0].denom == denom {
        0
    } else {
        1 + denom_index(s.skip(1), denom)
    }
}

/// The number of updates at the start of `h` that are later than `t`.
pub open spec fn insert_position(h: Seq<OracleExchangeRate>, t: u64) -> int
    decreases h.len(),
{
    if h.len() == 0 {
        0
    } else if h[0].last_update > t {
        1 + insert_position(h.skip(1), t)
    } else {
        0
    }
}

/// Whether `h` has an update at the time `t`.
pub open spec fn has_update_at(h: Seq<OracleExchangeRate>, t: u64) -> bool {
    exists|j: int| 0 <= j < h.len() && h[j].last_update == t
}

/// The history `h` with the update `r` in its place. An update at a time
/// that `h` already has is left out.
pub open spec fn insert_history(h: Seq<OracleExchangeRate>, r: OracleExchangeRate) -> Seq<
    OracleExchangeRate,
> {
    if has_update_at(h, r.last_update) {
        h
    } else {
        h.insert(insert_position(h, r.last_update), r)
    }
}

/// The histories `s` with one more update: in the history of its
/// denomination, or in a new history at the end.
pub open spec fn insert_rate(
    s: Seq<DenomRatesView>,
    pair: DenomOracleExchangeRatePairView,
) -> Seq<DenomRatesView> {
    let i = denom_index(s, pair.denom);
    if i == s.len() {
        s.push(DenomRatesView { denom: pair.denom, history: seq![pair.oracle_exchange_rate] })
    } else {
        s.update(
            i,
            DenomRatesView {
                denom: s[i].denom,
                history: insert_history(s[i].history, pair.oracle_exchange_rate),
            },
        )
    }
}

/// The histories that the updates `pairs` make, taken one after another.
pub open spec fn collect_rates(pairs: Seq<DenomOracleExchangeRatePairView>) -> Seq<
    DenomRatesView,
>
    decreases pairs.len(),
{
    if pairs.len() == 0 {
        Seq::empty()
    } else {
        insert_rate(collect_rates(pairs.drop_last()), pairs.last())
    }
}

/// The most recent update of each denomination.
pub open spec fn current_rates(s: Seq<DenomRatesView>) -> Seq<DenomOracleExchangeRatePairView> {
    Seq::new(
        s.len(),
        |i: int|
            DenomOracleExchangeRatePairView {
                denom: s[i].denom,
                oracle_exchange_rate: s[i].history[0],
            },
    )
}

/// The time up to which the update `i` of `h` holds: the time of the
/// update before it, or `now` for the most recent one.
pub open spec fn holds_until(h: Seq<OracleExchangeRate>, now: u64, i: int) -> int {
    if i == 0 {
        now as int
    } else {
        h[i - 1].last_update as int
    }
}

/// The number of updates at the start of `h` that lie inside the window:
/// less than `lookback` seconds before `now`.
pub open spec fn window_count(h: Seq<OracleExchangeRate>, now: u64, lookback: u64) -> int
    decreases h.len(),
{
    if h.len() == 0 {
        0
    } else if now - h[0].last_update < lookback {
        1 + window_count(h.skip(1), now, lookback)
    } else {
        0
    }
}

/// The integral of the rate over the time that the first `k` updates of
/// `h` cover, in atomic units times seconds.
pub open spec fn covered_sum(h: Seq<OracleExchangeRate>, now: u64, k: int) -> int
    decreases k,
{
    if k <= 0 {
        0
    } else {
        covered_sum(h, now, k - 1) + h[k - 1].exchange_rate.atomics * (holds_until(h, now, k - 1)
            - h[k - 1].last_update)
    }
}

/// The integral of the rate over the whole window. The updates inside the
/// window cover it back to the oldest of them; the rest of the window
/// has the rate of the next older update, or of the oldest update where
/// there is no older one.
pub open spec fn window_sum(h: Seq<OracleExchangeRate>, now: u64, lookback: u64) -> int {
    let k = window_count(h, now, lookback);
    let covered = now - holds_until(h, now, k);
    let last = if k < h.len() {
        k
    } else {
        h.len() - 1
    };
    covered_sum(h, now, k) + h[last].exchange_rate.atomics * (lookback - covered)
}

/// The time-weighted average of the history `h` over the `lookback`
/// seconds before `now`.
///
/// Where the most recent update is older than the window, its rate is the
/// average. Otherwise the average is the integral of the rate over the
/// window divided by `lookback`, rounded down to 10^-18.
pub open spec fn oracle_twap_spec(h: Seq<OracleExchangeRate>, now: u64, lookback: u64) -> Result<
    Decimal,
    SeiError,
> {
    if h[0].last_update + lookback < now {
        Ok(h[0].exchange_rate)
    } else if h[0].last_update > now {
        Err(SeiError::FutureTimestamp)
    } else if lookback == 0 {
        Err(SeiError::ZeroLookback)
    } else if window_sum(h, now, lookback) > u128::MAX {
        Err(SeiError::Overflow)
    } else {
        Ok(Decimal { atomics: (window_sum(h, now, lookback) / (lookback as int)) as u128 })
    }
}

/// The averages of the first `n` denominations of `s`, or the first
/// failure among them.
pub open spec fn oracle_twaps_spec(s: Seq<DenomRatesView>, now: u64, lookback: u64, n: int) -> Result<
    Seq<OracleTwapView>,
    SeiError,
>
    decreases n,
{
    if n <= 0 {
        Ok(Seq::empty())
    } else {
        match oracle_twaps_spec(s, now, lookback, n - 1) {
            Err(e) => Err(e),
            Ok(before) => match oracle_twap_spec(s[n - 1].history, now, lookback) {
                Err(e) => Err(e),
                Ok(twap) => Ok(
                    before.push(
                        OracleTwapView {
                            denom: s[n - 1].denom,
                            twap: twap,
                            lookback_seconds: lookback,
                        },
                    ),
                ),
            },
        }
    }
}

/// The integral over the time that the first updates cover is never
/// negative, and none of these updates is later than `now`.
pub proof fn lemma_window_sum_parts(h: Seq<OracleExchangeRate>, now: u64, k: int)
    requires
        history_wf(h),
        h[0].last_update <= now,
        0 <= k <= h.len(),
    ensures
        covered_sum(h, now, k) >= 0,
        holds_until(h, now, k) <= now,
    decreases k,
{
    if k > 0 {
        lemma_window_sum_parts(h, now, k - 1);
        let d = holds_until(h, now, k - 1) - h[k - 1].last_update;
        assert(d >= 0) by {
            if k - 1 > 0 {
                assert(h[k - 2].last_update > h[k - 1].last_update);
            }
        }
        assert(h[k - 1].exchange_rate.atomics * d >= 0) by (nonlinear_arith)
            requires
                h[k - 1].exchange_rate.atomics >= 0,
                d >= 0,
        ;
    }
}

/// The count of updates inside the window, seen from the update `i`.
proof fn lemma_window_count_step(h: Seq<OracleExchangeRate>, now: u64, lookback: u64, i: int)
    requires
        0 <= i <= h.len(),
        forall|j: int| 0 <= j < i ==> now - #[trigger] h[j].last_update < lookback,
    ensures
        window_count(h, now, lookback) == i + window_count(h.skip(i), now, lookback),
    decreases i,
{
    if i > 0 {
        lemma_window_count_step(h, now, lookback, i - 1);
        let s = h.skip(i - 1);
        assert(s[0] == h[i - 1]);
        assert(s.skip(1) =~= h.skip(i));
    } else {
        assert(h.skip(0) =~= h);
    }
}

/// Whether a history is in order.
pub fn history_in_order(history: &Vec<OracleExchangeRate>) -> (r: bool)
    ensures
        r == history_wf(history@),
{
    let ghost h = history@;
    if history.len() == 0 {
        return false;
    }
    let mut i: usize = 1;
    while i < history.len()
        invariant
            1 <= i <= history.len(),
            h == history@,
            forall|a: int, b: int| 0 <= a < b < i ==> h[a].last_update > h[b].last_update,
        decreases history.len() - i,
    {
        if history[i - 1].last_update <= history[i].last_update {
            assert(!(h[i - 1].last_update > h[i as int].last_update));
            return false;
        }
        proof {
            assert forall|a: int, b: int| 0 <= a < b < i + 1 implies h[a].last_update
                > h[b].last_update by {
                if b == i && a < i - 1 {
                    assert(h[a].last_update > h[i - 1].last_update);
                }
            }
        }
        i = i + 1;
    }
    true
}

/// The time-weighted average of the history `history` over the
/// `lookback` seconds before `now`. A history that is not in order is
/// refused.
pub fn oracle_twap(history: &Vec<OracleExchangeRate>, now: u64, lookback: u64) -> (r: Result<
    Decimal,
    SeiError,
>)
    ensures
        history_wf(history@) ==> r == oracle_twap_spec(history@, now, lookback),
        !history_wf(history@) ==> r == Err::<Decimal, SeiError>(SeiError::HistoryOutOfOrder),
{
    if !history_in_order(history) {
        return Err(SeiError::HistoryOutOfOrder);
    }
    twap_of_history(history, now, lookback)
}

/// The time-weighted average of a history that is in order.
fn twap_of_history(history: &Vec<OracleExchangeRate>, now: u64, lookback: u64) -> (r: Result<
    Decimal,
    SeiError,
>)
    requires
        history_wf(history@),
    ensures
        r == oracle_twap_spec(history@, now, lookback),
{
    let ghost h = history@;
    let newest = history[0];
    if lookback < now && newest.last_update < now - lookback {
        return Ok(newest.exchange_rate);
    }
    if newest.last_update > now {
        return Err(SeiError::FutureTimestamp);
    }
    if lookback == 0 {
        return Err(SeiError::ZeroLookback);
    }
    let mut sum: u128 = 0;
    let mut time: u64 = now;
    let mut last_rate = newest.exchange_rate;
    let mut i: usize = 0;
    let mut inside = true;
    while inside && i < history.len()
        invariant
            h == history@,
            history_wf(h),
            h[0].last_update <= now,
            i <= history.len(),
            forall|j: int| 0 <= j < i ==> now - #[trigger] h[j].last_update < lookback,
            time == holds_until(h, now, i as int),
            sum == covered_sum(h, now, i as int),
            !inside ==> i < h.len() && now - h[i as int].last_update >= lookback && last_rate
                == h[i as int].exchange_rate,
            inside && i > 0 ==> last_rate == h[i - 1].exchange_rate,
            inside && i == 0 ==> last_rate == h[0].exchange_rate,
            lookback > 0,
        decreases history.len() - i + (if inside { 1int } else { 0int }),
    {
        let rate = history[i];
        proof {
            if i > 0 {
                assert(h[0].last_update > h[i as int].last_update);
                assert(h[i - 1].last_update > h[i as int].last_update);
            }
        }
        last_rate = rate.exchange_rate;
        if now - rate.last_update < lookback {
            let elapsed = time - rate.last_update;
            proof {
                lemma_mul_by_seconds(rate.exchange_rate.atomics, elapsed);
                lemma_window_sum_parts(h, now, i as int);
                lemma_window_count_step(h, now, lookback, i + 1);
                lemma_window_count_bounds(h.skip(i + 1), now, lookback);
                lemma_tail_bound(h, now, lookback, i + 1);
            }
            let term = match rate.exchange_rate.checked_mul(Decimal::from_seconds(elapsed)) {
                Some(v) => v,
                None => {
                    return Err(SeiError::Overflow);
                },
            };
            sum = match sum.checked_add(term.atomics) {
                Some(v) => v,
                None => {
                    return Err(SeiError::Overflow);
                },
            };
            time = rate.last_update;
            i = i + 1;
        } else {
            inside = false;
        }
    }
    proof {
        lemma_window_count_step(h, now, lookback, i as int);
        if i < h.len() {
            assert(h.skip(i as int)[0] == h[i as int]);
        }
        assert(window_count(h, now, lookback) == i);
        lemma_window_sum_parts(h, now, i as int);
    }
    let covered = now - time;
    if covered < lookback {
        let rest = lookback - covered;
        proof {
            lemma_mul_by_seconds(last_rate.atomics, rest);
        }
        let term = match last_rate.checked_mul(Decimal::from_seconds(rest)) {
            Some(v) => v,
            None => {
                proof {
                    assert(window_sum(h, now, lookback) >= last_rate.atomics * rest);
                }
                return Err(SeiError::Overflow);
            },
        };
        sum = match sum.checked_add(term.atomics) {
            Some(v) => v,
            None => {
                return Err(SeiError::Overflow);
            },
        };
    } else {
        assert(last_rate.atomics * (lookback - covered) == 0) by (nonlinear_arith)
            requires
                lookback - covered == 0,
        ;
    }
    proof {
        lemma_div_by_seconds(sum, lookback);
    }
    match Decimal::raw(sum).checked_div(Decimal::from_seconds(lookback)) {
        Some(v) => Ok(v),
        None => Err(SeiError::Overflow),
    }
}

/// The integral over the whole window is at least the integral over the
/// time that any of the updates inside it cover.
proof fn lemma_tail_bound(h: Seq<OracleExchangeRate>, now: u64, lookback: u64, k: int)
    requires
        history_wf(h),
        h[0].last_update <= now,
        0 <= k <= window_count(h, now, lookback),
        lookback > 0,
    ensures
        window_count(h, now, lookback) <= h.len(),
        covered_sum(h, now, k) <= window_sum(h, now, lookback),
    decreases window_count(h, now, lookback) - k,
{
    lemma_window_count_bounds(h, now, lookback);
    let n = window_count(h, now, lookback);
    if k < n {
        lemma_tail_bound(h, now, lookback, k + 1);
        lemma_window_sum_parts(h, now, k + 1);
        lemma_window_sum_parts(h, now, k);
        let d = holds_until(h, now, k) - h[k].last_update;
        assert(d >= 0) by {
            if k > 0 {
                assert(h[k - 1].last_update > h[k].last_update);
            }
        }
        assert(h[k].exchange_rate.atomics * d >= 0) by (nonlinear_arith)
            requires
                h[k].exchange_rate.atomics >= 0,
                d >= 0,
        ;
    } else {
        lemma_window_sum_parts(h, now, n);
        let covered = now - holds_until(h, now, n);
        let last = if n < h.len() {
            n
        } else {
            h.len() - 1
        };
        assert(covered <= lookback) by {
            if n > 0 {
                lemma_window_members(h, now, lookback, n - 1);
            }
        }
        assert(h[last].exchange_rate.atomics * (lookback - covered) >= 0) by (nonlinear_arith)
            requires
                h[last].exchange_rate.atomics >= 0,
                lookback - covered >= 0,
        ;
    }
}

/// The count of updates inside the window is at most the length of the
/// history.
proof fn lemma_window_count_bounds(h: Seq<OracleExchangeRate>, now: u64, lookback: u64)
    ensures
        0 <= window_count(h, now, lookback) <= h.len(),
    decreases h.len(),
{
    if h.len() > 0 {
        lemma_window_count_bounds(h.skip(1), now, lookback);
    }
}

/// Each of the first `window_count` updates lies inside the window.
proof fn lemma_window_members(h: Seq<OracleExchangeRate>, now: u64, lookback: u64, i: int)
    requires
        0 <= i < window_count(h, now, lookback),
    ensures
        i < h.len(),
        now - h[i].last_update < lookback,
    decreases i,
{
    lemma_window_count_bounds(h, now, lookback);
    if i > 0 {
        lemma_window_members(h.skip(1), now, lookback, i - 1);
        assert(h.skip(1)[i - 1] == h[i]);
    }
}

/// What `insert_position` counts: the updates before it are later than
/// `t`, the update at it is not.
pub proof fn lemma_insert_position(h: Seq<OracleExchangeRate>, t: u64)
    ensures
        0 <= insert_position(h, t) <= h.len(),
        forall|i: int| 0 <= i < insert_position(h, t) ==> (#[trigger] h[i]).last_update > t,
        insert_position(h, t) < h.len() ==> h[insert_position(h, t)].last_update <= t,
    decreases h.len(),
{
    if h.len() > 0 && h[0].last_update > t {
        let tail = h.skip(1);
        lemma_insert_position(tail, t);
        assert forall|i: int| 0 <= i < insert_position(h, t) implies (#[trigger] h[i]).last_update
            > t by {
            if i > 0 {
                assert(tail[i - 1] == h[i]);
            }
        }
        if insert_position(h, t) < h.len() {
            assert(tail[insert_position(tail, t)] == h[insert_position(h, t)]);
        }
    }
}

/// A history that is in order stays in order when it takes an update.
pub proof fn lemma_insert_history_wf(h: Seq<OracleExchangeRate>, r: OracleExchangeRate)
    requires
        history_wf(h),
    ensures
        history_wf(insert_history(h, r)),
{
    let t = r.last_update;
    if !has_update_at(h, t) {
        let p = insert_position(h, t);
        let g = h.insert(p, r);
        lemma_insert_position(h, t);
        assert forall|i: int, j: int| 0 <= i < j < g.len() implies g[i].last_update
            > g[j].last_update by {
            if j == p {
                assert(g[i] == h[i]);
            } else if i == p {
                assert(g[j] == h[j - 1]);
                assert(h[p].last_update <= t);
                assert(h[p].last_update != t);
                if j - 1 > p {
                    assert(h[p].last_update > h[j - 1].last_update);
                }
            } else {
                let a = if i < p {
                    i
                } else {
                    i - 1
                };
                let b = if j < p {
                    j
                } else {
                    j - 1
                };
                assert(g[i] == h[a]);
                assert(g[j] == h[b]);
            }
        }
    }
}

/// What `denom_index` finds: the first entry of the denomination, or the
/// length where no entry has it.
pub proof fn lemma_denom_index(s: Seq<DenomRatesView>, denom: Seq<char>)
    ensures
        0 <= denom_index(s, denom) <= s.len(),
        forall|i: int| 0 <= i < denom_index(s, denom) ==> (#[trigger] s[i]).denom != denom,
        denom_index(s, denom) < s.len() ==> s[denom_index(s, denom)].denom == denom,
    decreases s.len(),
{
    if s.len() > 0 && s[0].denom != denom {
        let tail = s.skip(1);
        lemma_denom_index(tail, denom);
        assert forall|i: int| 0 <= i < denom_index(s, denom) implies (#[trigger] s[i]).denom
            != denom by {
            if i > 0 {
                assert(tail[i - 1] == s[i]);
            }
        }
        if denom_index(s, denom) < s.len() {
            assert(tail[denom_index(tail, denom)] == s[denom_index(s, denom)]);
        }
    }
}

/// Histories that are in order stay in order when they take an update.
pub proof fn lemma_insert_rate_wf(s: Seq<DenomRatesView>, pair: DenomOracleExchangeRatePairView)
    requires
        rates_wf(s),
    ensures
        rates_wf(insert_rate(s, pair)),
{
    let i = denom_index(s, pair.denom);
    let g = insert_rate(s, pair);
    lemma_denom_index(s, pair.denom);
    if i == s.len() {
        assert forall|k: int| 0 <= k < g.len() implies history_wf(#[trigger] g[k].history) by {
            if k < s.len() {
                assert(g[k] == s[k]);
            }
        }
        assert forall|a: int, b: int| 0 <= a < b < g.len() implies g[a].denom != g[b].denom by {
            assert(g[a] == s[a]);
            if b < s.len() {
                assert(g[b] == s[b]);
            }
        }
    } else {
        lemma_insert_history_wf(s[i].history, pair.oracle_exchange_rate);
        assert forall|k: int| 0 <= k < g.len() implies history_wf(#[trigger] g[k].history) by {
            if k != i {
                assert(g[k] == s[k]);
            }
        }
        assert forall|a: int, b: int| 0 <= a < b < g.len() implies g[a].denom != g[b].denom by {
            assert(g[a].denom == s[a].denom);
            assert(g[b].denom == s[b].denom);
        }
    }
}

/// The histories made from any updates are in order.
pub proof fn lemma_collect_rates_wf(pairs: Seq<DenomOracleExchangeRatePairView>)
    ensures
        rates_wf(collect_rates(pairs)),
    decreases pairs.len(),
{
    if pairs.len() > 0 {
        lemma_collect_rates_wf(pairs.drop_last());
        lemma_insert_rate_wf(collect_rates(pairs.drop_last()), pairs.last());
    }
}

/// Puts the update `r` in its place in `history`.
fn insert_into_history(history: &mut Vec<OracleExchangeRate>, r: OracleExchangeRate)
    requires
        history_wf(old(history)@),
    ensures
        final(history)@ == insert_history(old(history)@, r),
{
    let ghost h = history@;
    let t = r.last_update;
    let mut j: usize = 0;
    proof {
        assert(h.skip(0) =~= h);
    }
    while j < history.len() && history[j].last_update > t
        invariant
            h == history@,
            j <= history.len(),
            insert_position(h, t) == j + insert_position(h.skip(j as int), t),
            forall|i: int| 0 <= i < j ==> (#[trigger] h[i]).last_update > t,
        decreases history.len() - j,
    {
        proof {
            assert(h.skip(j as int)[0] == h[j as int]);
            assert(h.skip(j as int).skip(1) =~= h.skip(j + 1));
        }
        j = j + 1;
    }
    proof {
        if j < h.len() {
            assert(h.skip(j as int)[0] == h[j as int]);
        }
        assert(insert_position(h, t) == j);
    }
    if j < history.len() && history[j].last_update == t {
        assert(has_update_at(h, t));
    } else {
        proof {
            assert forall|k: int| 0 <= k < h.len() implies h[k].last_update != t by {
                if k > j {
                    assert(h[j as int].last_update > h[k].last_update);
                }
            }
        }
        history.insert(j, r);
    }
}

/// The place of the denomination `denom` in `entries`, or the length of
/// `entries` where it has none.
fn index_of_denom(entries: &Vec<DenomRates>, denom: &String) -> (r: usize)
    ensures
        r == denom_index(entries.deep_view(), denom@),
        r <= entries.len(),
{
    let ghost s = entries.deep_view();
    let mut i: usize = 0;
    proof {
        assert(s.skip(0) =~= s);
        lemma_denom_index(s, denom@);
    }
    while i < entries.len()
        invariant
            s == entries.deep_view(),
            i <= entries.len(),
            denom_index(s, denom@) == i + denom_index(s.skip(i as int), denom@),
        decreases entries.len() - i,
    {
        proof {
            assert(s.skip(i as int)[0] == s[i as int]);
            assert(s.skip(i as int).skip(1) =~= s.skip(i + 1));
            assert(s[i as int].denom == entries@[i as int].denom@);
        }
        if entries[i].denom == *denom {
            return i;
        }
        i = i + 1;
    }
    i
}

/// Puts one more update into `entries`: into the history of its
/// denomination, or into a new history at the end.
fn insert_into_entries(entries: &mut Vec<DenomRates>, pair: &DenomOracleExchangeRatePair)
    requires
        rates_wf(old(entries).deep_view()),
    ensures
        final(entries).deep_view() == insert_rate(old(entries).deep_view(), pair@),
        rates_wf(final(entries).deep_view()),
{
    let ghost s = entries.deep_view();
    proof {
        lemma_insert_rate_wf(s, pair@);
        lemma_denom_index(s, pair.denom@);
    }
    let at = index_of_denom(entries, &pair.denom);
    if at == entries.len() {
        let mut history: Vec<OracleExchangeRate> = Vec::new();
        history.push(pair.oracle_exchange_rate);
        let entry = DenomRates { denom: pair.denom.clone(), history };
        assert(entry@.history =~= seq![pair.oracle_exchange_rate]);
        entries.push(entry);
        assert(entries.deep_view() =~= insert_rate(s, pair@));
    } else {
        let entry = entries.remove(at);
        assert(entry@ == s[at as int]);
        let mut history = entry.history;
        insert_into_history(&mut history, pair.oracle_exchange_rate);
        let renewed = DenomRates { denom: entry.denom, history };
        entries.insert(at, renewed);
        assert(entries.deep_view() =~= insert_rate(s, pair@));
    }
}

impl View for ExchangeRates {
    type V = Seq<DenomRatesView>;

    closed spec fn view(&self) -> Seq<DenomRatesView> {
        self.entries.deep_view()
    }
}

impl ExchangeRates {
    /// The histories are in order and no denomination occurs twice.
    #[verifier::type_invariant]
    spec fn in_order(self) -> bool {
        rates_wf(self.entries.deep_view())
    }

    /// No history at all.
    pub fn new() -> (r: ExchangeRates)
        ensures
            r@ == Seq::<DenomRatesView>::empty(),
    {
        let r = ExchangeRates { entries: Vec::new() };
        assert(r@ =~= Seq::<DenomRatesView>::empty());
        r
    }

    /// The number of denominations.
    pub fn len(&self) -> (r: usize)
        ensures
            r == self@.len(),
    {
        self.entries.len()
    }

    /// The histories with one more update: in the history of its
    /// denomination, or in a new history at the end.
    pub fn insert(self, pair: &DenomOracleExchangeRatePair) -> (r: ExchangeRates)
        ensures
            r@ == insert_rate(self@, pair@),
            rates_wf(r@),
    {
        proof {
            use_type_invariant(&self);
        }
        let mut entries = self.entries;
        insert_into_entries(&mut entries, pair);
        ExchangeRates { entries }
    }

    /// A copy of the histories.
    pub fn duplicate(&self) -> (r: ExchangeRates)
        ensures
            r@ == self@,
    {
        proof {
            use_type_invariant(self);
        }
        let mut entries: Vec<DenomRates> = Vec::new();
        let mut i: usize = 0;
        while i < self.entries.len()
            invariant
                i <= self.entries.len(),
                entries.deep_view() == self@.take(i as int),
            decreases self.entries.len() - i,
        {
            let source = &self.entries[i];
            let mut history: Vec<OracleExchangeRate> = Vec::new();
            let mut j: usize = 0;
            while j < source.history.len()
                invariant
                    j <= source.history.len(),
                    history@ == source.history@.take(j as int),
                decreases source.history.len() - j,
            {
                history.push(source.history[j]);
                assert(history@ =~= source.history@.take(j + 1));
                j = j + 1;
            }
            assert(source.history@.take(source.history.len() as int) =~= source.history@);
            let ghost before = entries.deep_view();
            entries.push(DenomRates { denom: source.denom.clone(), history });
            assert(entries.deep_view() =~= before.push(source@));
            assert(self@.take(i + 1) =~= self@.take(i as int).push(self@[i as int]));
            i = i + 1;
        }
        assert(self@.take(self.entries.len() as int) =~= self@);
        ExchangeRates { entries }
    }

    /// The histories that the updates `rates` make, taken one after
    /// another.
    pub fn from_pairs(rates: &Vec<DenomOracleExchangeRatePair>) -> (r: ExchangeRates)
        ensures
            r@ == collect_rates(rates.deep_view()),
    {
        let ghost pairs = rates.deep_view();
        let mut collected = ExchangeRates::new();
        let mut i: usize = 0;
        proof {
            assert(pairs.take(0) =~= Seq::<DenomOracleExchangeRatePairView>::empty());
        }
        while i < rates.len()
            invariant
                i <= rates.len(),
                pairs == rates.deep_view(),
                collected@ == collect_rates(pairs.take(i as int)),
            decreases rates.len() - i,
        {
            proof {
                assert(pairs.take(i + 1).drop_last() =~= pairs.take(i as int));
                assert(pairs.take(i + 1).last() == rates@[i as int]@);
            }
            collected = collected.insert(&rates[i]);
            i = i + 1;
        }
        proof {
            assert(pairs.take(rates.len() as int) =~= pairs);
        }
        collected
    }
}

/// Answers `ExchangeRates`: the most recent update of each denomination.
pub fn get_exchange_rates(rates: &ExchangeRates) -> (r: ExchangeRatesResponse)
    ensures
        r.denom_oracle_exchange_rate_pairs.deep_view() == current_rates(rates@),
{
    proof {
        use_type_invariant(rates);
    }
    let ghost s = rates@;
    let mut exchange_rates: Vec<DenomOracleExchangeRatePair> = Vec::new();
    let mut i: usize = 0;
    while i < rates.entries.len()
        invariant
            i <= rates.entries.len(),
            s == rates@,
            rates_wf(s),
            exchange_rates.deep_view() == current_rates(s).take(i as int),
        decreases rates.entries.len() - i,
    {
        let entry = &rates.entries[i];
        assert(history_wf(s[i as int].history));
        let ghost before = exchange_rates.deep_view();
        exchange_rates.push(
            DenomOracleExchangeRatePair {
                denom: entry.denom.clone(),
                oracle_exchange_rate: entry.history[0],
            },
        );
        proof {
            assert(exchange_rates.deep_view() =~= before.push(current_rates(s)[i as int]));
            assert(current_rates(s).take(i + 1) =~= current_rates(s).take(i as int).push(
                current_rates(s)[i as int],
            ));
        }
        i = i + 1;
    }
    assert(current_rates(s).take(rates.entries.len() as int) =~= current_rates(s));
    ExchangeRatesResponse { denom_oracle_exchange_rate_pairs: exchange_rates }
}

/// Answers `OracleTwaps`: the time-weighted average of each denomination
/// over the `lookback_seconds` before the time of `block`.
pub fn get_oracle_twaps(block: &BlockInfo, rates: &ExchangeRates, lookback_seconds: u64) -> (r:
    Result<OracleTwapsResponse, SeiError>)
    ensures
        match oracle_twaps_spec(
            rates@,
            block.time.spec_seconds(),
            lookback_seconds,
            rates@.len() as int,
        ) {
            Ok(twaps) => r is Ok && r.unwrap().oracle_twaps.deep_view() == twaps,
            Err(e) => r == Err::<OracleTwapsResponse, SeiError>(e),
        },
{
    proof {
        use_type_invariant(rates);
    }
    let ghost s = rates@;
    let now = block.time.seconds();
    let mut oracle_twaps: Vec<OracleTwap> = Vec::new();
    let mut i: usize = 0;
    assert(oracle_twaps.deep_view() =~= Seq::<OracleTwapView>::empty());
    while i < rates.entries.len()
        invariant
            i <= rates.entries.len(),
            s == rates@,
            rates_wf(s),
            now == block.time.spec_seconds(),
            oracle_twaps_spec(s, now, lookback_seconds, i as int) == Ok::<
                Seq<OracleTwapView>,
                SeiError,
            >(oracle_twaps.deep_view()),
        decreases rates.entries.len() - i,
    {
        let entry = &rates.entries[i];
        assert(history_wf(s[i as int].history));
        match twap_of_history(&entry.history, now, lookback_seconds) {
            Ok(twap) => {
                let ghost before = oracle_twaps.deep_view();
                oracle_twaps.push(
                    OracleTwap {
                        denom: entry.denom.clone(),
                        twap: twap,
                        lookback_seconds: lookback_seconds,
                    },
                );
                assert(oracle_twaps.deep_view() =~= before.push(
                    OracleTwapView {
                        denom: s[i as int].denom,
                        twap: twap,
                        lookback_seconds: lookback_seconds,
                    },
                ));
            },
            Err(e) => {
                proof {
                    lemma_twaps_failure(s, now, lookback_seconds, i + 1, rates.entries.len() as int);
                }
                return Err(e);
            },
        }
        i = i + 1;
    }
    Ok(OracleTwapsResponse { oracle_twaps })
}

/// A failure among the first denominations is the failure of the whole.
proof fn lemma_twaps_failure(s: Seq<DenomRatesView>, now: u64, lookback: u64, k: int, n: int)
    requires
        0 <= k <= n,
        oracle_twaps_spec(s, now, lookback, k) is Err,
    ensures
        oracle_twaps_spec(s, now, lookback, n) == oracle_twaps_spec(s, now, lookback, k),
    decreases n - k,
{
    if k < n {
        lemma_twaps_failure(s, now, lookback, k, n - 1);
    }
}

} // verus!
