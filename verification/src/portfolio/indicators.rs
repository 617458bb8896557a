//! Technical indicators for financial analysis.
//!
//! Prices are fixed-point integers: a caller picks a tick size (say a
//! millionth of a currency unit) and hands every sample in as a number of
//! ticks.  Every indicator is a pure function of the sample sequence and
//! its window parameters, and every division rounds toward negative
//! infinity, so each output value is pinned exactly by the contracts.
//!
//! Each output sequence is shorter than the input: the value at output
//! index `i` describes the window of the input ending at source index
//! `i + offset`, where the alignment offset is `period - 1` for SMA, EMA
//! and the Bollinger bands and `period` for RSI.

use vstd::prelude::*;
use vstd::arithmetic::div_mod::{lemma_div_is_ordered, lemma_div_multiples_vanish};

verus! {

/// Length of the output of a windowed pass (SMA, EMA, Bollinger) over
/// `n` samples with window `p`: one value per full window.
pub open spec fn out_len(n: int, p: int) -> int {
    if p <= 0 || n < p {
        0
    } else {
        n - p + 1
    }
}

/// Sum of the `count` samples `s[start .. start + count]`.
pub open spec fn window_sum(s: Seq<i64>, start: int, count: int) -> int
    decreases count,
{
    if count <= 0 {
        0
    } else {
        window_sum(s, start, count - 1) + s[start + count - 1]
    }
}

/// The simple moving average at output index `i`: the mean of the window
/// of `p` samples ending at source index `i + p - 1`, rounded toward
/// negative infinity.
pub open spec fn sma_at(s: Seq<i64>, p: int, i: int) -> int {
    window_sum(s, i, p) / p
}

/// Floor division (quotient rounded toward negative infinity), for a
/// positive divisor.  Ghost-code `/` on `int` is Euclidean division,
/// which coincides with floor division whenever the divisor is positive.
pub(crate) fn div_floor(a: i128, b: i128) -> (q: i128)
    requires
        b > 0,
    ensures
        q == a as int / b as int,
{
    proof {
        lemma_div_between(i128::MIN as int, i128::MAX as int, b as int, a as int);
        vstd::arithmetic::mul::lemma_mul_inequality(i128::MIN as int, a as int, 1);
        vstd::arithmetic::mul::lemma_mul_inequality(a as int, i128::MAX as int, 1);
    }
    a.checked_div_euclid(b).unwrap()
}

/// A quotient lies between `lo` and `hi` whenever the dividend lies
/// between `b * lo` and `b * hi`.
proof fn lemma_div_between(lo: int, hi: int, b: int, a: int)
    requires
        b > 0,
        b * lo <= a,
        a <= b * hi,
    ensures
        lo <= a / b <= hi,
{
    lemma_div_is_ordered(b * lo, a, b);
    lemma_div_is_ordered(a, b * hi, b);
    lemma_div_multiples_vanish(lo, b);
    lemma_div_multiples_vanish(hi, b);
}

/// Every window sum over `i64` samples lies between `count * i64::MIN`
/// and `count * i64::MAX`.
proof fn lemma_window_sum_range(s: Seq<i64>, start: int, count: int)
    requires
        0 <= start,
        0 <= count,
        start + count <= s.len(),
    ensures
        count * (i64::MIN as int) <= window_sum(s, start, count),
        window_sum(s, start, count) <= count * (i64::MAX as int),
    decreases count,
{
    if count > 0 {
        lemma_window_sum_range(s, start, count - 1);
    }
}

/// Sliding a window one step to the right adds the sample that enters
/// and removes the sample that leaves:
/// `sum(start + 1, count) == sum(start, count) + s[start + count] - s[start]`.
/// This is the relation the running-sum implementation of [`sma`] lives
/// on, instead of re-summing each window.
pub proof fn lemma_window_sum_slide(s: Seq<i64>, start: int, count: int)
    requires
        0 <= start,
        count >= 1,
        start + count + 1 <= s.len(),
    ensures
        window_sum(s, start + 1, count) == window_sum(s, start, count) + s[start + count] - s[
            start
        ],
    decreases count,
{
    if count == 1 {
        assert(window_sum(s, start + 1, 1) == window_sum(s, start + 1, 0) + s[start + 1]);
        assert(window_sum(s, start, 1) == window_sum(s, start, 0) + s[start]);
        assert(window_sum(s, start + 1, 0) == 0);
        assert(window_sum(s, start, 0) == 0);
    } else {
        lemma_window_sum_slide(s, start, count - 1);
    }
}

/// Simple moving average.
///
/// Returns one value per full window: output index `i` is the mean of
/// `prices[i .. i + period]`, so the alignment offset is `period - 1`.
/// An empty input, a zero period or an input shorter than the period
/// yields an empty output.  The mean rounds toward negative infinity.
///
/// The window sum is maintained incrementally (add the sample that
/// enters, subtract the one that leaves) rather than re-summed per
/// window.
pub fn sma(prices: &[i64], period: usize) -> (r: Vec<i64>)
    ensures
        r@.len() == out_len(prices@.len() as int, period as int),
        forall|i: int|
            0 <= i < r@.len() ==> r@[i] == sma_at(prices@, period as int, i),
{
    let n = prices.len();
    if period == 0 || n < period {
        return Vec::new();
    }
    let mut r: Vec<i64> = Vec::new();
    let mut window: i128 = 0;
    let mut j: usize = 0;
    while j < period
        invariant
            0 <= j <= period,
            period <= n == prices@.len(),
            window == window_sum(prices@, 0, j as int),
        decreases period - j,
    {
        proof {
            lemma_window_sum_range(prices@, 0, j as int + 1);
        }
        window = window + prices[j] as i128;
        j = j + 1;
    }
    r.push(mean_of_window(window, period, Ghost(prices@), Ghost(0)));
    let mut i: usize = period;
    while i < n
        invariant
            period >= 1,
            period <= i <= n == prices@.len(),
            window == window_sum(prices@, i as int - period as int, period as int),
            r@.len() == i - period + 1,
            forall|k: int| 0 <= k < r@.len() ==> r@[k] == sma_at(prices@, period as int, k),
        decreases n - i,
    {
        proof {
            lemma_window_sum_slide(prices@, i as int - period as int, period as int);
            lemma_window_sum_range(prices@, i as int - period as int + 1, period as int);
        }
        window = window + (prices[i] as i128 - prices[i - period] as i128);
        r.push(mean_of_window(window, period, Ghost(prices@), Ghost(i as int - period as int + 1)));
        i = i + 1;
    }
    r
}

/// The exponential moving average at output index `i`.  Output index 0
/// is the SMA of the first window (the seed).  Every later value blends
/// the next sample into its predecessor with weight `2 / (p + 1)`:
/// `ema = (2 * sample + (p - 1) * prev) / (p + 1)`, which is the usual
/// `(sample - prev) * multiplier + prev` put over the common denominator
/// `p + 1` and rounded toward negative infinity.
pub open spec fn ema_at(s: Seq<i64>, p: int, i: int) -> int
    decreases i,
{
    if i <= 0 {
        sma_at(s, p, 0)
    } else {
        (2 * s[p - 1 + i] + (p - 1) * ema_at(s, p, i - 1)) / (p + 1)
    }
}

/// Exponential moving average, seeded with the SMA of the first window.
///
/// Output index `i` corresponds to source index `i + period - 1`: the
/// alignment offset is `period - 1`, as for [`sma`].  The same guards
/// yield an empty output.  This is a strict left-to-right recurrence;
/// each value depends on its one predecessor.
pub fn ema(prices: &[i64], period: usize) -> (r: Vec<i64>)
    ensures
        r@.len() == out_len(prices@.len() as int, period as int),
        forall|i: int|
            0 <= i < r@.len() ==> r@[i] == ema_at(prices@, period as int, i),
{
    let n = prices.len();
    if period == 0 || n < period {
        return Vec::new();
    }
    let mut r: Vec<i64> = Vec::new();
    let mut window: i128 = 0;
    let mut j: usize = 0;
    while j < period
        invariant
            0 <= j <= period,
            period <= n == prices@.len(),
            window == window_sum(prices@, 0, j as int),
        decreases period - j,
    {
        proof {
            lemma_window_sum_range(prices@, 0, j as int + 1);
        }
        window = window + prices[j] as i128;
        j = j + 1;
    }
    let seed = mean_of_window(window, period, Ghost(prices@), Ghost(0));
    r.push(seed);
    let mut prev: i128 = seed as i128;
    let mut idx: usize = period;
    while idx < n
        invariant
            period >= 1,
            period <= idx <= n == prices@.len(),
            i64::MIN <= prev <= i64::MAX,
            prev == ema_at(prices@, period as int, idx as int - period as int),
            r@.len() == idx - period + 1,
            forall|k: int| 0 <= k < r@.len() ==> r@[k] == ema_at(prices@, period as int, k),
        decreases n - idx,
    {
        let p = period as i128;
        let sample = prices[idx] as i128;
        proof {
            assert((p as int - 1) * (prev as int) <= (p as int - 1) * (i64::MAX as int) && (p as int
                - 1) * (prev as int) >= (p as int - 1) * (i64::MIN as int)) by (nonlinear_arith)
                requires
                    1 <= p as int <= 0xffff_ffff_ffff_ffffint,
                    i64::MIN <= prev as int <= i64::MAX,
            ;
            assert((p as int - 1) * (i64::MAX as int) + 2 * (i64::MAX as int) == (p as int + 1) * (
            i64::MAX as int) && (p as int - 1) * (i64::MIN as int) + 2 * (i64::MIN as int) == (
            p as int + 1) * (i64::MIN as int)) by (nonlinear_arith);
            assert((p as int + 1) * (i64::MAX as int) < i128::MAX && (p as int + 1) * (
            i64::MIN as int) >= i128::MIN) by (nonlinear_arith)
                requires
                    1 <= p as int <= 0xffff_ffff_ffff_ffffint,
            ;
        }
        let num = 2 * sample + (p - 1) * prev;
        proof {
            lemma_div_between(i64::MIN as int, i64::MAX as int, p as int + 1, num as int);
        }
        let next = div_floor(num, p + 1);
        r.push(next as i64);
        prev = next;
        idx = idx + 1;
    }
    r
}

/// Largest magnitude (in ticks) a price sample may have when it is fed
/// to [`rsi`], [`macd`] or [`bollinger_bands`]: room is needed for the
/// difference of two samples and the averaging arithmetic around it.
pub const PRICE_LIMIT: i64 = 1_000_000_000_000_000_000;

/// All samples of `s` lie within `[-bound, bound]`.
pub open spec fn within(s: Seq<i64>, bound: int) -> bool {
    forall|k: int| 0 <= k < s.len() ==> -bound <= #[trigger] s[k] <= bound
}

/// The price change from sample `k - 1` to sample `k`.
pub open spec fn delta_at(s: Seq<i64>, k: int) -> int {
    s[k] - s[k - 1]
}

/// The upward part of a price change.
pub open spec fn gain_of(d: int) -> int {
    if d > 0 {
        d
    } else {
        0
    }
}

/// The magnitude of the downward part of a price change.
pub open spec fn loss_of(d: int) -> int {
    if d < 0 {
        -d
    } else {
        0
    }
}

/// Sum of the gains of the first `count` deltas (those at indices
/// `1 ..= count`).
pub open spec fn gain_sum(s: Seq<i64>, count: int) -> int
    decreases count,
{
    if count <= 0 {
        0
    } else {
        gain_sum(s, count - 1) + gain_of(delta_at(s, count))
    }
}

/// Sum of the losses of the first `count` deltas.
pub open spec fn loss_sum(s: Seq<i64>, count: int) -> int
    decreases count,
{
    if count <= 0 {
        0
    } else {
        loss_sum(s, count - 1) + loss_of(delta_at(s, count))
    }
}

/// Wilder's smoothed average gain after `i` smoothing steps: the mean of
/// the first `p` gains, then `(avg * (p - 1) + gain) / p` for the gain
/// of the delta at source index `p + i`.
pub open spec fn avg_gain_at(s: Seq<i64>, p: int, i: int) -> int
    decreases i,
{
    if i <= 0 {
        gain_sum(s, p) / p
    } else {
        (avg_gain_at(s, p, i - 1) * (p - 1) + gain_of(delta_at(s, p + i))) / p
    }
}

/// Wilder's smoothed average loss after `i` smoothing steps.
pub open spec fn avg_loss_at(s: Seq<i64>, p: int, i: int) -> int
    decreases i,
{
    if i <= 0 {
        loss_sum(s, p) / p
    } else {
        (avg_loss_at(s, p, i - 1) * (p - 1) + loss_of(delta_at(s, p + i))) / p
    }
}

/// The RSI value at output index `i`, as a whole number of percent.
/// With average gain `g` and average loss `l`, the classic
/// `100 - 100 / (1 + g / l)` simplifies to `100 * g / (g + l)`; when `l`
/// is zero the relative strength is infinite and the RSI collapses to
/// 100 (not an undefined value).
pub open spec fn rsi_at(s: Seq<i64>, p: int, i: int) -> int {
    let g = avg_gain_at(s, p, i);
    let l = avg_loss_at(s, p, i);
    if l == 0 {
        100
    } else {
        (100 * g) / (g + l)
    }
}

/// Length of the RSI output: one value per delta left after the first
/// `p` deltas seeded the averages.
pub open spec fn rsi_out_len(n: int, p: int) -> int {
    if p <= 0 || n <= p {
        0
    } else {
        n - p
    }
}

/// The seed sums over bounded samples lie between 0 and
/// `count * 2 * PRICE_LIMIT`.
proof fn lemma_delta_sums_range(s: Seq<i64>, count: int)
    requires
        within(s, PRICE_LIMIT as int),
        0 <= count,
        count < s.len(),
    ensures
        0 <= gain_sum(s, count) <= count * (2 * PRICE_LIMIT as int),
        0 <= loss_sum(s, count) <= count * (2 * PRICE_LIMIT as int),
    decreases count,
{
    if count > 0 {
        lemma_delta_sums_range(s, count - 1);
    }
}

/// Relative Strength Index (Wilder's method).
///
/// Output index `i` corresponds to source index `i + period`: the first
/// value describes the price one past the window of deltas that seeded
/// the averages, so the alignment offset is `period`.  A zero period or
/// an input with no delta beyond the seed window yields an empty output.
/// Every value is a whole number of percent in `[0, 100]`.
pub fn rsi(prices: &[i64], period: usize) -> (r: Vec<i64>)
    requires
        within(prices@, PRICE_LIMIT as int),
    ensures
        r@.len() == rsi_out_len(prices@.len() as int, period as int),
        forall|i: int|
            0 <= i < r@.len() ==> r@[i] == rsi_at(prices@, period as int, i),
        forall|i: int| 0 <= i < r@.len() ==> 0 <= #[trigger] r@[i] <= 100,
{
    let n = prices.len();
    if period == 0 || n <= period {
        return Vec::new();
    }
    let p = period as i128;
    let mut gains: i128 = 0;
    let mut losses: i128 = 0;
    let mut j: usize = 1;
    while j <= period
        invariant
            1 <= j <= period + 1,
            period < n == prices@.len(),
            within(prices@, PRICE_LIMIT as int),
            gains == gain_sum(prices@, j as int - 1),
            losses == loss_sum(prices@, j as int - 1),
        decreases period + 1 - j,
    {
        proof {
            lemma_delta_sums_range(prices@, j as int);
        }
        let delta = prices[j] as i128 - prices[j - 1] as i128;
        if delta > 0 {
            gains = gains + delta;
        } else {
            losses = losses - delta;
        }
        j = j + 1;
    }
    proof {
        lemma_delta_sums_range(prices@, period as int);
        assert((period as int) * (2 * PRICE_LIMIT as int) <= i128::MAX) by (nonlinear_arith)
            requires
                1 <= period as int <= 0xffff_ffff_ffff_ffffint,
        ;
        lemma_div_between(0, 2 * PRICE_LIMIT as int, p as int, gains as int);
        lemma_div_between(0, 2 * PRICE_LIMIT as int, p as int, losses as int);
    }
    let mut avg_gain: i128 = div_floor(gains, p);
    let mut avg_loss: i128 = div_floor(losses, p);
    let mut r: Vec<i64> = Vec::new();
    r.push(rsi_value(avg_gain, avg_loss));
    let mut src: usize = period + 1;
    while src < n
        invariant
            1 <= period < src <= n == prices@.len(),
            p == period as i128,
            within(prices@, PRICE_LIMIT as int),
            0 <= avg_gain <= 2 * PRICE_LIMIT as int,
            0 <= avg_loss <= 2 * PRICE_LIMIT as int,
            avg_gain == avg_gain_at(prices@, period as int, src as int - 1 - period as int),
            avg_loss == avg_loss_at(prices@, period as int, src as int - 1 - period as int),
            r@.len() == src - period,
            forall|k: int| 0 <= k < r@.len() ==> r@[k] == rsi_at(prices@, period as int, k),
            forall|k: int| 0 <= k < r@.len() ==> 0 <= #[trigger] r@[k] <= 100,
        decreases n - src,
    {
        let delta = prices[src] as i128 - prices[src - 1] as i128;
        let gain: i128 = if delta > 0 {
            delta
        } else {
            0
        };
        let loss: i128 = if delta < 0 {
            -delta
        } else {
            0
        };
        proof {
            assert(0 <= (avg_gain as int) * (p as int - 1) + gain as int <= (p as int) * (2
                * PRICE_LIMIT as int) && (p as int) * (2 * PRICE_LIMIT as int) < i128::MAX)
                by (nonlinear_arith)
                requires
                    1 <= p as int <= 0xffff_ffff_ffff_ffffint,
                    0 <= avg_gain as int <= 2 * PRICE_LIMIT as int,
                    0 <= gain as int <= 2 * PRICE_LIMIT as int,
            ;
            assert(0 <= (avg_loss as int) * (p as int - 1) + loss as int <= (p as int) * (2
                * PRICE_LIMIT as int)) by (nonlinear_arith)
                requires
                    1 <= p as int <= 0xffff_ffff_ffff_ffffint,
                    0 <= avg_loss as int <= 2 * PRICE_LIMIT as int,
                    0 <= loss as int <= 2 * PRICE_LIMIT as int,
            ;
            lemma_div_between(
                0,
                2 * PRICE_LIMIT as int,
                p as int,
                (avg_gain as int) * (p as int - 1) + gain as int,
            );
            lemma_div_between(
                0,
                2 * PRICE_LIMIT as int,
                p as int,
                (avg_loss as int) * (p as int - 1) + loss as int,
            );
        }
        avg_gain = div_floor(avg_gain * (p - 1) + gain, p);
        avg_loss = div_floor(avg_loss * (p - 1) + loss, p);
        r.push(rsi_value(avg_gain, avg_loss));
        src = src + 1;
    }
    r
}

/// Turns a pair of smoothed averages into the RSI percentage
/// `100 * g / (g + l)`, or 100 when the average loss is zero.
fn rsi_value(g: i128, l: i128) -> (v: i64)
    requires
        0 <= g <= 2 * PRICE_LIMIT as int,
        0 <= l <= 2 * PRICE_LIMIT as int,
    ensures
        v == if l == 0 {
            100int
        } else {
            (100 * g) / (g + l)
        },
        0 <= v <= 100,
{
    if l == 0 {
        100
    } else {
        proof {
            lemma_div_between(0, 100, g as int + l as int, 100 * g as int);
        }
        div_floor(100 * g, g + l) as i64
    }
}

/// A window sum over samples within `[-b, b]` lies within
/// `[count * -b, count * b]`.
proof fn lemma_window_sum_within(s: Seq<i64>, start: int, count: int, b: int)
    requires
        within(s, b),
        0 <= b,
        0 <= start,
        0 <= count,
        start + count <= s.len(),
    ensures
        count * -b <= window_sum(s, start, count),
        window_sum(s, start, count) <= count * b,
    decreases count,
{
    if count > 0 {
        lemma_window_sum_within(s, start, count - 1, b);
        assert((count - 1) * -b + -b == count * -b && (count - 1) * b + b == count * b)
            by (nonlinear_arith);
    }
}

/// The SMA of samples within `[-b, b]` lies within `[-b, b]` as well.
pub proof fn lemma_sma_at_within(s: Seq<i64>, p: int, i: int, b: int)
    requires
        within(s, b),
        0 <= b,
        1 <= p,
        0 <= i,
        i + p <= s.len(),
    ensures
        -b <= sma_at(s, p, i) <= b,
{
    lemma_window_sum_within(s, i, p, b);
    assert(p * -b == -(p * b)) by (nonlinear_arith);
    lemma_div_between(-b, b, p, window_sum(s, i, p));
}

/// The EMA of samples within `[-b, b]` lies within `[-b, b]` as well:
/// the seed is an SMA and every step is a weighted mean of a sample and
/// its predecessor.
pub proof fn lemma_ema_at_within(s: Seq<i64>, p: int, i: int, b: int)
    requires
        within(s, b),
        0 <= b,
        1 <= p <= s.len(),
        0 <= i,
        p - 1 + i < s.len(),
    ensures
        -b <= ema_at(s, p, i) <= b,
    decreases i,
{
    if i <= 0 {
        lemma_sma_at_within(s, p, 0, b);
    } else {
        lemma_ema_at_within(s, p, i - 1, b);
        let prev = ema_at(s, p, i - 1);
        let num = 2 * s[p - 1 + i] + (p - 1) * prev;
        assert((p + 1) * -b <= num <= (p + 1) * b) by (nonlinear_arith)
            requires
                1 <= p,
                0 <= b,
                -b <= prev <= b,
                -b <= s[p - 1 + i] <= b,
                num == 2 * s[p - 1 + i] + (p - 1) * prev,
        ;
        lemma_div_between(-b, b, p + 1, num);
    }
}

/// The MACD line value at output index `i`: the fast EMA minus the slow
/// EMA, both taken at the same source index `i + slow - 1`.  Sliding the
/// fast EMA by `slow - fast` aligns the two series.
pub open spec fn macd_at(s: Seq<i64>, fast: int, slow: int, i: int) -> int {
    ema_at(s, fast, i + slow - fast) - ema_at(s, slow, i)
}

/// The MACD guards: every period positive, a sample to work on, and the
/// fast period strictly shorter than the slow one.
pub open spec fn macd_valid(n: int, fast: int, slow: int, signal: int) -> bool {
    n > 0 && fast > 0 && slow > 0 && signal > 0 && fast < slow
}

/// Length of the MACD line: one value per index where both EMAs are
/// defined, which is exactly one value per full slow window.
pub open spec fn macd_line_len(n: int, fast: int, slow: int, signal: int) -> int {
    if macd_valid(n, fast, slow, signal) {
        out_len(n, slow)
    } else {
        0
    }
}

/// Moving average convergence/divergence.
pub struct MacdResult {
    pub macd_line: Vec<i64>,
    pub signal_line: Vec<i64>,
    pub histogram: Vec<i64>,
}

/// MACD: the difference of a fast and a slow EMA, an EMA of that
/// difference (the signal line), and their difference (the histogram).
///
/// The three outputs have different alignments: relative to the source
/// prices the MACD line has offset `slow_period - 1`; the signal line is
/// offset `signal_period - 1` further, and the histogram is aligned with
/// the signal line.  Invalid periods (`0`, or `fast_period >=
/// slow_period`) and an empty input yield three empty outputs.
pub fn macd(prices: &[i64], fast_period: usize, slow_period: usize, signal_period: usize) -> (r:
    MacdResult)
    requires
        within(prices@, PRICE_LIMIT as int),
    ensures
        r.macd_line@.len() == macd_line_len(
            prices@.len() as int,
            fast_period as int,
            slow_period as int,
            signal_period as int,
        ),
        forall|i: int|
            0 <= i < r.macd_line@.len() ==> r.macd_line@[i] == macd_at(
                prices@,
                fast_period as int,
                slow_period as int,
                i,
            ),
        within(r.macd_line@, 2 * PRICE_LIMIT as int),
        r.signal_line@.len() == out_len(r.macd_line@.len() as int, signal_period as int),
        forall|i: int|
            0 <= i < r.signal_line@.len() ==> r.signal_line@[i] == ema_at(
                r.macd_line@,
                signal_period as int,
                i,
            ),
        r.histogram@.len() == r.signal_line@.len(),
        forall|k: int|
            0 <= k < r.histogram@.len() ==> r.histogram@[k] == r.macd_line@[k + signal_period - 1]
                - r.signal_line@[k],
{
    let n = prices.len();
    if n == 0 || fast_period == 0 || slow_period == 0 || signal_period == 0 || fast_period
        >= slow_period {
        return MacdResult { macd_line: Vec::new(), signal_line: Vec::new(), histogram: Vec::new() };
    }
    let fast_ema = ema(prices, fast_period);
    let slow_ema = ema(prices, slow_period);
    let offset = slow_period - fast_period;
    let mut macd_line: Vec<i64> = Vec::new();
    let m = slow_ema.len();
    let mut i: usize = 0;
    while i < m
        invariant
            within(prices@, PRICE_LIMIT as int),
            1 <= fast_period < slow_period,
            offset == slow_period - fast_period,
            n == prices@.len(),
            m == slow_ema@.len() == out_len(prices@.len() as int, slow_period as int),
            m <= prices@.len(),
            fast_ema@.len() == out_len(prices@.len() as int, fast_period as int),
            forall|k: int|
                0 <= k < fast_ema@.len() ==> fast_ema@[k] == ema_at(
                    prices@,
                    fast_period as int,
                    k,
                ),
            forall|k: int|
                0 <= k < slow_ema@.len() ==> slow_ema@[k] == ema_at(
                    prices@,
                    slow_period as int,
                    k,
                ),
            0 <= i <= m,
            macd_line@.len() == i as int,
            forall|k: int|
                0 <= k < i as int ==> macd_line@[k] == macd_at(
                    prices@,
                    fast_period as int,
                    slow_period as int,
                    k,
                ),
            within(macd_line@, 2 * PRICE_LIMIT as int),
        decreases m - i,
    {
        proof {
            assert(out_len(prices@.len() as int, slow_period as int) >= 1);
            assert(prices@.len() >= slow_period);
            assert(i as int + offset as int <= prices@.len() - fast_period);
            assert((i as int + offset as int) < fast_ema@.len());
            lemma_ema_at_within(
                prices@,
                fast_period as int,
                i as int + offset as int,
                PRICE_LIMIT as int,
            );
            lemma_ema_at_within(prices@, slow_period as int, i as int, PRICE_LIMIT as int);
        }
        let v = fast_ema[i + offset] - slow_ema[i];
        macd_line.push(v);
        i = i + 1;
    }
    let signal_line = ema(macd_line.as_slice(), signal_period);
    let mut histogram: Vec<i64> = Vec::new();
    let h = signal_line.len();
    let ml = macd_line.len();
    let mut k: usize = 0;
    while k < h
        invariant
            1 <= signal_period,
            ml == macd_line@.len(),
            within(macd_line@, 2 * PRICE_LIMIT as int),
            h == signal_line@.len() == out_len(macd_line@.len() as int, signal_period as int),
            h == 0 || h + signal_period - 1 <= macd_line@.len(),
            forall|j: int|
                0 <= j < signal_line@.len() ==> signal_line@[j] == ema_at(
                    macd_line@,
                    signal_period as int,
                    j,
                ),
            0 <= k <= h,
            histogram@.len() == k as int,
            forall|j: int|
                0 <= j < k as int ==> histogram@[j] == macd_line@[j + signal_period - 1]
                    - signal_line@[j],
        decreases h - k,
    {
        proof {
            lemma_ema_at_within(
                macd_line@,
                signal_period as int,
                k as int,
                2 * PRICE_LIMIT as int,
            );
        }
        let v = macd_line[k + signal_period - 1] - signal_line[k];
        histogram.push(v);
        k = k + 1;
    }
    MacdResult { macd_line, signal_line, histogram }
}

/// Largest magnitude a price sample may have when it is fed to
/// [`bollinger_bands`]: squared deviations of a whole window must fit
/// the accumulator.
pub const BOLLINGER_PRICE_LIMIT: i64 = 10_000_000_000_000;

/// Largest number of samples [`bollinger_bands`] accepts: a round
/// number chosen with ample slack, since the squared-deviation
/// accumulator only overflows its 128 bits beyond roughly four thousand
/// times as many samples.
pub const BOLLINGER_LEN_LIMIT: usize = 100_000_000;

/// Largest magnitude of the standard-deviation multiplier of
/// [`bollinger_bands`].
pub const MULTIPLIER_LIMIT: i64 = 100_000;

/// The square root of `x`, rounded down; 0 for negative `x`.
pub open spec fn sqrt_floor(x: int) -> int
    decreases x,
{
    if x < 1 {
        0
    } else {
        let r = sqrt_floor(x - 1);
        if (r + 1) * (r + 1) <= x {
            r + 1
        } else {
            r
        }
    }
}

/// `sqrt_floor(x)` is the unique nonnegative integer whose square is at
/// most `x` while the next square is beyond `x`.
proof fn lemma_sqrt_floor_props(x: int)
    requires
        0 <= x,
    ensures
        0 <= sqrt_floor(x),
        sqrt_floor(x) * sqrt_floor(x) <= x,
        x < (sqrt_floor(x) + 1) * (sqrt_floor(x) + 1),
    decreases x,
{
    if x >= 1 {
        lemma_sqrt_floor_props(x - 1);
        let r = sqrt_floor(x - 1);
        if (r + 1) * (r + 1) <= x {
            assert(x < (r + 2) * (r + 2)) by (nonlinear_arith)
                requires
                    0 <= r,
                    x - 1 < (r + 1) * (r + 1),
                    (r + 1) * (r + 1) <= x,
            ;
        }
    }
}

/// Any witness of the square-root bracketing equals `sqrt_floor(x)`.
proof fn lemma_sqrt_floor_unique(x: int, r: int)
    requires
        0 <= x,
        0 <= r,
        r * r <= x,
        x < (r + 1) * (r + 1),
    ensures
        r == sqrt_floor(x),
{
    lemma_sqrt_floor_props(x);
    let s = sqrt_floor(x);
    assert(r == s) by (nonlinear_arith)
        requires
            0 <= r,
            0 <= s,
            r * r <= x,
            x < (r + 1) * (r + 1),
            s * s <= x,
            x < (s + 1) * (s + 1),
    ;
}

/// Integer square root by bisection.
fn isqrt(x: u128) -> (r: u128)
    requires
        x as int <= 1_000_000_000_000_000_000_000_000_000_000,
    ensures
        r as int == sqrt_floor(x as int),
{
    let mut lo: u128 = 0;
    let mut hi: u128 = 1_000_000_000_000_000_000;
    while lo + 1 < hi
        invariant
            0 <= lo < hi <= 1_000_000_000_000_000_000,
            (lo as int) * (lo as int) <= x as int,
            (x as int) < (hi as int) * (hi as int),
        decreases hi - lo,
    {
        let mid = lo + (hi - lo) / 2;
        proof {
            assert((mid as int) * (mid as int) <= 1_000_000_000_000_000_000_000_000_000_000_000_000int)
                by (nonlinear_arith)
                requires
                    0 <= mid as int <= 1_000_000_000_000_000_000int,
            ;
        }
        if mid * mid <= x {
            lo = mid;
        } else {
            hi = mid;
        }
    }
    proof {
        lemma_sqrt_floor_unique(x as int, lo as int);
    }
    lo
}

/// Sum of the squared deviations of the `count` samples
/// `s[start .. start + count]` from `m`.
pub open spec fn dev_sq_sum(s: Seq<i64>, m: int, start: int, count: int) -> int
    decreases count,
{
    if count <= 0 {
        0
    } else {
        dev_sq_sum(s, m, start, count - 1) + (s[start + count - 1] - m) * (s[start + count - 1]
            - m)
    }
}

/// The population variance of the window of `p` samples ending at source
/// index `i + p - 1`, around the (rounded) SMA of that window, rounded
/// toward negative infinity.
pub open spec fn variance_at(s: Seq<i64>, p: int, i: int) -> int {
    dev_sq_sum(s, sma_at(s, p, i), i, p) / p
}

/// Half the width of the Bollinger band at output index `i`: the
/// multiplier times the (rounded) standard deviation of the window.
pub open spec fn band_width_at(s: Seq<i64>, p: int, mult: int, i: int) -> int {
    mult * sqrt_floor(variance_at(s, p, i))
}

/// A sum of squared deviations from a mean within the Bollinger range is
/// nonnegative and at most `count` times the largest squared deviation.
proof fn lemma_dev_sq_sum_range(s: Seq<i64>, m: int, start: int, count: int)
    requires
        within(s, BOLLINGER_PRICE_LIMIT as int),
        -BOLLINGER_PRICE_LIMIT <= m <= BOLLINGER_PRICE_LIMIT,
        0 <= start,
        0 <= count,
        start + count <= s.len(),
    ensures
        0 <= dev_sq_sum(s, m, start, count),
        dev_sq_sum(s, m, start, count) <= count * 400_000_000_000_000_000_000_000_000,
    decreases count,
{
    if count > 0 {
        lemma_dev_sq_sum_range(s, m, start, count - 1);
        let d = s[start + count - 1] - m;
        assert(0 <= d * d <= 400_000_000_000_000_000_000_000_000int) by (nonlinear_arith)
            requires
                -20_000_000_000_000int <= d <= 20_000_000_000_000int,
        ;
        assert((count - 1) * 400_000_000_000_000_000_000_000_000int
            + 400_000_000_000_000_000_000_000_000int == count
            * 400_000_000_000_000_000_000_000_000int) by (nonlinear_arith);
    }
}

/// Bollinger bands.
pub struct BollingerBands {
    pub upper_band: Vec<i64>,
    pub middle_band: Vec<i64>,
    pub lower_band: Vec<i64>,
}

/// Bollinger bands: the SMA as the middle band, and the upper and lower
/// bands a multiple of the window's standard deviation away from it.
///
/// All three bands share the SMA's length and alignment offset
/// `period - 1`.  The same guards as [`sma`] yield empty bands.
pub fn bollinger_bands(prices: &[i64], period: usize, std_dev: i64) -> (r: BollingerBands)
    requires
        within(prices@, BOLLINGER_PRICE_LIMIT as int),
        prices@.len() <= BOLLINGER_LEN_LIMIT as int,
        -MULTIPLIER_LIMIT <= std_dev <= MULTIPLIER_LIMIT,
    ensures
        r.middle_band@.len() == out_len(prices@.len() as int, period as int),
        r.upper_band@.len() == r.middle_band@.len(),
        r.lower_band@.len() == r.middle_band@.len(),
        forall|i: int|
            0 <= i < r.middle_band@.len() ==> r.middle_band@[i] == sma_at(
                prices@,
                period as int,
                i,
            ),
        forall|i: int|
            0 <= i < r.upper_band@.len() ==> r.upper_band@[i] == sma_at(prices@, period as int, i)
                + band_width_at(prices@, period as int, std_dev as int, i),
        forall|i: int|
            0 <= i < r.lower_band@.len() ==> r.lower_band@[i] == sma_at(prices@, period as int, i)
                - band_width_at(prices@, period as int, std_dev as int, i),
{
    let n = prices.len();
    if period == 0 || n < period {
        return BollingerBands {
            upper_band: Vec::new(),
            middle_band: Vec::new(),
            lower_band: Vec::new(),
        };
    }
    let middle_band = sma(prices, period);
    let len = middle_band.len();
    let mut upper_band: Vec<i64> = Vec::new();
    let mut lower_band: Vec<i64> = Vec::new();
    let mut i: usize = 0;
    while i < len
        invariant
            1 <= period <= n == prices@.len(),
            n <= BOLLINGER_LEN_LIMIT,
            within(prices@, BOLLINGER_PRICE_LIMIT as int),
            -MULTIPLIER_LIMIT <= std_dev <= MULTIPLIER_LIMIT,
            len == middle_band@.len() == out_len(prices@.len() as int, period as int),
            len + period - 1 == n,
            forall|k: int|
                0 <= k < middle_band@.len() ==> middle_band@[k] == sma_at(
                    prices@,
                    period as int,
                    k,
                ),
            0 <= i <= len,
            upper_band@.len() == i as int,
            lower_band@.len() == i as int,
            forall|k: int|
                0 <= k < i as int ==> upper_band@[k] == sma_at(prices@, period as int, k)
                    + band_width_at(prices@, period as int, std_dev as int, k),
            forall|k: int|
                0 <= k < i as int ==> lower_band@[k] == sma_at(prices@, period as int, k)
                    - band_width_at(prices@, period as int, std_dev as int, k),
        decreases len - i,
    {
        let mean = middle_band[i];
        proof {
            lemma_sma_at_within(prices@, period as int, i as int, BOLLINGER_PRICE_LIMIT as int);
        }
        let mut dss: i128 = 0;
        let mut j: usize = 0;
        while j < period
            invariant
                1 <= period,
                0 <= j <= period,
                period <= BOLLINGER_LEN_LIMIT,
                n == prices@.len(),
                i as int + period <= prices@.len(),
                within(prices@, BOLLINGER_PRICE_LIMIT as int),
                -BOLLINGER_PRICE_LIMIT <= mean <= BOLLINGER_PRICE_LIMIT,
                dss == dev_sq_sum(prices@, mean as int, i as int, j as int),
            decreases period - j,
        {
            proof {
                lemma_dev_sq_sum_range(prices@, mean as int, i as int, j as int + 1);
                let d = prices@[i as int + j as int] - mean as int;
                assert(0 <= d * d <= 400_000_000_000_000_000_000_000_000int) by (nonlinear_arith)
                    requires
                        -20_000_000_000_000int <= d <= 20_000_000_000_000int,
                ;
                assert((j as int + 1) * 400_000_000_000_000_000_000_000_000int <= i128::MAX)
                    by (nonlinear_arith)
                    requires
                        0 <= j as int + 1 <= 100_000_000int,
                ;
            }
            let d = prices[i + j] as i128 - mean as i128;
            dss = dss + d * d;
            j = j + 1;
        }
        proof {
            lemma_dev_sq_sum_range(prices@, mean as int, i as int, period as int);
            assert((period as int) * 400_000_000_000_000_000_000_000_000int <= (
            100_000_000_000_000_000_000_000_000_000_000_000int)) by (nonlinear_arith)
                requires
                    0 <= period as int <= 100_000_000int,
            ;
            lemma_div_between(
                0,
                400_000_000_000_000_000_000_000_000int,
                period as int,
                dss as int,
            );
        }
        let variance = div_floor(dss, period as i128);
        let std = isqrt(variance as u128);
        proof {
            lemma_sqrt_floor_props(variance as int);
            assert(std as int <= 20_000_000_000_000int) by (nonlinear_arith)
                requires
                    0 <= std as int,
                    (std as int) * (std as int) <= 400_000_000_000_000_000_000_000_000int,
            ;
            assert(-2_000_000_000_000_000_000int <= (std_dev as int) * (std as int)
                <= 2_000_000_000_000_000_000int) by (nonlinear_arith)
                requires
                    -100_000int <= std_dev as int <= 100_000int,
                    0 <= std as int <= 20_000_000_000_000int,
            ;
        }
        let width = std_dev * (std as i64);
        upper_band.push(mean + width);
        lower_band.push(mean - width);
        i = i + 1;
    }
    BollingerBands { upper_band, middle_band, lower_band }
}

/// An SMA with window 1 is the identity: it returns the whole signal,
/// value for value.
pub proof fn lemma_sma_window_one(s: Seq<i64>)
    ensures
        out_len(s.len() as int, 1) == s.len(),
        forall|i: int| 0 <= i < s.len() ==> sma_at(s, 1, i) == s[i],
{
    assert forall|i: int| 0 <= i < s.len() implies sma_at(s, 1, i) == s[i] by {
        assert(window_sum(s, i, 1) == window_sum(s, i, 0) + s[i]);
        assert(window_sum(s, i, 0) == 0);
        vstd::arithmetic::div_mod::lemma_div_basics(s[i] as int);
    }
}

/// A window sum over a prefix only looks at that prefix: restricting the
/// sequence to the first `p` samples does not change it.
proof fn lemma_window_sum_subrange(s: Seq<i64>, p: int, count: int)
    requires
        0 <= count <= p <= s.len(),
    ensures
        window_sum(s, 0, count) == window_sum(s.subrange(0, p), 0, count),
    decreases count,
{
    if count > 0 {
        lemma_window_sum_subrange(s, p, count - 1);
    }
}

/// The EMA seed equals the SMA of the first window: `ema_at(s, p, 0)` is
/// exactly the one SMA value of `s[0 .. p]`.
pub proof fn lemma_ema_seed_is_sma(s: Seq<i64>, p: int)
    requires
        1 <= p <= s.len(),
    ensures
        ema_at(s, p, 0) == sma_at(s.subrange(0, p), p, 0),
        out_len(p, p) == 1,
{
    lemma_window_sum_subrange(s, p, p);
}

/// On a strictly rising price series every delta is a gain, so the
/// smoothed average loss stays zero.
proof fn lemma_avg_loss_stays_zero(s: Seq<i64>, p: int, i: int)
    requires
        1 <= p,
        0 <= i,
        p + i < s.len(),
        forall|k: int| 1 <= k < s.len() ==> s[k - 1] < #[trigger] s[k],
    ensures
        avg_loss_at(s, p, i) == 0,
    decreases i,
{
    if i <= 0 {
        lemma_loss_sum_zero(s, p);
        vstd::arithmetic::div_mod::lemma_div_of0(p);
    } else {
        lemma_avg_loss_stays_zero(s, p, i - 1);
        vstd::arithmetic::div_mod::lemma_div_of0(p);
    }
}

/// All losses of a strictly rising series vanish.
proof fn lemma_loss_sum_zero(s: Seq<i64>, count: int)
    requires
        count < s.len(),
        forall|k: int| 1 <= k < s.len() ==> s[k - 1] < #[trigger] s[k],
    ensures
        loss_sum(s, count) == 0,
    decreases count,
{
    if count > 0 {
        lemma_loss_sum_zero(s, count - 1);
    }
}

/// All gains of a strictly falling series vanish.
proof fn lemma_gain_sum_zero(s: Seq<i64>, count: int)
    requires
        count < s.len(),
        forall|k: int| 1 <= k < s.len() ==> s[k - 1] > #[trigger] s[k],
    ensures
        gain_sum(s, count) == 0,
    decreases count,
{
    if count > 0 {
        lemma_gain_sum_zero(s, count - 1);
    }
}

/// All losses of a strictly falling integer series are at least 1, so
/// every loss sum over `count` deltas is at least `count`.
proof fn lemma_loss_sum_at_least(s: Seq<i64>, count: int)
    requires
        0 <= count,
        count < s.len(),
        forall|k: int| 1 <= k < s.len() ==> s[k - 1] > #[trigger] s[k],
    ensures
        loss_sum(s, count) >= count,
    decreases count,
{
    if count > 0 {
        lemma_loss_sum_at_least(s, count - 1);
    }
}

/// On a strictly falling price series the smoothed average gain stays
/// zero while the smoothed average loss stays at least 1.
proof fn lemma_falling_averages(s: Seq<i64>, p: int, i: int)
    requires
        1 <= p,
        0 <= i,
        p + i < s.len(),
        forall|k: int| 1 <= k < s.len() ==> s[k - 1] > #[trigger] s[k],
    ensures
        avg_gain_at(s, p, i) == 0,
        avg_loss_at(s, p, i) >= 1,
    decreases i,
{
    vstd::arithmetic::div_mod::lemma_div_of0(p);
    if i <= 0 {
        lemma_gain_sum_zero(s, p);
        lemma_loss_sum_at_least(s, p);
        lemma_div_is_ordered(p, loss_sum(s, p), p);
        vstd::arithmetic::div_mod::lemma_div_by_self(p);
    } else {
        lemma_falling_averages(s, p, i - 1);
        let l = avg_loss_at(s, p, i - 1);
        let step = loss_of(delta_at(s, p + i));
        assert(l * (p - 1) + step >= p) by (nonlinear_arith)
            requires
                1 <= p,
                l >= 1,
                step >= 1,
        ;
        lemma_div_is_ordered(p, l * (p - 1) + step, p);
        vstd::arithmetic::div_mod::lemma_div_by_self(p);
    }
}

/// On a strictly rising price series of more than `p` samples every RSI
/// value is exactly 100.
pub proof fn lemma_rsi_strictly_rising(s: Seq<i64>, p: int)
    requires
        1 <= p,
        p < s.len(),
        forall|k: int| 1 <= k < s.len() ==> s[k - 1] < #[trigger] s[k],
    ensures
        forall|i: int| 0 <= i < rsi_out_len(s.len() as int, p) ==> rsi_at(s, p, i) == 100,
{
    assert forall|i: int| 0 <= i < rsi_out_len(s.len() as int, p) implies rsi_at(s, p, i)
        == 100 by {
        lemma_avg_loss_stays_zero(s, p, i);
    }
}

/// On a strictly falling price series of more than `p` samples every RSI
/// value is exactly 0.
pub proof fn lemma_rsi_strictly_falling(s: Seq<i64>, p: int)
    requires
        1 <= p,
        p < s.len(),
        forall|k: int| 1 <= k < s.len() ==> s[k - 1] > #[trigger] s[k],
    ensures
        forall|i: int| 0 <= i < rsi_out_len(s.len() as int, p) ==> rsi_at(s, p, i) == 0,
{
    assert forall|i: int| 0 <= i < rsi_out_len(s.len() as int, p) implies rsi_at(s, p, i) == 0 by {
        lemma_falling_averages(s, p, i);
        let g = avg_gain_at(s, p, i);
        let l = avg_loss_at(s, p, i);
        vstd::arithmetic::div_mod::lemma_div_of0(g + l);
    }
}

/// A sum of squared deviations is never negative.
proof fn lemma_dev_sq_sum_nonneg(s: Seq<i64>, m: int, start: int, count: int)
    ensures
        0 <= dev_sq_sum(s, m, start, count),
    decreases count,
{
    if count > 0 {
        lemma_dev_sq_sum_nonneg(s, m, start, count - 1);
        let d = s[start + count - 1] - m;
        assert(0 <= d * d) by (nonlinear_arith);
    }
}

/// The Bollinger band width is never negative for a nonnegative
/// multiplier, so the upper band runs at or above the middle band and
/// the lower band at or below it.  For a positive multiplier the width
/// vanishes exactly when the window's squared deviations sum to less
/// than the period, i.e. when the rounded variance is zero.
pub proof fn lemma_bollinger_band_order(s: Seq<i64>, p: int, mult: int, i: int)
    requires
        1 <= p,
        0 <= mult,
    ensures
        0 <= band_width_at(s, p, mult, i),
        sma_at(s, p, i) - band_width_at(s, p, mult, i) <= sma_at(s, p, i) <= sma_at(s, p, i)
            + band_width_at(s, p, mult, i),
        mult > 0 ==> (band_width_at(s, p, mult, i) == 0 <==> dev_sq_sum(
            s,
            sma_at(s, p, i),
            i,
            p,
        ) < p),
{
    let dss = dev_sq_sum(s, sma_at(s, p, i), i, p);
    lemma_dev_sq_sum_nonneg(s, sma_at(s, p, i), i, p);
    vstd::arithmetic::div_mod::lemma_div_pos_is_pos(dss, p);
    let v = variance_at(s, p, i);
    lemma_sqrt_floor_props(v);
    let w = sqrt_floor(v);
    assert(0 <= mult * w) by (nonlinear_arith)
        requires
            0 <= mult,
            0 <= w,
    ;
    if mult > 0 {
        if dss < p {
            vstd::arithmetic::div_mod::lemma_basic_div(dss, p);
            assert(v == 0);
            assert(w == 0);
            assert(mult * 0 == 0) by (nonlinear_arith);
            assert(band_width_at(s, p, mult, i) == 0);
        } else {
            lemma_div_is_ordered(p, dss, p);
            vstd::arithmetic::div_mod::lemma_div_by_self(p);
            assert(v >= 1);
            assert(w >= 1) by (nonlinear_arith)
                requires
                    0 <= w,
                    v >= 1,
                    v < (w + 1) * (w + 1),
            ;
            assert(mult * w >= 1) by (nonlinear_arith)
                requires
                    mult >= 1,
                    w >= 1,
            ;
        }
    }
}

/// Over a constant window the SMA is that constant and the band width is
/// zero: all three Bollinger bands coincide.
pub proof fn lemma_bollinger_constant_window(s: Seq<i64>, p: int, mult: int, i: int, c: i64)
    requires
        1 <= p,
        0 <= i,
        i + p <= s.len(),
        forall|k: int| i <= k < i + p ==> #[trigger] s[k] == c,
    ensures
        sma_at(s, p, i) == c,
        band_width_at(s, p, mult, i) == 0,
{
    lemma_window_sum_const(s, i, p, c as int);
    lemma_div_multiples_vanish(c as int, p);
    assert(p * (c as int) == (c as int) * p) by (nonlinear_arith);
    lemma_dev_sq_sum_const(s, i, p, c as int);
    vstd::arithmetic::div_mod::lemma_div_of0(p);
    assert(sqrt_floor(0) == 0);
    assert(mult * 0 == 0) by (nonlinear_arith);
}

/// The sum of a constant window is `count` times the constant.
proof fn lemma_window_sum_const(s: Seq<i64>, start: int, count: int, c: int)
    requires
        0 <= count,
        forall|k: int| start <= k < start + count ==> #[trigger] s[k] == c,
    ensures
        window_sum(s, start, count) == count * c,
    decreases count,
{
    if count > 0 {
        lemma_window_sum_const(s, start, count - 1, c);
        assert((count - 1) * c + c == count * c) by (nonlinear_arith);
    } else {
        assert(0 * c == 0) by (nonlinear_arith);
    }
}

/// The squared deviations of a constant window from that constant sum to
/// zero.
proof fn lemma_dev_sq_sum_const(s: Seq<i64>, start: int, count: int, c: int)
    requires
        0 <= count,
        forall|k: int| start <= k < start + count ==> #[trigger] s[k] == c,
    ensures
        dev_sq_sum(s, c, start, count) == 0,
    decreases count,
{
    if count > 0 {
        lemma_dev_sq_sum_const(s, start, count - 1, c);
        let d = s[start + count - 1] - c;
        assert(s[start + count - 1] == c);
        assert(d * d == 0) by (nonlinear_arith)
            requires
                d == 0,
        ;
    }
}

/// Divides a window sum by the window length; the quotient always fits
/// in `i64` because the sum of `p` samples lies within `p` times the
/// `i64` range.
fn mean_of_window(window: i128, period: usize, s: Ghost<Seq<i64>>, start: Ghost<int>) -> (m: i64)
    requires
        period >= 1,
        0 <= start@,
        start@ + period <= s@.len(),
        window == window_sum(s@, start@, period as int),
    ensures
        m == sma_at(s@, period as int, start@),
{
    proof {
        lemma_window_sum_range(s@, start@, period as int);
        lemma_div_between(i64::MIN as int, i64::MAX as int, period as int, window as int);
    }
    div_floor(window, period as i128) as i64
}

} // verus!
