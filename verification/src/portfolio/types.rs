//! Type definitions for portfolio data structures.
//!
//! All quantities are plain integers.  Prices, position values and
//! equity values are fixed-point ticks whose size the caller picks (the
//! same convention as [`crate::portfolio::indicators`]); timestamps are
//! seconds since the Unix epoch; fractions such as weights and returns
//! are scaled by [`WEIGHT_SCALE`]; percentages are scaled by
//! [`PERCENT_SCALE`].

use vstd::prelude::*;
use crate::portfolio::indicators::div_floor;
use crate::strmap::StringMap;

verus! {

/// A fraction of 1.0, as stored in weight fields: a full weight is
/// `WEIGHT_SCALE`.
pub const WEIGHT_SCALE: i64 = 1_000_000;

/// One percent, as stored in percentage fields: a change of +5% is
/// `5 * PERCENT_SCALE`.
pub const PERCENT_SCALE: i64 = 10_000;

/// Clamps an arbitrary integer into the `i64` range.
pub open spec fn clamp_to_i64(x: int) -> int {
    if x < i64::MIN {
        i64::MIN as int
    } else if x > i64::MAX {
        i64::MAX as int
    } else {
        x
    }
}

/// Division with the quotient rounded toward zero, written over the
/// magnitudes so that it is defined by floor division on nonnegative
/// numbers.
pub open spec fn div_trunc(a: int, b: int) -> int {
    let m = (if a >= 0 {
        a
    } else {
        -a
    }) / (if b >= 0 {
        b
    } else {
        -b
    });
    if (a >= 0) == (b >= 0) {
        m
    } else {
        -m
    }
}

/// Clamps an `i128` into the `i64` range.
pub(crate) fn clamp_i64(x: i128) -> (r: i64)
    ensures
        r == clamp_to_i64(x as int),
{
    if x < i64::MIN as i128 {
        i64::MIN
    } else if x > i64::MAX as i128 {
        i64::MAX
    } else {
        x as i64
    }
}

/// Division of `i128` values with the quotient rounded toward zero.
pub(crate) fn div_trunc_i128(a: i128, b: i128) -> (q: i128)
    requires
        b != 0,
        a > i128::MIN,
        b > i128::MIN,
    ensures
        q == div_trunc(a as int, b as int),
{
    let na = if a < 0 {
        -a
    } else {
        a
    };
    let nb = if b < 0 {
        -b
    } else {
        b
    };
    let m = div_floor(na, nb);
    proof {
        vstd::arithmetic::div_mod::lemma_div_pos_is_pos(na as int, nb as int);
        vstd::arithmetic::div_mod::lemma_div_nonincreasing(na as int, nb as int);
    }
    if (a < 0) != (b < 0) {
        -m
    } else {
        m
    }
}

/// Statistical risk measures of a portfolio, each scaled by
/// [`WEIGHT_SCALE`].
#[derive(Debug, Clone)]
pub struct RiskMetrics {
    pub volatility: i64,
    pub sharpe_ratio: i64,
    pub max_drawdown: i64,
    pub var_95: i64,
}

/// Return measures of a portfolio, each scaled by [`WEIGHT_SCALE`].
#[derive(Debug, Clone)]
pub struct PerformanceMetrics {
    pub total_return: i64,
    pub annualized_return: i64,
    pub alpha: i64,
    pub beta: i64,
}

impl Default for RiskMetrics {
    /// All measures zero.
    fn default() -> (r: Self)
        ensures
            r.volatility == 0,
            r.sharpe_ratio == 0,
            r.max_drawdown == 0,
            r.var_95 == 0,
    {
        RiskMetrics { volatility: 0, sharpe_ratio: 0, max_drawdown: 0, var_95: 0 }
    }
}

impl Default for PerformanceMetrics {
    /// All measures zero.
    fn default() -> (r: Self)
        ensures
            r.total_return == 0,
            r.annualized_return == 0,
            r.alpha == 0,
            r.beta == 0,
    {
        PerformanceMetrics { total_return: 0, annualized_return: 0, alpha: 0, beta: 0 }
    }
}

/// One bar of price history: prices in ticks, timestamp in epoch
/// seconds.
#[derive(Debug, Clone)]
pub struct PricePoint {
    pub timestamp: i64,
    pub open: i64,
    pub high: i64,
    pub low: i64,
    pub close: i64,
    pub volume: u64,
}

/// An OHLCV bar enriched with computed fields.
#[derive(Debug, Clone)]
pub struct OhlcvBar {
    pub timestamp: i64,
    pub open: i64,
    pub high: i64,
    pub low: i64,
    pub close: i64,
    pub volume: u64,
    pub adj_close: Option<i64>,
    /// `(high + low + close) / 3`, rounded toward negative infinity.
    pub typical_price: i64,
    /// `close - open`, clamped into the `i64` range.
    pub price_change: i64,
    /// `(close - open) / open` as a percentage scaled by
    /// [`PERCENT_SCALE`], rounded toward zero and clamped; 0 when `open`
    /// is 0.
    pub price_change_pct: i64,
}

/// The percentage change of a bar, scaled by [`PERCENT_SCALE`].
pub open spec fn spec_change_pct(point: PricePoint) -> int {
    if point.open == 0 {
        0
    } else {
        clamp_to_i64(
            div_trunc((point.close - point.open) * 100 * (PERCENT_SCALE as int), point.open as int),
        )
    }
}

impl vstd::std_specs::convert::FromSpecImpl<PricePoint> for OhlcvBar {
    open spec fn obeys_from_spec() -> bool {
        true
    }

    open spec fn from_spec(point: PricePoint) -> OhlcvBar {
        OhlcvBar {
            timestamp: point.timestamp,
            open: point.open,
            high: point.high,
            low: point.low,
            close: point.close,
            volume: point.volume,
            adj_close: None,
            typical_price: ((point.high + point.low + point.close) / 3) as i64,
            price_change: clamp_to_i64(point.close - point.open) as i64,
            price_change_pct: spec_change_pct(point) as i64,
        }
    }
}

impl From<PricePoint> for OhlcvBar {
    /// Computes the derived fields of a bar from its raw prices.
    fn from(point: PricePoint) -> (r: OhlcvBar) {
        let sum3 = point.high as i128 + point.low as i128 + point.close as i128;
        proof {
            vstd::arithmetic::div_mod::lemma_div_is_ordered(
                3 * (i64::MIN as int),
                sum3 as int,
                3,
            );
            vstd::arithmetic::div_mod::lemma_div_is_ordered(
                sum3 as int,
                3 * (i64::MAX as int),
                3,
            );
            vstd::arithmetic::div_mod::lemma_div_multiples_vanish(i64::MIN as int, 3);
            vstd::arithmetic::div_mod::lemma_div_multiples_vanish(i64::MAX as int, 3);
        }
        let typical_price = div_floor(sum3, 3) as i64;
        let change = point.close as i128 - point.open as i128;
        let price_change = clamp_i64(change);
        let price_change_pct = if point.open == 0 {
            0
        } else {
            clamp_i64(div_trunc_i128(change * 1_000_000, point.open as i128))
        };
        OhlcvBar {
            timestamp: point.timestamp,
            open: point.open,
            high: point.high,
            low: point.low,
            close: point.close,
            volume: point.volume,
            adj_close: None,
            typical_price,
            price_change,
            price_change_pct,
        }
    }
}

/// The outcome of running a strategy over a period.
#[derive(Debug, Clone)]
pub struct BacktestResult {
    pub strategy_name: String,
    pub period: DateRange,
    pub performance: PerformanceMetrics,
    pub benchmark_performance: Option<PerformanceMetrics>,
    pub trades_executed: u32,
    pub final_portfolio_value: i64,
    pub equity_curve: Vec<EquityPoint>,
    pub benchmark_curve: Option<Vec<EquityPoint>>,
    pub weights_over_time: Option<Vec<WeightsAtTime>>,
}

/// A half-open span of time, in epoch seconds.
#[derive(Debug, Clone)]
pub struct DateRange {
    pub start_date: i64,
    pub end_date: i64,
}

/// The portfolio's value at one date.
#[derive(Debug, Clone)]
pub struct EquityPoint {
    pub date: i64,
    pub value: i64,
}

/// The allocation weights held at one time, scaled by [`WEIGHT_SCALE`].
#[derive(Debug, Clone)]
pub struct WeightsAtTime {
    pub timestamp: i64,
    pub weights: StringMap<i64>,
}

/// The signals a strategy produced, by symbol.
#[derive(Debug, Clone)]
pub struct StrategySignals {
    pub strategy_name: String,
    pub signals: StringMap<Signal>,
    pub last_updated: i64,
}

/// One trade signal; `strength` is scaled by [`WEIGHT_SCALE`].
#[derive(Debug, Clone)]
pub struct Signal {
    pub symbol: String,
    pub signal_type: SignalType,
    pub strength: i64,
    pub timestamp: i64,
}

/// What a signal recommends.
#[derive(Debug, Clone)]
pub enum SignalType {
    Buy,
    Sell,
    Hold,
}

/// Health of the price-data provider and freshness of what it served.
#[derive(Debug, Clone)]
pub struct DataStatus {
    pub is_loading: bool,
    pub last_error: Option<String>,
    pub data_freshness: StringMap<i64>,
    pub provider_status: ProviderStatus,
}

/// Connection state of the price-data provider.
#[derive(Debug, Clone)]
pub enum ProviderStatus {
    Connected,
    Disconnected,
    RateLimited,
    Error(String),
}

/// One executed trade; `shares` is scaled by [`WEIGHT_SCALE`], money
/// fields are ticks.
#[derive(Debug, Clone)]
pub struct Trade {
    pub symbol: String,
    pub action: TradeAction,
    pub shares: i64,
    pub price: i64,
    pub total_value: i64,
    pub timestamp: i64,
}

/// The side of a trade.
#[derive(Debug, Clone)]
pub enum TradeAction {
    Buy,
    Sell,
}

/// A fully detailed trade record as the backend reports it; fractions
/// are scaled by [`WEIGHT_SCALE`], money fields are ticks.
#[derive(Debug, Clone)]
pub struct TradeExecution {
    pub symbol: String,
    pub action: String,
    pub quantity_shares: i64,
    pub weight_fraction: i64,
    pub price: i64,
    pub gross_value: i64,
    pub commission: i64,
    pub slippage: i64,
    pub total_cost: i64,
    pub net_cash_delta: i64,
    pub timestamp: i64,
    pub reason: Option<String>,
}

} // verus!
