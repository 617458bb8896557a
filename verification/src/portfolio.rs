//! Portfolio data models and types.
//!
//! This module contains the core [`Portfolio`] struct that serves as the
//! central data holder for the state around the indicator computations:
//! holdings, weights, metrics, price history, backtest results and
//! strategy signals.

use vstd::prelude::*;
use crate::strmap::StringMap;

pub mod indicators;
pub mod types;

pub use types::{
    BacktestResult, DataStatus, DateRange, EquityPoint, OhlcvBar, PerformanceMetrics, PricePoint,
    ProviderStatus, RiskMetrics, Signal, SignalType, StrategySignals, Trade, TradeAction,
    TradeExecution, WEIGHT_SCALE,
};

verus! {

/// Central portfolio data structure that holds all state the interface
/// components read.
///
/// `holdings` maps a symbol to a share count scaled by
/// [`types::WEIGHT_SCALE`]; `current_weights` maps a symbol to its
/// fraction of the portfolio, also scaled by [`types::WEIGHT_SCALE`];
/// `total_value` is in price ticks and `last_updated` in epoch seconds.
#[derive(Debug, Clone)]
pub struct Portfolio {
    pub name: String,
    pub holdings: StringMap<i64>,
    pub total_value: i64,
    pub current_weights: StringMap<i64>,
    pub risk_metrics: RiskMetrics,
    pub performance_metrics: PerformanceMetrics,
    pub data_provider: String,
    pub last_updated: i64,
    pub price_history: Option<StringMap<Vec<PricePoint>>>,
    pub backtest_results: Option<BacktestResult>,
    pub strategy_signals: Option<StrategySignals>,
    pub data_status: Option<DataStatus>,
}

/// The name of the price-data provider used when none is configured.
pub fn default_data_provider() -> (r: String)
    ensures
        r@ == "yfinance"@,
{
    "yfinance".to_owned()
}

/// Relies on std's `SystemTime::now` for the wall-clock time, read as
/// whole seconds since the Unix epoch; a clock standing before the
/// epoch comes back as the negated distance, so the call returns on
/// every clock state instead of panicking there.  Nothing is assumed of
/// the value: it depends on when the call happens.
#[verifier::external_body]
fn now_epoch_seconds() -> i64 {
    match std::time::SystemTime::now().duration_since(std::time::UNIX_EPOCH) {
        Ok(since) => since.as_secs() as i64,
        Err(before) => (before.duration().as_secs() as i64).wrapping_neg(),
    }
}

impl Portfolio {
    /// Creates an empty portfolio: no holdings, no weights, no value, no
    /// history, with the default data provider.  `last_updated` is set
    /// to the current time, of which nothing is known.
    pub fn new(name: String) -> (p: Self)
        ensures
            p.name == name,
            p.holdings@ == Map::<Seq<char>, i64>::empty(),
            p.holdings.spec_len() == 0,
            p.total_value == 0,
            p.current_weights@ == Map::<Seq<char>, i64>::empty(),
            p.risk_metrics == (RiskMetrics {
                volatility: 0,
                sharpe_ratio: 0,
                max_drawdown: 0,
                var_95: 0,
            }),
            p.performance_metrics == (PerformanceMetrics {
                total_return: 0,
                annualized_return: 0,
                alpha: 0,
                beta: 0,
            }),
            p.data_provider@ == "yfinance"@,
            p.price_history is None,
            p.backtest_results is None,
            p.strategy_signals is None,
            p.data_status is None,
    {
        Portfolio {
            name,
            holdings: StringMap::new(),
            total_value: 0,
            current_weights: StringMap::new(),
            risk_metrics: Default::default(),
            performance_metrics: Default::default(),
            data_provider: default_data_provider(),
            last_updated: now_epoch_seconds(),
            price_history: None,
            backtest_results: None,
            strategy_signals: None,
            data_status: None,
        }
    }

    /// The symbols held, one per holding, all distinct.
    pub fn symbols(&self) -> (r: Vec<String>)
        ensures
            r@.len() == self.holdings.spec_len(),
            forall|i: int|
                0 <= i < r@.len() ==> self.holdings@.contains_key((#[trigger] r@[i])@),
            forall|i: int, j: int|
                0 <= i < j < r@.len() ==> (#[trigger] r@[i])@ != (#[trigger] r@[j])@,
            forall|k: Seq<char>|
                self.holdings@.contains_key(k) ==> exists|i: int|
                    0 <= i < r@.len() && (#[trigger] r@[i])@ == k,
    {
        self.holdings.keys()
    }

    /// Whether the portfolio holds anything of positive value.
    pub fn has_data(&self) -> (r: bool)
        ensures
            r == (self.holdings.spec_len() > 0 && self.total_value > 0),
    {
        !self.holdings.is_empty() && self.total_value > 0
    }

    /// The value of one position: the portfolio's total value times the
    /// symbol's weight.  `None` when the symbol is not held or has no
    /// weight.
    pub fn get_position_value(&self, symbol: &str) -> (r: Option<i64>)
        ensures
            match r {
                Some(v) => self.holdings@.contains_key(symbol@)
                    && self.current_weights@.contains_key(symbol@) && v == types::clamp_to_i64(
                    types::div_trunc(
                        (self.total_value as int) * (self.current_weights@[symbol@] as int),
                        WEIGHT_SCALE as int,
                    ),
                ),
                None => !(self.holdings@.contains_key(symbol@)
                    && self.current_weights@.contains_key(symbol@)),
            },
    {
        if self.holdings.get(symbol).is_none() {
            return None;
        }
        match self.current_weights.get(symbol) {
            Some(weight) => {
                let w = *weight;
                proof {
                    assert(i128::MIN < (self.total_value as int) * (w as int) < i128::MAX)
                        by (nonlinear_arith)
                        requires
                            i64::MIN <= self.total_value <= i64::MAX,
                            i64::MIN <= w <= i64::MAX,
                    ;
                }
                Some(
                    types::clamp_i64(
                        types::div_trunc_i128(
                            self.total_value as i128 * w as i128,
                            WEIGHT_SCALE as i128,
                        ),
                    ),
                )
            },
            None => None,
        }
    }

    /// Replaces the price history and stamps the portfolio as updated
    /// now; every other field keeps its value.
    pub fn update_price_history(&mut self, history: StringMap<Vec<PricePoint>>)
        ensures
            final(self).price_history == Some(history),
            final(self).name == old(self).name,
            final(self).holdings == old(self).holdings,
            final(self).total_value == old(self).total_value,
            final(self).current_weights == old(self).current_weights,
            final(self).risk_metrics == old(self).risk_metrics,
            final(self).performance_metrics == old(self).performance_metrics,
            final(self).data_provider == old(self).data_provider,
            final(self).backtest_results == old(self).backtest_results,
            final(self).strategy_signals == old(self).strategy_signals,
            final(self).data_status == old(self).data_status,
    {
        self.price_history = Some(history);
        self.last_updated = now_epoch_seconds();
    }

    /// The price history stored for a symbol, if any.
    pub fn get_price_history(&self, symbol: &str) -> (r: Option<&Vec<PricePoint>>)
        ensures
            match r {
                Some(v) => self.price_history matches Some(h) && h@.contains_key(symbol@) && *v
                    == h@[symbol@],
                None => self.price_history matches Some(h) ==> !h@.contains_key(symbol@),
            },
    {
        match &self.price_history {
            Some(history) => history.get(symbol),
            None => None,
        }
    }
}

} // verus!
