//! Tests of the portfolio data model and the application state.

use fractal::components::{ComponentCategory, DataProviderStatusComponent};
use fractal::portfolio::{
    default_data_provider, OhlcvBar, Portfolio, PricePoint, WEIGHT_SCALE,
};
use fractal::state::AppState;
use fractal::strmap::StringMap;
use fractal::views::{CandlesComponent, ChartsComponent, TablesComponent};

#[test]
fn new_portfolio_is_empty() {
    let p = Portfolio::new("Fresh".to_string());
    assert_eq!(p.name, "Fresh");
    assert_eq!(p.total_value, 0);
    assert_eq!(p.data_provider, "yfinance");
    assert!(p.price_history.is_none());
    assert!(p.backtest_results.is_none());
    assert!(p.strategy_signals.is_none());
    assert!(p.data_status.is_none());
    assert_eq!(p.risk_metrics.volatility, 0);
    assert_eq!(p.performance_metrics.total_return, 0);
}

#[test]
fn position_value_needs_holding_and_weight() {
    let mut p = Portfolio::new("P".to_string());
    p.total_value = 2000;
    p.holdings.insert("AAPL".to_string(), 4 * WEIGHT_SCALE);
    // no weight yet
    assert!(p.get_position_value("AAPL").is_none());
    assert!(p.get_position_value("MSFT").is_none());
    // half the portfolio
    p.current_weights.insert("AAPL".to_string(), WEIGHT_SCALE / 2);
    assert_eq!(p.get_position_value("AAPL"), Some(1000));
}

#[test]
fn price_history_round_trip() {
    let mut p = Portfolio::new("P".to_string());
    assert!(p.get_price_history("AAPL").is_none());
    let mut history: StringMap<Vec<PricePoint>> = StringMap::new();
    history.insert(
        "AAPL".to_string(),
        vec![PricePoint { timestamp: 0, open: 10, high: 12, low: 9, close: 11, volume: 100 }],
    );
    p.update_price_history(history);
    let bars = p.get_price_history("AAPL").expect("history stored");
    assert_eq!(bars.len(), 1);
    assert_eq!(bars[0].close, 11);
    assert!(p.get_price_history("MSFT").is_none());
}

#[test]
fn ohlcv_bar_from_price_point() {
    let bar: OhlcvBar = PricePoint {
        timestamp: 42,
        open: 100,
        high: 300,
        low: 50,
        close: 200,
        volume: 7,
    }.into();
    assert_eq!(bar.timestamp, 42);
    assert_eq!(bar.typical_price, 183); // (300 + 50 + 200) / 3
    assert_eq!(bar.price_change, 100);
    // a move from 100 to 200 is +100%, scaled by PERCENT_SCALE
    assert_eq!(bar.price_change_pct, 1_000_000);
    assert!(bar.adj_close.is_none());
}

#[test]
fn ohlcv_bar_with_zero_open() {
    let bar: OhlcvBar = PricePoint {
        timestamp: 0,
        open: 0,
        high: 5,
        low: 0,
        close: 4,
        volume: 0,
    }.into();
    assert_eq!(bar.price_change, 4);
    assert_eq!(bar.price_change_pct, 0);
    assert_eq!(bar.typical_price, 3); // (5 + 0 + 4) / 3
}

#[test]
fn app_state_portfolio_bookkeeping() {
    let mut state = AppState::default();
    assert!(state.portfolios.is_none());
    assert!(!state.has_portfolios());
    assert!(state.get_portfolio("One").is_none());
    assert!(state.remove_portfolio("One").is_none());

    state.set_portfolio(Portfolio::new("One".to_string()));
    state.set_portfolio(Portfolio::new("Two".to_string()));
    assert!(state.has_portfolios());
    assert_eq!(
        state.portfolio_names(),
        vec!["One".to_string(), "Two".to_string()]
    );
    assert_eq!(state.get_portfolio("Two").unwrap().name, "Two");

    let removed = state.remove_portfolio("One").expect("stored above");
    assert_eq!(removed.name, "One");
    assert!(state.get_portfolio("One").is_none());
    assert_eq!(state.portfolio_names(), vec!["Two".to_string()]);
}

#[test]
fn default_provider_name() {
    assert_eq!(default_data_provider(), "yfinance");
}

#[test]
fn component_states_and_categories() {
    let mut status = DataProviderStatusComponent::new();
    assert_eq!(status.name(), "Provider Status");
    assert!(status.is_open());
    assert!(!status.requires_data());
    assert!(matches!(status.category(), ComponentCategory::General));
    status.set_open(false);
    assert!(!status.is_open());

    let charts = ChartsComponent::new();
    assert_eq!(charts.name(), "Charts");
    assert!(matches!(charts.category(), ComponentCategory::Charts));
    assert!(charts.requires_data());

    let mut tables = TablesComponent::new();
    assert_eq!(tables.name(), "Tables");
    assert!(!tables.is_open());
    assert!(matches!(tables.category(), ComponentCategory::Tables));
    tables.set_open(true);
    assert!(tables.is_open());

    let candles = CandlesComponent::new();
    assert_eq!(candles.name(), "Candles");
    assert!(candles.is_open());
    assert!(matches!(candles.category(), ComponentCategory::Charts));
}
