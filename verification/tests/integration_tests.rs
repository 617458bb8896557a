//! Integration tests for the portfolio state types: component
//! behaviour, portfolio data, shared async state and configuration.

use std::sync::{Arc, Mutex};

use fractal::app::AsyncState;
use fractal::portfolio::{Portfolio, WEIGHT_SCALE};
use fractal::state::{ChartTheme, Config};
use fractal::views::DashboardComponent;

/// Test portfolio component rendering requirements
#[test]
fn test_portfolio_component_requirements() {
    let mut dashboard = DashboardComponent::new();

    // Test component properties
    assert_eq!(dashboard.name(), "Dashboard");
    assert!(dashboard.is_open()); // Dashboard starts open
    assert!(dashboard.requires_data());

    // Test state changes
    dashboard.set_open(false);
    assert!(!dashboard.is_open());

    dashboard.set_open(true);
    assert!(dashboard.is_open());
}

/// Test portfolio data validation
#[test]
fn test_portfolio_data_validation() {
    let portfolio = Portfolio::new("Empty Portfolio".to_string());

    // Empty portfolio should not have data
    assert!(!portfolio.has_data());
    assert_eq!(portfolio.symbols().len(), 0);
    assert_eq!(portfolio.total_value, 0);

    let mut portfolio_with_data = Portfolio::new("Valid Portfolio".to_string());
    portfolio_with_data.holdings.insert("AAPL".to_string(), 10 * WEIGHT_SCALE);
    portfolio_with_data.total_value = 1000;
    portfolio_with_data.current_weights.insert("AAPL".to_string(), WEIGHT_SCALE);

    // Portfolio with data should be valid
    assert!(portfolio_with_data.has_data());
    assert_eq!(portfolio_with_data.symbols().len(), 1);
    assert!(portfolio_with_data.symbols().contains(&"AAPL".to_string()));

    // Test position value calculation
    let position_value = portfolio_with_data.get_position_value("AAPL");
    assert!(position_value.is_some());
    assert_eq!(position_value.unwrap(), 1000); // total_value * weight
}

/// Test async state management
#[test]
fn test_async_state_management() {
    let async_state = Arc::new(Mutex::new(AsyncState::default()));

    // Test connection result
    {
        let mut state = async_state.lock().unwrap();
        state.connection_result = Some(Ok(()));
    }

    {
        let state = async_state.lock().unwrap();
        assert!(state.connection_result.is_some());
        assert!(state.connection_result.as_ref().unwrap().is_ok());
    }

    // Test portfolio result
    {
        let mut state = async_state.lock().unwrap();
        state.portfolio_result = Some(Ok("Test Portfolio".to_string()));
    }

    {
        let state = async_state.lock().unwrap();
        assert!(state.portfolio_result.is_some());
        let result = state.portfolio_result.as_ref().unwrap();
        assert!(result.is_ok());
        assert_eq!(result.as_ref().unwrap(), "Test Portfolio");
    }
}

/// Test configuration management
#[test]
fn test_configuration_management() {
    let config = Config::default();

    assert_eq!(config.api_base_url, "http://localhost:8000/api/v1");
    assert_eq!(config.default_data_provider, "yfinance");
    assert_eq!(config.refresh_interval_seconds, 300);
    assert!(matches!(config.chart_theme, ChartTheme::Auto));
}
