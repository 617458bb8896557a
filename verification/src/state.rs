//! Application state management.
//!
//! Centralized state with [`Portfolio`] as the primary data holder.
//! Updates go through the methods here, which say exactly how the maps
//! change.

use vstd::prelude::*;
use crate::portfolio::Portfolio;
use crate::strmap::StringMap;

verus! {

/// All state the application keeps between frames.
#[derive(Debug, Clone)]
pub struct AppState {
    pub portfolios: Option<StringMap<Portfolio>>,
    pub config: Config,
    pub ui_state: UiState,
}

/// Configuration of the backend connection and the interface.
#[derive(Debug, Clone)]
pub struct Config {
    pub api_base_url: String,
    pub default_data_provider: String,
    pub refresh_interval_seconds: u64,
    pub chart_theme: ChartTheme,
    pub use_native_provider: bool,
    pub alphavantage_api_key: Option<String>,
    pub auth_token: Option<String>,
    pub current_user: Option<String>,
}

/// What the interface currently shows.
#[derive(Debug, Clone)]
pub struct UiState {
    pub selected_portfolio: Option<String>,
    pub component_states: StringMap<bool>,
}

/// Colour scheme of the charts.
#[derive(Debug, Clone)]
pub enum ChartTheme {
    Light,
    Dark,
    Auto,
}

impl Default for Config {
    /// The local backend, the default provider, a five-minute refresh,
    /// and no credentials.  A caller that wants the native provider
    /// supplies its own key (say from the environment) afterwards.
    fn default() -> (c: Self)
        ensures
            c.api_base_url@ == "http://localhost:8000/api/v1"@,
            c.default_data_provider@ == "yfinance"@,
            c.refresh_interval_seconds == 300,
            c.chart_theme is Auto,
            !c.use_native_provider,
            c.alphavantage_api_key is None,
            c.auth_token is None,
            c.current_user is None,
    {
        Config {
            api_base_url: "http://localhost:8000/api/v1".to_owned(),
            default_data_provider: "yfinance".to_owned(),
            refresh_interval_seconds: 300,  // 5 minutes
            chart_theme: ChartTheme::Auto,
            use_native_provider: false,
            alphavantage_api_key: None,
            auth_token: None,
            current_user: None,
        }
    }
}

impl Default for UiState {
    /// Nothing selected, no component state recorded.
    fn default() -> (u: Self)
        ensures
            u.selected_portfolio is None,
            u.component_states@ == Map::<Seq<char>, bool>::empty(),
    {
        UiState { selected_portfolio: None, component_states: StringMap::new() }
    }
}

impl Default for AppState {
    /// No portfolios loaded, default configuration, default interface
    /// state.
    fn default() -> (s: Self)
        ensures
            s.portfolios is None,
            s.config.api_base_url@ == "http://localhost:8000/api/v1"@,
            s.config.default_data_provider@ == "yfinance"@,
            s.config.refresh_interval_seconds == 300,
            s.ui_state.selected_portfolio is None,
    {
        AppState { portfolios: None, config: Default::default(), ui_state: Default::default() }
    }
}

/// The portfolios as a map, whether or not any were loaded yet.
pub open spec fn portfolios_map(portfolios: Option<StringMap<Portfolio>>) -> Map<
    Seq<char>,
    Portfolio,
> {
    match portfolios {
        Some(m) => m@,
        None => Map::empty(),
    }
}

impl AppState {
    /// The portfolio stored under `name`, if any.
    pub fn get_portfolio(&self, name: &str) -> (r: Option<&Portfolio>)
        ensures
            match r {
                Some(p) => portfolios_map(self.portfolios).contains_key(name@) && *p
                    == portfolios_map(self.portfolios)[name@],
                None => !portfolios_map(self.portfolios).contains_key(name@),
            },
    {
        match &self.portfolios {
            Some(portfolios) => portfolios.get(name),
            None => None,
        }
    }

    /// Adds or replaces a portfolio, stored under its own name.
    pub fn set_portfolio(&mut self, portfolio: Portfolio)
        ensures
            final(self).portfolios matches Some(m) && m@ == portfolios_map(
                old(self).portfolios,
            ).insert(portfolio.name@, portfolio),
            final(self).config == old(self).config,
            final(self).ui_state == old(self).ui_state,
    {
        let mut current: Option<StringMap<Portfolio>> = None;
        core::mem::swap(&mut current, &mut self.portfolios);
        let mut portfolios = match current {
            Some(m) => m,
            None => StringMap::new(),
        };
        let name = portfolio.name.clone();
        portfolios.insert(name, portfolio);
        self.portfolios = Some(portfolios);
    }

    /// Removes the portfolio stored under `name` and returns it, if any
    /// was there.
    pub fn remove_portfolio(&mut self, name: &str) -> (r: Option<Portfolio>)
        ensures
            portfolios_map(final(self).portfolios) == portfolios_map(old(self).portfolios).remove(
                name@,
            ),
            match r {
                Some(p) => portfolios_map(old(self).portfolios).contains_key(name@) && p
                    == portfolios_map(old(self).portfolios)[name@],
                None => !portfolios_map(old(self).portfolios).contains_key(name@),
            },
            final(self).config == old(self).config,
            final(self).ui_state == old(self).ui_state,
    {
        let mut current: Option<StringMap<Portfolio>> = None;
        core::mem::swap(&mut current, &mut self.portfolios);
        match current {
            Some(mut portfolios) => {
                let r = portfolios.remove(name);
                self.portfolios = Some(portfolios);
                r
            },
            None => {
                proof {
                    assert(Map::<Seq<char>, Portfolio>::empty().remove(name@) =~= Map::<
                        Seq<char>,
                        Portfolio,
                    >::empty());
                }
                None
            },
        }
    }

    /// The names of all loaded portfolios, one per portfolio, all
    /// distinct.
    pub fn portfolio_names(&self) -> (r: Vec<String>)
        ensures
            forall|i: int|
                0 <= i < r@.len() ==> portfolios_map(self.portfolios).contains_key(
                    (#[trigger] r@[i])@,
                ),
            forall|i: int, j: int|
                0 <= i < j < r@.len() ==> (#[trigger] r@[i])@ != (#[trigger] r@[j])@,
            forall|k: Seq<char>|
                portfolios_map(self.portfolios).contains_key(k) ==> exists|i: int|
                    0 <= i < r@.len() && (#[trigger] r@[i])@ == k,
    {
        match &self.portfolios {
            Some(portfolios) => portfolios.keys(),
            None => Vec::new(),
        }
    }

    /// Whether any portfolio is loaded.
    pub fn has_portfolios(&self) -> (r: bool)
        ensures
            r == (self.portfolios matches Some(m) && m.spec_len() > 0),
    {
        match &self.portfolios {
            Some(portfolios) => !portfolios.is_empty(),
            None => false,
        }
    }
}

} // verus!
