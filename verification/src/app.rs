//! State shared with background work.
//!
//! The interface hands network requests to background tasks and polls
//! their outcome each frame.  [`AsyncState`] is the mailbox the two
//! sides share: each field holds the latest outcome of one kind of
//! request, or `None` while none arrived yet.

use vstd::prelude::*;
use std::collections::HashSet;
use crate::portfolio::{Portfolio, PricePoint};

verus! {

/// Outcomes of background requests, each an `Err` with a message when
/// the request failed.
#[derive(Debug, Default)]
pub struct AsyncState {
    /// Outcome of the latest connection test.
    pub connection_result: Option<Result<(), String>>,
    /// Name of the portfolio the backend created, from the latest
    /// creation request.
    pub portfolio_result: Option<Result<String, String>>,
    /// The portfolios the backend listed.
    pub portfolios_result: Option<Result<Vec<Portfolio>, String>>,
    /// Price history per symbol, as each fetch lands.
    pub price_history_results: Vec<(String, Result<Vec<PricePoint>, String>)>,
    /// The symbols a fetch is still running for.
    pub fetching_symbols: HashSet<String>,
}

} // verus!
