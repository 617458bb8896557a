//! Tables component for detailed data display.

use vstd::prelude::*;
use crate::components::ComponentCategory;

verus! {

/// State of the tables view: which tables it shows.
pub struct TablesComponent {
    is_open: bool,
    show_holdings: bool,
    show_trades: bool,
    show_metrics: bool,
}

impl TablesComponent {
    /// Whether the view is open.
    pub closed spec fn spec_is_open(&self) -> bool {
        self.is_open
    }

    /// Which of the three tables are shown.
    pub closed spec fn spec_shows(&self) -> (bool, bool, bool) {
        (self.show_holdings, self.show_trades, self.show_metrics)
    }

    /// A new tables view: closed, showing only the holdings table.
    pub fn new() -> (r: Self)
        ensures
            !r.spec_is_open(),
            r.spec_shows() == (true, false, false),
    {
        TablesComponent {
            is_open: false,
            show_holdings: true,
            show_trades: false,
            show_metrics: false,
        }
    }

    /// The view's display name.
    pub fn name(&self) -> (r: &str)
        ensures
            r@ == "Tables"@,
    {
        "Tables"
    }

    /// Whether the view is open.
    pub fn is_open(&self) -> (r: bool)
        ensures
            r == self.spec_is_open(),
    {
        self.is_open
    }

    /// Opens or closes the view.
    pub fn set_open(&mut self, open: bool)
        ensures
            final(self).spec_is_open() == open,
            final(self).spec_shows() == old(self).spec_shows(),
    {
        self.is_open = open;
    }

    /// The view belongs to the tables category.
    pub fn category(&self) -> (r: ComponentCategory)
        ensures
            r is Tables,
    {
        ComponentCategory::Tables
    }

    /// The view only makes sense with portfolio data.
    pub fn requires_data(&self) -> (r: bool)
        ensures
            r,
    {
        true
    }
}

} // verus!
