//! Price-chart view component.

use vstd::prelude::*;
use crate::components::ComponentCategory;

verus! {

/// Which chart the view draws.
#[derive(Debug, Clone, Copy, PartialEq)]
enum ChartType {
    LineChart,
    CandlestickChart,
}

/// State of the charts view.
pub struct ChartsComponent {
    is_open: bool,
    selected_symbol: Option<String>,
    chart_type: ChartType,
}

impl ChartsComponent {
    /// Whether the view is open.
    pub closed spec fn spec_is_open(&self) -> bool {
        self.is_open
    }

    /// The symbol the view shows, if one was picked.
    pub closed spec fn spec_selection(&self) -> Option<String> {
        self.selected_symbol
    }

    /// Whether the view draws the line chart (as opposed to the
    /// candlestick chart).
    pub closed spec fn spec_line_chart(&self) -> bool {
        self.chart_type is LineChart
    }

    /// A new charts view: open, nothing selected, drawing a line chart.
    pub fn new() -> (r: Self)
        ensures
            r.spec_is_open(),
            r.spec_selection() is None,
            r.spec_line_chart(),
    {
        ChartsComponent { is_open: true, selected_symbol: None, chart_type: ChartType::LineChart }
    }

    /// The view's display name.
    pub fn name(&self) -> (r: &str)
        ensures
            r@ == "Charts"@,
    {
        "Charts"
    }

    /// Whether the view is open.
    pub fn is_open(&self) -> (r: bool)
        ensures
            r == self.spec_is_open(),
    {
        self.is_open
    }

    /// Opens or closes the view; the selection and the chart type keep
    /// their values.
    pub fn set_open(&mut self, open: bool)
        ensures
            final(self).spec_is_open() == open,
            final(self).spec_selection() == old(self).spec_selection(),
            final(self).spec_line_chart() == old(self).spec_line_chart(),
    {
        self.is_open = open;
    }

    /// The view belongs to the charts category.
    pub fn category(&self) -> (r: ComponentCategory)
        ensures
            r is Charts,
    {
        ComponentCategory::Charts
    }

    /// The view only makes sense with portfolio data.
    pub fn requires_data(&self) -> (r: bool)
        ensures
            r,
    {
        true
    }
}

} // verus!
