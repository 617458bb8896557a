//! Candlestick view component.

use vstd::prelude::*;
use crate::components::ComponentCategory;

verus! {

/// How far back the candlestick view reaches.
#[derive(Debug, Clone, Copy, PartialEq)]
enum RangePreset {
    OneM,
    ThreeM,
    SixM,
    YTD,
    OneY,
    All,
}

/// State of the candlestick view.
pub struct CandlesComponent {
    is_open: bool,
    selected_symbol: Option<String>,
    range: RangePreset,
}

impl CandlesComponent {
    /// Whether the view is open.
    pub closed spec fn spec_is_open(&self) -> bool {
        self.is_open
    }

    /// The symbol the view shows, if one was picked.
    pub closed spec fn spec_selection(&self) -> Option<String> {
        self.selected_symbol
    }

    /// Whether the view reaches over the whole history rather than one
    /// of the trailing presets.
    pub closed spec fn spec_full_range(&self) -> bool {
        self.range is All
    }

    /// A new candlestick view: open, nothing selected, showing the whole
    /// range.
    pub fn new() -> (r: Self)
        ensures
            r.spec_is_open(),
            r.spec_selection() is None,
            r.spec_full_range(),
    {
        CandlesComponent { is_open: true, selected_symbol: None, range: RangePreset::All }
    }

    /// The view's display name.
    pub fn name(&self) -> (r: &str)
        ensures
            r@ == "Candles"@,
    {
        "Candles"
    }

    /// Whether the view is open.
    pub fn is_open(&self) -> (r: bool)
        ensures
            r == self.spec_is_open(),
    {
        self.is_open
    }

    /// Opens or closes the view; the selection and the range keep their
    /// values.
    pub fn set_open(&mut self, open: bool)
        ensures
            final(self).spec_is_open() == open,
            final(self).spec_selection() == old(self).spec_selection(),
            final(self).spec_full_range() == old(self).spec_full_range(),
    {
        self.is_open = open;
    }

    /// The view belongs to the charts category.
    pub fn category(&self) -> (r: ComponentCategory)
        ensures
            r is Charts,
    {
        ComponentCategory::Charts
    }

    /// The view only makes sense with portfolio data.
    pub fn requires_data(&self) -> (r: bool)
        ensures
            r,
    {
        true
    }
}

} // verus!
