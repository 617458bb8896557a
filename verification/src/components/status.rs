//! The data-provider status panel's state.

use vstd::prelude::*;
use crate::components::ComponentCategory;

verus! {

/// State of the panel that displays data-provider status and helpful
/// diagnostics.
pub struct DataProviderStatusComponent {
    is_open: bool,
}

impl DataProviderStatusComponent {
    /// Whether the panel is open.
    pub closed spec fn spec_is_open(&self) -> bool {
        self.is_open
    }

    /// A new panel, open by default.
    pub fn new() -> (r: Self)
        ensures
            r.spec_is_open(),
    {
        DataProviderStatusComponent { is_open: true }
    }

    /// The panel's display name.
    pub fn name(&self) -> (r: &str)
        ensures
            r@ == "Provider Status"@,
    {
        "Provider Status"
    }

    /// Whether the panel is open.
    pub fn is_open(&self) -> (r: bool)
        ensures
            r == self.spec_is_open(),
    {
        self.is_open
    }

    /// Opens or closes the panel.
    pub fn set_open(&mut self, open: bool)
        ensures
            final(self).spec_is_open() == open,
    {
        self.is_open = open;
    }

    /// The panel belongs to the general category.
    pub fn category(&self) -> (r: ComponentCategory)
        ensures
            r is General,
    {
        ComponentCategory::General
    }

    /// The panel is useful without portfolio data.
    pub fn requires_data(&self) -> (r: bool)
        ensures
            !r,
    {
        false
    }
}

impl Default for DataProviderStatusComponent {
    /// Same as [`DataProviderStatusComponent::new`].
    fn default() -> (r: Self)
        ensures
            r.spec_is_open(),
    {
        DataProviderStatusComponent::new()
    }
}

} // verus!
