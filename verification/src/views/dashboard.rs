//! Portfolio overview dashboard component.

use vstd::prelude::*;
use crate::components::ComponentCategory;

verus! {

/// State of the dashboard view.
pub struct DashboardComponent {
    is_open: bool,
}

impl DashboardComponent {
    /// Whether the dashboard is open.
    pub closed spec fn spec_is_open(&self) -> bool {
        self.is_open
    }

    /// A new dashboard, open by default.
    pub fn new() -> (r: Self)
        ensures
            r.spec_is_open(),
    {
        DashboardComponent { is_open: true }
    }

    /// The view's display name.
    pub fn name(&self) -> (r: &str)
        ensures
            r@ == "Dashboard"@,
    {
        "Dashboard"
    }

    /// Whether the dashboard is open.
    pub fn is_open(&self) -> (r: bool)
        ensures
            r == self.spec_is_open(),
    {
        self.is_open
    }

    /// Opens or closes the dashboard.
    pub fn set_open(&mut self, open: bool)
        ensures
            final(self).spec_is_open() == open,
    {
        self.is_open = open;
    }

    /// The dashboard belongs to the general category.
    pub fn category(&self) -> (r: ComponentCategory)
        ensures
            r is General,
    {
        ComponentCategory::General
    }

    /// The dashboard only makes sense with portfolio data.
    pub fn requires_data(&self) -> (r: bool)
        ensures
            r,
    {
        true
    }
}

} // verus!
