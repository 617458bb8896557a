//! Component system for modular rendering.
//!
//! Each view component owns its open/closed state and identifies itself
//! by name and category; the rendering layer around the library walks
//! the components and draws the open ones.

use vstd::prelude::*;

pub mod status;

pub use status::DataProviderStatusComponent;

verus! {

/// Where a component belongs in the interface's organisation.
#[derive(Debug, Clone, PartialEq)]
pub enum ComponentCategory {
    General,
    Charts,
    Tables,
    Analytics,
    Trading,
}

} // verus!
