//! Reusable interface widgets' state and configuration.

pub mod widgets;

pub use widgets::CollapsiblePanel;
