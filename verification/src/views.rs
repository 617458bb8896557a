//! State of the view components: one module per view, each holding what
//! the view keeps between frames, plus the strategy-workbench helpers.

pub mod candles;
pub mod charts;
pub mod dashboard;
pub mod strategy_workbench;
pub mod tables;

pub use candles::CandlesComponent;
pub use charts::ChartsComponent;
pub use dashboard::DashboardComponent;
pub use tables::TablesComponent;
