//! Portfolio analytics library.
//!
//! The heart of the crate is [`portfolio::indicators`], a verified
//! implementation of the classic technical indicators (SMA, EMA, RSI,
//! MACD, Bollinger bands) over fixed-point price series.  Around it sit
//! the data model for portfolios and the plain state types that a user
//! interface keeps while it talks to a backend.

pub mod app;
pub mod components;
pub mod portfolio;
pub mod state;
pub mod strmap;
pub mod ui;
pub mod views;
