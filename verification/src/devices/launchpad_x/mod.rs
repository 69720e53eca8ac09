//! Novation Launchpad X.
pub mod app;
pub mod extflash;
pub mod grid;
pub mod inputs;
