//! Novation Launchpad Mini (first generation).
pub mod app;
pub mod surface;
