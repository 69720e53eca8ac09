//! Novation Launchpad S.
pub mod hw;
