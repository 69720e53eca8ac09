//! Drivers of the controllers whose firmware this crate carries.
pub mod launchpad_s_and_mini;
