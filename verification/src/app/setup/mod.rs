//! The setup application's pages.
pub mod page;
pub mod page_leds;
pub mod text;
