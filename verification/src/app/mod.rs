//! Applications and the events they receive.
pub mod apptrait;
pub mod boot;
pub mod events;
pub mod host;
pub mod setup;

pub use apptrait::App;
pub use events::{AftertouchEvent, AppId, MidiEvent, SurfaceEvent};
