//! Device-specific logic, one module per controller.
pub mod launchpad_mini_mk1;
pub mod launchpad_mini_mk3;
pub mod launchpad_mk2;
pub mod launchpad_pro;
pub mod launchpad_pro_mk3;
pub mod launchpad_s;
pub mod launchpad_x;
pub mod mystrix_pro;
