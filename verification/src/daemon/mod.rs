//! The desktop daemon: from hook events to the light's mode.
pub mod ble;
pub mod desktop;
pub mod instance;
pub mod link;
pub mod log;
pub mod pipe;
pub mod run;
pub mod state;
pub mod types;
