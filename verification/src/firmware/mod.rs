//! The light's firmware: its lamps, its radio, and downloads over the air.
pub mod answers;
pub mod ble;
pub mod boot;
pub mod digest;
pub mod flash;
pub mod led;
pub mod ota;
pub mod session;
pub mod status;
