//! What the light itself knows: its modes, its effects and its boot record.
pub mod effects;
pub mod modes;
pub mod otadata;
