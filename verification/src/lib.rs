//! Verified core of the NV-Overlay performance HUD: configuration defaults,
//! the IPC command protocol, the overlay's command state machine, platform
//! decisions and the parsing of telemetry sources.

pub mod config;
pub mod text;
pub mod ipc;
pub mod overlay;
pub mod platform;
pub mod telemetry;
