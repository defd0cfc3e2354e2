//! Verified core of the AuraOS desktop: the agent daemon's decisions, the macro
//! recorder, Bluetooth parsing, and the desktop client's spotlight and state.
pub mod agent;
pub mod bluetooth;
pub mod client;
pub mod init;
pub mod recorder;
pub mod spotlight;
pub mod text;
pub mod types;
