//! A printer's cloud client: MQTT packets, the runtime that drives modules, BluFi provisioning
//! over Bluetooth, and the rules of the device protocol.

pub mod app_state;
pub mod blufi;
pub mod config;
pub mod downlink;
pub mod gcode_translator;
pub mod json;
pub mod laws;
pub mod modules;
pub mod moonraker;
pub mod mqtt;
pub mod protocol;
pub mod runtime;
pub mod state;
pub mod text;
pub mod transport;
pub mod uds;
