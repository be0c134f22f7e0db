//! MQTT packets and the encodings they are made of.

pub mod bounded;
pub mod client;
pub mod error;
pub mod packet;
pub mod transport;
pub mod util;
