//! Function codes of BluFi frames.

use vstd::prelude::*;

verus! {

// Control frames.
pub const ACK: u8 = 0x00;

pub const NEGOTIATE: u8 = 0x01;

pub const SET_OPMODE: u8 = 0x02;

pub const DISCONNECT_BLE: u8 = 0x08;

pub const GET_WIFI_LIST: u8 = 0x09;

// Data frames.
pub const NEG_DATA: u8 = 0x00;

pub const SSID: u8 = 0x02;

pub const PASSWORD: u8 = 0x03;

pub const CONNECT_STATE: u8 = 0x0F;

pub const VERSION: u8 = 0x10;

pub const WIFI_LIST: u8 = 0x11;

pub const REPORT_ERROR: u8 = 0x12;

pub const CUSTOM_DATA: u8 = 0x13;

} // verus!
