//! Bits of the frame-control byte.

use vstd::prelude::*;

verus! {

pub const ENCRYPTED: u8 = 0x01;

pub const HAS_CHECKSUM: u8 = 0x02;

/// Set on frames from the device to the phone.
pub const DIRECTION: u8 = 0x04;

pub const NEED_ACK: u8 = 0x08;

pub const FRAGMENTED: u8 = 0x10;

} // verus!
