//! Errors of the packet layer.

use crate::mqtt::transport::{ErrorPlaceHolder, TransportError};
use vstd::prelude::*;

verus! {

/// What is wrong with a packet.
#[derive(Debug, Clone, Copy, PartialEq, Eq, Structural)]
pub enum ProtocolError {
    MalformedPacket,
    InvalidPacketType(u8),
    PayloadTooLarge,
    InvalidUtf8String,
    TooManyProperties,
}

/// An error of the client: of the transport, of the protocol, or of a buffer.
#[derive(Debug, Clone, Copy, PartialEq, Eq, Structural)]
pub enum MqttError<T> {
    Transport(T),
    Protocol(ProtocolError),
    BufferTooSmall,
}

/// The same error with another transport's error type, for an error that is none of the
/// transport's own.
pub open spec fn cast_error<T>(e: MqttError<ErrorPlaceHolder>) -> MqttError<T>
    recommends
        !(e is Transport),
{
    match e {
        MqttError::Protocol(p) => MqttError::Protocol(p),
        _ => MqttError::BufferTooSmall,
    }
}

impl MqttError<ErrorPlaceHolder> {
    /// Gives an error that did not come from a transport the error type of one.
    pub fn cast_transport_error<T: TransportError>(self) -> (e: MqttError<T>)
        requires
            !(self is Transport),
        ensures
            e == cast_error::<T>(self),
    {
        match self {
            MqttError::Protocol(p) => MqttError::Protocol(p),
            _ => MqttError::BufferTooSmall,
        }
    }
}

} // verus!
