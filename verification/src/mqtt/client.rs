//! What a client session is opened with.

use crate::mqtt::packet::QoS;
use vstd::prelude::*;

verus! {

/// The protocol version of a session.
#[derive(Debug, Clone, Copy, PartialEq, Eq, Structural)]
pub enum MqttVersion {
    V3,
    V5,
}

/// The message that the broker publishes when the session ends without a goodbye.
#[derive(Debug, Clone, Copy)]
pub struct LastWill<'a> {
    pub topic: &'a str,
    pub payload: &'a [u8],
    pub qos: QoS,
    pub retain: bool,
}

/// The contents of a last will.
#[verifier::ext_equal]
pub struct LastWillView {
    pub topic: Seq<char>,
    pub payload: Seq<u8>,
    pub qos: QoS,
    pub retain: bool,
}

impl<'a> View for LastWill<'a> {
    type V = LastWillView;

    open spec fn view(&self) -> LastWillView {
        LastWillView {
            topic: self.topic@,
            payload: self.payload@,
            qos: self.qos,
            retain: self.retain,
        }
    }
}

} // verus!
