use vstd::prelude::*;

use crate::interface::NetworkInterface;
use crate::packet::NetworkPacket;

verus! {

/// An event sent to the user interface.
#[derive(Clone)]
pub enum EmitEvent {
    /// The interfaces available for capture.
    AvailableInterfaces(Vec<NetworkInterface>),
    /// A captured packet that passed the filter.
    NetworkPacket(NetworkPacket),
}

/// The name under which the user interface listens for an event.
pub open spec fn event_name_of(e: EmitEvent) -> Seq<char> {
    match e {
        EmitEvent::AvailableInterfaces(_) => "refresh-interfaces"@,
        EmitEvent::NetworkPacket(_) => "network-packet"@,
    }
}

impl EmitEvent {
    /// The name under which the user interface listens for this event.
    pub fn event_name(&self) -> (r: &'static str)
        ensures
            r@ == event_name_of(*self),
    {
        match self {
            EmitEvent::AvailableInterfaces(_) => "refresh-interfaces",
            EmitEvent::NetworkPacket(_) => "network-packet",
        }
    }
}

/// The window hears interface lists as `refresh-interfaces` and packets as
/// `network-packet`.
pub proof fn lemma_event_names(interfaces: Vec<NetworkInterface>, packet: NetworkPacket)
    ensures
        event_name_of(EmitEvent::AvailableInterfaces(interfaces)) == "refresh-interfaces"@,
        event_name_of(EmitEvent::NetworkPacket(packet)) == "network-packet"@,
{
}

} // verus!
