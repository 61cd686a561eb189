use vstd::prelude::*;

use crate::filter::PacketFilter;
use crate::text::contains;
use crate::packet::{length_text, NetworkPacket};
use crate::parser::{frame_summary, process_packet};

verus! {

/// The record `process_packet` makes of an identified frame.
pub open spec fn reported(p: NetworkPacket, data: Seq<u8>) -> bool {
    &&& frame_summary(data) matches Some((protocol, src, dst))
    &&& p.protocol@ == protocol
    &&& p.src_ip@ == src
    &&& p.dst_ip@ == dst
    &&& p.identified
    &&& p.length == data.len()
    &&& p.length_str@ == length_text(data.len() as nat)
}

/// The frame is passed on: it carries a readable IP packet that the filter accepts.
pub open spec fn forwarded(filter: PacketFilter, data: Seq<u8>) -> bool {
    &&& frame_summary(data) matches Some((protocol, src, dst))
    &&& filter.accepts_fields(protocol, src, dst)
}

/// Handles one captured frame: frames without a readable IP packet and frames the
/// filter rejects are dropped; any other is counted and returned, to be saved and sent
/// to the user interface.
pub fn handle_frame(filter: &PacketFilter, total: &mut usize, data: &[u8]) -> (r: Option<NetworkPacket>)
    requires
        *old(total) < usize::MAX,
    ensures
        r is Some <==> forwarded(*filter, data@),
        r matches Some(p) ==> reported(p, data@) && filter.accepts(p),
        *final(total) == *old(total) + if r is Some { 1usize } else { 0usize },
{
    let (_, packet_info) = process_packet(data);
    if !packet_info.identified {
        return None;
    }
    if !filter.check_packet(&packet_info) {
        return None;
    }
    *total = *total + 1;
    Some(packet_info)
}

/// A frame that carries no readable IPv4 or IPv6 packet is never passed on, whatever
/// the filter.
pub proof fn lemma_unidentified_never_forwarded(filter: PacketFilter, data: Seq<u8>)
    requires
        frame_summary(data) is None,
    ensures
        !forwarded(filter, data),
{
}

/// With every criterion empty, each frame carrying a readable IP packet is passed on.
pub proof fn lemma_empty_filter_forwards_identified(filter: PacketFilter, data: Seq<u8>)
    requires
        filter.protocol@.len() == 0,
        filter.src_ip@.len() == 0,
        filter.dst_ip@.len() == 0,
        frame_summary(data) is Some,
    ensures
        forwarded(filter, data),
{
}

/// A frame is forwarded exactly when the filter accepts the packet reported for it,
/// with all three criteria; a frame the filter rejects is never forwarded.
pub proof fn lemma_forwarded_iff_accepted(filter: PacketFilter, data: Seq<u8>, p: NetworkPacket)
    requires
        reported(p, data),
    ensures
        forwarded(filter, data) <==> filter.accepts(p),
        filter.src_ip@.len() > 0 && !contains(p.src_ip@, filter.src_ip@) ==> !forwarded(
            filter,
            data,
        ),
        filter.dst_ip@.len() > 0 && !contains(p.dst_ip@, filter.dst_ip@) ==> !forwarded(
            filter,
            data,
        ),
{
}

} // verus!
