use vstd::prelude::*;

use crate::packet::NetworkPacket;
use crate::text::{contains, occurs_at, str_contains};

verus! {

/// For a non-empty string, the first character and the rest of what `str::to_lowercase`
/// returns for it (every character lowercases to at least one character).
pub uninterp spec fn lowercase_split(s: Seq<char>) -> (char, Seq<char>);

/// What `str::to_lowercase` returns for a string: its Unicode lowercase mapping, empty
/// exactly for the empty string.
pub open spec fn lowercase(s: Seq<char>) -> Seq<char> {
    if s.len() == 0 {
        Seq::empty()
    } else {
        seq![lowercase_split(s).0] + lowercase_split(s).1
    }
}

/// `str::to_lowercase`. The empty string lowercases to the empty string and any other
/// to a non-empty one; beyond that the result is named (`lowercase_split` of the
/// argument) and the Unicode case mapping itself is not written out here.
#[verifier::external_body]
fn to_lowercase(s: &str) -> (r: String)
    ensures
        r@.len() == 0 <==> s@.len() == 0,
        s@.len() > 0 ==> r@ == seq![lowercase_split(s@).0] + lowercase_split(s@).1,
        r@ == lowercase(s@),
{
    s.to_lowercase()
}

/// A substring criterion: an empty pattern accepts every value.
pub open spec fn field_accepts(pattern: Seq<char>, value: Seq<char>) -> bool {
    pattern.len() == 0 || contains(value, pattern)
}

/// Which captured packets are shown: each non-empty field must occur in the packet's
/// corresponding field (the protocol compared case-insensitively).
#[derive(Clone)]
pub struct PacketFilter {
    pub protocol: String,
    pub src_ip: String,
    pub dst_ip: String,
}

impl Default for PacketFilter {
    /// The filter with every criterion empty.
    fn default() -> (r: PacketFilter)
        ensures
            r.protocol@.len() == 0,
            r.src_ip@.len() == 0,
            r.dst_ip@.len() == 0,
    {
        PacketFilter { protocol: String::new(), src_ip: String::new(), dst_ip: String::new() }
    }
}

impl PacketFilter {
    /// The filter with the given criteria.
    pub fn new(protocol: String, src_ip: String, dst_ip: String) -> (r: PacketFilter)
        ensures
            r.protocol@ == protocol@,
            r.src_ip@ == src_ip@,
            r.dst_ip@ == dst_ip@,
    {
        PacketFilter { protocol, src_ip, dst_ip }
    }

    /// The filter lets through a packet with this protocol, source and destination.
    pub open spec fn accepts_fields(self, protocol: Seq<char>, src: Seq<char>, dst: Seq<char>) -> bool {
        &&& (self.protocol@.len() == 0 || contains(lowercase(protocol), lowercase(self.protocol@)))
        &&& field_accepts(self.src_ip@, src)
        &&& field_accepts(self.dst_ip@, dst)
    }

    /// The filter lets `packet` through.
    pub open spec fn accepts(self, packet: NetworkPacket) -> bool {
        self.accepts_fields(packet.protocol@, packet.src_ip@, packet.dst_ip@)
    }

    /// Decides the filter once the two protocols have been lowercased:
    /// `packet_protocol_lower` stands for the packet's protocol and
    /// `filter_protocol_lower` for this filter's.
    pub fn check_lowered(
        &self,
        packet: &NetworkPacket,
        packet_protocol_lower: &str,
        filter_protocol_lower: &str,
    ) -> (r: bool)
        ensures
            r == ((self.protocol@.len() == 0 || contains(
                packet_protocol_lower@,
                filter_protocol_lower@,
            )) && field_accepts(self.src_ip@, packet.src_ip@) && field_accepts(
                self.dst_ip@,
                packet.dst_ip@,
            )),
    {
        if !self.protocol.as_str().is_empty() && !str_contains(
            packet_protocol_lower,
            filter_protocol_lower,
        ) {
            return false;
        }
        if !self.src_ip.as_str().is_empty() && !str_contains(
            packet.src_ip.as_str(),
            self.src_ip.as_str(),
        ) {
            return false;
        }
        if !self.dst_ip.as_str().is_empty() && !str_contains(
            packet.dst_ip.as_str(),
            self.dst_ip.as_str(),
        ) {
            return false;
        }
        true
    }

    /// Checks a packet against the filter.
    pub fn check_packet(&self, packet: &NetworkPacket) -> (r: bool)
        ensures
            r == self.accepts(*packet),
    {
        if self.protocol.as_str().is_empty() {
            self.check_lowered(packet, "", "")
        } else {
            let packet_lower = to_lowercase(packet.protocol.as_str());
            let filter_lower = to_lowercase(self.protocol.as_str());
            self.check_lowered(packet, packet_lower.as_str(), filter_lower.as_str())
        }
    }
}

/// Every sequence contains itself.
pub proof fn lemma_contains_self(s: Seq<char>)
    ensures
        contains(s, s),
{
    assert(occurs_at(s, s, 0)) by {
        assert(s.subrange(0, s.len() as int) =~= s);
    }
}

/// Containment is transitive: a part of a part of `a` is a part of `a`.
pub proof fn lemma_contains_transitive(a: Seq<char>, b: Seq<char>, c: Seq<char>)
    requires
        contains(a, b),
        contains(b, c),
    ensures
        contains(a, c),
{
    let i = choose|i: int| occurs_at(a, b, i);
    let j = choose|j: int| occurs_at(b, c, j);
    assert(occurs_at(a, c, i + j)) by {
        assert forall|k: int| 0 <= k < c.len() implies a.subrange(i + j, i + j + c.len())[k]
            == c[k] by {
            assert(b.subrange(j, j + c.len())[k] == c[k]);
            assert(a.subrange(i, i + b.len())[j + k] == b[j + k]);
        }
        assert(a.subrange(i + j, i + j + c.len()) =~= c);
    }
}

/// Only the empty sequence is contained in the empty sequence; in general a part is no
/// longer than the whole.
pub proof fn lemma_contains_shorter(a: Seq<char>, b: Seq<char>)
    requires
        contains(a, b),
    ensures
        b.len() <= a.len(),
{
    let i = choose|i: int| occurs_at(a, b, i);
}

/// Weakening a filter never rejects a packet it accepted: if each criterion of `loose`
/// occurs in the corresponding criterion of `strict` (the protocols compared
/// lowercased; an empty criterion occurs in every one), whatever `strict` lets through,
/// `loose` lets through.
pub proof fn lemma_looser_filter_accepts_more(
    strict: PacketFilter,
    loose: PacketFilter,
    packet: NetworkPacket,
)
    requires
        strict.accepts(packet),
        contains(lowercase(strict.protocol@), lowercase(loose.protocol@)),
        contains(strict.src_ip@, loose.src_ip@),
        contains(strict.dst_ip@, loose.dst_ip@),
    ensures
        loose.accepts(packet),
{
    if loose.protocol@.len() > 0 {
        lemma_contains_shorter(lowercase(strict.protocol@), lowercase(loose.protocol@));
        assert(strict.protocol@.len() > 0);
        lemma_contains_transitive(
            lowercase(packet.protocol@),
            lowercase(strict.protocol@),
            lowercase(loose.protocol@),
        );
    }
    if loose.src_ip@.len() > 0 {
        lemma_contains_shorter(strict.src_ip@, loose.src_ip@);
        lemma_contains_transitive(packet.src_ip@, strict.src_ip@, loose.src_ip@);
    }
    if loose.dst_ip@.len() > 0 {
        lemma_contains_shorter(strict.dst_ip@, loose.dst_ip@);
        lemma_contains_transitive(packet.dst_ip@, strict.dst_ip@, loose.dst_ip@);
    }
}

/// A filter whose criteria are all empty lets every packet through.
pub proof fn lemma_empty_filter_accepts_all(filter: PacketFilter, packet: NetworkPacket)
    requires
        filter.protocol@.len() == 0,
        filter.src_ip@.len() == 0,
        filter.dst_ip@.len() == 0,
    ensures
        filter.accepts(packet),
{
}

/// A packet always passes the filter made of its own protocol, source and destination.
pub proof fn lemma_own_fields_accepted(filter: PacketFilter, packet: NetworkPacket)
    requires
        filter.protocol@ == packet.protocol@,
        filter.src_ip@ == packet.src_ip@,
        filter.dst_ip@ == packet.dst_ip@,
    ensures
        filter.accepts(packet),
{
    lemma_contains_self(lowercase(packet.protocol@));
    lemma_contains_self(packet.src_ip@);
    lemma_contains_self(packet.dst_ip@);
}

/// Each criterion looks at its own field only: a non-empty source criterion that does
/// not occur in the packet's source rejects the packet whatever its protocol and
/// destination, and likewise for the destination and (lowercased) protocol criteria.
pub proof fn lemma_each_criterion_rejects(
    filter: PacketFilter,
    protocol: Seq<char>,
    src: Seq<char>,
    dst: Seq<char>,
)
    ensures
        filter.src_ip@.len() > 0 && !contains(src, filter.src_ip@) ==> !filter.accepts_fields(
            protocol,
            src,
            dst,
        ),
        filter.dst_ip@.len() > 0 && !contains(dst, filter.dst_ip@) ==> !filter.accepts_fields(
            protocol,
            src,
            dst,
        ),
        filter.protocol@.len() > 0 && !contains(lowercase(protocol), lowercase(filter.protocol@))
            ==> !filter.accepts_fields(protocol, src, dst),
{
}

/// A packet passes exactly when every criterion passes on its own field: replacing a
/// field by another that meets the same criterion never changes the decision.
pub proof fn lemma_criteria_independent(
    filter: PacketFilter,
    protocol: Seq<char>,
    src: Seq<char>,
    dst: Seq<char>,
    src2: Seq<char>,
    dst2: Seq<char>,
)
    requires
        filter.accepts_fields(protocol, src, dst),
        filter.src_ip@.len() == 0 || contains(src2, filter.src_ip@),
        filter.dst_ip@.len() == 0 || contains(dst2, filter.dst_ip@),
    ensures
        filter.accepts_fields(protocol, src2, dst2),
{
}

} // verus!
