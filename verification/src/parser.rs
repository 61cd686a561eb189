use vstd::prelude::*;

use pnet::packet::ethernet::EthernetPacket;
use pnet::packet::ip::IpNextHeaderProtocol;
use pnet::packet::ipv4::Ipv4Packet;
use pnet::packet::ipv6::Ipv6Packet;
use pnet::packet::udp::UdpPacket;
use pnet::packet::Packet;

use crate::address::{ipv4_text, ipv4_to_string, ipv6_text, ipv6_to_string};
use crate::packet::{get_length_str, length_text, NetworkPacket};

verus! {

/// Big-endian 16-bit value of bytes `i` and `i + 1`.
pub open spec fn be16(d: Seq<u8>, i: int) -> u16 {
    (d[i] as nat * 256 + d[i + 1] as nat) as u16
}

/// Eight big-endian 16-bit segments starting at byte `offset`.
pub open spec fn segments_at(d: Seq<u8>, offset: int) -> Seq<u16> {
    Seq::new(8, |i: int| be16(d, offset + 2 * i))
}

/// The IPv4 payload as pnet's `Ipv4Packet::payload` delimits it: it starts after the
/// header (`4 * IHL` bytes, at least 20) and holds `total length - 4 * IHL` bytes,
/// cut short at the end of the buffer.
pub open spec fn ipv4_payload(p: Seq<u8>) -> Seq<u8> {
    let header = (p[0] % 16) as int * 4;
    let start = if header > 20 { header } else { 20 };
    let declared = be16(p, 2) as int - header;
    let body = if declared > 0 { declared } else { 0 };
    let end = if start + body < p.len() { start + body } else { p.len() as int };
    if p.len() <= start {
        Seq::empty()
    } else {
        p.subrange(start, end)
    }
}

/// The source and destination ports of a UDP datagram, if its header fits.
pub open spec fn udp_ports(p: Seq<u8>) -> Option<(u16, u16)> {
    if p.len() >= 8 {
        Some((be16(p, 0), be16(p, 2)))
    } else {
        None
    }
}

/// The display name pnet gives an IP next-header protocol number.
pub uninterp spec fn protocol_name(number: u8) -> Seq<char>;

/// An Ethernet frame: its EtherType and what follows the 14-byte header.
pub struct EthernetFrame {
    pub ethertype: u16,
    pub payload: Vec<u8>,
}

/// The fields of an IPv4 packet that are reported.
pub struct Ipv4Header {
    pub next_level_protocol: u8,
    pub source: [u8; 4],
    pub destination: [u8; 4],
    pub payload: Vec<u8>,
}

/// The fields of an IPv6 packet that are reported.
pub struct Ipv6Header {
    pub next_header: u8,
    pub source: [u16; 8],
    pub destination: [u16; 8],
}

/// `EthernetPacket::new` with `get_ethertype` and `payload`: a view exists exactly when
/// the buffer holds the 14-byte header; the EtherType is bytes 12..14 big-endian and
/// the payload is every byte after the header.
#[verifier::external_body]
fn read_ethernet(data: &[u8]) -> (r: Option<EthernetFrame>)
    ensures
        r is Some <==> data@.len() >= 14,
        r matches Some(f) ==> f.ethertype == be16(data@, 12) && f.payload@ == data@.skip(14),
{
    match EthernetPacket::new(data) {
        Some(p) => Some(EthernetFrame { ethertype: p.get_ethertype().0, payload: p.payload().to_vec() }),
        None => None,
    }
}

/// `Ipv4Packet::new` with its getters: a view exists exactly when the buffer holds the
/// 20-byte fixed header; the protocol is byte 9, the addresses bytes 12..16 and 16..20,
/// and the payload is `ipv4_payload`.
#[verifier::external_body]
fn read_ipv4(data: &[u8]) -> (r: Option<Ipv4Header>)
    ensures
        r is Some <==> data@.len() >= 20,
        r matches Some(h) ==> {
            &&& h.next_level_protocol == data@[9]
            &&& h.source@ == data@.subrange(12, 16)
            &&& h.destination@ == data@.subrange(16, 20)
            &&& h.payload@ == ipv4_payload(data@)
        },
{
    match Ipv4Packet::new(data) {
        Some(p) => Some(Ipv4Header {
            next_level_protocol: p.get_next_level_protocol().0,
            source: p.get_source().octets(),
            destination: p.get_destination().octets(),
            payload: p.payload().to_vec(),
        }),
        None => None,
    }
}

/// `Ipv6Packet::new` with its getters: a view exists exactly when the buffer holds the
/// 40-byte header; the next header is byte 6 and the addresses are the eight big-endian
/// segments at bytes 8..24 and 24..40.
#[verifier::external_body]
fn read_ipv6(data: &[u8]) -> (r: Option<Ipv6Header>)
    ensures
        r is Some <==> data@.len() >= 40,
        r matches Some(h) ==> {
            &&& h.next_header == data@[6]
            &&& h.source@ == segments_at(data@, 8)
            &&& h.destination@ == segments_at(data@, 24)
        },
{
    match Ipv6Packet::new(data) {
        Some(p) => Some(Ipv6Header {
            next_header: p.get_next_header().0,
            source: p.get_source().segments(),
            destination: p.get_destination().segments(),
        }),
        None => None,
    }
}

/// `UdpPacket::new` with `get_source` and `get_destination`: the ports are the first
/// two big-endian 16-bit fields of an 8-byte header.
#[verifier::external_body]
fn read_udp_ports(data: &[u8]) -> (r: Option<(u16, u16)>)
    ensures
        r == udp_ports(data@),
{
    match UdpPacket::new(data) {
        Some(p) => Some((p.get_source(), p.get_destination())),
        None => None,
    }
}

/// `IpNextHeaderProtocol`'s `Display`: the name pnet gives a protocol number, written
/// out as `protocol_name` of the number and not otherwise stated here.
#[verifier::external_body]
fn next_header_name(number: u8) -> (r: String)
    ensures
        r@ == protocol_name(number),
{
    IpNextHeaderProtocol::new(number).to_string()
}

/// A DHCP server or client port.
pub open spec fn is_dhcp_port(port: u16) -> bool {
    port == 67 || port == 68
}

/// The label of an IPv4 packet carrying protocol `next`, given the UDP ports when the
/// payload holds a UDP header and the name of the protocol for the other numbers.
pub open spec fn ipv4_label(next: u8, udp: Option<(u16, u16)>, other: Seq<char>) -> Seq<char> {
    if next == 6 {
        "TCP / IPv4"@
    } else if next == 17 {
        match udp {
            Some((src, dst)) => if is_dhcp_port(src) || is_dhcp_port(dst) {
                "DHCPv4"@
            } else {
                "UDP / IPv4"@
            },
            None => "UDP / IPv4"@,
        }
    } else if next == 1 {
        "ICMPv4"@
    } else if next == 2 {
        "IGMPv4"@
    } else {
        other + " / IPv4"@
    }
}

/// The label of an IPv6 packet whose next header is `next`.
pub open spec fn ipv6_label(next: u8, other: Seq<char>) -> Seq<char> {
    if next == 6 {
        "TCP / IPv6"@
    } else if next == 17 {
        "UDP / IPv6"@
    } else if next == 1 || next == 58 {
        "ICMPv6"@
    } else if next == 2 {
        "IGMPv6"@
    } else {
        other + " / IPv6"@
    }
}

/// Labels an IPv4 packet from its protocol number, its UDP ports (where the payload
/// holds a UDP header) and `other_name`, the name of the protocol number.
pub fn ipv4_protocol_label(next: u8, udp: Option<(u16, u16)>, other_name: &str) -> (r: String)
    ensures
        r@ == ipv4_label(next, udp, other_name@),
{
    if next == 6 {
        String::from_str("TCP / IPv4")
    } else if next == 17 {
        match udp {
            Some((src, dst)) => {
                if src == 67 || src == 68 || dst == 67 || dst == 68 {
                    String::from_str("DHCPv4")
                } else {
                    String::from_str("UDP / IPv4")
                }
            },
            None => String::from_str("UDP / IPv4"),
        }
    } else if next == 1 {
        String::from_str("ICMPv4")
    } else if next == 2 {
        String::from_str("IGMPv4")
    } else {
        String::from_str(other_name).concat(" / IPv4")
    }
}

/// Labels an IPv6 packet from its next-header number and `other_name`, the name of
/// that number.
pub fn ipv6_protocol_label(next: u8, other_name: &str) -> (r: String)
    ensures
        r@ == ipv6_label(next, other_name@),
{
    if next == 6 {
        String::from_str("TCP / IPv6")
    } else if next == 17 {
        String::from_str("UDP / IPv6")
    } else if next == 1 || next == 58 {
        String::from_str("ICMPv6")
    } else if next == 2 {
        String::from_str("IGMPv6")
    } else {
        String::from_str(other_name).concat(" / IPv6")
    }
}

/// Protocol, source and destination of an IPv4 packet given as bytes.
pub open spec fn ipv4_summary(ip: Seq<u8>) -> (Seq<char>, Seq<char>, Seq<char>) {
    let next = ip[9];
    let udp = if next == 17 { udp_ports(ipv4_payload(ip)) } else { None };
    (
        ipv4_label(next, udp, protocol_name(next)),
        ipv4_text(ip.subrange(12, 16)),
        ipv4_text(ip.subrange(16, 20)),
    )
}

/// Protocol, source and destination of an IPv6 packet given as bytes.
pub open spec fn ipv6_summary(ip: Seq<u8>) -> (Seq<char>, Seq<char>, Seq<char>) {
    (
        ipv6_label(ip[6], protocol_name(ip[6])),
        ipv6_text(segments_at(ip, 8)),
        ipv6_text(segments_at(ip, 24)),
    )
}

/// Protocol, source and destination of the IP packet an Ethernet frame carries;
/// `None` unless the frame is long enough and carries a readable IPv4 or IPv6 header.
pub open spec fn frame_summary(data: Seq<u8>) -> Option<(Seq<char>, Seq<char>, Seq<char>)> {
    if data.len() < 14 {
        None
    } else {
        let ethertype = be16(data, 12);
        let ip = data.skip(14);
        if ethertype == 0x0800 && ip.len() >= 20 {
            Some(ipv4_summary(ip))
        } else if ethertype == 0x86DD && ip.len() >= 40 {
            Some(ipv6_summary(ip))
        } else {
            None
        }
    }
}

/// Fills in protocol and addresses from an IPv4 header.
fn process_ipv4(ipv4: &Ipv4Header, packet_info: &mut NetworkPacket)
    ensures
        final(packet_info).protocol@ == ipv4_label(
            ipv4.next_level_protocol,
            if ipv4.next_level_protocol == 17 {
                udp_ports(ipv4.payload@)
            } else {
                None
            },
            protocol_name(ipv4.next_level_protocol),
        ),
        final(packet_info).src_ip@ == ipv4_text(ipv4.source@),
        final(packet_info).dst_ip@ == ipv4_text(ipv4.destination@),
        final(packet_info).length == old(packet_info).length,
        final(packet_info).length_str@ == old(packet_info).length_str@,
        final(packet_info).identified == old(packet_info).identified,
{
    packet_info.src_ip = ipv4_to_string(&ipv4.source);
    packet_info.dst_ip = ipv4_to_string(&ipv4.destination);
    let next = ipv4.next_level_protocol;
    let udp = if next == 17 {
        read_udp_ports(ipv4.payload.as_slice())
    } else {
        None
    };
    let other = next_header_name(next);
    packet_info.protocol = ipv4_protocol_label(next, udp, other.as_str());
}

/// Fills in protocol and addresses from an IPv6 header.
fn process_ipv6(ipv6: &Ipv6Header, packet_info: &mut NetworkPacket)
    ensures
        final(packet_info).protocol@ == ipv6_label(ipv6.next_header, protocol_name(ipv6.next_header)),
        final(packet_info).src_ip@ == ipv6_text(ipv6.source@),
        final(packet_info).dst_ip@ == ipv6_text(ipv6.destination@),
        final(packet_info).length == old(packet_info).length,
        final(packet_info).length_str@ == old(packet_info).length_str@,
        final(packet_info).identified == old(packet_info).identified,
{
    packet_info.src_ip = ipv6_to_string(&ipv6.source);
    packet_info.dst_ip = ipv6_to_string(&ipv6.destination);
    let other = next_header_name(ipv6.next_header);
    packet_info.protocol = ipv6_protocol_label(ipv6.next_header, other.as_str());
}

/// Reads a captured Ethernet frame. The flag says whether the frame carried a readable
/// IPv4 or IPv6 packet; the packet record then holds its protocol label and addresses,
/// and otherwise protocol `"Unknown"` and addresses `"-"`.
pub fn process_packet(data: &[u8]) -> (r: (bool, NetworkPacket))
    ensures
        r.0 == r.1.identified,
        r.0 == frame_summary(data@) is Some,
        r.1.length == data@.len(),
        r.1.length_str@ == length_text(data@.len() as nat),
        match frame_summary(data@) {
            Some((protocol, src, dst)) => {
                &&& r.1.protocol@ == protocol
                &&& r.1.src_ip@ == src
                &&& r.1.dst_ip@ == dst
            },
            None => {
                &&& r.1.protocol@ == "Unknown"@
                &&& r.1.src_ip@ == "-"@
                &&& r.1.dst_ip@ == "-"@
            },
        },
{
    let length = data.len();
    let mut packet_info = NetworkPacket::new(
        length,
        get_length_str(length),
        String::from_str("Unknown"),
        String::from_str("-"),
        String::from_str("-"),
        false,
    );
    let mut identified = false;
    if let Some(ethernet) = read_ethernet(data) {
        let ghost ip = data@.skip(14);
        if ethernet.ethertype == 0x0800 {
            if let Some(ipv4) = read_ipv4(ethernet.payload.as_slice()) {
                process_ipv4(&ipv4, &mut packet_info);
                identified = true;
                assert(ipv4.source@ =~= ip.subrange(12, 16));
                assert(ipv4.destination@ =~= ip.subrange(16, 20));
            }
        } else if ethernet.ethertype == 0x86DD {
            if let Some(ipv6) = read_ipv6(ethernet.payload.as_slice()) {
                process_ipv6(&ipv6, &mut packet_info);
                identified = true;
            }
        }
    }
    packet_info.identified = identified;
    (identified, packet_info)
}

/// UDP over IPv4 is labelled DHCP exactly when one of its ports is a DHCP port (67 or
/// 68); with both ports elsewhere, or no readable UDP header, it is plain UDP.
pub proof fn lemma_ipv4_udp_label(src: u16, dst: u16, other: Seq<char>)
    ensures
        (src == 67 || src == 68 || dst == 67 || dst == 68) ==> ipv4_label(17, Some((src, dst)), other)
            == "DHCPv4"@,
        !(src == 67 || src == 68 || dst == 67 || dst == 68) ==> ipv4_label(
            17,
            Some((src, dst)),
            other,
        ) == "UDP / IPv4"@,
        ipv4_label(17, None, other) == "UDP / IPv4"@,
{
}

/// The IPv4 labels of the fixed protocols do not depend on the ports or the name; any
/// other protocol is labelled by its name followed by `" / IPv4"`.
pub proof fn lemma_ipv4_fixed_labels(next: u8, udp: Option<(u16, u16)>, other: Seq<char>)
    ensures
        next == 6 ==> ipv4_label(next, udp, other) == "TCP / IPv4"@,
        next == 1 ==> ipv4_label(next, udp, other) == "ICMPv4"@,
        next == 2 ==> ipv4_label(next, udp, other) == "IGMPv4"@,
        next != 1 && next != 2 && next != 6 && next != 17 ==> ipv4_label(next, udp, other)
            == other + " / IPv4"@,
{
}

/// The IPv6 labels: TCP, UDP, ICMP (both numbers 1 and 58), IGMP, and otherwise the
/// protocol's name followed by `" / IPv6"`.
pub proof fn lemma_ipv6_labels(next: u8, other: Seq<char>)
    ensures
        next == 6 ==> ipv6_label(next, other) == "TCP / IPv6"@,
        next == 17 ==> ipv6_label(next, other) == "UDP / IPv6"@,
        next == 1 || next == 58 ==> ipv6_label(next, other) == "ICMPv6"@,
        next == 2 ==> ipv6_label(next, other) == "IGMPv6"@,
        next != 1 && next != 2 && next != 6 && next != 17 && next != 58 ==> ipv6_label(next, other)
            == other + " / IPv6"@,
{
}

/// Only frames of at least 14 bytes with EtherType 0x0800 (and 20 bytes of IPv4 header)
/// or 0x86DD (and 40 bytes of IPv6 header) are identified.
pub proof fn lemma_identified_frames(data: Seq<u8>)
    ensures
        frame_summary(data) is Some <==> (data.len() >= 34 && be16(data, 12) == 0x0800) || (
        data.len() >= 54 && be16(data, 12) == 0x86DD),
{
}

/// The addresses of an identified IPv4 frame are its bytes 26..30 (source) and 30..34
/// (destination) in dotted decimal, those of an IPv6 frame the segments at bytes
/// 22..38 and 38..54.
pub proof fn lemma_frame_addresses(data: Seq<u8>)
    ensures
        data.len() >= 34 && be16(data, 12) == 0x0800 ==> (frame_summary(data) matches Some(
            (_, src, dst),
        ) && src == ipv4_text(data.subrange(26, 30)) && dst == ipv4_text(data.subrange(30, 34))),
        data.len() >= 54 && be16(data, 12) == 0x86DD ==> (frame_summary(data) matches Some(
            (_, src, dst),
        ) && src == ipv6_text(segments_at(data, 22)) && dst == ipv6_text(segments_at(data, 38))),
{
    let ip = data.skip(14);
    if data.len() >= 34 {
        assert(ip.subrange(12, 16) =~= data.subrange(26, 30));
        assert(ip.subrange(16, 20) =~= data.subrange(30, 34));
    }
    if data.len() >= 54 {
        assert(segments_at(ip, 8) =~= segments_at(data, 22));
        assert(segments_at(ip, 24) =~= segments_at(data, 38));
    }
}

} // verus!
