use pnet::packet::ethernet::{EtherTypes, EthernetPacket};
use pnet::packet::ip::IpNextHeaderProtocols;
use pnet::packet::ipv4::Ipv4Packet;
use pnet::packet::ipv6::Ipv6Packet;
use pnet::packet::udp::UdpPacket;
use pnet::packet::Packet;

use netsniffer::packet::get_length_str;
use netsniffer::parser::{ipv4_protocol_label, ipv6_protocol_label, process_packet};

fn frame(ethertype: u16, ip: &[u8]) -> Vec<u8> {
    let mut v = vec![0x11, 0x22, 0x33, 0x44, 0x55, 0x66, 0xaa, 0xbb, 0xcc, 0xdd, 0xee, 0xff];
    v.push((ethertype >> 8) as u8);
    v.push((ethertype & 0xff) as u8);
    v.extend_from_slice(ip);
    v
}

fn ipv4(proto: u8, src: [u8; 4], dst: [u8; 4], payload: &[u8]) -> Vec<u8> {
    let total = 20 + payload.len();
    let mut v = vec![0x45, 0, (total >> 8) as u8, (total & 0xff) as u8, 0, 0, 0, 0, 64, proto, 0, 0];
    v.extend_from_slice(&src);
    v.extend_from_slice(&dst);
    v.extend_from_slice(payload);
    v
}

fn ipv6(next: u8, src: [u16; 8], dst: [u16; 8]) -> Vec<u8> {
    let mut v = vec![0x60, 0, 0, 0, 0, 0, next, 64];
    for s in src.iter().chain(dst.iter()) {
        v.push((s >> 8) as u8);
        v.push((s & 0xff) as u8);
    }
    v
}

fn udp(src: u16, dst: u16) -> Vec<u8> {
    vec![(src >> 8) as u8, src as u8, (dst >> 8) as u8, dst as u8, 0, 8, 0, 0]
}

/// The classification written directly against pnet, for comparison.
fn reference(data: &[u8]) -> (bool, String, String, String) {
    let mut out = (false, "Unknown".to_string(), "-".to_string(), "-".to_string());
    if let Some(ethernet) = EthernetPacket::new(data) {
        match ethernet.get_ethertype() {
            EtherTypes::Ipv4 => {
                if let Some(ip) = Ipv4Packet::new(ethernet.payload()) {
                    out.0 = true;
                    out.2 = ip.get_source().to_string();
                    out.3 = ip.get_destination().to_string();
                    out.1 = match ip.get_next_level_protocol() {
                        IpNextHeaderProtocols::Tcp => "TCP / IPv4".to_string(),
                        IpNextHeaderProtocols::Udp => match UdpPacket::new(ip.payload()) {
                            Some(u) if u.get_source() == 67 || u.get_source() == 68
                                || u.get_destination() == 67 || u.get_destination() == 68 =>
                                "DHCPv4".to_string(),
                            _ => "UDP / IPv4".to_string(),
                        },
                        IpNextHeaderProtocols::Icmp => "ICMPv4".to_string(),
                        IpNextHeaderProtocols::Igmp => "IGMPv4".to_string(),
                        other => format!("{} / IPv4", other),
                    };
                }
            }
            EtherTypes::Ipv6 => {
                if let Some(ip) = Ipv6Packet::new(ethernet.payload()) {
                    out.0 = true;
                    out.2 = ip.get_source().to_string();
                    out.3 = ip.get_destination().to_string();
                    out.1 = match ip.get_next_header() {
                        IpNextHeaderProtocols::Tcp => "TCP / IPv6".to_string(),
                        IpNextHeaderProtocols::Udp => "UDP / IPv6".to_string(),
                        IpNextHeaderProtocols::Icmp | IpNextHeaderProtocols::Icmpv6 => "ICMPv6".to_string(),
                        IpNextHeaderProtocols::Igmp => "IGMPv6".to_string(),
                        other => format!("{} / IPv6", other),
                    };
                }
            }
            _ => {}
        }
    }
    out
}

fn check_against_reference(data: &[u8]) {
    let (identified, p) = process_packet(data);
    let (r_id, r_proto, r_src, r_dst) = reference(data);
    assert_eq!(identified, r_id, "{:?}", data);
    assert_eq!(p.identified, r_id);
    assert_eq!(p.protocol, r_proto, "{:?}", data);
    assert_eq!(p.src_ip, r_src);
    assert_eq!(p.dst_ip, r_dst);
    assert_eq!(p.length, data.len());
    assert_eq!(p.length_str, get_length_str(data.len()));
}

#[test]
fn ipv4_tcp() {
    let data = frame(0x0800, &ipv4(6, [192, 168, 1, 10], [8, 8, 8, 8], &[0; 20]));
    let (identified, p) = process_packet(&data);
    assert!(identified);
    assert!(p.identified);
    assert_eq!(p.protocol, "TCP / IPv4");
    assert_eq!(p.src_ip, "192.168.1.10");
    assert_eq!(p.dst_ip, "8.8.8.8");
    assert_eq!(p.length, 54);
    assert_eq!(p.length_str, "54 Б");
}

#[test]
fn ipv4_udp_and_dhcp() {
    let plain = frame(0x0800, &ipv4(17, [10, 0, 0, 1], [10, 0, 0, 2], &udp(5353, 53)));
    assert_eq!(process_packet(&plain).1.protocol, "UDP / IPv4");
    let dhcp_client = frame(0x0800, &ipv4(17, [0, 0, 0, 0], [255, 255, 255, 255], &udp(68, 67)));
    assert_eq!(process_packet(&dhcp_client).1.protocol, "DHCPv4");
    let dhcp_dst = frame(0x0800, &ipv4(17, [1, 2, 3, 4], [5, 6, 7, 8], &udp(40000, 67)));
    assert_eq!(process_packet(&dhcp_dst).1.protocol, "DHCPv4");
    // a UDP payload too short for its header still counts as UDP
    let short = frame(0x0800, &ipv4(17, [1, 2, 3, 4], [5, 6, 7, 8], &[0, 68, 0]));
    assert_eq!(process_packet(&short).1.protocol, "UDP / IPv4");
}

#[test]
fn ipv4_icmp_igmp_and_others() {
    assert_eq!(process_packet(&frame(0x0800, &ipv4(1, [1, 1, 1, 1], [2, 2, 2, 2], &[]))).1.protocol, "ICMPv4");
    assert_eq!(process_packet(&frame(0x0800, &ipv4(2, [1, 1, 1, 1], [2, 2, 2, 2], &[]))).1.protocol, "IGMPv4");
    // the name of any other protocol comes from pnet
    assert_eq!(process_packet(&frame(0x0800, &ipv4(3, [1, 1, 1, 1], [2, 2, 2, 2], &[]))).1.protocol, "Ggp / IPv4");
    assert_eq!(process_packet(&frame(0x0800, &ipv4(250, [1, 1, 1, 1], [2, 2, 2, 2], &[]))).1.protocol, "unknown / IPv4");
}

#[test]
fn ipv6_protocols() {
    let src = [0xfe80, 0, 0, 0, 0x0202, 0xb3ff, 0xfe1e, 0x8329];
    let dst = [0x2001, 0xdb8, 0, 0, 0, 0, 0, 1];
    let (identified, p) = process_packet(&frame(0x86DD, &ipv6(6, src, dst)));
    assert!(identified);
    assert_eq!(p.protocol, "TCP / IPv6");
    assert_eq!(p.src_ip, "fe80::202:b3ff:fe1e:8329");
    assert_eq!(p.dst_ip, "2001:db8::1");
    assert_eq!(process_packet(&frame(0x86DD, &ipv6(17, src, dst))).1.protocol, "UDP / IPv6");
    assert_eq!(process_packet(&frame(0x86DD, &ipv6(58, src, dst))).1.protocol, "ICMPv6");
    assert_eq!(process_packet(&frame(0x86DD, &ipv6(1, src, dst))).1.protocol, "ICMPv6");
    assert_eq!(process_packet(&frame(0x86DD, &ipv6(2, src, dst))).1.protocol, "IGMPv6");
    assert_eq!(process_packet(&frame(0x86DD, &ipv6(0, src, dst))).1.protocol, "Hopopt / IPv6");
}

#[test]
fn unidentified_frames() {
    for data in [
        vec![],
        vec![0u8; 13],
        frame(0x0806, &[0; 28]),
        frame(0x0800, &[0x45; 19]),
        frame(0x86DD, &[0x60; 39]),
    ] {
        let (identified, p) = process_packet(&data);
        assert!(!identified);
        assert!(!p.identified);
        assert_eq!(p.protocol, "Unknown");
        assert_eq!(p.src_ip, "-");
        assert_eq!(p.dst_ip, "-");
        assert_eq!(p.length, data.len());
    }
}

#[test]
fn agrees_with_pnet_classification() {
    let mut frames = Vec::new();
    for proto in 0..=255u8 {
        frames.push(frame(0x0800, &ipv4(proto, [proto, 1, 2, 3], [3, 2, 1, proto], &udp(proto as u16, 68))));
        frames.push(frame(0x86DD, &ipv6(proto, [proto as u16, 0, 0, 0, 0, 0, 0, 1], [0, 0, 0, 0, 0, 0xffff, 0x0a00, proto as u16])));
    }
    // IPv4 headers with options, odd header lengths and truncated totals
    for ihl in 0..16u8 {
        for total in [0u16, 10, 20, 28, 40, 60, 200] {
            let mut ip = ipv4(17, [9, 9, 9, 9], [8, 8, 8, 8], &[0; 48]);
            ip[0] = 0x40 | ihl;
            ip[2] = (total >> 8) as u8;
            ip[3] = total as u8;
            for (k, b) in ip.iter_mut().enumerate().skip(20) {
                *b = if k % 4 == 1 { 67 } else { k as u8 };
            }
            frames.push(frame(0x0800, &ip));
        }
    }
    for data in frames.iter() {
        check_against_reference(data);
    }
}

#[test]
fn protocol_labels_from_names() {
    assert_eq!(ipv4_protocol_label(6, None, "Tcp"), "TCP / IPv4");
    assert_eq!(ipv4_protocol_label(17, Some((1000, 2000)), "Udp"), "UDP / IPv4");
    assert_eq!(ipv4_protocol_label(17, Some((67, 2000)), "Udp"), "DHCPv4");
    assert_eq!(ipv4_protocol_label(47, None, "Gre"), "Gre / IPv4");
    assert_eq!(ipv6_protocol_label(58, "Icmpv6"), "ICMPv6");
    assert_eq!(ipv6_protocol_label(47, "Gre"), "Gre / IPv6");
}
