use netsniffer::emit::EmitEvent;
use netsniffer::filter::PacketFilter;
use netsniffer::interface::{interfaces_from_devices, selected_interface_name, DeviceInfo, IpAddress};
use netsniffer::packet::NetworkPacket;
use netsniffer::saver::{text_record, AutoSaver, SaveFormat};
use netsniffer::sniffer::handle_frame;
use netsniffer::text::str_contains;

fn packet(protocol: &str, src: &str, dst: &str) -> NetworkPacket {
    NetworkPacket::new(60, "60 Б".to_string(), protocol.to_string(), src.to_string(), dst.to_string(), true)
}

fn filter(protocol: &str, src: &str, dst: &str) -> PacketFilter {
    PacketFilter::new(protocol.to_string(), src.to_string(), dst.to_string())
}

#[test]
fn empty_filter_accepts_everything() {
    let f = PacketFilter::default();
    assert!(f.check_packet(&packet("TCP / IPv4", "1.2.3.4", "5.6.7.8")));
    assert!(f.check_packet(&NetworkPacket::default()));
}

#[test]
fn protocol_match_ignores_case() {
    let p = packet("TCP / IPv4", "192.168.0.1", "10.0.0.1");
    assert!(filter("tcp", "", "").check_packet(&p));
    assert!(filter("TcP", "", "").check_packet(&p));
    assert!(filter("ipv4", "", "").check_packet(&p));
    assert!(!filter("udp", "", "").check_packet(&p));
    assert!(filter("ΣΊΣΥΦΟΣ", "", "").check_packet(&packet("σίσυφος", "a", "b")));
}

#[test]
fn address_match_is_substring_and_case_sensitive() {
    let p = packet("UDP / IPv6", "fe80::1", "2001:db8::1");
    assert!(filter("", "fe80", "").check_packet(&p));
    assert!(!filter("", "FE80", "").check_packet(&p));
    assert!(filter("", "", "db8::").check_packet(&p));
    assert!(!filter("", "", "db9").check_packet(&p));
    assert!(!filter("udp", "fe80", "db9").check_packet(&p));
    assert!(filter("udp", "fe80", "db8").check_packet(&p));
}

#[test]
fn own_fields_filter_accepts_packet() {
    let p = packet("DHCPv4", "0.0.0.0", "255.255.255.255");
    assert!(filter("DHCPv4", "0.0.0.0", "255.255.255.255").check_packet(&p));
}

#[test]
fn substring_search() {
    assert!(str_contains("abcabd", "abd"));
    assert!(str_contains("abc", ""));
    assert!(!str_contains("", "a"));
    assert!(!str_contains("ab", "abc"));
    assert!(str_contains("привет мир", "т м"));
}

#[test]
fn save_plan_by_filetype() {
    assert!(AutoSaver::default().save_plan().is_none());
    assert!(AutoSaver::new("".to_string(), "log".to_string()).save_plan().is_none());
    assert!(AutoSaver::new("/tmp/x".to_string(), "".to_string()).save_plan().is_none());
    let text = AutoSaver::new("/tmp/x".to_string(), "log".to_string()).save_plan().unwrap();
    assert_eq!(text.directory, "/tmp/x");
    let file = text.file.unwrap();
    assert_eq!(file.name, "log.txt");
    assert!(matches!(file.format, SaveFormat::Text));
    let mut saver = AutoSaver::new("d".to_string(), "f".to_string());
    saver.filetype = -1;
    assert_eq!(saver.save_plan().unwrap().file.unwrap().name, "f.txt");
    saver.filetype = 1;
    let json = saver.save_plan().unwrap().file.unwrap();
    assert_eq!(json.name, "f.json");
    assert!(matches!(json.format, SaveFormat::Json));
    saver.filetype = 2;
    let plan = saver.save_plan().unwrap();
    assert_eq!(plan.directory, "d");
    assert!(plan.file.is_none());
}

#[test]
fn text_record_line() {
    let p = packet("TCP / IPv4", "1.2.3.4", "5.6.7.8");
    assert_eq!(text_record(1700000000, &p), "\n[1700000000] TCP / IPv4 | 1.2.3.4 -> 5.6.7.8 | 60 Б");
    assert_eq!(text_record(0, &NetworkPacket::default()), "\n[0] Unknown | - -> - | ");
}

#[test]
fn interfaces_are_numbered_and_described() {
    let devices = vec![
        DeviceInfo { name: "eth0".to_string(), desc: None, addresses: vec![IpAddress::V4([192, 168, 0, 5])] },
        DeviceInfo {
            name: "wlan0".to_string(),
            desc: Some("Wireless".to_string()),
            addresses: vec![IpAddress::V6([0xfe80, 0, 0, 0, 0, 0, 0, 7]), IpAddress::V4([10, 1, 2, 3])],
        },
    ];
    let list = interfaces_from_devices(&devices);
    assert_eq!(list.len(), 2);
    assert_eq!(list[0].index, 0);
    assert_eq!(list[0].name, "eth0");
    assert_eq!(list[0].description, "eth0");
    assert_eq!(list[0].addresses, vec!["192.168.0.5".to_string()]);
    assert_eq!(list[1].index, 1);
    assert_eq!(list[1].description, "Wireless");
    assert_eq!(list[1].addresses, vec!["fe80::7".to_string(), "10.1.2.3".to_string()]);
    assert_eq!(selected_interface_name(&list, 1), Some("wlan0".to_string()));
    assert_eq!(selected_interface_name(&list, 2), None);
    assert_eq!(selected_interface_name(&Vec::new(), 0), None);
}

fn ipv4_frame(proto: u8) -> Vec<u8> {
    let mut v = vec![0u8; 12];
    v.extend_from_slice(&[0x08, 0x00, 0x45, 0, 0, 20, 0, 0, 0, 0, 64, proto, 0, 0, 10, 0, 0, 1, 10, 0, 0, 2]);
    v
}

#[test]
fn frames_counted_only_when_forwarded() {
    let mut total = 0usize;
    let all = PacketFilter::default();
    let p = handle_frame(&all, &mut total, &ipv4_frame(6)).unwrap();
    assert_eq!(p.protocol, "TCP / IPv4");
    assert_eq!(total, 1);
    assert!(handle_frame(&all, &mut total, &[0u8; 10]).is_none());
    assert_eq!(total, 1);
    let udp_only = filter("udp", "", "");
    assert!(handle_frame(&udp_only, &mut total, &ipv4_frame(6)).is_none());
    assert_eq!(total, 1);
    assert!(handle_frame(&udp_only, &mut total, &ipv4_frame(17)).is_some());
    assert_eq!(total, 2);
}

#[test]
fn event_names() {
    assert_eq!(EmitEvent::AvailableInterfaces(Vec::new()).event_name(), "refresh-interfaces");
    assert_eq!(EmitEvent::NetworkPacket(NetworkPacket::default()).event_name(), "network-packet");
}

#[test]
fn default_packet_and_copy() {
    let d = NetworkPacket::default();
    assert_eq!(d.length, 0);
    assert_eq!(d.length_str, "");
    assert_eq!(d.protocol, "Unknown");
    assert_eq!(d.src_ip, "-");
    assert_eq!(d.dst_ip, "-");
    assert!(!d.identified);
    let c = packet("x", "y", "z").duplicate();
    assert_eq!(c.protocol, "x");
    assert_eq!(c.src_ip, "y");
    assert_eq!(c.dst_ip, "z");
    assert_eq!(c.length, 60);
    assert!(c.identified);
}

#[test]
fn looser_filter_accepts_what_stricter_accepts() {
    let p = packet("TCP / IPv4", "192.168.1.20", "10.0.0.1");
    let strict = filter("tcp / ipv4", "192.168.1", "10.0.0.1");
    let loose = filter("TCP", "168.1", "");
    assert!(strict.check_packet(&p));
    assert!(loose.check_packet(&p));
    let other = packet("UDP / IPv4", "192.168.1.20", "10.0.0.1");
    assert!(!strict.check_packet(&other));
}

#[test]
fn containment_chains() {
    assert!(str_contains("fe80::1234", "80::12"));
    assert!(str_contains("80::12", "::1"));
    assert!(str_contains("fe80::1234", "::1"));
}

#[test]
fn clearing_criteria_keeps_acceptance() {
    let p = packet("ICMPv6", "fe80::1", "ff02::1");
    let strict = filter("icmp", "", "ff02");
    assert!(strict.check_packet(&p));
    assert!(filter("", "", "ff02").check_packet(&p));
    assert!(filter("ICMP", "", "").check_packet(&p));
    assert!(filter("", "", "").check_packet(&p));
}
