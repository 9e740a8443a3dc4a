use netsim::devices::action::Action;
use netsim::devices::bridge::Bridge;
use netsim::devices::hub::Hub;
use netsim::devices::pc::PC;
use netsim::devices::router::Router;
use netsim::devices::switch::Switch;
use netsim::events::EventKind;
use netsim::net::arp::{Arp, ArpOperation};
use netsim::net::ethernet::{EtherType, Ethernet};
use netsim::net::icmp::Icmp;
use netsim::net::ipv4::{IpNextHeaderProtocol, Ipv4};
use netsim::utils::addrs::ip_addr::Ipv4Addr;
use netsim::utils::addrs::mac_addr::MacAddr;

fn ip(s: &str) -> Ipv4Addr {
    s.parse().unwrap()
}

fn mac(s: &str) -> MacAddr {
    s.parse().unwrap()
}

fn addr(s: &str) -> u32 {
    ip(s).to_u32()
}

fn sends(acts: &[Action]) -> Vec<(usize, Vec<u8>)> {
    acts.iter()
        .filter_map(|a| match a {
            Action::Send { iface, frame } => Some((*iface, frame.clone())),
            _ => None,
        })
        .collect()
}

fn events(acts: &[Action]) -> Vec<String> {
    acts.iter()
        .filter_map(|a| match a {
            Action::Step { kind, .. } | Action::Emit { kind } => Some(kind.to_string()),
            _ => None,
        })
        .collect()
}

fn arp_frame(op: u16, dst: MacAddr, smac: MacAddr, sip: Ipv4Addr, tmac: MacAddr, tip: Ipv4Addr) -> Vec<u8> {
    let a = Arp::new(ArpOperation(op), smac, sip, tmac, tip);
    Ethernet::new(dst, smac, EtherType(0x0806), a.to_bytes()).to_bytes()
}

fn ping_frame(dst: MacAddr, src: MacAddr, from: Ipv4Addr, to: Ipv4Addr, ttl: u8) -> Vec<u8> {
    let m = Icmp::new(8, 0, vec![7, 7]);
    let mut p = Ipv4::new(from, to, IpNextHeaderProtocol(1), m.to_bytes());
    p.ttl = ttl;
    p.recompute_checksum();
    Ethernet::new(dst, src, EtherType(0x0800), p.to_bytes()).to_bytes()
}

fn pc_with(name: &str, a: &str) -> (PC, MacAddr) {
    let mut pc = PC::new(name);
    let (_, m) = pc.add_interface("eth0", addr(a), 24, 1500);
    (pc, MacAddr::from_bytes(&m).unwrap())
}

#[test]
fn pc_console_texts() {
    let mut pc = PC::new("PC1");
    assert_eq!(pc.exec_at("", 0).0, "");
    assert_eq!(pc.exec_at("   ", 0).0, "");
    assert_eq!(pc.exec_at("ifconfig", 0).0, "no interfaces configured\n");
    assert_eq!(pc.exec_at("ping 1.2.3.4", 0).0, "PING 1.2.3.4 - failed (no interface)");
    assert_eq!(pc.exec_at("ping", 0).0, "usage: ping <ip>");
    assert_eq!(pc.exec_at("ping 1.2.3", 0).0, "invalid IP: 1.2.3");
    assert_eq!(pc.exec_at("arp", 0).0, "ARP Table:\n  (empty)\n");
    assert_eq!(pc.exec_at("arp -d 1.2.3.4", 0).0, "arp -d not supported yet");
    assert_eq!(pc.exec_at("  blah  x", 0).0, "unknown command: blah");
    assert_eq!(
        pc.exec_at("help", 0).0,
        "Available commands:\n  ping <ip>    - Send ICMP echo request\n  arp          - Show ARP table\n  ifconfig     - Show interfaces\n  help         - Show this help\n"
    );
    let (_, m) = pc.add_interface("eth0", addr("10.0.1.1"), 24, 1500);
    let m = MacAddr::from_bytes(&m).unwrap().to_string();
    assert_eq!(pc.exec_at("ip", 0).0, format!("eth0 (id=0):\n  IP:   10.0.1.1/24\n  MAC:  {m}\n  MTU:  1500\n\n"));
}

fn last_send(acts: &[Action]) -> (usize, Vec<u8>) {
    match acts.last() {
        Some(Action::Send { iface, frame }) => (*iface, frame.clone()),
        _ => panic!("the last action sends no frame"),
    }
}

#[test]
fn ping_across_a_cable_in_five_frames() {
    let (mut a, _) = pc_with("PC1", "10.0.1.1");
    let (mut b, _) = pc_with("PC2", "10.0.1.2");
    let (sent, acts1) = a.ping_at(ip("10.0.1.2"), 0);
    assert!(sent);
    let (i1, f1) = last_send(&acts1);
    assert_eq!(i1, 0);
    let acts2 = b.handle_packet_at(0, f1, 10);
    let (i2, f2) = last_send(&acts2);
    assert_eq!(i2, 0);
    let acts3 = a.handle_packet_at(0, f2, 20);
    let (i3, f3) = last_send(&acts3);
    assert_eq!(i3, 0);
    let acts4 = b.handle_packet_at(0, f3, 30);
    let (i4, f4) = last_send(&acts4);
    assert_eq!(i4, 0);
    let acts5 = a.handle_packet_at(0, f4, 40);
    assert_eq!(acts5.len(), 1);
    assert_eq!(events(&acts5), vec!["ICMP echo reply 10.0.1.2 -> 10.0.1.1".to_string()]);
}

#[test]
fn pc_arping_broadcasts_a_request_and_clear_prints_nothing() {
    let mut pc = PC::new("PC1");
    assert_eq!(pc.exec_at("arping", 0).0, "usage: arping <ip>");
    assert_eq!(pc.exec_at("arping 10.0.1", 0).0, "invalid IP: 10.0.1");
    let (text, acts) = pc.exec_at("arping 10.0.1.2", 0);
    assert_eq!(text, "ARPING 10.0.1.2 - failed (no interface)");
    assert!(acts.is_empty());
    let (text, acts) = pc.exec_at("clear", 0);
    assert_eq!(text, "");
    assert!(acts.is_empty());
    let (_, m) = pc.add_interface("eth0", addr("10.0.1.1"), 24, 1500);
    let my_mac = MacAddr::from_bytes(&m).unwrap();
    let (text, acts) = pc.exec_at("arping 10.0.1.2", 0);
    assert_eq!(text, "ARPING 10.0.1.2 - request sent");
    assert_eq!(events(&acts), vec!["ARP request: who has 10.0.1.2?".to_string()]);
    let s = sends(&acts);
    assert_eq!(s, vec![(0, arp_frame(1, MacAddr::broadcast(), my_mac, ip("10.0.1.1"), MacAddr::zero(), ip("10.0.1.2")))]);
    assert_eq!(pc.exec_at("arp", 0).0, "ARP Table:\n  (empty)\n");
}

#[test]
fn pc_answers_arp_request_for_its_address() {
    let (mut pc, my_mac) = pc_with("PC2", "10.0.1.2");
    let asker = mac("02:00:00:00:00:01");
    let req = arp_frame(1, MacAddr::broadcast(), asker, ip("10.0.1.1"), MacAddr::zero(), ip("10.0.1.2"));
    let acts = pc.handle_packet_at(0, req.clone(), 5_000_000_000);
    assert_eq!(events(&acts), vec!["ARP request from 10.0.1.1 (02:00:00:00:00:01)".to_string(), format!("ARP reply: 10.0.1.1 is at {}", my_mac.to_string())]);
    let s = sends(&acts);
    assert_eq!(s.len(), 1);
    assert_eq!(s[0].0, 0);
    let f = Ethernet::from_bytes(&s[0].1).unwrap();
    assert_eq!(f.destination, asker);
    assert_eq!(f.source, my_mac);
    assert!(f.verify_fcs());
    let a = Arp::from_bytes(&f.payload).unwrap();
    assert_eq!(a.operation, ArpOperation(2));
    assert_eq!(a.sender_hw_addr, my_mac);
    assert_eq!(a.sender_proto_addr, ip("10.0.1.2"));
    assert_eq!(a.target_proto_addr, ip("10.0.1.1"));
    assert_eq!(pc.list_packets(), vec![req]);
    assert_eq!(pc.exec_at("arp", 65_500_000_000).0, "ARP Table:\n  10.0.1.1 -> 02:00:00:00:00:01 (60s ago)\n");
}

#[test]
fn pc_ignores_arp_request_for_another_address() {
    let (mut pc, _) = pc_with("PC2", "10.0.1.2");
    let req = arp_frame(1, MacAddr::broadcast(), mac("02:00:00:00:00:01"), ip("10.0.1.1"), MacAddr::zero(), ip("10.0.1.9"));
    let acts = pc.handle_packet_at(0, req, 0);
    assert_eq!(events(&acts).len(), 1);
    assert!(sends(&acts).is_empty());
}

#[test]
fn pc_ping_waits_for_arp_then_sends() {
    let (mut pc, my_mac) = pc_with("PC1", "10.0.1.1");
    let (sent, acts) = pc.ping_at(ip("10.0.1.2"), 0);
    assert!(sent);
    assert_eq!(events(&acts), vec!["ARP lookup 10.0.1.2 -> miss".to_string(), "ARP request: who has 10.0.1.2?".to_string()]);
    let s = sends(&acts);
    let f = Ethernet::from_bytes(&s[0].1).unwrap();
    assert!(f.destination.is_broadcast());
    let a = Arp::from_bytes(&f.payload).unwrap();
    assert_eq!(a.operation, ArpOperation(1));
    assert_eq!(a.sender_hw_addr, my_mac);
    assert_eq!(a.target_proto_addr, ip("10.0.1.2"));

    let peer = mac("02:00:00:00:00:02");
    let reply = arp_frame(2, my_mac, peer, ip("10.0.1.2"), my_mac, ip("10.0.1.1"));
    let acts = pc.handle_packet_at(0, reply, 10);
    assert_eq!(events(&acts), vec!["ARP reply: 10.0.1.2 is at 02:00:00:00:00:02".to_string()]);
    let s = sends(&acts);
    assert_eq!(s.len(), 1);
    let f = Ethernet::from_bytes(&s[0].1).unwrap();
    assert_eq!(f.destination, peer);
    let p = Ipv4::from_bytes(&f.payload).unwrap();
    assert_eq!(p.source, ip("10.0.1.1"));
    assert_eq!(p.destination, ip("10.0.1.2"));
    assert!(p.verify_checksum());
    let m = Icmp::from_bytes(&p.payload).unwrap();
    assert!(m.is_echo_request() && m.verify_checksum());

    // A second ping goes out at once.
    let (_, acts) = pc.ping_at(ip("10.0.1.2"), 20);
    assert_eq!(events(&acts), vec!["ARP lookup 10.0.1.2 -> hit".to_string()]);
    assert_eq!(sends(&acts).len(), 1);
}

#[test]
fn pc_answers_ping_with_same_data() {
    let (mut pc, my_mac) = pc_with("PC2", "10.0.1.2");
    let them = mac("02:00:00:00:00:01");
    let req = ping_frame(my_mac, them, ip("10.0.1.1"), ip("10.0.1.2"), 64);
    let acts = pc.handle_packet_at(0, req, 0);
    assert_eq!(events(&acts), vec!["ICMP echo request 10.0.1.1 -> 10.0.1.2".to_string(), "ICMP echo reply 10.0.1.2 -> 10.0.1.1".to_string()]);
    let s = sends(&acts);
    let f = Ethernet::from_bytes(&s[0].1).unwrap();
    assert_eq!(f.destination, them);
    let p = Ipv4::from_bytes(&f.payload).unwrap();
    assert_eq!(p.destination, ip("10.0.1.1"));
    let m = Icmp::from_bytes(&p.payload).unwrap();
    assert!(m.is_echo_reply());
    assert_eq!(m.payload, vec![7, 7]);
}

#[test]
fn pc_drops_bad_checksum_and_foreign_packets() {
    let (mut pc, my_mac) = pc_with("PC2", "10.0.1.2");
    let them = mac("02:00:00:00:00:01");
    let mut req = ping_frame(my_mac, them, ip("10.0.1.1"), ip("10.0.1.2"), 64);
    req[14 + 10] ^= 0xff;
    assert!(pc.handle_packet_at(0, req, 0).is_empty());
    let other = ping_frame(my_mac, them, ip("10.0.1.1"), ip("10.0.1.3"), 64);
    assert!(pc.handle_packet_at(0, other, 0).is_empty());
    assert!(pc.handle_packet_at(0, vec![1, 2, 3], 0).is_empty());
    assert_eq!(pc.list_packets().len(), 2);
}

#[test]
fn pc_send_frame_checks_fcs() {
    let (pc, _) = pc_with("PC1", "10.0.1.1");
    let good = Ethernet::new(mac("aa:aa:aa:aa:aa:aa"), mac("bb:bb:bb:bb:bb:bb"), EtherType(0x0800), vec![1]).to_bytes();
    assert_eq!(sends(&pc.send_frame(0, good.clone())), vec![(0, good.clone())]);
    let mut bad = good.clone();
    bad[0] = 0;
    assert!(pc.send_frame(0, bad).is_empty());
    assert!(pc.send_frame(0, vec![0; 5]).is_empty());
}

#[test]
fn pc_restart_forgets_arp_but_keeps_packets() {
    let (mut pc, _) = pc_with("PC2", "10.0.1.2");
    let req = arp_frame(1, MacAddr::broadcast(), mac("02:00:00:00:00:01"), ip("10.0.1.1"), MacAddr::zero(), ip("10.0.1.2"));
    pc.handle_packet_at(0, req, 0);
    pc.prepare_restart();
    assert_eq!(pc.exec_at("arp", 0).0, "ARP Table:\n  (empty)\n");
    assert_eq!(pc.list_packets().len(), 1);
}

fn router() -> (Router, MacAddr, MacAddr) {
    let mut r = Router::new("R1");
    let (_, m0) = r.add_interface("eth0", addr("10.0.1.1"), 24, 1500);
    let (_, m1) = r.add_interface("eth1", addr("10.0.2.1"), 24, 1500);
    assert!(r.add_route(ip("10.0.2.0"), 24, ip("10.0.2.2"), "eth1"));
    (r, MacAddr::from_bytes(&m0).unwrap(), MacAddr::from_bytes(&m1).unwrap())
}

#[test]
fn router_reports_expired_ttl_to_sender() {
    let (mut r, m0, _) = router();
    let them = mac("02:00:00:00:00:01");
    let pkt = ping_frame(m0, them, ip("10.0.1.2"), ip("10.0.2.2"), 1);
    let acts = r.handle_packet_at(0, pkt.clone(), 0);
    assert_eq!(events(&acts), vec!["TTL expired: 10.0.1.2 -> 10.0.2.2".to_string()]);
    let s = sends(&acts);
    assert_eq!(s.len(), 1);
    assert_eq!(s[0].0, 0);
    let f = Ethernet::from_bytes(&s[0].1).unwrap();
    assert_eq!(f.destination, them);
    let p = Ipv4::from_bytes(&f.payload).unwrap();
    assert_eq!(p.source, ip("10.0.1.1"));
    assert_eq!(p.destination, ip("10.0.1.2"));
    let m = Icmp::from_bytes(&p.payload).unwrap();
    assert!(m.is_ttl_exceeded() && m.verify_checksum());
    let orig = Ethernet::from_bytes(&pkt).unwrap().payload;
    let mut quote = vec![0u8; 4];
    quote.extend_from_slice(&orig[..orig.len().min(28)]);
    assert_eq!(orig.len(), 26);
    assert_eq!(m.payload, quote);
}

#[test]
fn router_forwards_after_arp() {
    let (mut r, m0, m1) = router();
    let them = mac("02:00:00:00:00:01");
    let pkt = ping_frame(m0, them, ip("10.0.1.2"), ip("10.0.2.2"), 64);
    let acts = r.handle_packet_at(0, pkt, 0);
    assert_eq!(
        events(&acts),
        vec![
            "route for 10.0.2.2: via 10.0.2.2 on eth1".to_string(),
            "ARP lookup 10.0.2.2 -> miss".to_string(),
            "ARP request: who has 10.0.2.2?".to_string(),
        ]
    );
    let s = sends(&acts);
    assert_eq!(s[0].0, 1);
    let peer = mac("02:00:00:00:00:02");
    let reply = arp_frame(2, m1, peer, ip("10.0.2.2"), m1, ip("10.0.2.1"));
    let acts = r.handle_packet_at(1, reply, 5);
    assert_eq!(
        events(&acts),
        vec!["ARP table updated: 10.0.2.2 -> 02:00:00:00:00:02".to_string(), "ARP reply: 10.0.2.2 is at 02:00:00:00:00:02".to_string()]
    );
    let s = sends(&acts);
    assert_eq!(s.len(), 1);
    assert_eq!(s[0].0, 1);
    let f = Ethernet::from_bytes(&s[0].1).unwrap();
    assert_eq!(f.destination, peer);
    assert_eq!(f.source, m1);
    let p = Ipv4::from_bytes(&f.payload).unwrap();
    assert_eq!(p.ttl, 63);
    assert!(p.verify_checksum());
}

#[test]
fn router_without_route_drops() {
    let (mut r, m0, _) = router();
    let pkt = ping_frame(m0, mac("02:00:00:00:00:01"), ip("10.0.1.2"), ip("8.8.8.8"), 64);
    let acts = r.handle_packet_at(0, pkt, 0);
    assert_eq!(events(&acts), vec!["no route to 8.8.8.8".to_string()]);
    assert!(sends(&acts).is_empty());
}

#[test]
fn router_answers_arp_only_for_incoming_interface() {
    let (mut r, m0, _) = router();
    let asker = mac("02:00:00:00:00:01");
    let req = arp_frame(1, MacAddr::broadcast(), asker, ip("10.0.1.2"), MacAddr::zero(), ip("10.0.1.1"));
    let acts = r.handle_packet_at(0, req, 0);
    assert_eq!(events(&acts)[1], format!("ARP reply: 10.0.1.2 is at {}", m0.to_string()));
    assert_eq!(sends(&acts).len(), 1);
    let req = arp_frame(1, MacAddr::broadcast(), asker, ip("10.0.1.2"), MacAddr::zero(), ip("10.0.2.1"));
    let acts = r.handle_packet_at(0, req, 0);
    assert_eq!(events(&acts), vec!["ARP table updated: 10.0.1.2 -> 02:00:00:00:00:01".to_string()]);
    assert!(sends(&acts).is_empty());
}

#[test]
fn router_console_and_routes() {
    let (mut r, _, _) = router();
    assert!(!r.add_route(ip("10.9.0.0"), 16, ip("10.0.1.9"), "eth7"));
    assert_eq!(r.routes().len(), 1);
    assert_eq!(r.exec_at("route", 0), "Routing Table:\n  10.0.2.0/24 via 10.0.2.2 dev eth1\n");
    assert_eq!(r.exec_at("arp", 0), "ARP Table:\n  (empty)\n");
    assert_eq!(r.exec_at("nope", 0), "unknown command: nope");
    assert!(r.exec_at("help", 0).starts_with("Available commands:\n  route        - Show routing table\n"));
    r.prepare_restart();
    assert_eq!(r.exec_at("route", 0), "Routing Table:\n  (empty)\n");
}

fn switch3() -> Switch {
    let mut s = Switch::new("SW1");
    s.add_interface("eth0", 0, 0, 1500);
    s.add_interface("eth1", 0, 0, 1500);
    s.add_interface("eth2", 0, 0, 1500);
    s
}

fn frame(dst: &str, src: &str) -> Vec<u8> {
    Ethernet::new(mac(dst), mac(src), EtherType(0x0800), vec![1, 2, 3]).to_bytes()
}

#[test]
fn switch_floods_unknown_then_forwards_known() {
    let mut sw = switch3();
    let f1 = frame("bb:bb:bb:bb:bb:bb", "aa:aa:aa:aa:aa:aa");
    let acts = sw.handle_packet_at(0, f1.clone(), 0);
    assert_eq!(
        events(&acts),
        vec![
            "MAC table: learned aa:aa:aa:aa:aa:aa on port 0".to_string(),
            "MAC lookup bb:bb:bb:bb:bb:bb -> miss".to_string(),
            "flooding frame to 2 ports".to_string(),
        ]
    );
    assert_eq!(sends(&acts), vec![(1, f1.clone()), (2, f1)]);
    let f2 = frame("aa:aa:aa:aa:aa:aa", "bb:bb:bb:bb:bb:bb");
    let acts = sw.handle_packet_at(2, f2.clone(), 10);
    assert_eq!(events(&acts)[2], "forwarding to port 0");
    assert_eq!(sends(&acts), vec![(0, f2)]);
    assert_eq!(sw.show_mac_table(), vec![([0xaa; 6], 0), ([0xbb; 6], 2)]);
    assert_eq!(sw.exec("mac"), "MAC Table:\n  aa:aa:aa:aa:aa:aa -> port 0\n  bb:bb:bb:bb:bb:bb -> port 2\n");
}

#[test]
fn switch_drops_frame_for_same_port_and_floods_broadcast() {
    let mut sw = switch3();
    sw.handle_packet_at(0, frame("ff:ff:ff:ff:ff:ff", "aa:aa:aa:aa:aa:aa"), 0);
    sw.handle_packet_at(0, frame("ff:ff:ff:ff:ff:ff", "cc:cc:cc:cc:cc:cc"), 0);
    let acts = sw.handle_packet_at(0, frame("aa:aa:aa:aa:aa:aa", "cc:cc:cc:cc:cc:cc"), 1);
    assert!(sends(&acts).is_empty());
    let acts = sw.handle_packet_at(1, frame("ff:ff:ff:ff:ff:ff", "dd:dd:dd:dd:dd:dd"), 2);
    assert_eq!(events(&acts)[1], "flooding frame to 2 ports");
    assert_eq!(sends(&acts).len(), 2);
    sw.prepare_restart();
    assert_eq!(sw.exec("mac"), "MAC Table:\n  (empty)\n");
    assert!(sw.handle_packet_at(0, vec![0; 10], 0).is_empty());
}

#[test]
fn switch_and_hub_consoles() {
    let sw = switch3();
    let out = sw.exec("ifconfig");
    assert!(out.starts_with("eth0 (port 0):\n  MAC:  02:"));
    assert!(out.contains("\n  IP:   0.0.0.0/0\n  MTU:  1500\n\n"));
    assert_eq!(sw.exec("help"), "Available commands:\n  mac          - Show MAC address table\n  ifconfig     - Show interfaces\n  help         - Show this help\n");
    let hub = Hub::new("H");
    assert_eq!(hub.exec("ifconfig"), "no interfaces configured\n");
    assert_eq!(hub.exec("help"), "Available commands:\n  ifconfig     - Show interfaces\n  help         - Show this help\n");
    assert_eq!(hub.exec("mac"), "unknown command: mac");
    let br = Bridge::new("B");
    assert_eq!(br.exec("mac"), "unknown command: mac");
}

#[test]
fn hub_repeats_everywhere_else() {
    let mut hub = Hub::new("Hub");
    hub.add_interface("eth0", 0, 0, 1500);
    hub.add_interface("eth1", 0, 0, 1500);
    hub.add_interface("eth2", 0, 0, 1500);
    let acts = hub.handle_packet(1, vec![9, 9, 9]);
    assert!(matches!(&acts[0], Action::Emit { kind: EventKind::HubFlooded { port_count: 2 } }));
    assert_eq!(sends(&acts), vec![(0, vec![9, 9, 9]), (2, vec![9, 9, 9])]);
}

#[test]
fn bridge_learns_like_a_switch() {
    let mut br = Bridge::new("B");
    br.add_interface("eth0", 0, 0, 1500);
    br.add_interface("eth1", 0, 0, 1500);
    let f = frame("bb:bb:bb:bb:bb:bb", "aa:aa:aa:aa:aa:aa");
    assert_eq!(sends(&br.handle_packet_at(0, f.clone(), 0)), vec![(1, f)]);
    assert_eq!(br.show_mac_table(), vec![([0xaa; 6], 0)]);
}
