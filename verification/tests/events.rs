use netsim::events::{EventKind, Step, TableView};
use netsim::utils::addrs::ip_addr::Ipv4Addr;
use netsim::utils::addrs::mac_addr::MacAddr;

fn ip(s: &str) -> Ipv4Addr {
    s.parse().unwrap()
}

fn mac(s: &str) -> MacAddr {
    s.parse().unwrap()
}

#[test]
fn arp_event_texts() {
    assert_eq!(EventKind::ArpLookup { ip: ip("10.0.0.2"), found: true }.to_string(), "ARP lookup 10.0.0.2 -> hit");
    assert_eq!(EventKind::ArpLookup { ip: ip("10.0.0.2"), found: false }.to_string(), "ARP lookup 10.0.0.2 -> miss");
    assert_eq!(EventKind::ArpRequestSent { target_ip: ip("10.0.0.2") }.to_string(), "ARP request: who has 10.0.0.2?");
    assert_eq!(
        EventKind::ArpRequestReceived { sender_ip: ip("10.0.0.1"), sender_mac: mac("02:00:00:00:00:01") }.to_string(),
        "ARP request from 10.0.0.1 (02:00:00:00:00:01)"
    );
    assert_eq!(
        EventKind::ArpReplySent { target_ip: ip("10.0.0.1"), mac: mac("02:00:00:00:00:02") }.to_string(),
        "ARP reply: 10.0.0.1 is at 02:00:00:00:00:02"
    );
    assert_eq!(
        EventKind::ArpReplyReceived { sender_ip: ip("10.0.0.2"), sender_mac: mac("02:00:00:00:00:02") }.to_string(),
        "ARP reply: 10.0.0.2 is at 02:00:00:00:00:02"
    );
    assert_eq!(
        EventKind::ArpTableUpdate { ip: ip("10.0.0.2"), mac: mac("02:00:00:00:00:02") }.to_string(),
        "ARP table updated: 10.0.0.2 -> 02:00:00:00:00:02"
    );
}

#[test]
fn other_event_texts() {
    assert_eq!(EventKind::IcmpEchoRequest { src: ip("1.1.1.1"), dst: ip("2.2.2.2") }.to_string(), "ICMP echo request 1.1.1.1 -> 2.2.2.2");
    assert_eq!(EventKind::IcmpEchoReply { src: ip("2.2.2.2"), dst: ip("1.1.1.1") }.to_string(), "ICMP echo reply 2.2.2.2 -> 1.1.1.1");
    assert_eq!(
        EventKind::FrameSent { iface: "eth0".to_string(), dst_mac: mac("ff:ff:ff:ff:ff:ff") }.to_string(),
        "frame sent on eth0 -> ff:ff:ff:ff:ff:ff"
    );
    assert_eq!(
        EventKind::FrameReceived { iface: "eth1".to_string(), src_mac: mac("aa:aa:aa:aa:aa:aa") }.to_string(),
        "frame received on eth1 from aa:aa:aa:aa:aa:aa"
    );
    assert_eq!(EventKind::FrameDropped { reason: "bad fcs".to_string() }.to_string(), "frame dropped: bad fcs");
    assert_eq!(
        EventKind::MacTableLearn { mac: mac("aa:aa:aa:aa:aa:aa"), port: 3 }.to_string(),
        "MAC table: learned aa:aa:aa:aa:aa:aa on port 3"
    );
    assert_eq!(EventKind::MacTableLookup { mac: mac("aa:aa:aa:aa:aa:aa"), found: false }.to_string(), "MAC lookup aa:aa:aa:aa:aa:aa -> miss");
    assert_eq!(EventKind::MacTableLookup { mac: mac("aa:aa:aa:aa:aa:aa"), found: true }.to_string(), "MAC lookup aa:aa:aa:aa:aa:aa -> hit");
    assert_eq!(EventKind::FrameFlooded { port_count: 12 }.to_string(), "flooding frame to 12 ports");
    assert_eq!(EventKind::FrameForwarded { out_port: 0 }.to_string(), "forwarding to port 0");
    assert_eq!(EventKind::HubFlooded { port_count: 2 }.to_string(), "hub: repeating to 2 ports");
    assert_eq!(
        EventKind::RouteFound { dst: ip("10.0.2.2"), next_hop: ip("10.0.2.1"), iface: "eth1".to_string() }.to_string(),
        "route for 10.0.2.2: via 10.0.2.1 on eth1"
    );
    assert_eq!(EventKind::RouteNotFound { dst: ip("8.8.8.8") }.to_string(), "no route to 8.8.8.8");
    assert_eq!(EventKind::TtlExpired { src: ip("1.1.1.1"), dst: ip("2.2.2.2") }.to_string(), "TTL expired: 1.1.1.1 -> 2.2.2.2");
    assert_eq!(EventKind::Info { message: "hello".to_string() }.to_string(), "hello");
}

#[test]
fn table_texts() {
    let empty = TableView { name: "ARP Table".to_string(), headers: vec!["IP".to_string(), "MAC".to_string()], rows: vec![] };
    assert_eq!(empty.to_string(), "  ARP Table:\n    (empty)\n");
    let t = TableView {
        name: "MAC Table".to_string(),
        headers: vec!["MAC".to_string(), "Port".to_string()],
        rows: vec![
            vec!["aa:aa:aa:aa:aa:aa".to_string(), "port 1".to_string()],
            vec!["bb:bb:bb:bb:bb:bb".to_string(), "port 2".to_string()],
        ],
    };
    assert_eq!(t.to_string(), "  MAC Table:\n    MAC | Port\n    aa:aa:aa:aa:aa:aa | port 1\n    bb:bb:bb:bb:bb:bb | port 2\n");
}

#[test]
fn step_text() {
    let t = TableView { name: "T".to_string(), headers: vec!["A".to_string()], rows: vec![] };
    let s = Step { device: "PC1".to_string(), kind: EventKind::HubFlooded { port_count: 1 }, tables: vec![t.clone(), t] };
    assert_eq!(s.to_string(), "[PC1] hub: repeating to 1 ports\n  T:\n    (empty)\n  T:\n    (empty)\n");
    let s = Step { device: "R".to_string(), kind: EventKind::Info { message: "x".to_string() }, tables: vec![] };
    assert_eq!(s.to_string(), "[R] x\n");
}
