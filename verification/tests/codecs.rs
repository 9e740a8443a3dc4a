use netsim::net::arp::{Arp, ArpOperation};
use netsim::net::checksum::checksum;
use netsim::net::ethernet::{EtherType, Ethernet};
use netsim::net::icmp::Icmp;
use netsim::net::ipv4::{IpNextHeaderProtocol, Ipv4};
use netsim::utils::addrs::ip_addr::Ipv4Addr;
use netsim::utils::addrs::mac_addr::MacAddr;

fn mac(s: &str) -> MacAddr {
    s.parse().unwrap()
}

#[test]
fn ethernet_fcs_is_crc32_of_header_and_payload() {
    let f = Ethernet::new(mac("cc:cc:cc:cc:cc:cc"), mac("dd:dd:dd:dd:dd:dd"), EtherType(0x0800), vec![42, 10, 42, 4]);
    assert_eq!(f.fcs, 0x3ea2fac7);
    let b = f.to_bytes();
    assert_eq!(b.len(), 14 + 4 + 4);
    assert_eq!(&b[12..14], &[0x08, 0x00]);
    assert_eq!(&b[b.len() - 4..], &[0xc7, 0xfa, 0xa2, 0x3e]);
    assert!(f.verify_fcs());
}

#[test]
fn fcs_catches_a_changed_payload_byte_or_fcs() {
    let f = Ethernet::new(mac("cc:cc:cc:cc:cc:cc"), mac("dd:dd:dd:dd:dd:dd"), EtherType(0x0800), vec![1, 2, 3, 4, 5]);
    assert!(f.verify_fcs());
    for i in 0..f.payload.len() {
        for delta in [1u8, 0x80, 0xff] {
            let mut g = f.clone();
            g.payload[i] ^= delta;
            assert!(!g.verify_fcs());
        }
    }
    let mut h = f.clone();
    h.fcs ^= 1;
    assert!(!h.verify_fcs());
}

#[test]
fn ethernet_round_trip_and_short_frames() {
    let f = Ethernet::new(mac("01:02:03:04:05:06"), mac("0a:0b:0c:0d:0e:0f"), EtherType(0x0806), vec![9; 30]);
    let back = Ethernet::from_bytes(&f.to_bytes()).unwrap();
    assert_eq!(back, f);
    assert_eq!(Ethernet::from_bytes(&[0u8; 17]).unwrap_err(), "trame Ethernet trop courte");
    let mut bad = f.to_bytes();
    bad[15] ^= 1;
    assert!(!Ethernet::from_bytes(&bad).unwrap().verify_fcs());
}

#[test]
fn ethertype_forms() {
    let t = EtherType::new(0x86dd);
    assert_eq!(t.to_bytes(), [0x86, 0xdd]);
    assert_eq!(EtherType::from_bytes(&[0x08, 0x06]), EtherType(0x0806));
    assert_eq!(t.to_string(), "0x86dd");
    assert_eq!(EtherType(0x0800).to_string(), "0x0800");
}

#[test]
fn arp_round_trip_and_errors() {
    let a = Arp::new(ArpOperation(1), mac("aa:aa:aa:aa:aa:aa"), Ipv4Addr::new(10, 0, 0, 1), MacAddr::zero(), Ipv4Addr::new(10, 0, 0, 2));
    let b = a.to_bytes();
    assert_eq!(b.len(), 28);
    assert_eq!(&b[0..8], &[0, 1, 0x08, 0x00, 6, 4, 0, 1]);
    let back = Arp::from_bytes(&b).unwrap();
    assert_eq!(back.operation, ArpOperation(1));
    assert_eq!(back.sender_hw_addr, mac("aa:aa:aa:aa:aa:aa"));
    assert_eq!(back.target_proto_addr, Ipv4Addr::new(10, 0, 0, 2));
    assert_eq!(Arp::from_bytes(&b[..27]).unwrap_err(), "paquet ARP trop court");
    let mut bad = b.clone();
    bad[4] = 8;
    assert_eq!(Arp::from_bytes(&bad).unwrap_err(), "longueur d'adresse matérielle invalide");
    let mut bad = b.clone();
    bad[5] = 16;
    assert_eq!(Arp::from_bytes(&bad).unwrap_err(), "longueur d'adresse protocole invalide");
}

#[test]
fn internet_checksum_values() {
    assert_eq!(checksum(&[8, 0, 0, 0]), 0xf7ff);
    assert_eq!(checksum(&[]), 0xffff);
    assert_eq!(checksum(&[0xff, 0xff]), 0);
    assert_eq!(checksum(&[8, 0, 0, 0, 1, 2, 3, 4]), 0xf3f9);
    assert_eq!(checksum(&[1]), 0xfeff);
}

#[test]
fn icmp_echo_messages() {
    let m = Icmp::new(8, 0, Vec::new());
    assert_eq!(m.checksum, 0xf7ff);
    assert_eq!(m.to_bytes(), vec![8, 0, 0xf7, 0xff]);
    assert!(m.verify_checksum());
    assert!(m.is_echo_request() && !m.is_echo_reply());
    let m = Icmp::new(8, 0, vec![1, 2, 3, 4]);
    assert_eq!(m.checksum, 0xf3f9);
    let back = Icmp::from_bytes(&m.to_bytes()).unwrap();
    assert_eq!(back, m);
    assert!(Icmp::from_bytes(&[8, 0, 0]).is_err());
    let r = Icmp::new(0, 0, vec![]);
    assert!(r.is_echo_reply());
}

#[test]
fn icmp_error_kinds() {
    assert!(Icmp::new(11, 0, vec![]).is_ttl_exceeded());
    assert!(Icmp::new(11, 1, vec![]).is_time_exceeded());
    assert!(!Icmp::new(11, 1, vec![]).is_ttl_exceeded());
    assert!(Icmp::new(3, 0, vec![]).is_network_unreachable());
    assert!(Icmp::new(3, 1, vec![]).is_host_unreachable());
    assert!(Icmp::new(3, 4, vec![]).is_fragmentation_needed());
    assert!(Icmp::new(3, 4, vec![]).is_destination_unreachable());
}

#[test]
fn ipv4_packet_header_and_checksum() {
    let icmp = Icmp::new(8, 0, Vec::new()).to_bytes();
    let p = Ipv4::new(Ipv4Addr::new(10, 0, 1, 2), Ipv4Addr::new(10, 0, 2, 2), IpNextHeaderProtocol(1), icmp.clone());
    assert_eq!(p.total_length, 24);
    assert_eq!(p.ttl, 64);
    assert_eq!(p.checksum, 0x63e2);
    assert!(p.verify_checksum());
    let b = p.to_bytes();
    assert_eq!(b[0], 0x45);
    assert_eq!(&b[10..12], &[0x63, 0xe2]);
    let back = Ipv4::from_bytes(&b).unwrap();
    assert_eq!(back, p);
    let mut q = back.clone();
    q.ttl = 63;
    assert!(!q.verify_checksum());
    q.recompute_checksum();
    assert!(q.verify_checksum());
}

#[test]
fn ipv4_packet_parse_errors() {
    assert_eq!(Ipv4::from_bytes(&[0x45; 19]).unwrap_err(), "paquet IPv4 trop court");
    let icmp = Icmp::new(8, 0, Vec::new()).to_bytes();
    let good = Ipv4::new(Ipv4Addr::new(1, 1, 1, 1), Ipv4Addr::new(2, 2, 2, 2), IpNextHeaderProtocol(1), icmp).to_bytes();
    let mut b = good.clone();
    b[0] = 0x65;
    assert_eq!(Ipv4::from_bytes(&b).unwrap_err(), "version IPv4 invalide");
    let mut b = good.clone();
    b[0] = 0x44;
    assert_eq!(Ipv4::from_bytes(&b).unwrap_err(), "en-tête IPv4 invalide");
    let mut b = good.clone();
    b[0] = 0x46;
    b[3] = 24;
    assert_eq!(Ipv4::from_bytes(&b).unwrap_err(), "options IPv4 non supportées");
    let mut b = good.clone();
    b[3] = 40;
    assert_eq!(Ipv4::from_bytes(&b).unwrap_err(), "paquet IPv4 incomplet");
    let mut b = good.clone();
    b[3] = 10;
    assert_eq!(Ipv4::from_bytes(&b).unwrap_err(), "longueur totale IPv4 invalide");
    let mut b = good.clone();
    b[0] = 0x4f;
    assert_eq!(Ipv4::from_bytes(&b).unwrap_err(), "en-tête IPv4 incomplet");
}
