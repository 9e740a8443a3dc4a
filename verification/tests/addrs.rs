use netsim::utils::addrs::ip_addr::{IpAddr, Ipv4Addr, Ipv6Addr};
use netsim::utils::addrs::mac_addr::{MacAddr, ParseMacAddrErr};

#[test]
fn mac_text_round_trip() {
    let m: MacAddr = "cc:cc:cc:cc:cc:cc".parse().unwrap();
    assert_eq!(m.to_bytes(), [0xcc; 6]);
    assert_eq!(m.to_string(), "cc:cc:cc:cc:cc:cc");
    let m = MacAddr::new(0x02, 0x0a, 0xb0, 0x00, 0xff, 0x1);
    assert_eq!(m.to_string(), "02:0a:b0:00:ff:01");
    assert_eq!(m.to_string().parse::<MacAddr>().unwrap(), m);
}

#[test]
fn mac_parse_accepts_upper_case_and_short_parts() {
    let m: MacAddr = "AA:b:0C:d:E:f".parse().unwrap();
    assert_eq!(m.to_bytes(), [0xaa, 0x0b, 0x0c, 0x0d, 0x0e, 0x0f]);
}

#[test]
fn mac_parse_errors() {
    assert_eq!("aa:bb:cc".parse::<MacAddr>(), Err(ParseMacAddrErr::InvalidLength));
    assert_eq!("aa:bb:cc:dd:ee:ff:00".parse::<MacAddr>(), Err(ParseMacAddrErr::InvalidLength));
    assert_eq!("aa:bb:cc:dd:ee:gg".parse::<MacAddr>(), Err(ParseMacAddrErr::InvalidComponent));
    assert_eq!("aa:bb:cc:dd:ee:100".parse::<MacAddr>(), Err(ParseMacAddrErr::InvalidComponent));
    assert_eq!(ParseMacAddrErr::InvalidLength.to_string(), "invalid MAC address length");
    assert_eq!(ParseMacAddrErr::InvalidComponent.to_string(), "invalid MAC address component");
}

#[test]
fn mac_special_addresses() {
    assert!(MacAddr::zero().is_zero());
    assert!(!MacAddr::zero().is_broadcast());
    assert!(MacAddr::broadcast().is_broadcast());
    assert_eq!(MacAddr::broadcast().to_string(), "ff:ff:ff:ff:ff:ff");
    assert_eq!(MacAddr::from_bytes(&[1, 2, 3, 4, 5, 6]).unwrap(), MacAddr::new(1, 2, 3, 4, 5, 6));
    assert!(MacAddr::from_bytes(&[1, 2, 3]).is_err());
}

#[test]
fn ipv4_text_round_trip() {
    let a: Ipv4Addr = "10.0.1.2".parse().unwrap();
    assert_eq!(a.to_bytes(), [10, 0, 1, 2]);
    assert_eq!(a.to_string(), "10.0.1.2");
    assert_eq!(a.to_u32(), 0x0a000102);
    assert_eq!(Ipv4Addr::from_u32(0xc0a80001).to_string(), "192.168.0.1");
    assert_eq!(u32::from(Ipv4Addr::new(255, 255, 255, 0)), 0xffffff00);
}

#[test]
fn ipv4_parse_errors() {
    assert!("10.0.1".parse::<Ipv4Addr>().is_err());
    assert!("10.0.1.256".parse::<Ipv4Addr>().is_err());
    assert!("10.0..1".parse::<Ipv4Addr>().is_err());
    assert!("a.b.c.d".parse::<Ipv4Addr>().is_err());
    assert!("1.2.3.4.5".parse::<Ipv4Addr>().is_err());
    assert!(Ipv4Addr::from_bytes(&[1, 2, 3]).is_err());
    assert_eq!(Ipv4Addr::from_bytes(&[1, 2, 3, 4]).unwrap(), Ipv4Addr::new(1, 2, 3, 4));
}

#[test]
fn ipv6_text_forms() {
    let a = Ipv6Addr::new(0x2001, 0xdb8, 0, 0, 0, 0, 0, 1);
    assert_eq!(a.to_string(), "2001:db8:0:0:0:0:0:1");
    assert_eq!("2001:db8::1".parse::<Ipv6Addr>().unwrap(), a);
    assert_eq!("2001:db8:0:0:0:0:0:1".parse::<Ipv6Addr>().unwrap(), a);
    assert_eq!("::".parse::<Ipv6Addr>().unwrap(), Ipv6Addr::new(0, 0, 0, 0, 0, 0, 0, 0));
    assert_eq!("::1".parse::<Ipv6Addr>().unwrap(), Ipv6Addr::new(0, 0, 0, 0, 0, 0, 0, 1));
    assert_eq!("fe80::".parse::<Ipv6Addr>().unwrap(), Ipv6Addr::new(0xfe80, 0, 0, 0, 0, 0, 0, 0));
    assert_eq!(a.to_bytes()[0..2], [0x20, 0x01]);
}

#[test]
fn ipv6_text_reads_back() {
    let a = Ipv6Addr::new(0xfe80, 0, 0xabcd, 0x12, 0xffff, 0x1, 0x0, 0x8a2e);
    assert_eq!(a.to_string(), "fe80:0:abcd:12:ffff:1:0:8a2e");
    assert_eq!(a.to_string().parse::<Ipv6Addr>().unwrap(), a);
    let z = Ipv6Addr::new(0, 0, 0, 0, 0, 0, 0, 0);
    assert_eq!(z.to_string(), "0:0:0:0:0:0:0:0");
    assert_eq!(z.to_string().parse::<Ipv6Addr>().unwrap(), z);
}

#[test]
fn ipv6_parse_errors() {
    assert!("1::2::3".parse::<Ipv6Addr>().is_err());
    assert!("1:2:3".parse::<Ipv6Addr>().is_err());
    assert!("1:2:3:4:5:6:7:8:9".parse::<Ipv6Addr>().is_err());
    assert!("12345::".parse::<Ipv6Addr>().is_err());
    assert!("1:2:3:4::5:6:7:8:9".parse::<Ipv6Addr>().is_err());
    assert!(Ipv6Addr::from_bytes(&[0; 15]).is_err());
    assert!(Ipv6Addr::from_bytes(&[0; 16]).is_ok());
}

#[test]
fn ip_addr_kinds() {
    let v4 = IpAddr::V4(Ipv4Addr::new(1, 2, 3, 4));
    let v6 = IpAddr::V6(Ipv6Addr::new(0, 0, 0, 0, 0, 0, 0, 1));
    assert!(v4.is_ipv4() && !v4.is_ipv6());
    assert!(v6.is_ipv6() && !v6.is_ipv4());
}
