use netsim::utils::addrs::ip_addr::Ipv4Addr;
use netsim::utils::interfaces::Interfaces;

#[test]
fn add_gives_increasing_ids_and_local_unique_macs() {
    let mut ifs = Interfaces::new();
    let (a, ma) = ifs.add("eth0", 0x0a000001, 24, 1500);
    let (b, mb) = ifs.add("eth1", 0x0a000101, 24, 1500);
    let (c, mc) = ifs.add("eth2", 0, 0, 9000);
    assert_eq!((a, b, c), (0, 1, 2));
    assert_eq!(ma[0], 0x02);
    assert_eq!(mb[0], 0x02);
    assert_eq!(mc[0], 0x02);
    assert!(ma != mb && mb != mc && ma != mc);
    assert_eq!(ifs.len(), 3);
    assert_eq!(ifs.ids(), vec![0, 1, 2]);
    assert_eq!(ifs.get(2).unwrap().mtu, 9000);
    assert_eq!(ifs.get(1).unwrap().mac, mb);
    assert!(ifs.get(7).is_none());
}

#[test]
fn update_changes_only_given_settings() {
    let mut ifs = Interfaces::new();
    let (id, mac) = ifs.add("eth0", 1, 8, 1500);
    assert!(ifs.update(id, Some("lan"), None, Some(16), None));
    let i = ifs.get(id).unwrap();
    assert_eq!(i.name, "lan");
    assert_eq!(i.addr, 1);
    assert_eq!(i.mask, 16);
    assert_eq!(i.mtu, 1500);
    assert_eq!(i.mac, mac);
    assert!(!ifs.update(9, Some("x"), None, None, None));
}

#[test]
fn remove_and_lookups() {
    let mut ifs = Interfaces::new();
    ifs.add("eth0", 0x0a000001, 24, 1500);
    ifs.add("eth1", 0x0a000101, 24, 1500);
    assert_eq!(ifs.id_by_name("eth1"), Some(1));
    assert_eq!(ifs.id_by_name("eth9"), None);
    assert_eq!(ifs.ip_of(1), Some(Ipv4Addr::new(10, 0, 1, 1)));
    assert!(ifs.has_ip(Ipv4Addr::new(10, 0, 0, 1)));
    assert!(!ifs.has_ip(Ipv4Addr::new(10, 0, 0, 2)));
    let m1 = ifs.mac_of(1).unwrap();
    assert_eq!(ifs.mac_for_ip(Ipv4Addr::new(10, 0, 1, 1)), Some(m1));
    assert_eq!(ifs.first_id(), Some(0));
    let removed = ifs.remove(0).unwrap();
    assert_eq!(removed.name, "eth0");
    assert!(ifs.remove(0).is_none());
    assert_eq!(ifs.first_id(), Some(1));
    assert_eq!(ifs.iter_with_id().len(), 1);
    let (next, _) = ifs.add("eth2", 0, 0, 1500);
    assert_eq!(next, 2);
}

#[test]
fn ids_are_never_reused_after_remove() {
    let mut ifs = Interfaces::new();
    let (a, _) = ifs.add("eth0", 0x0a000001, 24, 1500);
    let (b, _) = ifs.add("eth1", 0x0a000002, 24, 1500);
    assert!(ifs.remove(b).is_some());
    let (c, m) = ifs.add("eth2", 0x0a000003, 24, 1500);
    assert_eq!((a, b, c), (0, 1, 2));
    assert_eq!(m[0], 0x02);
    assert_eq!(ifs.len(), 2);
    let got = ifs.get(c).unwrap();
    assert_eq!((got.name.as_str(), got.addr, got.mask, got.mtu, got.mac, got.description.as_str()), ("eth2", 0x0a000003, 24, 1500, m, ""));
}
