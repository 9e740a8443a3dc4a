use netsim::utils::addrs::ip_addr::Ipv4Addr;
use netsim::utils::addrs::mac_addr::MacAddr;
use netsim::utils::tables::arp_table::{ArpTable, ARP_ENTRY_TTL};
use netsim::utils::tables::mac_table::{MacTable, MAC_ENTRY_TTL};
use netsim::utils::tables::routing_table::{count_ones, mask_of, RoutingTable};

/// One millisecond, in the nanoseconds the tables age by.
const MS: u64 = 1_000_000;

fn ip(s: &str) -> Ipv4Addr {
    s.parse().unwrap()
}

fn mac(s: &str) -> MacAddr {
    s.parse().unwrap()
}

#[test]
fn arp_learn_then_lookup() {
    let mut t = ArpTable::new();
    t.learn_at(ip("10.0.0.2"), mac("aa:aa:aa:aa:aa:aa"), 1_000 * MS);
    assert_eq!(t.lookup_at(&ip("10.0.0.2"), 1_000 * MS + ARP_ENTRY_TTL - 1), Some(mac("aa:aa:aa:aa:aa:aa")));
    assert_eq!(t.lookup_at(&ip("10.0.0.3"), 1_000 * MS), None);
}

#[test]
fn arp_learn_replaces_entry() {
    let mut t = ArpTable::new();
    t.learn_at(ip("10.0.0.2"), mac("aa:aa:aa:aa:aa:aa"), 1_000 * MS);
    t.learn_at(ip("10.0.0.2"), mac("bb:bb:bb:bb:bb:bb"), 2_000 * MS);
    let e = t.entries_at(5_000 * MS);
    assert_eq!(e, vec![(ip("10.0.0.2"), mac("bb:bb:bb:bb:bb:bb"), 3_000 * MS)]);
}

#[test]
fn arp_entries_expire_after_five_minutes() {
    let mut t = ArpTable::new();
    t.learn_at(ip("10.0.0.2"), mac("aa:aa:aa:aa:aa:aa"), 0);
    t.learn_at(ip("10.0.0.3"), mac("cc:cc:cc:cc:cc:cc"), 100_000 * MS);
    assert_eq!(t.lookup_at(&ip("10.0.0.2"), 300_000 * MS), None);
    assert_eq!(t.entries_at(300_000 * MS).len(), 1);
    t.purge_expired_at(400_000 * MS);
    assert_eq!(t.entries_at(400_000 * MS), Vec::new());
    assert_eq!(ARP_ENTRY_TTL, 300_000 * MS);
}

#[test]
fn entries_age_to_the_nanosecond() {
    let mut t = ArpTable::new();
    t.learn_at(ip("10.0.0.2"), mac("aa:aa:aa:aa:aa:aa"), 7);
    assert_eq!(t.lookup_at(&ip("10.0.0.2"), 7 + ARP_ENTRY_TTL - 1), Some(mac("aa:aa:aa:aa:aa:aa")));
    assert_eq!(t.lookup_at(&ip("10.0.0.2"), 7 + ARP_ENTRY_TTL), None);
    let mut m = MacTable::new();
    m.learn_at(mac("aa:aa:aa:aa:aa:aa"), 1, 7);
    assert_eq!(m.lookup_at(&mac("aa:aa:aa:aa:aa:aa"), 7 + MAC_ENTRY_TTL - 1), Some(1));
    assert_eq!(m.lookup_at(&mac("aa:aa:aa:aa:aa:aa"), 7 + MAC_ENTRY_TTL), None);
}

#[test]
fn arp_learning_one_address_keeps_the_others() {
    let mut t = ArpTable::new();
    t.learn_at(ip("10.0.0.2"), mac("aa:aa:aa:aa:aa:aa"), 0);
    t.learn_at(ip("10.0.0.3"), mac("cc:cc:cc:cc:cc:cc"), 0);
    t.learn_at(ip("10.0.0.2"), mac("bb:bb:bb:bb:bb:bb"), 5);
    assert_eq!(t.lookup_at(&ip("10.0.0.3"), 6), Some(mac("cc:cc:cc:cc:cc:cc")));
    assert_eq!(t.lookup_at(&ip("10.0.0.2"), 6), Some(mac("bb:bb:bb:bb:bb:bb")));
    assert_eq!(t.lookup_at(&ip("10.0.0.9"), 6), None);
}

#[test]
fn arp_remove_forgets() {
    let mut t = ArpTable::new();
    t.learn_at(ip("10.0.0.2"), mac("aa:aa:aa:aa:aa:aa"), 0);
    t.learn_at(ip("10.0.0.3"), mac("cc:cc:cc:cc:cc:cc"), 0);
    t.remove(&ip("10.0.0.2"));
    assert_eq!(t.lookup_at(&ip("10.0.0.2"), 1), None);
    assert_eq!(t.lookup_at(&ip("10.0.0.3"), 1), Some(mac("cc:cc:cc:cc:cc:cc")));
    t.remove(&ip("10.9.9.9"));
    assert_eq!(t.entries_at(1).len(), 1);
}

#[test]
fn arp_clock_versions() {
    let mut t = ArpTable::new();
    t.learn(ip("10.0.0.2"), mac("aa:aa:aa:aa:aa:aa"));
    assert_eq!(t.lookup(&ip("10.0.0.2")), Some(mac("aa:aa:aa:aa:aa:aa")));
    t.purge_expired();
    assert_eq!(t.entries().len(), 1);
}

#[test]
fn mac_table_learn_lookup_expire() {
    let mut t = MacTable::new();
    t.learn_at(mac("aa:aa:aa:aa:aa:aa"), 1, 0);
    t.learn_at(mac("bb:bb:bb:bb:bb:bb"), 2, 0);
    assert_eq!(t.lookup_at(&mac("aa:aa:aa:aa:aa:aa"), 10), Some(1));
    t.learn_at(mac("aa:aa:aa:aa:aa:aa"), 3, 20);
    assert_eq!(t.lookup_at(&mac("aa:aa:aa:aa:aa:aa"), 30), Some(3));
    assert_eq!(t.lookup_at(&mac("bb:bb:bb:bb:bb:bb"), MAC_ENTRY_TTL), None);
    assert_eq!(t.entries(), vec![(mac("aa:aa:aa:aa:aa:aa"), 3)]);
}

#[test]
fn mac_table_remove_port_and_purge() {
    let mut t = MacTable::new();
    t.learn_at(mac("aa:aa:aa:aa:aa:aa"), 1, 0);
    t.learn_at(mac("bb:bb:bb:bb:bb:bb"), 2, 0);
    t.learn_at(mac("cc:cc:cc:cc:cc:cc"), 1, 200_000 * MS);
    t.remove_port(1);
    assert_eq!(t.entries(), vec![(mac("bb:bb:bb:bb:bb:bb"), 2)]);
    t.purge_expired_at(300_001 * MS);
    assert_eq!(t.entries(), Vec::new());
    t.learn(mac("aa:aa:aa:aa:aa:aa"), 4);
    assert_eq!(t.lookup(&mac("aa:aa:aa:aa:aa:aa")), Some(4));
    t.purge_expired();
    assert_eq!(t.entries().len(), 1);
}

#[test]
fn masks_and_one_bits() {
    assert_eq!(mask_of(0), 0);
    assert_eq!(mask_of(24), 0xffffff00);
    assert_eq!(mask_of(32), 0xffffffff);
    assert_eq!(mask_of(1), 0x80000000);
    assert_eq!(count_ones(0xffffff00), 24);
    assert_eq!(count_ones(0), 0);
}

#[test]
fn routing_longest_prefix_wins() {
    let mut t = RoutingTable::new();
    t.add(ip("0.0.0.0"), 0, ip("10.0.0.254"), 0, "eth0");
    t.add(ip("10.0.0.0"), 8, ip("10.0.0.1"), 1, "eth1");
    t.add(ip("10.1.0.0"), 16, ip("10.1.0.1"), 2, "eth2");
    assert_eq!(t.lookup(ip("10.1.2.3")).unwrap().iface_name, "eth2");
    assert_eq!(t.lookup(ip("10.2.2.3")).unwrap().iface_name, "eth1");
    assert_eq!(t.lookup(ip("192.168.1.1")).unwrap().iface_name, "eth0");
}

#[test]
fn routing_ties_go_to_last_added_and_no_match() {
    let mut t = RoutingTable::new();
    t.add(ip("10.0.0.0"), 24, ip("10.0.0.1"), 1, "first");
    t.add(ip("10.0.0.77"), 24, ip("10.0.0.2"), 2, "second");
    let r = t.lookup(ip("10.0.0.5")).unwrap();
    assert_eq!(r.iface_name, "second");
    assert_eq!(r.network, 0x0a000000);
    assert!(t.lookup(ip("11.0.0.5")).is_none());
    assert_eq!(t.entries().len(), 2);
}

#[test]
fn routing_remove_drops_matching_routes() {
    let mut t = RoutingTable::new();
    t.add(ip("10.0.0.0"), 24, ip("10.0.0.1"), 1, "a");
    t.add(ip("10.0.1.0"), 24, ip("10.0.1.1"), 1, "b");
    t.add(ip("10.0.0.9"), 24, ip("10.0.0.3"), 1, "c");
    t.remove(ip("10.0.0.200"), 24);
    let names: Vec<String> = t.entries().iter().map(|r| r.iface_name.clone()).collect();
    assert_eq!(names, vec!["b".to_string()]);
}
