use netsim::devices::action::Action;
use netsim::devices::router::Router;
use netsim::net::ethernet::{EtherType, Ethernet};
use netsim::simulation::{AnyDevice, DeviceKind};
use netsim::utils::addrs::ip_addr::Ipv4Addr;
use netsim::utils::addrs::mac_addr::MacAddr;

/// A small synchronous network: devices, point-to-point links between interfaces, and
/// the pause points seen while frames travel.
struct Net {
    devs: Vec<AnyDevice>,
    links: Vec<((usize, usize), (usize, usize))>,
    steps: Vec<(String, String)>,
    now: u64,
}

impl Net {
    fn new() -> Net {
        Net { devs: Vec::new(), links: Vec::new(), steps: Vec::new(), now: 1_000 }
    }

    fn add(&mut self, kind: DeviceKind, name: &str) -> usize {
        self.devs.push(AnyDevice::new(kind, name));
        self.devs.len() - 1
    }

    fn add_device(&mut self, d: AnyDevice) -> usize {
        self.devs.push(d);
        self.devs.len() - 1
    }

    fn iface(&mut self, dev: usize, name: &str, ip: &str, mask: u8) -> usize {
        self.devs[dev].add_interface(name, ip, mask, 1500).unwrap().0
    }

    fn id(&self, dev: usize, name: &str) -> usize {
        self.devs[dev].interfaces().id_by_name(name).unwrap()
    }

    fn link(&mut self, a: usize, ia: &str, b: usize, ib: &str) {
        let x = self.id(a, ia);
        let y = self.id(b, ib);
        self.links.push(((a, x), (b, y)));
    }

    fn peer(&self, dev: usize, iface: usize) -> Option<(usize, usize)> {
        for (x, y) in &self.links {
            if *x == (dev, iface) {
                return Some(*y);
            }
            if *y == (dev, iface) {
                return Some(*x);
            }
        }
        None
    }

    fn run(&mut self, from: usize, actions: Vec<Action>) {
        let mut queue: Vec<(usize, Vec<Action>)> = vec![(from, actions)];
        while !queue.is_empty() {
            let (dev, acts) = queue.remove(0);
            for a in acts {
                match a {
                    Action::Send { iface, frame } => {
                        if let Some((d2, i2)) = self.peer(dev, iface) {
                            let out = self.devs[d2].handle_packet_at(i2, frame, self.now);
                            queue.push((d2, out));
                        }
                    }
                    Action::Step { kind, .. } | Action::Emit { kind } => {
                        let name = self.devs[dev].name().to_string();
                        self.steps.push((name, kind.to_string()));
                    }
                }
            }
        }
    }

    fn send_frame(&mut self, dev: usize, iface: usize, frame: Vec<u8>) {
        let acts = match &self.devs[dev] {
            AnyDevice::Pc(pc) => pc.send_frame(iface, frame),
            _ => panic!("not a PC"),
        };
        self.run(dev, acts);
    }

    fn packets(&self, dev: usize) -> Vec<Vec<u8>> {
        match &self.devs[dev] {
            AnyDevice::Pc(pc) => pc.list_packets(),
            _ => panic!("not a PC"),
        }
    }

    fn exec(&mut self, dev: usize, input: &str) -> String {
        let now = self.now;
        let (out, acts) = self.devs[dev].exec_at(input, now);
        self.run(dev, acts);
        out
    }
}

fn mac(s: &str) -> MacAddr {
    s.parse().unwrap()
}

#[test]
fn bridge_floods_unknown_mac() {
    let mut net = Net::new();
    let pc1 = net.add(DeviceKind::Pc, "PC1");
    net.iface(pc1, "eth0", "10.0.1.2", 24);
    let pc2 = net.add(DeviceKind::Pc, "PC2");
    net.iface(pc2, "eth0", "10.0.2.2", 24);
    let bridge = net.add(DeviceKind::Bridge, "Bridge");
    net.iface(bridge, "eth0", "10.0.1.1", 24);
    net.iface(bridge, "eth1", "10.0.2.1", 24);
    net.link(pc1, "eth0", bridge, "eth0");
    net.link(pc2, "eth0", bridge, "eth1");

    let ethernet = Ethernet::new(mac("cc:cc:cc:cc:cc:cc"), mac("dd:dd:dd:dd:dd:dd"), EtherType(0x0800), vec![42, 10, 42, 4]);
    let frame = ethernet.to_bytes();
    let pc1_eth0 = net.id(pc1, "eth0");
    net.send_frame(pc1, pc1_eth0, frame.clone());

    assert_eq!(net.packets(pc2), vec![frame]);
}

#[test]
fn hub_floods_all() {
    let mut net = Net::new();
    let pc1 = net.add(DeviceKind::Pc, "PC1");
    net.iface(pc1, "eth0", "10.0.1.1", 24);
    let pc2 = net.add(DeviceKind::Pc, "PC2");
    net.iface(pc2, "eth0", "10.0.1.2", 24);
    let pc3 = net.add(DeviceKind::Pc, "PC3");
    net.iface(pc3, "eth0", "10.0.1.3", 24);
    let hub = net.add(DeviceKind::Hub, "Hub");
    net.iface(hub, "eth0", "0.0.0.0", 0);
    net.iface(hub, "eth1", "0.0.0.0", 0);
    net.iface(hub, "eth2", "0.0.0.0", 0);
    net.link(pc1, "eth0", hub, "eth0");
    net.link(pc2, "eth0", hub, "eth1");
    net.link(pc3, "eth0", hub, "eth2");

    let frame = Ethernet::new(mac("aa:aa:aa:aa:aa:aa"), mac("bb:bb:bb:bb:bb:bb"), EtherType(0x0800), vec![1, 2, 3]).to_bytes();
    let pc1_eth0 = net.id(pc1, "eth0");
    net.send_frame(pc1, pc1_eth0, frame.clone());

    assert_eq!(net.packets(pc2), vec![frame.clone()]);
    assert_eq!(net.packets(pc3), vec![frame]);
}

#[test]
fn switch_learns_and_forwards() {
    let mut net = Net::new();
    let pc1 = net.add(DeviceKind::Pc, "PC1");
    net.iface(pc1, "eth0", "10.0.1.1", 24);
    let pc2 = net.add(DeviceKind::Pc, "PC2");
    net.iface(pc2, "eth0", "10.0.1.2", 24);
    let pc3 = net.add(DeviceKind::Pc, "PC3");
    net.iface(pc3, "eth0", "10.0.1.3", 24);
    let sw = net.add(DeviceKind::Switch, "SW1");
    net.iface(sw, "eth0", "0.0.0.0", 0);
    net.iface(sw, "eth1", "0.0.0.0", 0);
    net.iface(sw, "eth2", "0.0.0.0", 0);
    net.link(pc1, "eth0", sw, "eth0");
    net.link(pc2, "eth0", sw, "eth1");
    net.link(pc3, "eth0", sw, "eth2");

    // First frame: unknown dst -> floods to pc2 AND pc3
    let frame1 = Ethernet::new(mac("ff:ff:ff:ff:ff:ff"), mac("aa:aa:aa:aa:aa:aa"), EtherType(0x0800), vec![1]).to_bytes();
    let pc1_eth0 = net.id(pc1, "eth0");
    net.send_frame(pc1, pc1_eth0, frame1.clone());

    assert_eq!(net.packets(pc2).len(), 1);
    assert_eq!(net.packets(pc3).len(), 1);
}

#[test]
fn pc_cli_commands() {
    let mut net = Net::new();
    let pc = net.add(DeviceKind::Pc, "TestPC");
    net.iface(pc, "eth0", "10.0.1.1", 24);

    let help = net.exec(pc, "help");
    assert!(help.contains("ping"));
    assert!(help.contains("arp"));
    assert!(help.contains("ifconfig"));

    let ifconfig = net.exec(pc, "ifconfig");
    assert!(ifconfig.contains("eth0"));
    assert!(ifconfig.contains("10.0.1.1"));

    let arp = net.exec(pc, "arp");
    assert!(arp.contains("empty"));

    let unknown = net.exec(pc, "blah");
    assert!(unknown.contains("unknown command"));
}

#[test]
fn step_by_step_mode() {
    let mut net = Net::new();
    let pc1 = net.add(DeviceKind::Pc, "PC1");
    net.iface(pc1, "eth0", "10.0.1.1", 24);
    let pc2 = net.add(DeviceKind::Pc, "PC2");
    net.iface(pc2, "eth0", "10.0.1.2", 24);
    let sw = net.add(DeviceKind::Switch, "SW1");
    net.iface(sw, "eth0", "0.0.0.0", 0);
    net.iface(sw, "eth1", "0.0.0.0", 0);
    net.link(pc1, "eth0", sw, "eth0");
    net.link(pc2, "eth0", sw, "eth1");

    net.exec(pc1, "ping 10.0.1.2");

    assert!(!net.steps.is_empty(), "should have received at least one step");
    for (device, event) in &net.steps {
        assert!(!device.is_empty());
        assert!(!event.is_empty());
    }
}

#[test]
fn router_forwards_between_subnets() {
    let mut net = Net::new();
    let pc1 = net.add(DeviceKind::Pc, "PC1");
    net.iface(pc1, "eth0", "10.0.1.2", 24);
    let pc2 = net.add(DeviceKind::Pc, "PC2");
    net.iface(pc2, "eth0", "10.0.2.2", 24);

    let mut router = Router::new("R1");
    router.add_interface("eth0", "10.0.1.1".parse::<Ipv4Addr>().unwrap().to_u32(), 24, 1500);
    router.add_interface("eth1", "10.0.2.1".parse::<Ipv4Addr>().unwrap().to_u32(), 24, 1500);
    // Add routes on the router
    assert!(router.add_route("10.0.1.0".parse().unwrap(), 24, "10.0.1.0".parse().unwrap(), "eth0"));
    assert!(router.add_route("10.0.2.0".parse().unwrap(), 24, "10.0.2.0".parse().unwrap(), "eth1"));
    let r = net.add_device(AnyDevice::Router(router));
    net.link(pc1, "eth0", r, "eth0");
    net.link(pc2, "eth0", r, "eth1");

    // Router CLI
    let route_out = net.exec(r, "route");
    assert!(route_out.contains("10.0.1.0"));
    assert!(route_out.contains("10.0.2.0"));

    let ifconfig = net.exec(r, "ifconfig");
    assert!(ifconfig.contains("eth0"));
    assert!(ifconfig.contains("eth1"));
}

#[test]
fn ping_to_router_interface_is_answered() {
    let mut net = Net::new();
    let pc1 = net.add(DeviceKind::Pc, "PC1");
    net.iface(pc1, "eth0", "10.0.1.2", 24);
    let pc2 = net.add(DeviceKind::Pc, "PC2");
    net.iface(pc2, "eth0", "10.0.2.2", 24);

    let mut router = Router::new("R1");
    router.add_interface("eth0", "10.0.1.1".parse::<Ipv4Addr>().unwrap().to_u32(), 24, 1500);
    router.add_interface("eth1", "10.0.2.1".parse::<Ipv4Addr>().unwrap().to_u32(), 24, 1500);
    router.add_route("10.0.2.0".parse().unwrap(), 24, "10.0.2.2".parse().unwrap(), "eth1");
    router.add_route("10.0.1.0".parse().unwrap(), 24, "10.0.1.2".parse().unwrap(), "eth0");
    let r = net.add_device(AnyDevice::Router(router));
    net.link(pc1, "eth0", r, "eth0");
    net.link(pc2, "eth0", r, "eth1");

    // PC1 has no route of its own: it sends to the router's address first.
    let out = net.exec(pc1, "ping 10.0.1.1");
    assert_eq!(out, "PING 10.0.1.1 - request sent");
    assert!(net.steps.iter().any(|(d, e)| d == "R1" && e == "ICMP echo request 10.0.1.2 -> 10.0.1.1"));
    assert!(net.steps.iter().any(|(d, e)| d == "PC1" && e == "ICMP echo reply 10.0.1.1 -> 10.0.1.2"));
}
