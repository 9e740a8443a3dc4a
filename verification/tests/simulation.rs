use netsim::commands::{sim_max_interfaces, AddIfaceResult, SimStepEvent, StepInfo};
use netsim::events::{EventKind, Step, TableView};
use netsim::simulation::{AnyDevice, DeviceKind, SimulationManager};

#[test]
fn create_rename_remove_rules() {
    let mut m = SimulationManager::new();
    assert_eq!(m.create_device("PC1", "pc"), Ok(()));
    assert_eq!(m.create_device("PC1", "hub"), Err("l'appareil 'PC1' existe déjà".to_string()));
    assert_eq!(m.create_device("X", "toaster"), Err("type inconnu: toaster".to_string()));
    assert_eq!(m.create_device("SW", "switch"), Ok(()));
    assert_eq!(m.rename_device("PC1", "PC1"), Ok(()));
    assert_eq!(m.rename_device("ghost", "ghost"), Ok(()));
    assert_eq!(m.rename_device("PC1", "SW"), Err("l'appareil 'SW' existe déjà".to_string()));
    assert_eq!(m.rename_device("ghost", "G2"), Err("appareil 'ghost' introuvable".to_string()));
    assert_eq!(m.rename_device("PC1", "PC9"), Ok(()));
    assert_eq!(m.devices()[0].name(), "PC9");
    assert_eq!(m.devices()[0].kind(), DeviceKind::Pc);
    assert_eq!(m.remove_device("PC1"), Err("appareil 'PC1' introuvable".to_string()));
    assert_eq!(m.remove_device("PC9"), Ok(()));
    assert_eq!(m.devices().len(), 1);
}

#[test]
fn device_interface_queries() {
    let mut m = SimulationManager::new();
    m.create_device("B1", "bridge").unwrap();
    m.add_interface("B1", "eth0", "0.0.0.0", 24, 1500).unwrap();
    m.add_interface("B1", "eth1", "0.0.0.0", 24, 1500).unwrap();
    let d = &m.devices()[0];
    assert_eq!(d.max_ifaces(), 2);
    assert_eq!(d.type_label(), "bridge");
    assert_eq!(d.iface_count(), 2);
    assert!(d.has_iface_name("eth1"));
    assert!(!d.has_iface_name("eth2"));
    assert_eq!(d.get_iface_id("eth1"), Some(1));
    assert_eq!(d.get_iface_id("eth2"), None);
    assert_eq!(
        m.add_interface("B1", "eth2", "0.0.0.0", 24, 1500),
        Err("bridge supporte au maximum 2 interfaces".to_string())
    );
}

#[test]
fn device_add_interface_checks_name_and_limit() {
    let mut d = AnyDevice::new(DeviceKind::Bridge, "B1");
    assert_eq!(d.add_interface("eth0", "10.0.0.1", 24, 1500).unwrap().0, 0);
    assert_eq!(d.add_interface("eth0", "10.0.0.2", 24, 1500), Err("l'interface 'eth0' existe déjà sur cet appareil".to_string()));
    assert_eq!(d.add_interface("eth1", "10.0.0.2", 24, 1500).unwrap().0, 1);
    assert_eq!(d.add_interface("eth2", "10.0.0.3", 24, 1500), Err("bridge supporte au maximum 2 interfaces".to_string()));
    assert_eq!(d.iface_count(), 2);
}

#[test]
fn running_topology_refuses_changes() {
    let mut m = SimulationManager::new();
    assert_eq!(m.start(), Err("aucun appareil dans la topologie".to_string()));
    m.create_device("R1", "router").unwrap();
    assert_eq!(m.start(), Ok(()));
    assert!(m.is_running());
    assert_eq!(m.start(), Err("simulation déjà en cours".to_string()));
    assert_eq!(m.create_device("PC1", "pc"), Err("impossible d'ajouter un appareil pendant la simulation".to_string()));
    assert_eq!(m.rename_device("R1", "R2"), Err("impossible de renommer pendant la simulation".to_string()));
    assert_eq!(m.remove_device("R1"), Err("impossible de supprimer un appareil pendant la simulation".to_string()));
    m.stop();
    assert!(!m.is_running());
    assert_eq!(m.remove_device("R1"), Ok(()));
}

#[test]
fn interface_limits_and_names() {
    let mut m = SimulationManager::new();
    m.create_device("B", "bridge").unwrap();
    let (id0, mac0) = m.add_interface("B", "eth0", "10.0.0.1", 24, 1500).unwrap();
    assert_eq!(id0, 0);
    assert_eq!(mac0[0], 2);
    assert_eq!(m.add_interface("B", "eth0", "10.0.0.2", 24, 1500), Err("l'interface 'eth0' existe déjà sur cet appareil".to_string()));
    assert_eq!(m.add_interface("B", "eth1", "10.0.0.2", 24, 1500).unwrap().0, 1);
    assert_eq!(m.add_interface("B", "eth2", "10.0.0.3", 24, 1500), Err("bridge supporte au maximum 2 interfaces".to_string()));
    assert_eq!(m.add_interface("Z", "eth0", "10.0.0.3", 24, 1500), Err("appareil 'Z' introuvable".to_string()));
}

#[test]
fn edit_interface_rules() {
    let mut m = SimulationManager::new();
    m.create_device("PC1", "pc").unwrap();
    m.add_interface("PC1", "eth0", "10.0.0.1", 24, 1500).unwrap();
    m.add_interface("PC1", "eth1", "10.0.1.1", 24, 1500).unwrap();
    assert_eq!(m.edit_interface("PC9", "eth0", None, None, None, None), Err("appareil 'PC9' introuvable".to_string()));
    assert_eq!(m.edit_interface("PC1", "eth7", None, None, None, None), Err("interface 'eth7' introuvable".to_string()));
    assert_eq!(m.edit_interface("PC1", "eth0", Some("eth1"), None, None, None), Err("l'interface 'eth1' existe déjà".to_string()));
    assert_eq!(m.edit_interface("PC1", "eth0", None, Some("10.0.0"), None, None), Err("adresse IP invalide: 10.0.0".to_string()));
    assert_eq!(m.edit_interface("PC1", "eth0", Some("eth0"), Some("192.168.1.5"), Some(16), Some(9000)), Ok(()));
    let i = m.devices()[0].interfaces().get(0).unwrap();
    assert_eq!((i.name.as_str(), i.addr, i.mask, i.mtu), ("eth0", 0xc0a80105, 16, 9000));
    assert_eq!(m.edit_interface("PC1", "eth0", Some("lan"), None, None, None), Ok(()));
    assert_eq!(m.devices()[0].interfaces().id_by_name("lan"), Some(0));
}

#[test]
fn link_rules() {
    let mut m = SimulationManager::new();
    m.create_device("A", "pc").unwrap();
    m.create_device("B", "switch").unwrap();
    m.add_interface("A", "eth0", "10.0.0.1", 24, 1500).unwrap();
    m.add_interface("B", "p0", "0.0.0.0", 0, 1500).unwrap();
    m.add_interface("B", "p1", "0.0.0.0", 0, 1500).unwrap();
    assert_eq!(m.link_interfaces("A", "eth0", "A", "eth0"), Err("impossible de lier un appareil à lui-même".to_string()));
    assert_eq!(m.link_interfaces("C", "eth0", "B", "p0"), Err("appareil 'C' introuvable".to_string()));
    assert_eq!(m.link_interfaces("A", "eth9", "B", "p0"), Err("interface 'eth9' introuvable sur 'A'".to_string()));
    assert_eq!(m.link_interfaces("A", "eth0", "C", "p0"), Err("appareil 'C' introuvable".to_string()));
    assert_eq!(m.link_interfaces("A", "eth0", "B", "p9"), Err("interface 'p9' introuvable sur 'B'".to_string()));
    assert_eq!(m.link_interfaces("A", "eth0", "B", "p1"), Ok((0, 1)));
}

#[test]
fn exec_needs_running_simulation() {
    let mut m = SimulationManager::new();
    m.create_device("PC1", "pc").unwrap();
    assert_eq!(m.exec_at("PC1", "help", 0).unwrap_err(), "la simulation n'est pas démarrée");
    m.start().unwrap();
    assert_eq!(m.exec_at("PC2", "help", 0).unwrap_err(), "appareil 'PC2' introuvable");
    let (out, acts) = m.exec_at("PC1", "arp", 0).unwrap();
    assert_eq!(out, "ARP Table:\n  (empty)\n");
    assert!(acts.is_empty());
    m.reset();
    assert!(!m.is_running());
    assert!(m.devices().is_empty());
}

#[test]
fn stop_forgets_learnt_state() {
    let mut m = SimulationManager::new();
    m.create_device("SW", "switch").unwrap();
    m.add_interface("SW", "p0", "0.0.0.0", 0, 1500).unwrap();
    m.add_interface("SW", "p1", "0.0.0.0", 0, 1500).unwrap();
    m.start().unwrap();
    let f = netsim::net::ethernet::Ethernet::new(
        "ff:ff:ff:ff:ff:ff".parse().unwrap(),
        "aa:aa:aa:aa:aa:aa".parse().unwrap(),
        netsim::net::ethernet::EtherType(0x0800),
        vec![1],
    )
    .to_bytes();
    let acts = m.deliver_at("SW", 0, f, 0);
    assert_eq!(acts.len(), 3);
    assert_eq!(m.exec_at("SW", "mac", 0).unwrap().0, "MAC Table:\n  aa:aa:aa:aa:aa:aa -> port 0\n");
    m.stop();
    m.start().unwrap();
    assert_eq!(m.exec_at("SW", "mac", 0).unwrap().0, "MAC Table:\n  (empty)\n");
    assert!(m.deliver_at("nobody", 0, vec![1, 2, 3], 0).is_empty());
}

#[test]
fn max_interfaces_by_type() {
    assert_eq!(SimulationManager::max_interfaces("pc"), 4);
    assert_eq!(SimulationManager::max_interfaces("hub"), 4);
    assert_eq!(SimulationManager::max_interfaces("switch"), 8);
    assert_eq!(SimulationManager::max_interfaces("bridge"), 2);
    assert_eq!(SimulationManager::max_interfaces("router"), 4);
    assert_eq!(SimulationManager::max_interfaces("modem"), 0);
    assert_eq!(sim_max_interfaces("switch"), Ok(8));
    assert_eq!(sim_max_interfaces("modem"), Err("type inconnu: modem".to_string()));
}

#[test]
fn ui_payloads() {
    let r = AddIfaceResult::new(3, [0x02, 0xab, 0, 1, 0x10, 0xff]);
    assert_eq!(r.id, 3);
    assert_eq!(r.mac, "02:ab:00:01:10:ff");
    let t = TableView { name: "T".to_string(), headers: vec!["A".to_string()], rows: vec![vec!["1".to_string()]] };
    let step = Step { device: "PC1".to_string(), kind: EventKind::RouteNotFound { dst: "1.2.3.4".parse().unwrap() }, tables: vec![t] };
    let info = StepInfo::from_step(&step);
    assert_eq!(info.device, "PC1");
    assert_eq!(info.event, "no route to 1.2.3.4");
    assert_eq!(info.tables, vec!["  T:\n    A\n    1\n".to_string()]);
    let ev = SimStepEvent::from_step(&step);
    assert_eq!(ev.event, info.event);
    assert_eq!(ev.tables, info.tables);
}
