//! The topology being built and run: named devices of five kinds, their interfaces,
//! the links between them, and the rules for changing all of these.
use vstd::prelude::*;
use crate::devices::action::{actions_v, Action, ActionV};
use crate::devices::bridge::{bridge_exec, Bridge, BridgeView};
use crate::devices::hub::{hub_exec, Hub, HubView};
use crate::devices::l2::{hub_on_packet, l2_on_packet};
use crate::devices::pc::{pc_exec, pc_on_packet, PcView, PC};
use crate::devices::router::{router_exec, router_on_packet, Router, RouterView};
use crate::devices::switch::{switch_exec, Switch, SwitchView};
use crate::utils::addrs::ip_addr::{be_u32, parse_ipv4, Ipv4Addr};
use crate::utils::interfaces::{
    added_row, iface_named, ifaces_wf, opt_chars, rows_updated, IfaceRows, Interfaces,
};
use crate::utils::tables::arp_table::arp_distinct;
use crate::utils::tables::mac_table::mac_distinct;
use crate::utils::text::{dec_usize, push_str, push_usize, str_eq, string_of};

verus! {

/// The kinds of device.
#[derive(Debug, Clone, Copy, PartialEq, Eq, Structural)]
pub enum DeviceKind {
    Pc,
    Hub,
    Switch,
    Bridge,
    Router,
}

/// The most interfaces a PC may have.
pub const MAX_IFACES_PC: usize = 4;

/// The most ports a hub may have.
pub const MAX_IFACES_HUB: usize = 4;

/// The most ports a switch may have.
pub const MAX_IFACES_SWITCH: usize = 8;

/// The most ports a bridge may have.
pub const MAX_IFACES_BRIDGE: usize = 2;

/// The most interfaces a router may have.
pub const MAX_IFACES_ROUTER: usize = 4;

/// The kind named by a device type, if any.
pub open spec fn kind_of(t: Seq<char>) -> Option<DeviceKind> {
    if t == "pc"@ {
        Some(DeviceKind::Pc)
    } else if t == "hub"@ {
        Some(DeviceKind::Hub)
    } else if t == "switch"@ {
        Some(DeviceKind::Switch)
    } else if t == "bridge"@ {
        Some(DeviceKind::Bridge)
    } else if t == "router"@ {
        Some(DeviceKind::Router)
    } else {
        None
    }
}

/// The type name of a kind.
pub open spec fn kind_name(k: DeviceKind) -> Seq<char> {
    match k {
        DeviceKind::Pc => "pc"@,
        DeviceKind::Hub => "hub"@,
        DeviceKind::Switch => "switch"@,
        DeviceKind::Bridge => "bridge"@,
        DeviceKind::Router => "router"@,
    }
}

/// The most interfaces a device of kind `k` may have.
pub open spec fn kind_max(k: DeviceKind) -> usize {
    match k {
        DeviceKind::Pc => MAX_IFACES_PC,
        DeviceKind::Hub => MAX_IFACES_HUB,
        DeviceKind::Switch => MAX_IFACES_SWITCH,
        DeviceKind::Bridge => MAX_IFACES_BRIDGE,
        DeviceKind::Router => MAX_IFACES_ROUTER,
    }
}

/// The most interfaces of a device type: 0 for a type that does not exist.
pub open spec fn max_ifaces_of(t: Seq<char>) -> usize {
    match kind_of(t) {
        Some(k) => kind_max(k),
        None => 0,
    }
}

/// A device of any kind.
#[derive(Debug)]
pub enum AnyDevice {
    Pc(PC),
    Hub(Hub),
    Switch(Switch),
    Bridge(Bridge),
    Router(Router),
}

/// A device as plain values.
pub enum DeviceV {
    Pc(PcView),
    Hub(HubView),
    Switch(SwitchView),
    Bridge(BridgeView),
    Router(RouterView),
}

impl View for AnyDevice {
    type V = DeviceV;

    open spec fn view(&self) -> DeviceV {
        match self {
            AnyDevice::Pc(d) => DeviceV::Pc(d@),
            AnyDevice::Hub(d) => DeviceV::Hub(d@),
            AnyDevice::Switch(d) => DeviceV::Switch(d@),
            AnyDevice::Bridge(d) => DeviceV::Bridge(d@),
            AnyDevice::Router(d) => DeviceV::Router(d@),
        }
    }
}

/// The kind of a device.
pub open spec fn dev_kind(d: DeviceV) -> DeviceKind {
    match d {
        DeviceV::Pc(_) => DeviceKind::Pc,
        DeviceV::Hub(_) => DeviceKind::Hub,
        DeviceV::Switch(_) => DeviceKind::Switch,
        DeviceV::Bridge(_) => DeviceKind::Bridge,
        DeviceV::Router(_) => DeviceKind::Router,
    }
}

/// The name of a device.
pub open spec fn dev_name(d: DeviceV) -> Seq<char> {
    match d {
        DeviceV::Pc(v) => v.name,
        DeviceV::Hub(v) => v.name,
        DeviceV::Switch(v) => v.name,
        DeviceV::Bridge(v) => v.name,
        DeviceV::Router(v) => v.name,
    }
}

/// The interfaces of a device.
pub open spec fn dev_ifaces(d: DeviceV) -> IfaceRows {
    match d {
        DeviceV::Pc(v) => v.ifaces,
        DeviceV::Hub(v) => v.ifaces,
        DeviceV::Switch(v) => v.ifaces,
        DeviceV::Bridge(v) => v.ifaces,
        DeviceV::Router(v) => v.ifaces,
    }
}

/// The id that the next interface of a device will get.
pub open spec fn dev_next_id(d: DeviceV) -> usize {
    match d {
        DeviceV::Pc(v) => v.next_id,
        DeviceV::Hub(v) => v.next_id,
        DeviceV::Switch(v) => v.next_id,
        DeviceV::Bridge(v) => v.next_id,
        DeviceV::Router(v) => v.next_id,
    }
}

/// A device is well formed: its interfaces are (and, as the topology never removes
/// one, numbered from 0 without gaps, within its kind's limit), and its tables hold no
/// address twice.
pub open spec fn dev_wf(d: DeviceV) -> bool {
    &&& ifaces_wf(dev_ifaces(d), dev_next_id(d))
    &&& dev_next_id(d) == dev_ifaces(d).len()
    &&& dev_ifaces(d).len() <= kind_max(dev_kind(d))
    &&& match d {
        DeviceV::Pc(v) => arp_distinct(v.arp),
        DeviceV::Hub(v) => true,
        DeviceV::Switch(v) => mac_distinct(v.macs),
        DeviceV::Bridge(v) => mac_distinct(v.macs),
        DeviceV::Router(v) => arp_distinct(v.arp),
    }
}

/// A new device of kind `k` named `name`.
pub open spec fn new_dev(k: DeviceKind, name: Seq<char>) -> DeviceV {
    match k {
        DeviceKind::Pc => DeviceV::Pc(
            PcView {
                name,
                ifaces: Seq::empty(),
                next_id: 0,
                packets: Seq::empty(),
                arp: Seq::empty(),
                pending: Seq::empty(),
            },
        ),
        DeviceKind::Hub => DeviceV::Hub(HubView { name, ifaces: Seq::empty(), next_id: 0 }),
        DeviceKind::Switch => DeviceV::Switch(SwitchView { name, ifaces: Seq::empty(), next_id: 0, macs: Seq::empty() }),
        DeviceKind::Bridge => DeviceV::Bridge(BridgeView { name, ifaces: Seq::empty(), next_id: 0, macs: Seq::empty() }),
        DeviceKind::Router => DeviceV::Router(
            RouterView {
                name,
                ifaces: Seq::empty(),
                next_id: 0,
                arp: Seq::empty(),
                routes: Seq::empty(),
                pending: Seq::empty(),
            },
        ),
    }
}

/// A device renamed.
pub open spec fn dev_renamed(d: DeviceV, name: Seq<char>) -> DeviceV {
    match d {
        DeviceV::Pc(v) => DeviceV::Pc(PcView { name, ..v }),
        DeviceV::Hub(v) => DeviceV::Hub(HubView { name, ..v }),
        DeviceV::Switch(v) => DeviceV::Switch(SwitchView { name, ..v }),
        DeviceV::Bridge(v) => DeviceV::Bridge(BridgeView { name, ..v }),
        DeviceV::Router(v) => DeviceV::Router(RouterView { name, ..v }),
    }
}

/// A device with other interfaces.
pub open spec fn dev_with_ifaces(d: DeviceV, ifaces: IfaceRows, next_id: usize) -> DeviceV {
    match d {
        DeviceV::Pc(v) => DeviceV::Pc(PcView { ifaces, next_id, ..v }),
        DeviceV::Hub(v) => DeviceV::Hub(HubView { ifaces, next_id, ..v }),
        DeviceV::Switch(v) => DeviceV::Switch(SwitchView { ifaces, next_id, ..v }),
        DeviceV::Bridge(v) => DeviceV::Bridge(BridgeView { ifaces, next_id, ..v }),
        DeviceV::Router(v) => DeviceV::Router(RouterView { ifaces, next_id, ..v }),
    }
}

/// A device after a stop: what it learnt while running is forgotten (and a router's
/// routes with it); its interfaces, and a PC's received frames, stay.
pub open spec fn dev_restarted(d: DeviceV) -> DeviceV {
    match d {
        DeviceV::Pc(v) => DeviceV::Pc(PcView { arp: Seq::empty(), pending: Seq::empty(), ..v }),
        DeviceV::Hub(v) => DeviceV::Hub(v),
        DeviceV::Switch(v) => DeviceV::Switch(SwitchView { macs: Seq::empty(), ..v }),
        DeviceV::Bridge(v) => DeviceV::Bridge(BridgeView { macs: Seq::empty(), ..v }),
        DeviceV::Router(v) => DeviceV::Router(RouterView { arp: Seq::empty(), routes: Seq::empty(), pending: Seq::empty(), ..v }),
    }
}

/// What a device's console answers to `input` at `now`, and what it does.
pub open spec fn dev_exec(d: DeviceV, input: Seq<char>, now: u64) -> (DeviceV, Seq<char>, Seq<ActionV>) {
    match d {
        DeviceV::Pc(v) => {
            let r = pc_exec(v, input, now);
            (DeviceV::Pc(r.0), r.1, r.2)
        },
        DeviceV::Hub(v) => (d, hub_exec(v, input), Seq::empty()),
        DeviceV::Switch(v) => (d, switch_exec(v, input), Seq::empty()),
        DeviceV::Bridge(v) => (d, bridge_exec(v, input), Seq::empty()),
        DeviceV::Router(v) => (d, router_exec(v, input, now), Seq::empty()),
    }
}

/// What a device does with the bytes `p` received on interface `in_idx` at `now`.
pub open spec fn dev_on_packet(d: DeviceV, in_idx: usize, p: Seq<u8>, now: u64) -> (DeviceV, Seq<ActionV>) {
    match d {
        DeviceV::Pc(v) => {
            let r = pc_on_packet(v, in_idx, p, now);
            (DeviceV::Pc(r.0), r.1)
        },
        DeviceV::Hub(v) => (d, hub_on_packet(v.ifaces, in_idx, p)),
        DeviceV::Switch(v) => {
            let r = l2_on_packet(v.ifaces, v.macs, in_idx, p, now);
            (DeviceV::Switch(SwitchView { macs: r.0, ..v }), r.1)
        },
        DeviceV::Bridge(v) => {
            let r = l2_on_packet(v.ifaces, v.macs, in_idx, p, now);
            (DeviceV::Bridge(BridgeView { macs: r.0, ..v }), r.1)
        },
        DeviceV::Router(v) => {
            let r = router_on_packet(v, in_idx, p, now);
            (DeviceV::Router(r.0), r.1)
        },
    }
}

impl AnyDevice {
    /// A new device of kind `kind` named `name`.
    pub fn new(kind: DeviceKind, name: &str) -> (r: Self)
        ensures
            r@ == new_dev(kind, name@),
            dev_wf(r@),
    {
        match kind {
            DeviceKind::Pc => AnyDevice::Pc(PC::new(name)),
            DeviceKind::Hub => AnyDevice::Hub(Hub::new(name)),
            DeviceKind::Switch => AnyDevice::Switch(Switch::new(name)),
            DeviceKind::Bridge => AnyDevice::Bridge(Bridge::new(name)),
            DeviceKind::Router => AnyDevice::Router(Router::new(name)),
        }
    }

    /// The device's name.
    pub fn name(&self) -> (r: &str)
        ensures
            r@ == dev_name(self@),
    {
        match self {
            AnyDevice::Pc(d) => d.name(),
            AnyDevice::Hub(d) => d.name(),
            AnyDevice::Switch(d) => d.name(),
            AnyDevice::Bridge(d) => d.name(),
            AnyDevice::Router(d) => d.name(),
        }
    }

    /// Nanoseconds on the clock that the device ages its table entries by; a hub keeps
    /// no table, so time does not matter to it.
    pub(crate) fn now_nanos(&self) -> u64 {
        match self {
            AnyDevice::Pc(d) => d.now_nanos(),
            AnyDevice::Hub(_) => 0,
            AnyDevice::Switch(d) => d.now_nanos(),
            AnyDevice::Bridge(d) => d.now_nanos(),
            AnyDevice::Router(d) => d.now_nanos(),
        }
    }

    /// The device's kind.
    pub fn kind(&self) -> (r: DeviceKind)
        ensures
            r == dev_kind(self@),
    {
        match self {
            AnyDevice::Pc(_) => DeviceKind::Pc,
            AnyDevice::Hub(_) => DeviceKind::Hub,
            AnyDevice::Switch(_) => DeviceKind::Switch,
            AnyDevice::Bridge(_) => DeviceKind::Bridge,
            AnyDevice::Router(_) => DeviceKind::Router,
        }
    }

    /// The device's interfaces.
    pub fn interfaces(&self) -> (r: &Interfaces)
        ensures
            r@ == dev_ifaces(self@),
            r.next_id() == dev_next_id(self@),
    {
        match self {
            AnyDevice::Pc(d) => d.interfaces(),
            AnyDevice::Hub(d) => d.interfaces(),
            AnyDevice::Switch(d) => d.interfaces(),
            AnyDevice::Bridge(d) => d.interfaces(),
            AnyDevice::Router(d) => d.interfaces(),
        }
    }

    /// The most interfaces the device may have.
    pub fn max_ifaces(&self) -> (r: usize)
        ensures
            r == kind_max(dev_kind(self@)),
    {
        kind_max_of(self.kind())
    }

    /// The device's type name.
    pub fn type_label(&self) -> (r: &'static str)
        ensures
            r@ == kind_name(dev_kind(self@)),
    {
        kind_str(self.kind())
    }

    /// How many interfaces the device has.
    pub fn iface_count(&self) -> (r: usize)
        ensures
            r == dev_ifaces(self@).len(),
    {
        self.interfaces().len()
    }

    /// Whether one of the device's interfaces is named `name`.
    pub fn has_iface_name(&self, name: &str) -> (r: bool)
        ensures
            r == (iface_named(dev_ifaces(self@), name@) is Some),
    {
        self.interfaces().id_by_name(name).is_some()
    }

    /// The id of the first interface named `name`, if there is one.
    pub fn get_iface_id(&self, name: &str) -> (r: Option<usize>)
        ensures
            match iface_named(dev_ifaces(self@), name@) {
                Some(i) => r == Some(dev_ifaces(self@)[i].0),
                None => r is None,
            },
    {
        self.interfaces().id_by_name(name)
    }

    /// Renames the device.
    pub fn set_name(&mut self, name: &str)
        ensures
            final(self)@ == dev_renamed(old(self)@, name@),
    {
        match self {
            AnyDevice::Pc(d) => d.set_name(name),
            AnyDevice::Hub(d) => d.set_name(name),
            AnyDevice::Switch(d) => d.set_name(name),
            AnyDevice::Bridge(d) => d.set_name(name),
            AnyDevice::Router(d) => d.set_name(name),
        }
    }

    /// Adds interface `name` with address `ip` (see `Interfaces::add`); refused, with a
    /// message, as `dev_add_refusal` says. The address must parse when nothing refuses
    /// the interface.
    pub fn add_interface(&mut self, name: &str, ip: &str, mask: u8, mtu: u16) -> (r: Result<(usize, [u8; 6]), String>)
        requires
            dev_wf(old(self)@),
            dev_add_refusal(old(self)@, name@) is None ==> parse_ipv4(ip@) is Some,
        ensures
            dev_wf(final(self)@),
            match dev_add_refusal(old(self)@, name@) {
                Some(m) => r matches Err(e) && e@ == m && final(self)@ == old(self)@,
                None => r matches Ok(res) && {
                    &&& res.0 == dev_next_id(old(self)@)
                    &&& res.1@[0] == 2
                    &&& !crate::utils::interfaces::mac_in_use(dev_ifaces(old(self)@), res.1@)
                    &&& final(self)@ == dev_with_ifaces(
                        old(self)@,
                        dev_ifaces(old(self)@).push(added_row(res.0, name@, parsed_addr(ip@), mask, mtu, res.1@)),
                        (dev_next_id(old(self)@) + 1) as usize,
                    )
                },
            },
    {
        if self.has_iface_name(name) {
            return Err(text3("l'interface '", name, "' existe déjà sur cet appareil"));
        }
        let max = self.max_ifaces();
        if self.iface_count() >= max {
            let mut m = string_of(self.type_label());
            push_str(&mut m, " supporte au maximum ");
            push_usize(&mut m, max);
            push_str(&mut m, " interfaces");
            return Err(m);
        }
        let addr = match Ipv4Addr::parse_str(ip) {
            Ok(a) => a.to_u32(),
            Err(_) => {
                proof {
                    assert(false);
                }
                return Err(string_of("adresse IP invalide"));
            },
        };
        let res = match self {
            AnyDevice::Pc(d) => d.add_interface(name, addr, mask, mtu),
            AnyDevice::Hub(d) => d.add_interface(name, addr, mask, mtu),
            AnyDevice::Switch(d) => d.add_interface(name, addr, mask, mtu),
            AnyDevice::Bridge(d) => d.add_interface(name, addr, mask, mtu),
            AnyDevice::Router(d) => d.add_interface(name, addr, mask, mtu),
        };
        Ok(res)
    }

    /// Changes the given settings of interface `id`; false when there is none.
    pub fn update_interface(&mut self, id: usize, name: Option<&str>, addr: Option<u32>, mask: Option<u8>, mtu: Option<u16>) -> (r: bool)
        requires
            dev_wf(old(self)@),
        ensures
            dev_wf(final(self)@),
            r == (crate::utils::interfaces::iface_index(dev_ifaces(old(self)@), id) is Some),
            final(self)@ == dev_with_ifaces(
                old(self)@,
                rows_updated(dev_ifaces(old(self)@), id, opt_chars(name), addr, mask, mtu),
                dev_next_id(old(self)@),
            ),
    {
        let r = match self {
            AnyDevice::Pc(d) => d.update_interface(id, name, addr, mask, mtu),
            AnyDevice::Hub(d) => d.update_interface(id, name, addr, mask, mtu),
            AnyDevice::Switch(d) => d.update_interface(id, name, addr, mask, mtu),
            AnyDevice::Bridge(d) => d.update_interface(id, name, addr, mask, mtu),
            AnyDevice::Router(d) => d.update_interface(id, name, addr, mask, mtu),
        };
        r
    }

    /// Forgets what was learnt while running (see `dev_restarted`).
    pub fn prepare_restart(&mut self)
        requires
            dev_wf(old(self)@),
        ensures
            dev_wf(final(self)@),
            final(self)@ == dev_restarted(old(self)@),
    {
        match self {
            AnyDevice::Pc(d) => d.prepare_restart(),
            AnyDevice::Hub(d) => d.prepare_restart(),
            AnyDevice::Switch(d) => d.prepare_restart(),
            AnyDevice::Bridge(d) => d.prepare_restart(),
            AnyDevice::Router(d) => d.prepare_restart(),
        }
    }

    /// Runs the console command `input` at `now` (see `dev_exec`).
    pub fn exec_at(&mut self, input: &str, now: u64) -> (r: (String, Vec<Action>))
        requires
            dev_wf(old(self)@),
        ensures
            dev_wf(final(self)@),
            (final(self)@, r.0@, actions_v(r.1@)) == dev_exec(old(self)@, input@, now),
    {
        match self {
            AnyDevice::Pc(d) => d.exec_at(input, now),
            AnyDevice::Hub(d) => (d.exec(input), Vec::new()),
            AnyDevice::Switch(d) => (d.exec(input), Vec::new()),
            AnyDevice::Bridge(d) => (d.exec(input), Vec::new()),
            AnyDevice::Router(d) => (d.exec_at(input, now), Vec::new()),
        }
    }

    /// Handles the bytes `packet` received on interface `in_idx` at `now` (see
    /// `dev_on_packet`).
    pub fn handle_packet_at(&mut self, in_idx: usize, packet: Vec<u8>, now: u64) -> (r: Vec<Action>)
        requires
            dev_wf(old(self)@),
        ensures
            dev_wf(final(self)@),
            (final(self)@, actions_v(r@)) == dev_on_packet(old(self)@, in_idx, packet@, now),
    {
        match self {
            AnyDevice::Pc(d) => d.handle_packet_at(in_idx, packet, now),
            AnyDevice::Hub(d) => d.handle_packet(in_idx, packet),
            AnyDevice::Switch(d) => d.handle_packet_at(in_idx, packet, now),
            AnyDevice::Bridge(d) => d.handle_packet_at(in_idx, packet, now),
            AnyDevice::Router(d) => d.handle_packet_at(in_idx, packet, now),
        }
    }
}

// ------------------------------------------------------------------
// The topology
// ------------------------------------------------------------------

/// Where the device named `name` stands, if there is one.
pub open spec fn dev_find(s: Seq<DeviceV>, name: Seq<char>) -> Option<int> {
    if exists|i: int| 0 <= i < s.len() && #[trigger] dev_name(s[i]) == name {
        Some(choose|i: int| 0 <= i < s.len() && #[trigger] dev_name(s[i]) == name)
    } else {
        None
    }
}

/// No two devices have the same name.
pub open spec fn names_distinct(s: Seq<DeviceV>) -> bool {
    forall|i: int, j: int| 0 <= i < s.len() && 0 <= j < s.len() && i != j ==> dev_name(s[i]) != dev_name(s[j])
}

/// The topology as plain values.
#[verifier::ext_equal]
pub struct SimView {
    pub devices: Seq<DeviceV>,
    pub running: bool,
}

/// The devices and whether the simulation runs.
#[derive(Debug)]
pub struct SimulationManager {
    devices: Vec<AnyDevice>,
    running: bool,
}

impl View for SimulationManager {
    type V = SimView;

    closed spec fn view(&self) -> SimView {
        SimView { devices: self.devices@.map_values(|d: AnyDevice| d@), running: self.running }
    }
}

/// The outcome of an operation that changes the topology or fails with a message.
pub type Outcome = Result<SimView, Seq<char>>;

/// Whether a call ended as `o` says: the new topology on success, the message and
/// nothing changed on failure.
pub open spec fn ended_as(o: Outcome, r: Result<(), String>, before: SimView, after: SimView) -> bool {
    match o {
        Ok(v) => r is Ok && after == v,
        Err(m) => r matches Err(e) && e@ == m && after == before,
    }
}

/// Creating a device `name` of type `t`: refused while running, for a name in use
/// and for an unknown type; otherwise the device is added last.
pub open spec fn create_outcome(s: SimView, name: Seq<char>, t: Seq<char>) -> Outcome {
    if s.running {
        Err("impossible d'ajouter un appareil pendant la simulation"@)
    } else if dev_find(s.devices, name) is Some {
        Err("l'appareil '"@ + name + "' existe déjà"@)
    } else {
        match kind_of(t) {
            None => Err("type inconnu: "@ + t),
            Some(k) => Ok(SimView { devices: s.devices.push(new_dev(k, name)), ..s }),
        }
    }
}

/// Renaming device `old` to `new`: refused while running; nothing to do when the
/// names are equal; refused for a name in use and for a missing device.
pub open spec fn rename_outcome(s: SimView, old: Seq<char>, new: Seq<char>) -> Outcome {
    if s.running {
        Err("impossible de renommer pendant la simulation"@)
    } else if old == new {
        Ok(s)
    } else if dev_find(s.devices, new) is Some {
        Err("l'appareil '"@ + new + "' existe déjà"@)
    } else {
        match dev_find(s.devices, old) {
            None => Err("appareil '"@ + old + "' introuvable"@),
            Some(i) => Ok(SimView { devices: s.devices.update(i, dev_renamed(s.devices[i], new)), ..s }),
        }
    }
}

/// Removing device `name`: refused while running and for a missing device.
pub open spec fn remove_outcome(s: SimView, name: Seq<char>) -> Outcome {
    if s.running {
        Err("impossible de supprimer un appareil pendant la simulation"@)
    } else {
        match dev_find(s.devices, name) {
            None => Err("appareil '"@ + name + "' introuvable"@),
            Some(i) => Ok(SimView { devices: s.devices.remove(i), ..s }),
        }
    }
}

/// Why a device refuses an interface named `iface`, if it does: a name in use on the
/// device, or a device with all its interfaces.
pub open spec fn dev_add_refusal(d: DeviceV, iface: Seq<char>) -> Option<Seq<char>> {
    if iface_named(dev_ifaces(d), iface) is Some {
        Some("l'interface '"@ + iface + "' existe déjà sur cet appareil"@)
    } else if dev_ifaces(d).len() >= kind_max(dev_kind(d)) {
        Some(kind_name(dev_kind(d)) + " supporte au maximum "@ + dec_usize(kind_max(dev_kind(d))) + " interfaces"@)
    } else {
        None
    }
}

/// Why adding interface `iface` to device `dev` is refused, if it is: a missing
/// device, or the device's own refusal.
pub open spec fn add_iface_refusal(s: SimView, dev: Seq<char>, iface: Seq<char>) -> Option<Seq<char>> {
    match dev_find(s.devices, dev) {
        None => Some("appareil '"@ + dev + "' introuvable"@),
        Some(i) => dev_add_refusal(s.devices[i], iface),
    }
}

/// The address an address text stands for (when it parses).
pub open spec fn parsed_addr(t: Seq<char>) -> u32 {
    be_u32(parse_ipv4(t).unwrap()) as u32
}

/// Editing interface `old` of device `dev`: refused for a missing device or interface,
/// for a new name used by another interface, and for an address that does not parse;
/// otherwise the given settings are replaced.
pub open spec fn edit_outcome(
    s: SimView,
    dev: Seq<char>,
    old: Seq<char>,
    new_name: Option<Seq<char>>,
    ip: Option<Seq<char>>,
    mask: Option<u8>,
    mtu: Option<u16>,
) -> Outcome {
    match dev_find(s.devices, dev) {
        None => Err("appareil '"@ + dev + "' introuvable"@),
        Some(i) => {
            let d = s.devices[i];
            let rows = dev_ifaces(d);
            match iface_named(rows, old) {
                None => Err("interface '"@ + old + "' introuvable"@),
                Some(j) => {
                    if new_name matches Some(n) && n != old && iface_named(rows, n) is Some {
                        Err("l'interface '"@ + new_name.unwrap() + "' existe déjà"@)
                    } else if ip matches Some(t) && parse_ipv4(t) is None {
                        Err("adresse IP invalide: "@ + ip.unwrap())
                    } else {
                        let addr = match ip {
                            Some(t) => Some(parsed_addr(t)),
                            None => None,
                        };
                        Ok(
                            SimView {
                                devices: s.devices.update(
                                    i,
                                    dev_with_ifaces(d, rows_updated(rows, rows[j].0, new_name, addr, mask, mtu), dev_next_id(d)),
                                ),
                                ..s
                            },
                        )
                    }
                },
            }
        },
    }
}

/// Linking interface `ia` of device `a` with interface `ib` of device `b`: refused for
/// a device linked to itself and for a missing device or interface; otherwise the ids
/// of the two interfaces.
pub open spec fn link_outcome(s: SimView, a: Seq<char>, ia: Seq<char>, b: Seq<char>, ib: Seq<char>) -> Result<(usize, usize), Seq<char>> {
    if a == b {
        Err("impossible de lier un appareil à lui-même"@)
    } else {
        match dev_find(s.devices, a) {
            None => Err("appareil '"@ + a + "' introuvable"@),
            Some(i) => match iface_named(dev_ifaces(s.devices[i]), ia) {
                None => Err("interface '"@ + ia + "' introuvable sur '"@ + a + "'"@),
                Some(j) => match dev_find(s.devices, b) {
                    None => Err("appareil '"@ + b + "' introuvable"@),
                    Some(k) => match iface_named(dev_ifaces(s.devices[k]), ib) {
                        None => Err("interface '"@ + ib + "' introuvable sur '"@ + b + "'"@),
                        Some(l) => Ok((dev_ifaces(s.devices[i])[j].0, dev_ifaces(s.devices[k])[l].0)),
                    },
                },
            },
        }
    }
}

/// Starting: refused when already running and for an empty topology.
pub open spec fn start_outcome(s: SimView) -> Outcome {
    if s.running {
        Err("simulation déjà en cours"@)
    } else if s.devices.len() == 0 {
        Err("aucun appareil dans la topologie"@)
    } else {
        Ok(SimView { running: true, ..s })
    }
}

/// Stopping: every device forgets what it learnt while running.
pub open spec fn stopped(s: SimView) -> SimView {
    SimView { devices: s.devices.map_values(|d: DeviceV| dev_restarted(d)), running: false }
}

/// Running console command `input` on device `dev` at `now`: refused unless running
/// and for a missing device.
pub open spec fn exec_outcome(s: SimView, dev: Seq<char>, input: Seq<char>, now: u64) -> Result<(SimView, Seq<char>, Seq<ActionV>), Seq<char>> {
    if !s.running {
        Err("la simulation n'est pas démarrée"@)
    } else {
        match dev_find(s.devices, dev) {
            None => Err("appareil '"@ + dev + "' introuvable"@),
            Some(i) => {
                let r = dev_exec(s.devices[i], input, now);
                Ok((SimView { devices: s.devices.update(i, r.0), ..s }, r.1, r.2))
            },
        }
    }
}

/// Delivering the bytes `p` to interface `in_idx` of device `dev` at `now`; nothing
/// happens for a missing device.
pub open spec fn deliver_outcome(s: SimView, dev: Seq<char>, in_idx: usize, p: Seq<u8>, now: u64) -> (SimView, Seq<ActionV>) {
    match dev_find(s.devices, dev) {
        None => (s, Seq::empty()),
        Some(i) => {
            let r = dev_on_packet(s.devices[i], in_idx, p, now);
            (SimView { devices: s.devices.update(i, r.0), ..s }, r.1)
        },
    }
}

/// Removing a device just created gives back the topology it was created in.
pub proof fn law_create_then_remove(s: SimView, name: Seq<char>, t: Seq<char>)
    requires
        names_distinct(s.devices),
        create_outcome(s, name, t) is Ok,
    ensures
        remove_outcome(create_outcome(s, name, t)->Ok_0, name) == Ok::<SimView, Seq<char>>(s),
{
    let v = create_outcome(s, name, t)->Ok_0;
    let k = kind_of(t).unwrap();
    let n = s.devices.len() as int;
    assert(v.devices[n] == new_dev(k, name));
    assert(dev_name(v.devices[n]) == name);
    assert(forall|j: int| 0 <= j < n ==> dev_name(#[trigger] s.devices[j]) != name);
    let i = choose|i: int| 0 <= i < v.devices.len() && #[trigger] dev_name(v.devices[i]) == name;
    if i < n {
        assert(v.devices[i] == s.devices[i]);
    }
    assert(v.devices.remove(n) =~= s.devices);
}

/// Renaming a device and renaming it back gives back the topology.
pub proof fn law_rename_and_back(s: SimView, old: Seq<char>, new: Seq<char>)
    requires
        names_distinct(s.devices),
        rename_outcome(s, old, new) is Ok,
    ensures
        rename_outcome(rename_outcome(s, old, new)->Ok_0, new, old) == Ok::<SimView, Seq<char>>(s),
{
    if old != new {
        let i = dev_find(s.devices, old).unwrap();
        let v = rename_outcome(s, old, new)->Ok_0;
        assert(dev_name(v.devices[i]) == new);
        assert(dev_find(s.devices, new) is None);
        assert forall|j: int| 0 <= j < v.devices.len() && j != i implies dev_name(#[trigger] v.devices[j]) != new && dev_name(v.devices[j]) != old by {
            assert(v.devices[j] == s.devices[j]);
        }
        let k = choose|k: int| 0 <= k < v.devices.len() && #[trigger] dev_name(v.devices[k]) == new;
        assert(k == i);
        assert(dev_renamed(dev_renamed(s.devices[i], new), old) == s.devices[i]);
        assert(v.devices.update(i, dev_renamed(v.devices[i], old)) =~= s.devices);
    }
}

/// `a`, then `b`, then `c`.
fn text3(a: &str, b: &str, c: &str) -> (r: String)
    ensures
        r@ == a@ + b@ + c@,
{
    let mut s = string_of(a);
    push_str(&mut s, b);
    push_str(&mut s, c);
    s
}

/// The kind named by a device type.
pub fn kind_from_str(t: &str) -> (r: Option<DeviceKind>)
    ensures
        r == kind_of(t@),
{
    if str_eq(t, "pc") {
        Some(DeviceKind::Pc)
    } else if str_eq(t, "hub") {
        Some(DeviceKind::Hub)
    } else if str_eq(t, "switch") {
        Some(DeviceKind::Switch)
    } else if str_eq(t, "bridge") {
        Some(DeviceKind::Bridge)
    } else if str_eq(t, "router") {
        Some(DeviceKind::Router)
    } else {
        None
    }
}

/// The most interfaces of a kind.
pub fn kind_max_of(k: DeviceKind) -> (r: usize)
    ensures
        r == kind_max(k),
{
    match k {
        DeviceKind::Pc => MAX_IFACES_PC,
        DeviceKind::Hub => MAX_IFACES_HUB,
        DeviceKind::Switch => MAX_IFACES_SWITCH,
        DeviceKind::Bridge => MAX_IFACES_BRIDGE,
        DeviceKind::Router => MAX_IFACES_ROUTER,
    }
}

/// The type name of a kind.
pub fn kind_str(k: DeviceKind) -> (r: &'static str)
    ensures
        r@ == kind_name(k),
{
    match k {
        DeviceKind::Pc => "pc",
        DeviceKind::Hub => "hub",
        DeviceKind::Switch => "switch",
        DeviceKind::Bridge => "bridge",
        DeviceKind::Router => "router",
    }
}

impl SimulationManager {
    /// Names distinct, every device well formed.
    pub open spec fn wf(&self) -> bool {
        &&& names_distinct(self@.devices)
        &&& forall|i: int| 0 <= i < self@.devices.len() ==> dev_wf(#[trigger] self@.devices[i])
    }

    /// An empty topology, not running.
    pub fn new() -> (r: Self)
        ensures
            r.wf(),
            r@ == (SimView { devices: Seq::empty(), running: false }),
    {
        let r = SimulationManager { devices: Vec::new(), running: false };
        assert(r@.devices =~= Seq::<DeviceV>::empty());
        r
    }

    /// The devices, in the order they were created.
    pub fn devices(&self) -> (r: &[AnyDevice])
        ensures
            r@.map_values(|d: AnyDevice| d@) == self@.devices,
    {
        self.devices.as_slice()
    }

    /// Whether the simulation runs.
    pub fn is_running(&self) -> (r: bool)
        ensures
            r == self@.running,
    {
        self.running
    }

    /// The most interfaces of a device type; 0 for a type that does not exist.
    pub fn max_interfaces(device_type: &str) -> (r: usize)
        ensures
            r == max_ifaces_of(device_type@),
    {
        match kind_from_str(device_type) {
            Some(k) => kind_max_of(k),
            None => 0,
        }
    }

    /// Where device `name` stands.
    fn find(&self, name: &str) -> (r: Option<usize>)
        requires
            self.wf(),
        ensures
            r matches Some(i) ==> dev_find(self@.devices, name@) == Some(i as int) && i < self@.devices.len(),
            r is None ==> dev_find(self@.devices, name@) is None,
    {
        let mut i: usize = 0;
        while i < self.devices.len()
            invariant
                self.wf(),
                i <= self.devices@.len(),
                forall|j: int| 0 <= j < i ==> dev_name(#[trigger] self@.devices[j]) != name@,
            decreases self.devices.len() - i,
        {
            if str_eq(self.devices[i].name(), name) {
                assert(dev_name(self@.devices[i as int]) == name@);
                let ghost k = choose|k: int| 0 <= k < self@.devices.len() && #[trigger] dev_name(self@.devices[k]) == name@;
                assert(k == i);
                return Some(i);
            }
            i = i + 1;
        }
        None
    }

    /// Creates device `name` of type `device_type` (see `create_outcome`).
    pub fn create_device(&mut self, name: &str, device_type: &str) -> (r: Result<(), String>)
        requires
            old(self).wf(),
        ensures
            final(self).wf(),
            ended_as(create_outcome(old(self)@, name@, device_type@), r, old(self)@, final(self)@),
    {
        if self.running {
            return Err(string_of("impossible d'ajouter un appareil pendant la simulation"));
        }
        if self.find(name).is_some() {
            return Err(text3("l'appareil '", name, "' existe déjà"));
        }
        let kind = match kind_from_str(device_type) {
            Some(k) => k,
            None => {
                let mut m = string_of("type inconnu: ");
                push_str(&mut m, device_type);
                return Err(m);
            },
        };
        let ghost before = self@.devices;
        let d = AnyDevice::new(kind, name);
        self.devices.push(d);
        assert(self@.devices =~= before.push(new_dev(kind, name@)));
        assert forall|i: int| 0 <= i < before.len() implies dev_name(#[trigger] before[i]) != name@ by {
            assert(dev_find(before, name@) is None);
        }
        Ok(())
    }

    /// Renames device `old_name` to `new_name` (see `rename_outcome`).
    pub fn rename_device(&mut self, old_name: &str, new_name: &str) -> (r: Result<(), String>)
        requires
            old(self).wf(),
        ensures
            final(self).wf(),
            ended_as(rename_outcome(old(self)@, old_name@, new_name@), r, old(self)@, final(self)@),
    {
        if self.running {
            return Err(string_of("impossible de renommer pendant la simulation"));
        }
        if str_eq(old_name, new_name) {
            return Ok(());
        }
        if self.find(new_name).is_some() {
            return Err(text3("l'appareil '", new_name, "' existe déjà"));
        }
        let i = match self.find(old_name) {
            Some(i) => i,
            None => return Err(text3("appareil '", old_name, "' introuvable")),
        };
        let ghost before = self@.devices;
        self.devices[i].set_name(new_name);
        assert(self@.devices =~= before.update(i as int, dev_renamed(before[i as int], new_name@)));
        assert forall|j: int| 0 <= j < before.len() implies dev_name(#[trigger] before[j]) != new_name@ by {
            assert(dev_find(before, new_name@) is None);
        }
        Ok(())
    }

    /// Removes device `name` (see `remove_outcome`).
    pub fn remove_device(&mut self, name: &str) -> (r: Result<(), String>)
        requires
            old(self).wf(),
        ensures
            final(self).wf(),
            ended_as(remove_outcome(old(self)@, name@), r, old(self)@, final(self)@),
    {
        if self.running {
            return Err(string_of("impossible de supprimer un appareil pendant la simulation"));
        }
        let i = match self.find(name) {
            Some(i) => i,
            None => return Err(text3("appareil '", name, "' introuvable")),
        };
        let ghost before = self@.devices;
        self.devices.remove(i);
        assert(self@.devices =~= before.remove(i as int));
        assert forall|a: int, b: int| 0 <= a < self@.devices.len() && 0 <= b < self@.devices.len() && a != b implies dev_name(
            self@.devices[a],
        ) != dev_name(self@.devices[b]) by {
            let a2 = if a < i { a } else { a + 1 };
            let b2 = if b < i { b } else { b + 1 };
            assert(self@.devices[a] == before[a2] && self@.devices[b] == before[b2]);
        }
        assert forall|a: int| 0 <= a < self@.devices.len() implies dev_wf(#[trigger] self@.devices[a]) by {
            let a2 = if a < i { a } else { a + 1 };
            assert(self@.devices[a] == before[a2]);
        }
        Ok(())
    }

    /// Starts the simulation (see `start_outcome`).
    pub fn start(&mut self) -> (r: Result<(), String>)
        requires
            old(self).wf(),
        ensures
            final(self).wf(),
            ended_as(start_outcome(old(self)@), r, old(self)@, final(self)@),
    {
        if self.running {
            return Err(string_of("simulation déjà en cours"));
        }
        if self.devices.len() == 0 {
            return Err(string_of("aucun appareil dans la topologie"));
        }
        self.running = true;
        Ok(())
    }

    /// Stops the simulation; every device forgets what it learnt while running.
    pub fn stop(&mut self)
        requires
            old(self).wf(),
        ensures
            final(self).wf(),
            final(self)@ == stopped(old(self)@),
    {
        let ghost before = self@.devices;
        let mut i: usize = 0;
        while i < self.devices.len()
            invariant
                i <= self.devices@.len(),
                self.devices@.len() == before.len(),
                names_distinct(before),
                forall|j: int| 0 <= j < before.len() ==> dev_wf(#[trigger] before[j]),
                forall|j: int| 0 <= j < i ==> #[trigger] self.devices@[j]@ == dev_restarted(before[j]),
                forall|j: int| i <= j < before.len() ==> #[trigger] self.devices@[j]@ == before[j],
            decreases self.devices.len() - i,
        {
            let ghost cur = self.devices@;
            assert(cur[i as int]@ == before[i as int]);
            assert(dev_wf(cur[i as int]@));
            self.devices[i].prepare_restart();
            assert(self.devices@[i as int]@ == dev_restarted(before[i as int]));
            assert forall|j: int| 0 <= j < self.devices@.len() && j != i implies self.devices@[j] == cur[j] by {}
            i = i + 1;
        }
        self.running = false;
        assert forall|j: int| 0 <= j < before.len() implies #[trigger] self@.devices[j] == dev_restarted(before[j]) by {
            assert(self.devices@[j]@ == dev_restarted(before[j]));
        }
        assert(self@.devices =~= before.map_values(|d: DeviceV| dev_restarted(d)));
        assert forall|a: int| 0 <= a < self@.devices.len() implies dev_wf(#[trigger] self@.devices[a]) by {
            assert(self@.devices[a] == dev_restarted(before[a]));
        }
    }

    /// Stops the simulation and removes every device.
    pub fn reset(&mut self)
        requires
            old(self).wf(),
        ensures
            final(self).wf(),
            final(self)@ == (SimView { devices: Seq::empty(), running: false }),
    {
        self.stop();
        self.devices = Vec::new();
        assert(self@.devices =~= Seq::<DeviceV>::empty());
    }

    /// Replaces device `i` by `d`, which keeps its name.
    proof fn lemma_replace_keeps_wf(before: Seq<DeviceV>, after: Seq<DeviceV>, i: int, d: DeviceV)
        requires
            names_distinct(before),
            forall|j: int| 0 <= j < before.len() ==> dev_wf(#[trigger] before[j]),
            0 <= i < before.len(),
            dev_name(d) == dev_name(before[i]),
            dev_wf(d),
            after == before.update(i, d),
        ensures
            names_distinct(after),
            forall|j: int| 0 <= j < after.len() ==> dev_wf(#[trigger] after[j]),
    {
        assert forall|a: int, b: int| 0 <= a < after.len() && 0 <= b < after.len() && a != b implies dev_name(after[a])
            != dev_name(after[b]) by {
            assert(dev_name(after[a]) == dev_name(before[a]));
            assert(dev_name(after[b]) == dev_name(before[b]));
        }
    }

    /// Adds interface `iface_name` with address `ip` to device `device_name`; the
    /// address must parse when nothing else refuses the interface.
    pub fn add_interface(&mut self, device_name: &str, iface_name: &str, ip: &str, mask: u8, mtu: u16) -> (r: Result<(usize, [u8; 6]), String>)
        requires
            old(self).wf(),
            add_iface_refusal(old(self)@, device_name@, iface_name@) is None ==> parse_ipv4(ip@) is Some,
        ensures
            final(self).wf(),
            match add_iface_refusal(old(self)@, device_name@, iface_name@) {
                Some(m) => r matches Err(e) && e@ == m && final(self)@ == old(self)@,
                None => r matches Ok(res) && {
                    let i = dev_find(old(self)@.devices, device_name@).unwrap();
                    let d = old(self)@.devices[i];
                    &&& res.0 == dev_next_id(d)
                    &&& res.1@[0] == 2
                    &&& !crate::utils::interfaces::mac_in_use(dev_ifaces(d), res.1@)
                    &&& final(self)@ == (SimView {
                        devices: old(self)@.devices.update(
                            i,
                            dev_with_ifaces(
                                d,
                                dev_ifaces(d).push(added_row(res.0, iface_name@, parsed_addr(ip@), mask, mtu, res.1@)),
                                (dev_next_id(d) + 1) as usize,
                            ),
                        ),
                        ..old(self)@
                    })
                },
            },
    {
        let i = match self.find(device_name) {
            Some(i) => i,
            None => return Err(text3("appareil '", device_name, "' introuvable")),
        };
        assert(self.devices@[i as int]@ == self@.devices[i as int]);
        assert(dev_wf(self@.devices[i as int]));
        let ghost before = self@.devices;
        let r = self.devices[i].add_interface(iface_name, ip, mask, mtu);
        proof {
            assert(self@.devices =~= before.update(i as int, self.devices@[i as int]@));
            Self::lemma_replace_keeps_wf(before, self@.devices, i as int, self.devices@[i as int]@);
        }
        r
    }

    /// Edits interface `old_iface_name` of device `device_name` (see `edit_outcome`).
    pub fn edit_interface(
        &mut self,
        device_name: &str,
        old_iface_name: &str,
        new_name: Option<&str>,
        ip: Option<&str>,
        mask: Option<u8>,
        mtu: Option<u16>,
    ) -> (r: Result<(), String>)
        requires
            old(self).wf(),
        ensures
            final(self).wf(),
            ended_as(
                edit_outcome(old(self)@, device_name@, old_iface_name@, opt_chars(new_name), opt_chars(ip), mask, mtu),
                r,
                old(self)@,
                final(self)@,
            ),
    {
        let i = match self.find(device_name) {
            Some(i) => i,
            None => return Err(text3("appareil '", device_name, "' introuvable")),
        };
        assert(self.devices@[i as int]@ == self@.devices[i as int]);
        assert(dev_wf(self@.devices[i as int]));
        let id = match self.devices[i].interfaces().id_by_name(old_iface_name) {
            Some(id) => id,
            None => return Err(text3("interface '", old_iface_name, "' introuvable")),
        };
        match new_name {
            Some(n) => {
                if !str_eq(n, old_iface_name) && self.devices[i].interfaces().id_by_name(n).is_some() {
                    return Err(text3("l'interface '", n, "' existe déjà"));
                }
            },
            None => {},
        }
        let addr = match ip {
            Some(t) => match Ipv4Addr::parse_str(t) {
                Ok(a) => Some(a.to_u32()),
                Err(_) => {
                    let mut m = string_of("adresse IP invalide: ");
                    push_str(&mut m, t);
                    return Err(m);
                },
            },
            None => None,
        };
        let ghost before = self@.devices;
        self.devices[i].update_interface(id, new_name, addr, mask, mtu);
        proof {
            assert(self@.devices =~= before.update(i as int, self.devices@[i as int]@));
            Self::lemma_replace_keeps_wf(before, self@.devices, i as int, self.devices@[i as int]@);
        }
        Ok(())
    }

    /// Checks that interface `iface_a` of device `dev_a` and interface `iface_b` of
    /// device `dev_b` can be linked and gives their ids (see `link_outcome`).
    pub fn link_interfaces(&self, dev_a: &str, iface_a: &str, dev_b: &str, iface_b: &str) -> (r: Result<(usize, usize), String>)
        requires
            self.wf(),
        ensures
            match link_outcome(self@, dev_a@, iface_a@, dev_b@, iface_b@) {
                Ok(ids) => r == Ok::<(usize, usize), String>(ids),
                Err(m) => r matches Err(e) && e@ == m,
            },
    {
        if str_eq(dev_a, dev_b) {
            return Err(string_of("impossible de lier un appareil à lui-même"));
        }
        let i = match self.find(dev_a) {
            Some(i) => i,
            None => return Err(text3("appareil '", dev_a, "' introuvable")),
        };
        assert(self.devices@[i as int]@ == self@.devices[i as int]);
        let a_id = match self.devices[i].get_iface_id(iface_a) {
            Some(id) => id,
            None => {
                let mut m = text3("interface '", iface_a, "' introuvable sur '");
                push_str(&mut m, dev_a);
                push_str(&mut m, "'");
                return Err(m);
            },
        };
        let k = match self.find(dev_b) {
            Some(k) => k,
            None => return Err(text3("appareil '", dev_b, "' introuvable")),
        };
        assert(self.devices@[k as int]@ == self@.devices[k as int]);
        let b_id = match self.devices[k].get_iface_id(iface_b) {
            Some(id) => id,
            None => {
                let mut m = text3("interface '", iface_b, "' introuvable sur '");
                push_str(&mut m, dev_b);
                push_str(&mut m, "'");
                return Err(m);
            },
        };
        Ok((a_id, b_id))
    }

    /// Runs console command `input` on device `device_name` at `now` (see
    /// `exec_outcome`).
    pub fn exec_at(&mut self, device_name: &str, input: &str, now: u64) -> (r: Result<(String, Vec<Action>), String>)
        requires
            old(self).wf(),
        ensures
            final(self).wf(),
            match exec_outcome(old(self)@, device_name@, input@, now) {
                Ok(o) => r matches Ok(p) && p.0@ == o.1 && actions_v(p.1@) == o.2 && final(self)@ == o.0,
                Err(m) => r matches Err(e) && e@ == m && final(self)@ == old(self)@,
            },
    {
        if !self.running {
            return Err(string_of("la simulation n'est pas démarrée"));
        }
        let i = match self.find(device_name) {
            Some(i) => i,
            None => return Err(text3("appareil '", device_name, "' introuvable")),
        };
        assert(self.devices@[i as int]@ == self@.devices[i as int]);
        assert(dev_wf(self@.devices[i as int]));
        let ghost before = self@.devices;
        let r = self.devices[i].exec_at(input, now);
        proof {
            assert(self@.devices =~= before.update(i as int, self.devices@[i as int]@));
            Self::lemma_replace_keeps_wf(before, self@.devices, i as int, self.devices@[i as int]@);
        }
        Ok(r)
    }

    /// Runs console command `input` on device `device_name` now.
    pub fn exec(&mut self, device_name: &str, input: &str) -> (r: Result<(String, Vec<Action>), String>)
        requires
            old(self).wf(),
        ensures
            final(self).wf(),
            exists|now: u64|
                match #[trigger] exec_outcome(old(self)@, device_name@, input@, now) {
                    Ok(o) => r matches Ok(p) && p.0@ == o.1 && actions_v(p.1@) == o.2 && final(self)@ == o.0,
                    Err(m) => r matches Err(e) && e@ == m && final(self)@ == old(self)@,
                },
    {
        let now = match self.find(device_name) {
            Some(i) => self.devices[i].now_nanos(),
            None => 0,
        };
        self.exec_at(device_name, input, now)
    }

    /// Delivers the bytes `packet` to interface `in_idx` of device `device_name` at
    /// `now` (see `deliver_outcome`).
    pub fn deliver_at(&mut self, device_name: &str, in_idx: usize, packet: Vec<u8>, now: u64) -> (r: Vec<Action>)
        requires
            old(self).wf(),
        ensures
            final(self).wf(),
            (final(self)@, actions_v(r@)) == deliver_outcome(old(self)@, device_name@, in_idx, packet@, now),
    {
        let i = match self.find(device_name) {
            Some(i) => i,
            None => {
                let out: Vec<Action> = Vec::new();
                assert(actions_v(out@) =~= Seq::<ActionV>::empty());
                return out;
            },
        };
        assert(self.devices@[i as int]@ == self@.devices[i as int]);
        assert(dev_wf(self@.devices[i as int]));
        let ghost before = self@.devices;
        let r = self.devices[i].handle_packet_at(in_idx, packet, now);
        proof {
            assert(self@.devices =~= before.update(i as int, self.devices@[i as int]@));
            Self::lemma_replace_keeps_wf(before, self@.devices, i as int, self.devices@[i as int]@);
        }
        r
    }

    /// Delivers the bytes `packet` to interface `in_idx` of device `device_name` now.
    pub fn deliver(&mut self, device_name: &str, in_idx: usize, packet: Vec<u8>) -> (r: Vec<Action>)
        requires
            old(self).wf(),
        ensures
            final(self).wf(),
            exists|now: u64| (final(self)@, actions_v(r@)) == deliver_outcome(old(self)@, device_name@, in_idx, packet@, now),
    {
        let now = match self.find(device_name) {
            Some(i) => self.devices[i].now_nanos(),
            None => 0,
        };
        self.deliver_at(device_name, in_idx, packet, now)
    }
}

} // verus!
