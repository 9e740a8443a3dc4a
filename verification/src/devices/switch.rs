//! A switch: a learning layer-2 device with a MAC address table and a console.
use vstd::prelude::*;
use crate::devices::action::{actions_v, Action};
use crate::devices::display::{ifconfig_output, ifconfig_text, mac_output, mac_text_table};
use crate::devices::l2::{l2_on_packet, learn_and_forward};
use crate::utils::addrs::mac_addr::MacAddr;
use crate::utils::interfaces::{
    added_row, iface_index, ifaces_wf, mac_in_use, opt_chars, rows_updated, IfaceRows, Interfaces,
};
use crate::utils::tables::mac_table::{mac_distinct, mac_listing, MacRow, MacTable};
use crate::utils::text::{chars_eq_str, push_chars, split_words, str_chars, string_of, views, words};

verus! {

/// A switch.
#[derive(Debug)]
pub struct Switch {
    name: String,
    ifaces: Interfaces,
    mac_table: MacTable,
}

/// A switch as plain values.
#[verifier::ext_equal]
pub struct SwitchView {
    pub name: Seq<char>,
    pub ifaces: IfaceRows,
    pub next_id: usize,
    pub macs: Seq<MacRow>,
}

impl View for Switch {
    type V = SwitchView;

    closed spec fn view(&self) -> SwitchView {
        SwitchView { name: self.name@, ifaces: self.ifaces@, next_id: self.ifaces.next_id(), macs: self.mac_table@ }
    }
}

/// The help of the switch console.
pub open spec fn switch_help_text() -> Seq<char> {
    "Available commands:\n  mac          - Show MAC address table\n  ifconfig     - Show interfaces\n  help         - Show this help\n"@
}

/// What the switch console answers to `input`.
pub open spec fn switch_exec(s: SwitchView, input: Seq<char>) -> Seq<char> {
    let ws = words(input);
    if ws.len() == 0 {
        Seq::empty()
    } else if ws[0] == "mac"@ {
        mac_text_table(mac_listing(s.macs))
    } else if ws[0] == "ifconfig"@ || ws[0] == "ip"@ {
        ifconfig_text(s.ifaces, true)
    } else if ws[0] == "help"@ {
        switch_help_text()
    } else {
        "unknown command: "@ + ws[0]
    }
}

/// The MAC table as hardware addresses and ports.
pub open spec fn mac_pairs(m: Seq<MacRow>) -> Seq<(Seq<u8>, usize)> {
    mac_listing(m).map_values(|e: (MacAddr, usize)| (e.0@, e.1))
}

/// The MAC table as byte arrays and ports.
pub fn mac_table_bytes(t: &MacTable) -> (r: Vec<([u8; 6], usize)>)
    ensures
        r@.map_values(|e: ([u8; 6], usize)| (e.0@, e.1)) == mac_pairs(t@),
{
    let l = t.entries();
    let ghost want = mac_pairs(t@);
    let mut r: Vec<([u8; 6], usize)> = Vec::new();
    let mut i: usize = 0;
    while i < l.len()
        invariant
            i <= l@.len(),
            want == l@.map_values(|e: (MacAddr, usize)| (e.0@, e.1)),
            r@.map_values(|e: ([u8; 6], usize)| (e.0@, e.1)) == want.take(i as int),
        decreases l.len() - i,
    {
        let ghost before = r@;
        let b = l[i].0.to_bytes();
        assert(b@ == l@[i as int].0@);
        assert(want[i as int] == (l@[i as int].0@, l@[i as int].1));
        r.push((b, l[i].1));
        assert(r@.map_values(|e: ([u8; 6], usize)| (e.0@, e.1)) =~= before.map_values(|e: ([u8; 6], usize)| (e.0@, e.1)).push((b@, l@[i as int].1)));
        assert(want.take(i + 1) =~= want.take(i as int).push(want[i as int]));
        i = i + 1;
    }
    assert(want.take(want.len() as int) =~= want);
    r
}

impl Switch {
    /// Nanoseconds on the clock that the device ages its MAC entries by.
    pub(crate) fn now_nanos(&self) -> u64 {
        self.mac_table.now_nanos()
    }

    /// Interfaces well formed, MAC table without duplicates.
    pub open spec fn wf(&self) -> bool {
        ifaces_wf(self@.ifaces, self@.next_id) && mac_distinct(self@.macs)
    }

    /// A switch without ports.
    pub fn new(name: &str) -> (r: Self)
        ensures
            r.wf(),
            r@ == (SwitchView { name: name@, ifaces: Seq::empty(), next_id: 0, macs: Seq::empty() }),
    {
        Switch { name: string_of(name), ifaces: Interfaces::new(), mac_table: MacTable::new() }
    }

    /// The switch's name.
    pub fn name(&self) -> (r: &str)
        ensures
            r@ == self@.name,
    {
        self.name.as_str()
    }

    /// Renames the switch.
    pub fn set_name(&mut self, name: &str)
        ensures
            final(self)@ == (SwitchView { name: name@, ..old(self)@ }),
    {
        self.name = string_of(name);
    }

    /// The ports.
    pub fn interfaces(&self) -> (r: &Interfaces)
        ensures
            r@ == self@.ifaces,
            r.next_id() == self@.next_id,
    {
        &self.ifaces
    }

    /// Adds a port with a fresh MAC address (see `Interfaces::add`).
    pub fn add_interface(&mut self, name: &str, addr: u32, mask: u8, mtu: u16) -> (r: (usize, [u8; 6]))
        requires
            old(self).wf(),
            old(self)@.next_id < usize::MAX,
            old(self)@.ifaces.len() < 1099511627776,
        ensures
            final(self).wf(),
            r.0 == old(self)@.next_id,
            r.1@[0] == 2,
            !mac_in_use(old(self)@.ifaces, r.1@),
            final(self)@ == (SwitchView {
                ifaces: old(self)@.ifaces.push(added_row(r.0, name@, addr, mask, mtu, r.1@)),
                next_id: (old(self)@.next_id + 1) as usize,
                ..old(self)@
            }),
    {
        self.ifaces.add(name, addr, mask, mtu)
    }

    /// Changes the given settings of port `id`; false when there is none.
    pub fn update_interface(&mut self, id: usize, name: Option<&str>, addr: Option<u32>, mask: Option<u8>, mtu: Option<u16>) -> (r: bool)
        requires
            old(self).wf(),
        ensures
            final(self).wf(),
            r == (iface_index(old(self)@.ifaces, id) is Some),
            final(self)@ == (SwitchView {
                ifaces: rows_updated(old(self)@.ifaces, id, opt_chars(name), addr, mask, mtu),
                ..old(self)@
            }),
    {
        self.ifaces.update(id, name, addr, mask, mtu)
    }

    /// Forgets the MAC addresses learnt while running; the ports stay.
    pub fn prepare_restart(&mut self)
        requires
            old(self).wf(),
        ensures
            final(self).wf(),
            final(self)@ == (SwitchView { macs: Seq::empty(), ..old(self)@ }),
    {
        self.mac_table = MacTable::new();
    }

    /// Handles the bytes `packet` received on port `in_idx` at time `now`
    /// (see `l2_on_packet`).
    pub fn handle_packet_at(&mut self, in_idx: usize, packet: Vec<u8>, now: u64) -> (r: Vec<Action>)
        requires
            old(self).wf(),
        ensures
            final(self).wf(),
            final(self)@ == (SwitchView { macs: l2_on_packet(old(self)@.ifaces, old(self)@.macs, in_idx, packet@, now).0, ..old(self)@ }),
            actions_v(r@) == l2_on_packet(old(self)@.ifaces, old(self)@.macs, in_idx, packet@, now).1,
    {
        learn_and_forward(&self.ifaces, &mut self.mac_table, in_idx, &packet, now)
    }

    /// Handles the bytes `packet` received on port `in_idx` now.
    pub fn handle_packet(&mut self, in_idx: usize, packet: Vec<u8>) -> (r: Vec<Action>)
        requires
            old(self).wf(),
        ensures
            final(self).wf(),
            exists|now: u64| {
                &&& final(self)@ == (SwitchView { macs: l2_on_packet(old(self)@.ifaces, old(self)@.macs, in_idx, packet@, now).0, ..old(self)@ })
                &&& actions_v(r@) == l2_on_packet(old(self)@.ifaces, old(self)@.macs, in_idx, packet@, now).1
            },
    {
        let now = self.mac_table.now_nanos();
        self.handle_packet_at(in_idx, packet, now)
    }

    /// The MAC address table: address bytes and port.
    pub fn show_mac_table(&self) -> (r: Vec<([u8; 6], usize)>)
        ensures
            r@.map_values(|e: ([u8; 6], usize)| (e.0@, e.1)) == mac_pairs(self@.macs),
    {
        mac_table_bytes(&self.mac_table)
    }

    /// Runs the console command `input` (see `switch_exec`).
    pub fn exec(&self, input: &str) -> (r: String)
        requires
            self.wf(),
        ensures
            r@ == switch_exec(self@, input@),
    {
        let cs = str_chars(input);
        let ws = split_words(cs.as_slice());
        let ghost w = words(input@);
        assert(views(ws@) == w);
        if ws.len() == 0 {
            return String::new();
        }
        assert(ws@[0]@ == w[0]);
        let cmd = ws[0].as_slice();
        if chars_eq_str(cmd, "mac") {
            mac_output(&self.mac_table)
        } else if chars_eq_str(cmd, "ifconfig") || chars_eq_str(cmd, "ip") {
            ifconfig_output(&self.ifaces, true)
        } else if chars_eq_str(cmd, "help") {
            string_of("Available commands:\n  mac          - Show MAC address table\n  ifconfig     - Show interfaces\n  help         - Show this help\n")
        } else {
            let mut s = string_of("unknown command: ");
            push_chars(&mut s, cmd);
            s
        }
    }
}

} // verus!
