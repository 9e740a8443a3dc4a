//! A hub: every frame that comes in on a port goes out, unchanged, on all the others.
use vstd::prelude::*;
use crate::devices::action::{actions_v, Action};
use crate::devices::display::{ifconfig_output, ifconfig_text};
use crate::devices::l2::{hub_forward, hub_on_packet};
use crate::utils::interfaces::{
    added_row, iface_index, ifaces_wf, mac_in_use, opt_chars, rows_updated, IfaceRows, Interfaces,
};
use crate::utils::text::{chars_eq_str, push_chars, split_words, str_chars, string_of, views, words};

verus! {

/// A hub.
#[derive(Debug)]
pub struct Hub {
    name: String,
    ifaces: Interfaces,
}

/// A hub as plain values.
#[verifier::ext_equal]
pub struct HubView {
    pub name: Seq<char>,
    pub ifaces: IfaceRows,
    pub next_id: usize,
}

impl View for Hub {
    type V = HubView;

    closed spec fn view(&self) -> HubView {
        HubView { name: self.name@, ifaces: self.ifaces@, next_id: self.ifaces.next_id() }
    }
}

/// The help of the hub console.
pub open spec fn hub_help_text() -> Seq<char> {
    "Available commands:\n  ifconfig     - Show interfaces\n  help         - Show this help\n"@
}

/// What the hub console answers to `input`.
pub open spec fn hub_exec(s: HubView, input: Seq<char>) -> Seq<char> {
    let ws = words(input);
    if ws.len() == 0 {
        Seq::empty()
    } else if ws[0] == "ifconfig"@ || ws[0] == "ip"@ {
        ifconfig_text(s.ifaces, true)
    } else if ws[0] == "help"@ {
        hub_help_text()
    } else {
        "unknown command: "@ + ws[0]
    }
}

impl Hub {
    /// Ports well formed.
    pub open spec fn wf(&self) -> bool {
        ifaces_wf(self@.ifaces, self@.next_id)
    }

    /// A hub without ports.
    pub fn new(name: &str) -> (r: Self)
        ensures
            r.wf(),
            r@ == (HubView { name: name@, ifaces: Seq::empty(), next_id: 0 }),
    {
        Hub { name: string_of(name), ifaces: Interfaces::new() }
    }

    /// The hub's name.
    pub fn name(&self) -> (r: &str)
        ensures
            r@ == self@.name,
    {
        self.name.as_str()
    }

    /// Renames the hub.
    pub fn set_name(&mut self, name: &str)
        ensures
            final(self)@ == (HubView { name: name@, ..old(self)@ }),
    {
        self.name = string_of(name);
    }

    /// The ports.
    pub fn interfaces(&self) -> (r: &Interfaces)
        ensures
            r@ == self@.ifaces,
            r.next_id() == self@.next_id,
    {
        &self.ifaces
    }

    /// Adds a port with a fresh MAC address (see `Interfaces::add`).
    pub fn add_interface(&mut self, name: &str, addr: u32, mask: u8, mtu: u16) -> (r: (usize, [u8; 6]))
        requires
            old(self).wf(),
            old(self)@.next_id < usize::MAX,
            old(self)@.ifaces.len() < 1099511627776,
        ensures
            final(self).wf(),
            r.0 == old(self)@.next_id,
            r.1@[0] == 2,
            !mac_in_use(old(self)@.ifaces, r.1@),
            final(self)@ == (HubView {
                ifaces: old(self)@.ifaces.push(added_row(r.0, name@, addr, mask, mtu, r.1@)),
                next_id: (old(self)@.next_id + 1) as usize,
                ..old(self)@
            }),
    {
        self.ifaces.add(name, addr, mask, mtu)
    }

    /// Changes the given settings of port `id`; false when there is none.
    pub fn update_interface(&mut self, id: usize, name: Option<&str>, addr: Option<u32>, mask: Option<u8>, mtu: Option<u16>) -> (r: bool)
        requires
            old(self).wf(),
        ensures
            final(self).wf(),
            r == (iface_index(old(self)@.ifaces, id) is Some),
            final(self)@ == (HubView {
                ifaces: rows_updated(old(self)@.ifaces, id, opt_chars(name), addr, mask, mtu),
                ..old(self)@
            }),
    {
        self.ifaces.update(id, name, addr, mask, mtu)
    }

    /// A hub learns nothing, so a restart has nothing to forget.
    pub fn prepare_restart(&mut self)
        ensures
            final(self)@ == old(self)@,
    {
    }

    /// Repeats the bytes `packet` received on port `in_idx` (see `hub_on_packet`).
    pub fn handle_packet(&self, in_idx: usize, packet: Vec<u8>) -> (r: Vec<Action>)
        ensures
            actions_v(r@) == hub_on_packet(self@.ifaces, in_idx, packet@),
    {
        hub_forward(&self.ifaces, in_idx, &packet)
    }

    /// Runs the console command `input` (see `hub_exec`).
    pub fn exec(&self, input: &str) -> (r: String)
        requires
            self.wf(),
        ensures
            r@ == hub_exec(self@, input@),
    {
        let cs = str_chars(input);
        let ws = split_words(cs.as_slice());
        let ghost w = words(input@);
        assert(views(ws@) == w);
        if ws.len() == 0 {
            return String::new();
        }
        assert(ws@[0]@ == w[0]);
        let cmd = ws[0].as_slice();
        if chars_eq_str(cmd, "ifconfig") || chars_eq_str(cmd, "ip") {
            ifconfig_output(&self.ifaces, true)
        } else if chars_eq_str(cmd, "help") {
            string_of("Available commands:\n  ifconfig     - Show interfaces\n  help         - Show this help\n")
        } else {
            let mut s = string_of("unknown command: ");
            push_chars(&mut s, cmd);
            s
        }
    }
}

} // verus!
