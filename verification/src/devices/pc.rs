//! A PC: it keeps every frame it receives, answers ARP requests for its own
//! addresses and pings sent to it, and pings others, resolving them with ARP first.
use vstd::prelude::*;
use crate::devices::action::{actions_v, frame_bytes, push_action, push_send, push_step, Action, ActionV};
use crate::devices::display::{arp_output, arp_text, arp_table_view, ifconfig_output, ifconfig_text};
use crate::devices::host::{
    arp_message, arp_reply_frame, arp_request_frame, arp_v, lemma_arp_frame_fields, flush, flush_pending, ip_or_zero_of, mac_or_zero_of, on_message, pending_v, resolve_and_send,
    resolve_send, answer_message, PendingIpv4, PendingV,
};
use crate::events::EventKind;
use crate::net::arp::{arp_error, arp_fields_of, Arp, ArpFields, ArpOperation};
use crate::net::arp::ArpOperations;
use crate::net::ethernet::{
    eth_fcs, eth_fields_of, EtherType, Ethernet, EthernetFields,
};
use crate::net::ethernet::EtherTypes;
use crate::net::icmp::{message_bytes, new_message, Icmp, ECHO_REQUEST};
use crate::net::ipv4::{ipv4_checksum, ipv4_error, ipv4_fields_of, new_packet, IpNextHeaderProtocol, Ipv4};
use crate::utils::addrs::ip_addr::{ipv4_from_seq, ipv4_text, ipv4_u32, parse_ipv4, u32_be, Ipv4Addr};
use crate::utils::addrs::mac_addr::{broadcast_mac, mac_from_seq, zero_mac, MacAddr};
use crate::utils::interfaces::{
    added_row, iface_index, iface_updated, iface_with_addr, ifaces_wf, lemma_iface_index_at, IfaceRows, Interfaces,
};
use crate::utils::tables::arp_table::{arp_distinct, arp_learn, ArpRow, ArpTable};
use crate::utils::text::{chars_eq_str, push_chars, push_str, split_words, str_chars, string_of, views, words};

verus! {

broadcast use crate::utils::addrs::ip_addr::lemma_ipv4_view, crate::utils::addrs::mac_addr::lemma_mac_view,
    crate::utils::addrs::ip_addr::lemma_ipv4_from_seq, crate::utils::addrs::mac_addr::lemma_mac_from_seq,
    crate::utils::addrs::ip_addr::lemma_ipv4_of_view, crate::utils::addrs::mac_addr::lemma_mac_of_view;

/// A PC.
#[derive(Debug)]
pub struct PC {
    name: String,
    ifaces: Interfaces,
    packets: Vec<Vec<u8>>,
    arp_table: ArpTable,
    pending_ipv4: Vec<(Ipv4Addr, PendingIpv4)>,
}

/// A PC as plain values.
#[verifier::ext_equal]
pub struct PcView {
    pub name: Seq<char>,
    pub ifaces: IfaceRows,
    pub next_id: usize,
    /// Every frame received, in order.
    pub packets: Seq<Seq<u8>>,
    pub arp: Seq<ArpRow>,
    /// Packets waiting for ARP, oldest first.
    pub pending: Seq<PendingV>,
}

impl View for PC {
    type V = PcView;

    closed spec fn view(&self) -> PcView {
        PcView {
            name: self.name@,
            ifaces: self.ifaces@,
            next_id: self.ifaces.next_id(),
            packets: self.packets@.map_values(|p: Vec<u8>| p@),
            arp: self.arp_table@,
            pending: pending_v(self.pending_ipv4@),
        }
    }
}

/// What a PC does with the bytes `p` received on interface `in_idx` at time `now`:
/// anything of at least 18 bytes is kept; ARP and IPv4 frames are then handled.
pub open spec fn pc_on_packet(s: PcView, in_idx: usize, p: Seq<u8>, now: u64) -> (PcView, Seq<ActionV>) {
    if p.len() < 18 {
        (s, Seq::empty())
    } else {
        let f = eth_fields_of(p);
        let s1 = PcView { packets: s.packets.push(p), ..s };
        if f.2 == 0x0806 {
            pc_on_arp(s1, in_idx, f.3, now)
        } else if f.2 == 0x0800 {
            (s1, pc_on_ipv4(s1, in_idx, f, now))
        } else {
            (s1, Seq::empty())
        }
    }
}

/// What a PC does with an ARP message: it learns the sender; it answers a request for
/// one of its addresses; on a reply it releases the packets waiting for the sender.
pub open spec fn pc_on_arp(s: PcView, in_idx: usize, b: Seq<u8>, now: u64) -> (PcView, Seq<ActionV>) {
    if arp_error(b) is Some {
        (s, Seq::empty())
    } else {
        let a = arp_fields_of(b);
        let arp1 = arp_learn(s.arp, ipv4_from_seq(a.6), mac_from_seq(a.5), now);
        let s1 = PcView { arp: arp1, ..s };
        if a.4 == 1 {
            (s1, pc_arp_request(s1, in_idx, a, now))
        } else if a.4 == 2 {
            pc_arp_reply(s1, a, now)
        } else {
            (s1, Seq::empty())
        }
    }
}

/// Answering the ARP request `a` (its sender already learnt): the request is shown,
/// and if one of the PC's interfaces has the address asked for, its MAC address is
/// sent back on the interface the request came in by.
pub open spec fn pc_arp_request(s: PcView, in_idx: usize, a: ArpFields, now: u64) -> Seq<ActionV> {
    let sip = ipv4_from_seq(a.6);
    let received = ActionV::Step(
        EventKind::ArpRequestReceived { sender_ip: sip, sender_mac: mac_from_seq(a.5) },
        seq![arp_v(s.arp, now)],
    );
    match iface_with_addr(s.ifaces, ipv4_u32(ipv4_from_seq(a.8))) {
        None => seq![received],
        Some(i) => {
            let mine = s.ifaces[i].1.mac;
            seq![
                received,
                ActionV::Step(
                    EventKind::ArpReplySent { target_ip: sip, mac: mac_from_seq(mine) },
                    seq![arp_v(s.arp, now)],
                ),
                ActionV::Send(in_idx, frame_bytes(a.5, mine, 0x0806, arp_message(2, mine, a.8, a.5, a.6))),
            ]
        },
    }
}

/// Taking the ARP reply `a` (its sender already learnt): the sender is learnt again,
/// the reply is shown, and the packets waiting for the sender are released.
pub open spec fn pc_arp_reply(s: PcView, a: ArpFields, now: u64) -> (PcView, Seq<ActionV>) {
    let sip = ipv4_from_seq(a.6);
    let smac = mac_from_seq(a.5);
    let arp2 = arp_learn(s.arp, sip, smac, now);
    let received = ActionV::Step(
        EventKind::ArpReplyReceived { sender_ip: sip, sender_mac: smac },
        seq![arp_v(arp2, now)],
    );
    let r = flush(s.ifaces, arp2, s.pending, sip, now);
    (PcView { arp: r.0, pending: r.1, ..s }, seq![received] + r.2)
}

/// A PC receiving an ARP request frame handles its message.
proof fn lemma_request_frame_handled(s: PcView, in_idx: usize, smac: Seq<u8>, sip: Seq<u8>, tip: Seq<u8>, now: u64)
    requires
        smac.len() == 6,
        sip.len() == 4,
        tip.len() == 4,
    ensures
        pc_on_packet(s, in_idx, arp_request_frame(smac, sip, tip), now) == pc_on_arp(
            PcView { packets: s.packets.push(arp_request_frame(smac, sip, tip)), ..s },
            in_idx,
            arp_message(1, smac, sip, zero_mac(), tip),
            now,
        ),
        arp_error(arp_message(1, smac, sip, zero_mac(), tip)) is None,
        arp_fields_of(arp_message(1, smac, sip, zero_mac(), tip)) == (1u16, 0x0800u16, 6u8, 4u8, 1u16, smac, sip, zero_mac(), tip),
{
    lemma_arp_frame_fields(broadcast_mac(), smac, 1, smac, sip, zero_mac(), tip);
}

/// A PC asked by ARP for the address of one of its interfaces answers, on the
/// interface the question came in by, that the address is at that interface's MAC
/// address; and it now knows where the asker is.
pub proof fn law_pc_answers_arp_for_its_address(s: PcView, in_idx: usize, smac: Seq<u8>, sip: Seq<u8>, tip: Seq<u8>, now: u64)
    requires
        arp_distinct(s.arp),
        smac.len() == 6,
        sip.len() == 4,
        tip.len() == 4,
        iface_with_addr(s.ifaces, ipv4_u32(ipv4_from_seq(tip))) is Some,
    ensures
        ({
            let r = pc_on_packet(s, in_idx, arp_request_frame(smac, sip, tip), now);
            let mine = s.ifaces[iface_with_addr(s.ifaces, ipv4_u32(ipv4_from_seq(tip))).unwrap()].1.mac;
            &&& r.1.len() > 0
            &&& r.1.last() == ActionV::Send(in_idx, arp_reply_frame(mine, tip, smac, sip))
            &&& crate::utils::tables::arp_table::arp_lookup(r.0.arp, ipv4_from_seq(sip), now).1 == Some(mac_from_seq(smac))
            &&& r.0.ifaces == s.ifaces
        }),
{
    lemma_request_frame_handled(s, in_idx, smac, sip, tip, now);
    let s1 = PcView { packets: s.packets.push(arp_request_frame(smac, sip, tip)), ..s };
    let payload = arp_message(1, smac, sip, zero_mac(), tip);
    lemma_pc_arp_request_core(s1, in_idx, payload, arp_fields_of(payload), now, pc_on_packet(s, in_idx, arp_request_frame(smac, sip, tip), now));
}

/// The ARP part of the law above, once the request is read: the sender is learnt and
/// the reply comes last.
proof fn lemma_pc_arp_request_core(s1: PcView, in_idx: usize, payload: Seq<u8>, a: ArpFields, now: u64, r: (PcView, Seq<ActionV>))
    requires
        arp_distinct(s1.arp),
        arp_error(payload) is None,
        a == arp_fields_of(payload),
        a.4 == 1,
        iface_with_addr(s1.ifaces, ipv4_u32(ipv4_from_seq(a.8))) is Some,
        r == pc_on_arp(s1, in_idx, payload, now),
    ensures
        ({
            let mine = s1.ifaces[iface_with_addr(s1.ifaces, ipv4_u32(ipv4_from_seq(a.8))).unwrap()].1.mac;
            &&& r.1.len() > 0
            &&& r.1.last() == ActionV::Send(in_idx, arp_reply_frame(mine, a.8, a.5, a.6))
            &&& crate::utils::tables::arp_table::arp_lookup(r.0.arp, ipv4_from_seq(a.6), now).1 == Some(mac_from_seq(a.5))
            &&& r.0.ifaces == s1.ifaces
        }),
{
    crate::utils::tables::arp_table::law_arp_lookup_after_learn(s1.arp, ipv4_from_seq(a.6), mac_from_seq(a.5), now, now);
    let s2 = PcView { arp: arp_learn(s1.arp, ipv4_from_seq(a.6), mac_from_seq(a.5), now), ..s1 };
    lemma_request_answered(s1, in_idx, payload, a, now);
    lemma_request_reply_last(s2, in_idx, a, now);
}

/// The last thing done on a request for an address one of the interfaces has: the reply.
proof fn lemma_request_reply_last(s: PcView, in_idx: usize, a: ArpFields, now: u64)
    requires
        iface_with_addr(s.ifaces, ipv4_u32(ipv4_from_seq(a.8))) is Some,
    ensures
        ({
            let mine = s.ifaces[iface_with_addr(s.ifaces, ipv4_u32(ipv4_from_seq(a.8))).unwrap()].1.mac;
            pc_arp_request(s, in_idx, a, now).last() == ActionV::Send(in_idx, arp_reply_frame(mine, a.8, a.5, a.6))
        }),
{
}

/// The ARP part of the law above: a request (already read) is answered.
proof fn lemma_request_answered(s1: PcView, in_idx: usize, payload: Seq<u8>, a: ArpFields, now: u64)
    requires
        arp_error(payload) is None,
        a == arp_fields_of(payload),
        a.4 == 1,
    ensures
        pc_on_arp(s1, in_idx, payload, now) == ({
            let s2 = PcView { arp: arp_learn(s1.arp, ipv4_from_seq(a.6), mac_from_seq(a.5), now), ..s1 };
            (s2, pc_arp_request(s2, in_idx, a, now))
        }),
{
}

/// A PC told by ARP where `rip` is sends it, at that hardware address, every packet
/// that was waiting for it, oldest first, and stops holding them.
pub proof fn law_pc_arp_reply_releases_waiting(s: PcView, in_idx: usize, rmac: Seq<u8>, rip: Seq<u8>, tmac: Seq<u8>, tip: Seq<u8>, now: u64)
    requires
        arp_distinct(s.arp),
        rmac.len() == 6,
        rip.len() == 4,
        tmac.len() == 6,
        tip.len() == 4,
    ensures
        ({
            let r = pc_on_packet(s, in_idx, arp_reply_frame(rmac, rip, tmac, tip), now);
            let waiting = s.pending.filter(|e: PendingV| crate::devices::host::waits_for(e, ipv4_from_seq(rip)));
            &&& r.1.len() == 1 + waiting.len()
            &&& r.1.skip(1) == waiting.map_values(|e: PendingV| crate::devices::host::pending_send(s.ifaces, mac_from_seq(rmac), e))
            &&& r.0.pending == s.pending.filter(|e: PendingV| !crate::devices::host::waits_for(e, ipv4_from_seq(rip)))
            &&& r.0.ifaces == s.ifaces
        }),
{
    lemma_arp_frame_fields(tmac, rmac, 2, rmac, rip, tmac, tip);
    let sip = ipv4_from_seq(rip);
    let smac = mac_from_seq(rmac);
    crate::utils::tables::arp_table::lemma_arp_learn_distinct(s.arp, sip, smac, now);
    let arp1 = arp_learn(s.arp, sip, smac, now);
    crate::utils::tables::arp_table::law_arp_learn_replaces(s.arp, sip, smac, smac, now, now);
    crate::utils::tables::arp_table::law_arp_lookup_after_learn(s.arp, sip, smac, now, now);
    let r = pc_on_packet(s, in_idx, arp_reply_frame(rmac, rip, tmac, tip), now);
    let waiting = s.pending.filter(|e: PendingV| crate::devices::host::waits_for(e, sip));
    if waiting.len() == 0 {
        assert(r.1.skip(1) =~= waiting.map_values(|e: PendingV| crate::devices::host::pending_send(s.ifaces, smac, e)));
        assert(s.pending.filter(|e: PendingV| !crate::devices::host::waits_for(e, sip)) =~= s.pending) by {
            assert forall|k: int| 0 <= k < s.pending.len() implies !crate::devices::host::waits_for(#[trigger] s.pending[k], sip) by {
                if crate::devices::host::waits_for(s.pending[k], sip) {
                    s.pending.lemma_filter_contains(|e: PendingV| crate::devices::host::waits_for(e, sip), k);
                }
            }
            lemma_filter_all(s.pending, |e: PendingV| !crate::devices::host::waits_for(e, sip));
        }
    } else {
        assert(r.1.skip(1) =~= waiting.map_values(|e: PendingV| crate::devices::host::pending_send(s.ifaces, smac, e)));
    }
}

/// Filtering keeps everything when everything passes.
proof fn lemma_filter_all<A>(s: Seq<A>, pred: spec_fn(A) -> bool)
    requires
        forall|k: int| 0 <= k < s.len() ==> pred(#[trigger] s[k]),
    ensures
        s.filter(pred) == s,
    decreases s.len(),
{
    reveal_with_fuel(Seq::<_>::filter, 1);
    if s.len() > 0 {
        lemma_filter_all(s.drop_last(), pred);
        assert(s.drop_last().push(s.last()) =~= s);
    } else {
        assert(s.filter(pred) =~= s);
    }
}

/// What a PC does with an IPv4 packet: one with a correct checksum, addressed to one
/// of its interfaces and carrying ICMP, goes to `on_message`; others are ignored.
pub open spec fn pc_on_ipv4(s: PcView, in_idx: usize, f: EthernetFields, now: u64) -> Seq<ActionV> {
    if ipv4_error(f.3) is Some {
        Seq::empty()
    } else {
        let pk = ipv4_fields_of(f.3);
        if pk.checksum != ipv4_checksum(pk) {
            Seq::empty()
        } else if iface_with_addr(s.ifaces, ipv4_u32(ipv4_from_seq(pk.destination))) is None {
            Seq::empty()
        } else if pk.protocol != 1 {
            Seq::empty()
        } else {
            on_message(in_idx, f, pk, arp_v(s.arp, now), true)
        }
    }
}

/// Pinging `target` at time `now`: without an interface nothing is sent; otherwise an
/// echo request from the first interface's address is sent out of it.
pub open spec fn pc_ping(s: PcView, target: Ipv4Addr, now: u64) -> (PcView, bool, Seq<ActionV>) {
    if s.ifaces.len() == 0 {
        (s, false, Seq::empty())
    } else {
        let id = s.ifaces[0].0;
        let pk = new_packet(u32_be(s.ifaces[0].1.addr), target@, 1, message_bytes(new_message(8, 0, Seq::empty())));
        let r = resolve_send(s.ifaces, s.arp, s.pending, id, target, pk, now);
        (PcView { arp: r.0, pending: r.1, ..s }, true, r.2)
    }
}

/// ARP-pinging `target` at time `now`: without an interface nothing is sent; otherwise
/// a broadcast ARP request for `target`, from the first interface's addresses, goes
/// out of it. Nothing is learnt and nothing waits.
pub open spec fn pc_arping(s: PcView, target: Ipv4Addr, now: u64) -> (bool, Seq<ActionV>) {
    if s.ifaces.len() == 0 {
        (false, Seq::empty())
    } else {
        let id = s.ifaces[0].0;
        (
            true,
            seq![
                ActionV::Step(EventKind::ArpRequestSent { target_ip: target }, seq![arp_v(s.arp, now)]),
                ActionV::Send(id, arp_request_frame(s.ifaces[0].1.mac, u32_be(s.ifaces[0].1.addr), target@)),
            ],
        )
    }
}

/// Sending the raw frame `p` on interface `id`: only a frame of at least 18 bytes whose
/// FCS is right goes out.
pub open spec fn pc_send_frame(id: usize, p: Seq<u8>) -> Seq<ActionV> {
    if p.len() < 18 {
        Seq::empty()
    } else if eth_fields_of(p).4 != eth_fcs(eth_fields_of(p)) {
        Seq::empty()
    } else {
        seq![ActionV::Send(id, p)]
    }
}

/// The help of the PC console.
pub open spec fn pc_help_text() -> Seq<char> {
    "Available commands:\n  ping <ip>    - Send ICMP echo request\n  arp          - Show ARP table\n  ifconfig     - Show interfaces\n  help         - Show this help\n"@
}

/// What the PC console answers to `input` at time `now`, and what it does.
pub open spec fn pc_exec(s: PcView, input: Seq<char>, now: u64) -> (PcView, Seq<char>, Seq<ActionV>) {
    let ws = words(input);
    if ws.len() == 0 {
        (s, Seq::empty(), Seq::empty())
    } else if ws[0] == "ping"@ {
        if ws.len() < 2 {
            (s, "usage: ping <ip>"@, Seq::empty())
        } else {
            match parse_ipv4(ws[1]) {
                None => (s, "invalid IP: "@ + ws[1], Seq::empty()),
                Some(b) => {
                    let r = pc_ping(s, ipv4_from_seq(b), now);
                    (
                        r.0,
                        "PING "@ + ipv4_text(b) + if r.1 {
                            " - request sent"@
                        } else {
                            " - failed (no interface)"@
                        },
                        r.2,
                    )
                },
            }
        }
    } else if ws[0] == "arping"@ {
        if ws.len() < 2 {
            (s, "usage: arping <ip>"@, Seq::empty())
        } else {
            match parse_ipv4(ws[1]) {
                None => (s, "invalid IP: "@ + ws[1], Seq::empty()),
                Some(b) => {
                    let r = pc_arping(s, ipv4_from_seq(b), now);
                    (
                        s,
                        "ARPING "@ + ipv4_text(b) + if r.0 {
                            " - request sent"@
                        } else {
                            " - failed (no interface)"@
                        },
                        r.1,
                    )
                },
            }
        }
    } else if ws[0] == "clear"@ {
        (s, Seq::empty(), Seq::empty())
    } else if ws[0] == "arp"@ {
        if ws.len() >= 2 && ws[1] == "-d"@ {
            (s, "arp -d not supported yet"@, Seq::empty())
        } else {
            (s, arp_text(crate::utils::tables::arp_table::arp_listing(s.arp, now)), Seq::empty())
        }
    } else if ws[0] == "ifconfig"@ || ws[0] == "ip"@ {
        (s, ifconfig_text(s.ifaces, false), Seq::empty())
    } else if ws[0] == "help"@ {
        (s, pc_help_text(), Seq::empty())
    } else {
        (s, "unknown command: "@ + ws[0], Seq::empty())
    }
}

impl PC {
    /// Nanoseconds on the clock that the device ages its ARP entries by.
    pub(crate) fn now_nanos(&self) -> u64 {
        self.arp_table.now_nanos()
    }

    /// Interfaces well formed, ARP table without duplicates.
    pub open spec fn wf(&self) -> bool {
        ifaces_wf(self@.ifaces, self@.next_id) && arp_distinct(self@.arp)
    }

    /// A PC without interfaces.
    pub fn new(name: &str) -> (r: Self)
        ensures
            r.wf(),
            r@ == (PcView {
                name: name@,
                ifaces: Seq::empty(),
                next_id: 0,
                packets: Seq::empty(),
                arp: Seq::empty(),
                pending: Seq::empty(),
            }),
    {
        let r = PC {
            name: string_of(name),
            ifaces: Interfaces::new(),
            packets: Vec::new(),
            arp_table: ArpTable::new(),
            pending_ipv4: Vec::new(),
        };
        assert(r@.packets =~= Seq::<Seq<u8>>::empty());
        assert(r@.pending =~= Seq::<PendingV>::empty());
        r
    }

    /// The PC's name.
    pub fn name(&self) -> (r: &str)
        ensures
            r@ == self@.name,
    {
        self.name.as_str()
    }

    /// Renames the PC.
    pub fn set_name(&mut self, name: &str)
        ensures
            final(self)@ == (PcView { name: name@, ..old(self)@ }),
    {
        self.name = string_of(name);
    }

    /// The interfaces.
    pub fn interfaces(&self) -> (r: &Interfaces)
        ensures
            r@ == self@.ifaces,
            r.next_id() == self@.next_id,
    {
        &self.ifaces
    }

    /// Adds an interface with a fresh MAC address (see `Interfaces::add`).
    pub fn add_interface(&mut self, name: &str, addr: u32, mask: u8, mtu: u16) -> (r: (usize, [u8; 6]))
        requires
            old(self).wf(),
            old(self)@.next_id < usize::MAX,
            old(self)@.ifaces.len() < 1099511627776,
        ensures
            final(self).wf(),
            r.0 == old(self)@.next_id,
            r.1@[0] == 2,
            !crate::utils::interfaces::mac_in_use(old(self)@.ifaces, r.1@),
            final(self)@ == (PcView {
                ifaces: old(self)@.ifaces.push(added_row(r.0, name@, addr, mask, mtu, r.1@)),
                next_id: (old(self)@.next_id + 1) as usize,
                ..old(self)@
            }),
    {
        self.ifaces.add(name, addr, mask, mtu)
    }

    /// Changes the given settings of interface `id`; false when there is none.
    pub fn update_interface(&mut self, id: usize, name: Option<&str>, addr: Option<u32>, mask: Option<u8>, mtu: Option<u16>) -> (r: bool)
        requires
            old(self).wf(),
        ensures
            final(self).wf(),
            r == (iface_index(old(self)@.ifaces, id) is Some),
            final(self)@ == (PcView {
                ifaces: match iface_index(old(self)@.ifaces, id) {
                    Some(i) => old(self)@.ifaces.update(
                        i,
                        (
                            id,
                            iface_updated(
                                old(self)@.ifaces[i].1,
                                match name {
                                    Some(n) => Some(n@),
                                    None => None,
                                },
                                addr,
                                mask,
                                mtu,
                            ),
                        ),
                    ),
                    None => old(self)@.ifaces,
                },
                ..old(self)@
            }),
    {
        self.ifaces.update(id, name, addr, mask, mtu)
    }

    /// A copy of every frame received so far, in order.
    pub fn list_packets(&self) -> (r: Vec<Vec<u8>>)
        ensures
            r@.map_values(|p: Vec<u8>| p@) == self@.packets,
    {
        let ghost ps = self.packets@.map_values(|p: Vec<u8>| p@);
        assert(ps == self@.packets);
        let mut r: Vec<Vec<u8>> = Vec::new();
        let mut i: usize = 0;
        while i < self.packets.len()
            invariant
                i <= self.packets@.len(),
                ps == self.packets@.map_values(|p: Vec<u8>| p@),
                r@.map_values(|p: Vec<u8>| p@) == ps.take(i as int),
            decreases self.packets.len() - i,
        {
            let copy = crate::net::bytes::copy_range(self.packets[i].as_slice(), 0, self.packets[i].len());
            assert(copy@ =~= ps[i as int]);
            let ghost before = r@;
            r.push(copy);
            assert(r@.map_values(|p: Vec<u8>| p@) =~= before.map_values(|p: Vec<u8>| p@).push(copy@));
            assert(ps.take(i + 1) =~= ps.take(i as int).push(ps[i as int]));
            i = i + 1;
        }
        assert(ps.take(ps.len() as int) =~= ps);
        r
    }

    /// Forgets what was learnt while running (ARP entries, waiting packets); the
    /// interfaces and the received frames stay.
    pub fn prepare_restart(&mut self)
        requires
            old(self).wf(),
        ensures
            final(self).wf(),
            final(self)@ == (PcView { arp: Seq::empty(), pending: Seq::empty(), ..old(self)@ }),
    {
        self.arp_table = ArpTable::new();
        self.pending_ipv4 = Vec::new();
        assert(self@.pending =~= Seq::<PendingV>::empty());
    }

    /// Handles the bytes `packet` received on interface `in_idx` at time `now`
    /// (see `pc_on_packet`).
    pub fn handle_packet_at(&mut self, in_idx: usize, packet: Vec<u8>, now: u64) -> (r: Vec<Action>)
        requires
            old(self).wf(),
        ensures
            final(self).wf(),
            (final(self)@, actions_v(r@)) == pc_on_packet(old(self)@, in_idx, packet@, now),
    {
        let mut out: Vec<Action> = Vec::new();
        assert(actions_v(out@) =~= Seq::<ActionV>::empty());
        let frame = match Ethernet::from_bytes(packet.as_slice()) {
            Ok(f) => f,
            Err(_) => return out,
        };
        let ghost p = packet@;
        let ghost before = self.packets@;
        self.packets.push(packet);
        assert(self.packets@.map_values(|q: Vec<u8>| q@) =~= before.map_values(|q: Vec<u8>| q@).push(p));
        assert(self@ == (PcView { packets: old(self)@.packets.push(p), ..old(self)@ }));
        if frame.ethertype.0 == EtherTypes::Arp {
            self.on_arp(in_idx, frame.payload.as_slice(), now, &mut out);
        } else if frame.ethertype.0 == EtherTypes::Ipv4 {
            self.on_ipv4(in_idx, &frame, now, &mut out);
        }
        out
    }

    /// Handles the bytes `packet` received on interface `in_idx` now.
    pub fn handle_packet(&mut self, in_idx: usize, packet: Vec<u8>) -> (r: Vec<Action>)
        requires
            old(self).wf(),
        ensures
            final(self).wf(),
            exists|now: u64| (final(self)@, actions_v(r@)) == pc_on_packet(old(self)@, in_idx, packet@, now),
    {
        let now = self.arp_table.now_nanos();
        self.handle_packet_at(in_idx, packet, now)
    }

    /// The ARP part of `pc_on_packet`.
    fn on_arp(&mut self, in_idx: usize, payload: &[u8], now: u64, out: &mut Vec<Action>)
        requires
            old(self).wf(),
        ensures
            final(self).wf(),
            final(self)@ == pc_on_arp(old(self)@, in_idx, payload@, now).0,
            actions_v(final(out)@) == actions_v(old(out)@) + pc_on_arp(old(self)@, in_idx, payload@, now).1,
    {
        let ghost start = actions_v(out@);
        let arp = match Arp::from_bytes(payload) {
            Ok(a) => a,
            Err(_) => {
                assert(actions_v(out@) =~= start + Seq::<ActionV>::empty());
                return;
            },
        };
        self.arp_table.learn_at(arp.sender_proto_addr, arp.sender_hw_addr, now);
        if arp.operation.0 == ArpOperations::REQUEST {
            self.on_arp_request(in_idx, &arp, now, out);
        } else if arp.operation.0 == ArpOperations::REPLY {
            self.on_arp_reply(&arp, now, out);
        } else {
            assert(actions_v(out@) =~= start + Seq::<ActionV>::empty());
        }
    }

    /// See `pc_arp_request`.
    fn on_arp_request(&self, in_idx: usize, arp: &Arp, now: u64, out: &mut Vec<Action>)
        ensures
            actions_v(final(out)@) == actions_v(old(out)@) + pc_arp_request(self@, in_idx, arp@, now),
    {
        let ghost start = actions_v(out@);
        push_step(
            out,
            EventKind::ArpRequestReceived { sender_ip: arp.sender_proto_addr, sender_mac: arp.sender_hw_addr },
            arp_table_view(&self.arp_table, now),
        );
        let source_mac = match self.ifaces.mac_for_ip(arp.target_proto_addr) {
            Some(m) => m,
            None => {
                assert(actions_v(out@) =~= start + pc_arp_request(self@, in_idx, arp@, now));
                return;
            },
        };
        let ghost i = iface_with_addr(self@.ifaces, ipv4_u32(ipv4_from_seq(arp@.8))).unwrap();
        assert(source_mac@ == self@.ifaces[i].1.mac);
        assert(source_mac == mac_from_seq(self@.ifaces[i].1.mac));
        push_step(
            out,
            EventKind::ArpReplySent { target_ip: arp.sender_proto_addr, mac: source_mac },
            arp_table_view(&self.arp_table, now),
        );
        let reply = Arp::new(
            ArpOperation(ArpOperations::REPLY),
            source_mac,
            arp.target_proto_addr,
            arp.sender_hw_addr,
            arp.sender_proto_addr,
        );
        let frame = Ethernet::new(arp.sender_hw_addr, source_mac, EtherType(EtherTypes::Arp), reply.to_bytes());
        push_send(out, in_idx, &frame);
        assert(actions_v(out@) =~= start + pc_arp_request(self@, in_idx, arp@, now));
    }

    /// See `pc_arp_reply`.
    fn on_arp_reply(&mut self, arp: &Arp, now: u64, out: &mut Vec<Action>)
        requires
            old(self).wf(),
        ensures
            final(self).wf(),
            final(self)@ == pc_arp_reply(old(self)@, arp@, now).0,
            actions_v(final(out)@) == actions_v(old(out)@) + pc_arp_reply(old(self)@, arp@, now).1,
    {
        let ghost start = actions_v(out@);
        self.arp_table.learn_at(arp.sender_proto_addr, arp.sender_hw_addr, now);
        push_step(
            out,
            EventKind::ArpReplyReceived { sender_ip: arp.sender_proto_addr, sender_mac: arp.sender_hw_addr },
            arp_table_view(&self.arp_table, now),
        );
        flush_pending(&self.ifaces, &mut self.arp_table, &mut self.pending_ipv4, arp.sender_proto_addr, now, out);
        assert(actions_v(out@) =~= start + pc_arp_reply(old(self)@, arp@, now).1);
    }

    /// The IPv4 part of `pc_on_packet`.
    fn on_ipv4(&self, in_idx: usize, frame: &Ethernet, now: u64, out: &mut Vec<Action>)
        requires
            self.wf(),
        ensures
            actions_v(final(out)@) == actions_v(old(out)@) + pc_on_ipv4(self@, in_idx, frame@, now),
    {
        let ghost start = actions_v(out@);
        let packet = match Ipv4::from_bytes(frame.payload.as_slice()) {
            Ok(p) => p,
            Err(_) => {
                assert(actions_v(out@) =~= start + Seq::<ActionV>::empty());
                return;
            },
        };
        if !packet.verify_checksum() || !self.ifaces.has_ip(packet.destination) || packet.next_level_protocol.0 != 1 {
            assert(actions_v(out@) =~= start + Seq::<ActionV>::empty());
            return;
        }
        answer_message(in_idx, frame, &packet, &self.arp_table, now, true, out);
    }

    /// Sends the raw frame `packet` on interface `iface_id` when it is a whole frame
    /// with a right FCS.
    pub fn send_frame(&self, iface_id: usize, packet: Vec<u8>) -> (r: Vec<Action>)
        ensures
            actions_v(r@) == pc_send_frame(iface_id, packet@),
    {
        let mut out: Vec<Action> = Vec::new();
        let ok = match Ethernet::from_bytes(packet.as_slice()) {
            Ok(frame) => frame.verify_fcs(),
            Err(_) => false,
        };
        if ok {
            push_action(&mut out, Action::Send { iface: iface_id, frame: packet });
        }
        assert(actions_v(out@) =~= pc_send_frame(iface_id, packet@));
        out
    }

    /// Pings `target` at time `now` (see `pc_ping`); false when there is no interface.
    fn ping_into(&mut self, target: Ipv4Addr, now: u64, out: &mut Vec<Action>) -> (r: bool)
        requires
            old(self).wf(),
        ensures
            final(self).wf(),
            final(self)@ == pc_ping(old(self)@, target, now).0,
            r == pc_ping(old(self)@, target, now).1,
            actions_v(final(out)@) == actions_v(old(out)@) + pc_ping(old(self)@, target, now).2,
    {
        let id = match self.ifaces.first_id() {
            Some(id) => id,
            None => {
                assert(actions_v(out@) =~= actions_v(old(out)@) + Seq::<ActionV>::empty());
                return false;
            },
        };
        proof {
            lemma_iface_index_at(self@.ifaces, self@.next_id, 0);
        }
        let message = Icmp::new(ECHO_REQUEST, 0, Vec::new());
        let source = match self.ifaces.ip_of(id) {
            Some(ip) => ip,
            None => return false,
        };
        let packet = Ipv4::new(source, target, IpNextHeaderProtocol(1), message.to_bytes());
        resolve_and_send(&self.ifaces, &mut self.arp_table, &mut self.pending_ipv4, id, target, packet, now, out);
        true
    }

    /// ARP-pings `target` at time `now` (see `pc_arping`); false when there is no
    /// interface.
    fn arping_into(&self, target: Ipv4Addr, now: u64, out: &mut Vec<Action>) -> (r: bool)
        requires
            self.wf(),
        ensures
            r == pc_arping(self@, target, now).0,
            actions_v(final(out)@) == actions_v(old(out)@) + pc_arping(self@, target, now).1,
    {
        let ghost start = actions_v(out@);
        let id = match self.ifaces.first_id() {
            Some(id) => id,
            None => {
                assert(actions_v(out@) =~= start + Seq::<ActionV>::empty());
                return false;
            },
        };
        proof {
            lemma_iface_index_at(self@.ifaces, self@.next_id, 0);
        }
        let src_ip = ip_or_zero_of(&self.ifaces, id);
        let src_mac = mac_or_zero_of(&self.ifaces, id);
        push_step(out, EventKind::ArpRequestSent { target_ip: target }, arp_table_view(&self.arp_table, now));
        let request = Arp::new(ArpOperation(ArpOperations::REQUEST), src_mac, src_ip, MacAddr::zero(), target);
        let frame = Ethernet::new(MacAddr::broadcast(), src_mac, EtherType(EtherTypes::Arp), request.to_bytes());
        push_send(out, id, &frame);
        assert(actions_v(out@) =~= start + pc_arping(self@, target, now).1);
        true
    }

    /// Pings `target` at time `now` (see `pc_ping`).
    pub fn ping_at(&mut self, target: Ipv4Addr, now: u64) -> (r: (bool, Vec<Action>))
        requires
            old(self).wf(),
        ensures
            final(self).wf(),
            (final(self)@, r.0, actions_v(r.1@)) == pc_ping(old(self)@, target, now),
    {
        let mut out: Vec<Action> = Vec::new();
        assert(actions_v(out@) =~= Seq::<ActionV>::empty());
        let sent = self.ping_into(target, now, &mut out);
        assert(actions_v(out@) =~= pc_ping(old(self)@, target, now).2);
        (sent, out)
    }

    /// Pings `target` now.
    pub fn ping(&mut self, target: Ipv4Addr) -> (r: (bool, Vec<Action>))
        requires
            old(self).wf(),
        ensures
            final(self).wf(),
            exists|now: u64| (final(self)@, r.0, actions_v(r.1@)) == pc_ping(old(self)@, target, now),
    {
        let now = self.arp_table.now_nanos();
        self.ping_at(target, now)
    }

    /// Runs the console command `input` at time `now` (see `pc_exec`).
    pub fn exec_at(&mut self, input: &str, now: u64) -> (r: (String, Vec<Action>))
        requires
            old(self).wf(),
        ensures
            final(self).wf(),
            (final(self)@, r.0@, actions_v(r.1@)) == pc_exec(old(self)@, input@, now),
    {
        let cs = str_chars(input);
        let ws = split_words(cs.as_slice());
        let ghost w = words(input@);
        assert(views(ws@) == w);
        let mut out: Vec<Action> = Vec::new();
        assert(actions_v(out@) =~= Seq::<ActionV>::empty());
        if ws.len() == 0 {
            return (String::new(), out);
        }
        assert(ws@[0]@ == w[0]);
        let cmd = ws[0].as_slice();
        if chars_eq_str(cmd, "ping") {
            if ws.len() < 2 {
                return (string_of("usage: ping <ip>"), out);
            }
            assert(ws@[1]@ == w[1]);
            match Ipv4Addr::parse_chars(ws[1].as_slice()) {
                Err(_) => {
                    let mut s = string_of("invalid IP: ");
                    push_chars(&mut s, ws[1].as_slice());
                    (s, out)
                },
                Ok(target) => {
                    let sent = self.ping_into(target, now, &mut out);
                    let mut s = string_of("PING ");
                    push_str(&mut s, target.to_string().as_str());
                    if sent {
                        push_str(&mut s, " - request sent");
                    } else {
                        push_str(&mut s, " - failed (no interface)");
                    }
                    assert(actions_v(out@) =~= pc_exec(old(self)@, input@, now).2);
                    (s, out)
                },
            }
        } else if chars_eq_str(cmd, "arping") {
            if ws.len() < 2 {
                return (string_of("usage: arping <ip>"), out);
            }
            assert(ws@[1]@ == w[1]);
            match Ipv4Addr::parse_chars(ws[1].as_slice()) {
                Err(_) => {
                    let mut s = string_of("invalid IP: ");
                    push_chars(&mut s, ws[1].as_slice());
                    (s, out)
                },
                Ok(target) => {
                    let sent = self.arping_into(target, now, &mut out);
                    let mut s = string_of("ARPING ");
                    push_str(&mut s, target.to_string().as_str());
                    if sent {
                        push_str(&mut s, " - request sent");
                    } else {
                        push_str(&mut s, " - failed (no interface)");
                    }
                    assert(actions_v(out@) =~= pc_exec(old(self)@, input@, now).2);
                    (s, out)
                },
            }
        } else if chars_eq_str(cmd, "clear") {
            (String::new(), out)
        } else if chars_eq_str(cmd, "arp") {
            if ws.len() >= 2 && chars_eq_str(ws[1].as_slice(), "-d") {
                return (string_of("arp -d not supported yet"), out);
            }
            (arp_output(&self.arp_table, now), out)
        } else if chars_eq_str(cmd, "ifconfig") || chars_eq_str(cmd, "ip") {
            (ifconfig_output(&self.ifaces, false), out)
        } else if chars_eq_str(cmd, "help") {
            (string_of("Available commands:\n  ping <ip>    - Send ICMP echo request\n  arp          - Show ARP table\n  ifconfig     - Show interfaces\n  help         - Show this help\n"), out)
        } else {
            let mut s = string_of("unknown command: ");
            push_chars(&mut s, cmd);
            (s, out)
        }
    }

    /// Runs the console command `input` now.
    pub fn exec(&mut self, input: &str) -> (r: (String, Vec<Action>))
        requires
            old(self).wf(),
        ensures
            final(self).wf(),
            exists|now: u64| (final(self)@, r.0@, actions_v(r.1@)) == pc_exec(old(self)@, input@, now),
    {
        let now = self.arp_table.now_nanos();
        self.exec_at(input, now)
    }
}

} // verus!
