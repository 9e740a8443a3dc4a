//! A router: it answers ARP requests for the address of the interface they arrive on,
//! answers pings sent to it, and forwards other IPv4 packets along the most specific
//! route, lowering their time to live and reporting the ones whose time is up.
use vstd::prelude::*;
use crate::devices::action::{actions_v, frame_bytes, push_send, push_step, push_step2, Action, ActionV};
use crate::devices::display::{
    arp_output, arp_text, arp_table_view, ifconfig_output, ifconfig_text, route_output, route_text, routing_table_v,
    routing_table_view,
};
use crate::devices::host::{
    answer_message, arp_message, echo_answer, arp_reply_frame, arp_request_frame, lemma_arp_frame_fields, arp_v, flush, flush_pending, ip_or_zero, ip_or_zero_of, mac_or_zero, on_message, pending_v,
    resolve_and_send, resolve_send, PendingIpv4, PendingV,
};
use crate::events::EventKind;
use crate::net::arp::{arp_error, arp_fields_of, Arp, ArpFields, ArpOperation};
use crate::net::arp::ArpOperations;
use crate::net::ethernet::{
    crc32_spec, eth_bytes, eth_covered, eth_fields_of, law_ethernet_read_written, EtherType, Ethernet, EthernetFields,
};
use crate::net::ethernet::EtherTypes;
use crate::net::icmp::{
    law_message_read_written, message_bytes, message_fields_of, new_message, Icmp, TIME_EXCEEDED, TTL_EXCEEDED,
};
use crate::net::ipv4::{
    ipv4_bytes, ipv4_checksum, ipv4_error, ipv4_fields_of, ipv4_well_formed, law_ipv4_read_written, new_packet,
    IpNextHeaderProtocol, Ipv4, Ipv4Fields,
};
use crate::utils::addrs::ip_addr::{ipv4_from_seq, ipv4_u32, Ipv4Addr};
use crate::utils::addrs::mac_addr::{broadcast_mac, mac_from_seq, zero_mac};
use crate::utils::interfaces::{added_row, iface_index, iface_named, iface_updated, iface_with_addr, ifaces_wf, IfaceRows, Interfaces};
use crate::utils::tables::arp_table::{arp_distinct, arp_learn, arp_listing, arp_lookup, law_arp_lookup_after_learn, ArpRow, ArpTable};
use crate::utils::tables::routing_table::{best_route, lemma_best_route_unique, new_route, route_matches, Route, RoutingTable};
use crate::utils::text::{chars_eq_str, push_chars, split_words, str_chars, string_of, views, words};

verus! {

broadcast use crate::utils::addrs::ip_addr::lemma_ipv4_view, crate::utils::addrs::mac_addr::lemma_mac_view,
    crate::utils::addrs::ip_addr::lemma_ipv4_from_seq, crate::utils::addrs::mac_addr::lemma_mac_from_seq,
    crate::utils::addrs::ip_addr::lemma_ipv4_of_view, crate::utils::addrs::mac_addr::lemma_mac_of_view;

/// A packet being forwarded that waits for the hardware address of its next hop.
pub type PendingForward = PendingIpv4;

/// A router.
#[derive(Debug)]
pub struct Router {
    name: String,
    ifaces: Interfaces,
    arp_table: ArpTable,
    routing_table: RoutingTable,
    pending_forward: Vec<(Ipv4Addr, PendingForward)>,
}

/// A router as plain values.
#[verifier::ext_equal]
pub struct RouterView {
    pub name: Seq<char>,
    pub ifaces: IfaceRows,
    pub next_id: usize,
    pub arp: Seq<ArpRow>,
    pub routes: Seq<Route>,
    /// Packets waiting for ARP, oldest first.
    pub pending: Seq<PendingV>,
}

impl View for Router {
    type V = RouterView;

    closed spec fn view(&self) -> RouterView {
        RouterView {
            name: self.name@,
            ifaces: self.ifaces@,
            next_id: self.ifaces.next_id(),
            arp: self.arp_table@,
            routes: self.routing_table@,
            pending: pending_v(self.pending_forward@),
        }
    }
}

/// What a router does with the bytes `p` received on interface `in_idx` at `now`.
pub open spec fn router_on_packet(s: RouterView, in_idx: usize, p: Seq<u8>, now: u64) -> (RouterView, Seq<ActionV>) {
    if p.len() < 18 {
        (s, Seq::empty())
    } else {
        let f = eth_fields_of(p);
        if f.2 == 0x0806 {
            router_on_arp(s, in_idx, f.3, now)
        } else if f.2 == 0x0800 {
            router_on_ipv4(s, in_idx, f, now)
        } else {
            (s, Seq::empty())
        }
    }
}

/// What a router does with an ARP message: it learns the sender and shows its table;
/// it answers a request for the address of the interface it came in by; on a reply
/// it releases the packets waiting for the sender.
pub open spec fn router_on_arp(s: RouterView, in_idx: usize, b: Seq<u8>, now: u64) -> (RouterView, Seq<ActionV>) {
    if arp_error(b) is Some {
        (s, Seq::empty())
    } else {
        let a = arp_fields_of(b);
        let sip = ipv4_from_seq(a.6);
        let smac = mac_from_seq(a.5);
        let arp1 = arp_learn(s.arp, sip, smac, now);
        let s1 = RouterView { arp: arp1, ..s };
        let update = ActionV::Step(EventKind::ArpTableUpdate { ip: sip, mac: smac }, seq![arp_v(arp1, now)]);
        if a.4 == 1 {
            (s1, seq![update] + router_arp_request(s1, in_idx, a, now))
        } else if a.4 == 2 {
            let received = ActionV::Step(
                EventKind::ArpReplyReceived { sender_ip: sip, sender_mac: smac },
                seq![arp_v(arp1, now)],
            );
            let r = flush(s1.ifaces, arp1, s1.pending, sip, now);
            (RouterView { arp: r.0, pending: r.1, ..s1 }, seq![update, received] + r.2)
        } else {
            (s1, seq![update])
        }
    }
}

/// Answering the ARP request `a` that came in by interface `in_idx`: only when that
/// interface has the address asked for.
pub open spec fn router_arp_request(s: RouterView, in_idx: usize, a: ArpFields, now: u64) -> Seq<ActionV> {
    match iface_index(s.ifaces, in_idx) {
        None => Seq::empty(),
        Some(i) => if s.ifaces[i].1.addr != ipv4_u32(ipv4_from_seq(a.8)) {
            Seq::empty()
        } else {
            let mine = s.ifaces[i].1.mac;
            seq![
                ActionV::Step(
                    EventKind::ArpReplySent { target_ip: ipv4_from_seq(a.6), mac: mac_from_seq(mine) },
                    seq![arp_v(s.arp, now)],
                ),
                ActionV::Send(in_idx, frame_bytes(a.5, mine, 0x0806, arp_message(2, mine, a.8, a.5, a.6))),
            ]
        },
    }
}

/// Whether the interface `in_idx` has the address `tip`.
pub open spec fn iface_has_addr(s: RouterView, in_idx: usize, tip: Seq<u8>) -> bool {
    match iface_index(s.ifaces, in_idx) {
        Some(i) => s.ifaces[i].1.addr == ipv4_u32(ipv4_from_seq(tip)),
        None => false,
    }
}

/// A router receiving an ARP request frame handles its message.
proof fn lemma_router_request_frame(s: RouterView, in_idx: usize, smac: Seq<u8>, sip: Seq<u8>, tip: Seq<u8>, now: u64)
    requires
        smac.len() == 6,
        sip.len() == 4,
        tip.len() == 4,
    ensures
        router_on_packet(s, in_idx, arp_request_frame(smac, sip, tip), now) == router_on_arp(
            s,
            in_idx,
            arp_message(1, smac, sip, zero_mac(), tip),
            now,
        ),
        arp_error(arp_message(1, smac, sip, zero_mac(), tip)) is None,
        arp_fields_of(arp_message(1, smac, sip, zero_mac(), tip)) == (1u16, 0x0800u16, 6u8, 4u8, 1u16, smac, sip, zero_mac(), tip),
{
    lemma_arp_frame_fields(broadcast_mac(), smac, 1, smac, sip, zero_mac(), tip);
}

/// An ARP request (already read) is learnt from, then answered as `router_arp_request`
/// says.
proof fn lemma_router_request_answered(s: RouterView, in_idx: usize, payload: Seq<u8>, a: ArpFields, now: u64)
    requires
        arp_error(payload) is None,
        a == arp_fields_of(payload),
        a.4 == 1,
    ensures
        ({
            let s1 = RouterView { arp: arp_learn(s.arp, ipv4_from_seq(a.6), mac_from_seq(a.5), now), ..s };
            let r = router_on_arp(s, in_idx, payload, now);
            &&& r.0 == s1
            &&& r.1.len() == 1 + router_arp_request(s1, in_idx, a, now).len()
            &&& r.1[0] is Step
            &&& forall|k: int| 0 <= k < router_arp_request(s1, in_idx, a, now).len() ==> r.1[k + 1] == #[trigger] router_arp_request(s1, in_idx, a, now)[k]
        }),
{
}

/// What answering an ARP request comes to once it is read: the learnt sender, then
/// the reply if the incoming interface has the address asked for, else nothing sent.
proof fn lemma_router_arp_core(s: RouterView, in_idx: usize, payload: Seq<u8>, a: ArpFields, now: u64, r: (RouterView, Seq<ActionV>))
    requires
        arp_distinct(s.arp),
        arp_error(payload) is None,
        a == arp_fields_of(payload),
        a.4 == 1,
        r == router_on_arp(s, in_idx, payload, now),
    ensures
        arp_lookup(r.0.arp, ipv4_from_seq(a.6), now).1 == Some(mac_from_seq(a.5)),
        r.0.ifaces == s.ifaces,
        iface_has_addr(s, in_idx, a.8) ==> r.1.last() == ActionV::Send(
            in_idx,
            arp_reply_frame(s.ifaces[iface_index(s.ifaces, in_idx).unwrap()].1.mac, a.8, a.5, a.6),
        ),
        !iface_has_addr(s, in_idx, a.8) ==> forall|k: int| 0 <= k < r.1.len() ==> !(#[trigger] r.1[k] is Send),
{
    law_arp_lookup_after_learn(s.arp, ipv4_from_seq(a.6), mac_from_seq(a.5), now, now);
    lemma_router_request_answered(s, in_idx, payload, a, now);
    let s1 = RouterView { arp: arp_learn(s.arp, ipv4_from_seq(a.6), mac_from_seq(a.5), now), ..s };
    let q = router_arp_request(s1, in_idx, a, now);
    if iface_has_addr(s, in_idx, a.8) {
        assert(q.len() == 2);
        assert(r.1.last() == r.1[2]);
        assert(r.1[2] == q[1]);
    } else {
        assert(q.len() == 0);
        assert forall|k: int| 0 <= k < r.1.len() implies !(#[trigger] r.1[k] is Send) by {
            assert(k == 0);
        }
    }
}

/// A router asked by ARP who has `tip` answers only when the interface the question
/// came in by has that address (another interface having it is not enough): then its
/// last action is the reply, on that interface, that `tip` is at that interface's MAC
/// address; otherwise it sends nothing. Either way it now knows where the asker is.
pub proof fn law_router_answers_arp_on_incoming_interface(
    s: RouterView,
    in_idx: usize,
    smac: Seq<u8>,
    sip: Seq<u8>,
    tip: Seq<u8>,
    now: u64,
)
    requires
        arp_distinct(s.arp),
        smac.len() == 6,
        sip.len() == 4,
        tip.len() == 4,
    ensures
        ({
            let r = router_on_packet(s, in_idx, arp_request_frame(smac, sip, tip), now);
            &&& arp_lookup(r.0.arp, ipv4_from_seq(sip), now).1 == Some(mac_from_seq(smac))
            &&& r.0.ifaces == s.ifaces
            &&& iface_has_addr(s, in_idx, tip) ==> r.1.last() == ActionV::Send(
                in_idx,
                arp_reply_frame(s.ifaces[iface_index(s.ifaces, in_idx).unwrap()].1.mac, tip, smac, sip),
            )
            &&& !iface_has_addr(s, in_idx, tip) ==> forall|k: int| 0 <= k < r.1.len() ==> !(#[trigger] r.1[k] is Send)
        }),
{
    lemma_router_request_frame(s, in_idx, smac, sip, tip, now);
    let payload = arp_message(1, smac, sip, zero_mac(), tip);
    lemma_router_arp_core(s, in_idx, payload, arp_fields_of(payload), now, router_on_packet(s, in_idx, arp_request_frame(smac, sip, tip), now));
}

/// How much of a packet an ICMP error quotes: its header and eight more bytes, or
/// all of it if it is shorter.
pub open spec fn quoted_len(header_length: u8, len: nat) -> nat {
    if header_length * 4 + 8 <= len {
        (header_length * 4 + 8) as nat
    } else {
        len
    }
}

/// The time-exceeded message sent back for packet `pk` of frame `f`, from the address
/// of the interface it came in by.
pub open spec fn time_exceeded(s: RouterView, in_idx: usize, f: EthernetFields, pk: Ipv4Fields) -> ActionV {
    let orig = ipv4_bytes(pk);
    let quote = seq![0u8, 0, 0, 0] + orig.take(quoted_len(pk.header_length, orig.len()) as int);
    let back = new_packet(ip_or_zero(s.ifaces, in_idx), pk.source, 1, message_bytes(new_message(11, 0, quote)));
    ActionV::Send(in_idx, frame_bytes(f.1, f.0, 0x0800, ipv4_bytes(back)))
}

/// The packet `pk` one hop further: its time to live lowered by one and its checksum
/// recomputed.
pub open spec fn one_hop_further(pk: Ipv4Fields) -> Ipv4Fields {
    let lowered = Ipv4Fields { ttl: (pk.ttl - 1) as u8, ..pk };
    Ipv4Fields { checksum: ipv4_checksum(lowered), ..lowered }
}

/// A forwarded packet has a time to live one lower, a checksum that verifies, and
/// everything else unchanged.
pub proof fn law_forwarded_packet_verifies(pk: Ipv4Fields)
    requires
        pk.ttl > 1,
    ensures
        one_hop_further(pk).checksum == ipv4_checksum(one_hop_further(pk)),
        one_hop_further(pk).ttl == pk.ttl - 1,
        one_hop_further(pk) == (Ipv4Fields { ttl: one_hop_further(pk).ttl, checksum: one_hop_further(pk).checksum, ..pk }),
{
    let lowered = Ipv4Fields { ttl: (pk.ttl - 1) as u8, ..pk };
    let f = one_hop_further(pk);
    assert(Ipv4Fields { checksum: 0, ..f } == Ipv4Fields { checksum: 0, ..lowered });
}

/// A packet for someone else whose time to live is up is never forwarded: the router
/// changes nothing and sends only back on the interface the packet came in by.
pub proof fn law_expired_packet_only_answered(s: RouterView, in_idx: usize, f: EthernetFields, now: u64)
    requires
        ipv4_error(f.3) is None,
        ipv4_fields_of(f.3).ttl <= 1,
        iface_with_addr(s.ifaces, ipv4_u32(ipv4_from_seq(ipv4_fields_of(f.3).destination))) is None,
    ensures
        router_on_ipv4(s, in_idx, f, now).0 == s,
        forall|k: int| 0 <= k < router_on_ipv4(s, in_idx, f, now).1.len() ==> (#[trigger] router_on_ipv4(s, in_idx, f, now).1[k] matches ActionV::Send(id, _) ==> id == in_idx),
{
}

/// What a router does with an IPv4 packet with a correct checksum: one addressed to
/// it may be a ping to answer; one whose time to live is up is reported to its sender;
/// any other goes out along the route the lookup picks, or is dropped without one.
pub open spec fn router_on_ipv4(s: RouterView, in_idx: usize, f: EthernetFields, now: u64) -> (RouterView, Seq<ActionV>) {
    if ipv4_error(f.3) is Some {
        (s, Seq::empty())
    } else {
        let pk = ipv4_fields_of(f.3);
        let dst = ipv4_from_seq(pk.destination);
        if pk.checksum != ipv4_checksum(pk) {
            (s, Seq::empty())
        } else if iface_with_addr(s.ifaces, ipv4_u32(dst)) is Some {
            if pk.protocol == 1 {
                (s, on_message(in_idx, f, pk, arp_v(s.arp, now), false))
            } else {
                (s, Seq::empty())
            }
        } else if pk.ttl <= 1 {
            (
                s,
                seq![
                    ActionV::Step(
                        EventKind::TtlExpired { src: ipv4_from_seq(pk.source), dst },
                        seq![routing_table_v(s.routes)],
                    ),
                    time_exceeded(s, in_idx, f, pk),
                ],
            )
        } else {
            router_forward(s, pk, now)
        }
    }
}

/// A frame built around a well-formed IPv4 packet `pk`, received by a router, is
/// handled as `router_on_ipv4` says.
proof fn lemma_router_gets_ipv4_frame(s: RouterView, in_idx: usize, dmac: Seq<u8>, smac: Seq<u8>, pk: Ipv4Fields, now: u64)
    requires
        dmac.len() == 6,
        smac.len() == 6,
        ipv4_well_formed(pk),
    ensures
        ({
            let p = frame_bytes(dmac, smac, 0x0800, ipv4_bytes(pk));
            let f = eth_fields_of(p);
            &&& f.0 == dmac && f.1 == smac
            &&& f.3 == ipv4_bytes(pk)
            &&& ipv4_error(f.3) is None
            &&& ipv4_fields_of(f.3) == pk
            &&& router_on_packet(s, in_idx, p, now) == router_on_ipv4(s, in_idx, f, now)
        }),
{
    law_ipv4_read_written(pk);
    let payload = ipv4_bytes(pk);
    let fields = (dmac, smac, 0x0800u16, payload, crc32_spec(eth_covered((dmac, smac, 0x0800u16, payload, 0u32))));
    law_ethernet_read_written(fields);
    assert(eth_covered(fields) == eth_covered((dmac, smac, 0x0800u16, payload, 0u32)));
    assert(frame_bytes(dmac, smac, 0x0800, payload) == eth_bytes(fields));
}

/// A router pinged at the address of any of its interfaces, whichever interface the
/// request comes in by, answers it and forwards nothing: given, in a frame from `smac`
/// to `dmac`, a well-formed packet with a right checksum carrying an echo request with
/// data `data` to an address that one of its interfaces has, the router changes
/// nothing, sends frames only back out of the interface the request came in by, and
/// ends by sending there, to `smac`, the echo reply with the same data from the
/// pinged address to the sender.
pub proof fn law_router_answers_ping_to_any_own_address(
    s: RouterView,
    in_idx: usize,
    dmac: Seq<u8>,
    smac: Seq<u8>,
    pk: Ipv4Fields,
    data: Seq<u8>,
    now: u64,
)
    requires
        dmac.len() == 6,
        smac.len() == 6,
        ipv4_well_formed(pk),
        pk.checksum == ipv4_checksum(pk),
        pk.protocol == 1,
        pk.payload == message_bytes(new_message(8, 0, data)),
        iface_with_addr(s.ifaces, ipv4_u32(ipv4_from_seq(pk.destination))) is Some,
    ensures
        ({
            let r = router_on_packet(s, in_idx, frame_bytes(dmac, smac, 0x0800, ipv4_bytes(pk)), now);
            &&& r.0 == s
            &&& r.1.len() > 0
            &&& r.1.last() == ActionV::Send(
                in_idx,
                frame_bytes(smac, dmac, 0x0800, ipv4_bytes(new_packet(pk.destination, pk.source, 1, message_bytes(new_message(0, 0, data))))),
            )
            &&& forall|k: int| 0 <= k < r.1.len() ==> (#[trigger] r.1[k] matches ActionV::Send(id, _) ==> id == in_idx)
        }),
{
    lemma_router_gets_ipv4_frame(s, in_idx, dmac, smac, pk, now);
    let f = eth_fields_of(frame_bytes(dmac, smac, 0x0800, ipv4_bytes(pk)));
    lemma_router_ping_core(s, in_idx, f, pk, data, now, router_on_packet(s, in_idx, frame_bytes(dmac, smac, 0x0800, ipv4_bytes(pk)), now));
}

/// The packet part of the law above: an echo request to one of the router's addresses
/// is answered as `echo_answer` says, and nothing changes.
proof fn lemma_router_ping_core(
    s: RouterView,
    in_idx: usize,
    f: EthernetFields,
    pk: Ipv4Fields,
    data: Seq<u8>,
    now: u64,
    r: (RouterView, Seq<ActionV>),
)
    requires
        ipv4_error(f.3) is None,
        ipv4_fields_of(f.3) == pk,
        pk.checksum == ipv4_checksum(pk),
        pk.protocol == 1,
        pk.payload == message_bytes(new_message(8, 0, data)),
        iface_with_addr(s.ifaces, ipv4_u32(ipv4_from_seq(pk.destination))) is Some,
        r == router_on_ipv4(s, in_idx, f, now),
    ensures
        r.0 == s,
        r.1.len() == 3,
        r.1.last() == ActionV::Send(
            in_idx,
            frame_bytes(f.1, f.0, 0x0800, ipv4_bytes(new_packet(pk.destination, pk.source, 1, message_bytes(new_message(0, 0, data))))),
        ),
        r.1[0] is Step && r.1[1] is Step,
        forall|k: int| 0 <= k < r.1.len() ==> (#[trigger] r.1[k] matches ActionV::Send(id, _) ==> id == in_idx),
{
    let t = arp_v(s.arp, now);
    lemma_router_local_icmp(s, in_idx, f, pk, now);
    lemma_echo_request_answered(in_idx, f, pk, data, t);
    lemma_echo_reply_last(in_idx, f, pk, data, t);
    assert forall|k: int| 0 <= k < r.1.len() implies (#[trigger] r.1[k] matches ActionV::Send(id, _) ==> id == in_idx) by {
        if k == 2 {
            assert(r.1[k] == r.1.last());
        }
    }
}

/// An ICMP packet with a right checksum to one of the router's addresses goes to
/// `on_message`, and nothing changes.
proof fn lemma_router_local_icmp(s: RouterView, in_idx: usize, f: EthernetFields, pk: Ipv4Fields, now: u64)
    requires
        ipv4_error(f.3) is None,
        ipv4_fields_of(f.3) == pk,
        pk.checksum == ipv4_checksum(pk),
        pk.protocol == 1,
        iface_with_addr(s.ifaces, ipv4_u32(ipv4_from_seq(pk.destination))) is Some,
    ensures
        router_on_ipv4(s, in_idx, f, now) == (s, on_message(in_idx, f, pk, arp_v(s.arp, now), false)),
{
}

/// An echo request with data `data` is answered as `echo_answer` says.
proof fn lemma_echo_request_answered(in_idx: usize, f: EthernetFields, pk: Ipv4Fields, data: Seq<u8>, t: crate::events::TableV)
    requires
        pk.payload == message_bytes(new_message(8, 0, data)),
    ensures
        on_message(in_idx, f, pk, t, false) == echo_answer(in_idx, f, pk, new_message(8, 0, data), t),
{
    let m = new_message(8, 0, data);
    law_message_read_written(m);
    assert(message_fields_of(pk.payload) == m);
}

/// The answer to an echo request ends with the echo reply, sent back.
proof fn lemma_echo_reply_last(in_idx: usize, f: EthernetFields, pk: Ipv4Fields, data: Seq<u8>, t: crate::events::TableV)
    ensures
        echo_answer(in_idx, f, pk, new_message(8, 0, data), t).len() == 3,
        echo_answer(in_idx, f, pk, new_message(8, 0, data), t)[0] is Step,
        echo_answer(in_idx, f, pk, new_message(8, 0, data), t)[1] is Step,
        echo_answer(in_idx, f, pk, new_message(8, 0, data), t).last() == ActionV::Send(
            in_idx,
            frame_bytes(f.1, f.0, 0x0800, ipv4_bytes(new_packet(pk.destination, pk.source, 1, message_bytes(new_message(0, 0, data))))),
        ),
{
}

/// Forwarding along route `i`, the best for the destination, to a next hop whose
/// hardware address is known: the packet goes one hop further, last, out of the route's
/// interface, and nothing changes.
proof fn lemma_router_forward_known(s: RouterView, pk: Ipv4Fields, now: u64, i: int)
    requires
        best_route(s.routes, ipv4_u32(ipv4_from_seq(pk.destination)), i),
        arp_lookup(s.arp, s.routes[i].next_hop, now).1 is Some,
    ensures
        ({
            let r = router_forward(s, pk, now);
            &&& r.0 == s
            &&& r.1.len() == 3
            &&& r.1.last() == ActionV::Send(
                s.routes[i].iface_id,
                frame_bytes(
                    arp_lookup(s.arp, s.routes[i].next_hop, now).1.unwrap()@,
                    mac_or_zero(s.ifaces, s.routes[i].iface_id),
                    0x0800,
                    ipv4_bytes(one_hop_further(pk)),
                ),
            )
        }),
{
    let dst = ipv4_u32(ipv4_from_seq(pk.destination));
    assert(route_matches(s.routes[i], dst));
    let k = choose|k: int| best_route(s.routes, dst, k);
    lemma_best_route_unique(s.routes, dst, i, k);
    assert(arp_lookup(s.arp, s.routes[i].next_hop, now).0 == s.arp);
    assert(RouterView { arp: s.arp, pending: s.pending, ..s } == s);
}

/// A router receiving, in a frame, a well-formed packet with a right checksum that is
/// not for one of its addresses and whose time to live is above one, for a
/// destination that route `i` serves best, with the next hop's hardware address known:
/// it sends the packet one hop further (time to live one lower, checksum recomputed,
/// see `law_forwarded_packet_verifies`) last, out of the route's interface, to the next
/// hop's hardware address from the MAC address of that interface; and it changes nothing.
pub proof fn law_router_forwards_to_known_next_hop(
    s: RouterView,
    in_idx: usize,
    dmac: Seq<u8>,
    smac: Seq<u8>,
    pk: Ipv4Fields,
    now: u64,
    i: int,
)
    requires
        dmac.len() == 6,
        smac.len() == 6,
        ipv4_well_formed(pk),
        pk.checksum == ipv4_checksum(pk),
        pk.ttl > 1,
        iface_with_addr(s.ifaces, ipv4_u32(ipv4_from_seq(pk.destination))) is None,
        best_route(s.routes, ipv4_u32(ipv4_from_seq(pk.destination)), i),
        arp_lookup(s.arp, s.routes[i].next_hop, now).1 is Some,
    ensures
        ({
            let r = router_on_packet(s, in_idx, frame_bytes(dmac, smac, 0x0800, ipv4_bytes(pk)), now);
            &&& r.0 == s
            &&& r.1.len() > 0
            &&& r.1.last() == ActionV::Send(
                s.routes[i].iface_id,
                frame_bytes(
                    arp_lookup(s.arp, s.routes[i].next_hop, now).1.unwrap()@,
                    mac_or_zero(s.ifaces, s.routes[i].iface_id),
                    0x0800,
                    ipv4_bytes(one_hop_further(pk)),
                ),
            )
        }),
{
    lemma_router_gets_ipv4_frame(s, in_idx, dmac, smac, pk, now);
    lemma_router_forward_known(s, pk, now, i);
}

/// The help of the router console.
pub open spec fn router_help_text() -> Seq<char> {
    "Available commands:\n  route        - Show routing table\n  arp          - Show ARP table\n  ifconfig     - Show interfaces\n  help         - Show this help\n"@
}

/// What the router console answers to `input` at time `now`.
pub open spec fn router_exec(s: RouterView, input: Seq<char>, now: u64) -> Seq<char> {
    let ws = words(input);
    if ws.len() == 0 {
        Seq::empty()
    } else if ws[0] == "route"@ {
        route_text(s.routes)
    } else if ws[0] == "arp"@ {
        arp_text(arp_listing(s.arp, now))
    } else if ws[0] == "ifconfig"@ || ws[0] == "ip"@ {
        ifconfig_text(s.ifaces, false)
    } else if ws[0] == "help"@ {
        router_help_text()
    } else {
        "unknown command: "@ + ws[0]
    }
}

/// The number of bytes an ICMP error quotes from a packet of `len` bytes.
fn quote_length(header_length: u8, len: usize) -> (r: usize)
    requires
        header_length < 16,
    ensures
        r == quoted_len(header_length, len as nat),
{
    let wanted: usize = (header_length as usize) * 4 + 8;
    if wanted <= len {
        wanted
    } else {
        len
    }
}

/// Four zero bytes, then the part of `packet` that an ICMP error quotes.
fn quote_of(packet: &Ipv4) -> (r: Vec<u8>)
    requires
        packet@.header_length < 16,
    ensures
        r@ == seq![0u8, 0, 0, 0] + ipv4_bytes(packet@).take(quoted_len(packet@.header_length, ipv4_bytes(packet@).len()) as int),
{
    let orig = packet.to_bytes();
    let mut quote: Vec<u8> = Vec::new();
    quote.push(0);
    quote.push(0);
    quote.push(0);
    quote.push(0);
    let n = quote_length(packet.header_length, orig.len());
    let head = crate::net::bytes::copy_range(orig.as_slice(), 0, n);
    crate::net::bytes::append_bytes(&mut quote, head.as_slice());
    assert(quote@ =~= seq![0u8, 0, 0, 0] + orig@.take(n as int));
    quote
}

impl Router {
    /// Nanoseconds on the clock that the device ages its ARP entries by.
    pub(crate) fn now_nanos(&self) -> u64 {
        self.arp_table.now_nanos()
    }

    /// Interfaces well formed, ARP table without duplicates.
    pub open spec fn wf(&self) -> bool {
        ifaces_wf(self@.ifaces, self@.next_id) && arp_distinct(self@.arp)
    }

    /// A router without interfaces or routes.
    pub fn new(name: &str) -> (r: Self)
        ensures
            r.wf(),
            r@ == (RouterView {
                name: name@,
                ifaces: Seq::empty(),
                next_id: 0,
                arp: Seq::empty(),
                routes: Seq::empty(),
                pending: Seq::empty(),
            }),
    {
        let r = Router {
            name: string_of(name),
            ifaces: Interfaces::new(),
            arp_table: ArpTable::new(),
            routing_table: RoutingTable::new(),
            pending_forward: Vec::new(),
        };
        assert(r@.pending =~= Seq::<PendingV>::empty());
        r
    }

    /// The router's name.
    pub fn name(&self) -> (r: &str)
        ensures
            r@ == self@.name,
    {
        self.name.as_str()
    }

    /// Renames the router.
    pub fn set_name(&mut self, name: &str)
        ensures
            final(self)@ == (RouterView { name: name@, ..old(self)@ }),
    {
        self.name = string_of(name);
    }

    /// The interfaces.
    pub fn interfaces(&self) -> (r: &Interfaces)
        ensures
            r@ == self@.ifaces,
            r.next_id() == self@.next_id,
    {
        &self.ifaces
    }

    /// The routes, in the order they were added.
    pub fn routes(&self) -> (r: &[Route])
        ensures
            r@ == self@.routes,
    {
        self.routing_table.entries()
    }

    /// Adds an interface with a fresh MAC address (see `Interfaces::add`).
    pub fn add_interface(&mut self, name: &str, addr: u32, mask: u8, mtu: u16) -> (r: (usize, [u8; 6]))
        requires
            old(self).wf(),
            old(self)@.next_id < usize::MAX,
            old(self)@.ifaces.len() < 1099511627776,
        ensures
            final(self).wf(),
            r.0 == old(self)@.next_id,
            r.1@[0] == 2,
            !crate::utils::interfaces::mac_in_use(old(self)@.ifaces, r.1@),
            final(self)@ == (RouterView {
                ifaces: old(self)@.ifaces.push(added_row(r.0, name@, addr, mask, mtu, r.1@)),
                next_id: (old(self)@.next_id + 1) as usize,
                ..old(self)@
            }),
    {
        self.ifaces.add(name, addr, mask, mtu)
    }

    /// Changes the given settings of interface `id`; false when there is none.
    pub fn update_interface(&mut self, id: usize, name: Option<&str>, addr: Option<u32>, mask: Option<u8>, mtu: Option<u16>) -> (r: bool)
        requires
            old(self).wf(),
        ensures
            final(self).wf(),
            r == (iface_index(old(self)@.ifaces, id) is Some),
            final(self)@ == (RouterView {
                ifaces: match iface_index(old(self)@.ifaces, id) {
                    Some(i) => old(self)@.ifaces.update(
                        i,
                        (
                            id,
                            iface_updated(
                                old(self)@.ifaces[i].1,
                                match name {
                                    Some(n) => Some(n@),
                                    None => None,
                                },
                                addr,
                                mask,
                                mtu,
                            ),
                        ),
                    ),
                    None => old(self)@.ifaces,
                },
                ..old(self)@
            }),
    {
        self.ifaces.update(id, name, addr, mask, mtu)
    }

    /// Adds a route to `network/prefix_len` through `next_hop` out of the interface
    /// named `iface_name`; false, and nothing added, when there is no such interface.
    pub fn add_route(&mut self, network: Ipv4Addr, prefix_len: u8, next_hop: Ipv4Addr, iface_name: &str) -> (r: bool)
        requires
            iface_named(old(self)@.ifaces, iface_name@) is Some ==> prefix_len <= 32,
        ensures
            final(self).wf() == old(self).wf(),
            r == (iface_named(old(self)@.ifaces, iface_name@) is Some),
            !r ==> final(self)@ == old(self)@,
            r ==> {
                let id = old(self)@.ifaces[iface_named(old(self)@.ifaces, iface_name@).unwrap()].0;
                &&& final(self)@ == (RouterView { routes: final(self)@.routes, ..old(self)@ })
                &&& final(self)@.routes.len() == old(self)@.routes.len() + 1
                &&& final(self)@.routes.take(old(self)@.routes.len() as int) == old(self)@.routes
                &&& new_route(network, prefix_len, next_hop, id, iface_name@, final(self)@.routes.last())
            },
    {
        match self.ifaces.id_by_name(iface_name) {
            Some(id) => {
                self.routing_table.add(network, prefix_len, next_hop, id, iface_name);
                true
            },
            None => false,
        }
    }

    /// Forgets what was learnt or configured while running (ARP entries, routes,
    /// waiting packets); the interfaces stay.
    pub fn prepare_restart(&mut self)
        requires
            old(self).wf(),
        ensures
            final(self).wf(),
            final(self)@ == (RouterView { arp: Seq::empty(), routes: Seq::empty(), pending: Seq::empty(), ..old(self)@ }),
    {
        self.arp_table = ArpTable::new();
        self.routing_table = RoutingTable::new();
        self.pending_forward = Vec::new();
        assert(self@.pending =~= Seq::<PendingV>::empty());
    }

    /// Handles the bytes `packet` received on interface `in_idx` at time `now`
    /// (see `router_on_packet`).
    pub fn handle_packet_at(&mut self, in_idx: usize, packet: Vec<u8>, now: u64) -> (r: Vec<Action>)
        requires
            old(self).wf(),
        ensures
            final(self).wf(),
            (final(self)@, actions_v(r@)) == router_on_packet(old(self)@, in_idx, packet@, now),
    {
        let mut out: Vec<Action> = Vec::new();
        assert(actions_v(out@) =~= Seq::<ActionV>::empty());
        let frame = match Ethernet::from_bytes(packet.as_slice()) {
            Ok(f) => f,
            Err(_) => return out,
        };
        if frame.ethertype.0 == EtherTypes::Arp {
            self.on_arp(in_idx, frame.payload.as_slice(), now, &mut out);
        } else if frame.ethertype.0 == EtherTypes::Ipv4 {
            self.on_ipv4(in_idx, &frame, now, &mut out);
        }
        assert(actions_v(out@) =~= router_on_packet(old(self)@, in_idx, packet@, now).1);
        out
    }

    /// Handles the bytes `packet` received on interface `in_idx` now.
    pub fn handle_packet(&mut self, in_idx: usize, packet: Vec<u8>) -> (r: Vec<Action>)
        requires
            old(self).wf(),
        ensures
            final(self).wf(),
            exists|now: u64| (final(self)@, actions_v(r@)) == router_on_packet(old(self)@, in_idx, packet@, now),
    {
        let now = self.arp_table.now_nanos();
        self.handle_packet_at(in_idx, packet, now)
    }

    /// The ARP part of `router_on_packet`.
    fn on_arp(&mut self, in_idx: usize, payload: &[u8], now: u64, out: &mut Vec<Action>)
        requires
            old(self).wf(),
        ensures
            final(self).wf(),
            final(self)@ == router_on_arp(old(self)@, in_idx, payload@, now).0,
            actions_v(final(out)@) == actions_v(old(out)@) + router_on_arp(old(self)@, in_idx, payload@, now).1,
    {
        let ghost start = actions_v(out@);
        let arp = match Arp::from_bytes(payload) {
            Ok(a) => a,
            Err(_) => {
                assert(actions_v(out@) =~= start + Seq::<ActionV>::empty());
                return;
            },
        };
        self.arp_table.learn_at(arp.sender_proto_addr, arp.sender_hw_addr, now);
        push_step(
            out,
            EventKind::ArpTableUpdate { ip: arp.sender_proto_addr, mac: arp.sender_hw_addr },
            arp_table_view(&self.arp_table, now),
        );
        let ghost mid = actions_v(out@);
        if arp.operation.0 == ArpOperations::REQUEST {
            self.on_arp_request(in_idx, &arp, now, out);
        } else if arp.operation.0 == ArpOperations::REPLY {
            push_step(
                out,
                EventKind::ArpReplyReceived { sender_ip: arp.sender_proto_addr, sender_mac: arp.sender_hw_addr },
                arp_table_view(&self.arp_table, now),
            );
            flush_pending(&self.ifaces, &mut self.arp_table, &mut self.pending_forward, arp.sender_proto_addr, now, out);
        }
        assert(actions_v(out@) =~= start + router_on_arp(old(self)@, in_idx, payload@, now).1);
    }

    /// See `router_arp_request`.
    fn on_arp_request(&self, in_idx: usize, arp: &Arp, now: u64, out: &mut Vec<Action>)
        requires
            self.wf(),
        ensures
            actions_v(final(out)@) == actions_v(old(out)@) + router_arp_request(self@, in_idx, arp@, now),
    {
        let ghost start = actions_v(out@);
        let (addr, mine) = match self.ifaces.get(in_idx) {
            Some(iface) => (iface.addr, iface.mac),
            None => {
                assert(actions_v(out@) =~= start + Seq::<ActionV>::empty());
                return;
            },
        };
        if addr != arp.target_proto_addr.to_u32() {
            assert(actions_v(out@) =~= start + Seq::<ActionV>::empty());
            return;
        }
        let my_mac = crate::utils::addrs::mac_addr::MacAddr::new(mine[0], mine[1], mine[2], mine[3], mine[4], mine[5]);
        assert(my_mac@ =~= mine@);
        push_step(
            out,
            EventKind::ArpReplySent { target_ip: arp.sender_proto_addr, mac: my_mac },
            arp_table_view(&self.arp_table, now),
        );
        let reply = Arp::new(
            ArpOperation(ArpOperations::REPLY),
            my_mac,
            arp.target_proto_addr,
            arp.sender_hw_addr,
            arp.sender_proto_addr,
        );
        let frame = Ethernet::new(arp.sender_hw_addr, my_mac, EtherType(EtherTypes::Arp), reply.to_bytes());
        push_send(out, in_idx, &frame);
        assert(actions_v(out@) =~= start + router_arp_request(self@, in_idx, arp@, now));
    }

    /// The IPv4 part of `router_on_packet`.
    fn on_ipv4(&mut self, in_idx: usize, frame: &Ethernet, now: u64, out: &mut Vec<Action>)
        requires
            old(self).wf(),
        ensures
            final(self).wf(),
            final(self)@ == router_on_ipv4(old(self)@, in_idx, frame@, now).0,
            actions_v(final(out)@) == actions_v(old(out)@) + router_on_ipv4(old(self)@, in_idx, frame@, now).1,
    {
        let ghost start = actions_v(out@);
        let packet = match Ipv4::from_bytes(frame.payload.as_slice()) {
            Ok(p) => p,
            Err(_) => {
                assert(actions_v(out@) =~= start + Seq::<ActionV>::empty());
                return;
            },
        };
        if !packet.verify_checksum() {
            assert(actions_v(out@) =~= start + Seq::<ActionV>::empty());
            return;
        }
        if self.ifaces.has_ip(packet.destination) {
            if packet.next_level_protocol.0 == 1 {
                answer_message(in_idx, frame, &packet, &self.arp_table, now, false, out);
            } else {
                assert(actions_v(out@) =~= start + Seq::<ActionV>::empty());
            }
            return;
        }
        if packet.ttl <= 1 {
            push_step(
                out,
                EventKind::TtlExpired { src: packet.source, dst: packet.destination },
                routing_table_view(&self.routing_table),
            );
            self.send_time_exceeded(in_idx, frame, &packet, out);
            assert(actions_v(out@) =~= start + router_on_ipv4(old(self)@, in_idx, frame@, now).1);
            return;
        }
        self.forward(packet, now, out);
    }

    /// Sends back the time-exceeded message for `packet` (see `time_exceeded`).
    fn send_time_exceeded(&self, in_idx: usize, frame: &Ethernet, packet: &Ipv4, out: &mut Vec<Action>)
        requires
            self.wf(),
            packet@.header_length < 16,
        ensures
            actions_v(final(out)@) == actions_v(old(out)@).push(time_exceeded(self@, in_idx, frame@, packet@)),
    {
        let quote = quote_of(packet);
        let message = Icmp::new(TIME_EXCEEDED, TTL_EXCEEDED, quote);
        let src_ip = ip_or_zero_of(&self.ifaces, in_idx);
        let back = Ipv4::new(src_ip, packet.source, IpNextHeaderProtocol(1), message.to_bytes());
        let reply = Ethernet::new(frame.source, frame.destination, EtherType(EtherTypes::Ipv4), back.to_bytes());
        push_send(out, in_idx, &reply);
    }

    /// Forwards `packet` (time to live above one, not addressed to the router) along
    /// the route for its destination.
    fn forward(&mut self, packet: Ipv4, now: u64, out: &mut Vec<Action>)
        requires
            old(self).wf(),
            packet.ttl > 1,
        ensures
            final(self).wf(),
            final(self)@ == router_forward(old(self)@, packet@, now).0,
            actions_v(final(out)@) == actions_v(old(out)@) + router_forward(old(self)@, packet@, now).1,
    {
        let ghost start = actions_v(out@);
        let mut packet = packet;
        let ghost pk = packet@;
        packet.ttl = packet.ttl - 1;
        packet.recompute_checksum();
        assert(packet@ == one_hop_further(pk));
        let dst = packet.destination;
        let route = match self.routing_table.lookup(dst) {
            Some(r) => r.copy(),
            None => {
                push_step(out, EventKind::RouteNotFound { dst }, routing_table_view(&self.routing_table));
                assert(actions_v(out@) =~= start + router_forward(old(self)@, pk, now).1);
                return;
            },
        };
        proof {
            let i = choose|i: int| best_route(self@.routes, ipv4_u32(dst), i) && route == self@.routes[i];
            let k = choose|k: int| best_route(self@.routes, ipv4_u32(dst), k);
            lemma_best_route_unique(self@.routes, ipv4_u32(dst), i, k);
        }
        push_step2(
            out,
            EventKind::RouteFound { dst, next_hop: route.next_hop, iface: route.iface_name.clone() },
            routing_table_view(&self.routing_table),
            arp_table_view(&self.arp_table, now),
        );
        resolve_and_send(
            &self.ifaces,
            &mut self.arp_table,
            &mut self.pending_forward,
            route.iface_id,
            route.next_hop,
            packet,
            now,
            out,
        );
        assert(actions_v(out@) =~= start + router_forward(old(self)@, pk, now).1);
    }

    /// Runs the console command `input` at time `now` (see `router_exec`).
    pub fn exec_at(&self, input: &str, now: u64) -> (r: String)
        requires
            self.wf(),
        ensures
            r@ == router_exec(self@, input@, now),
    {
        let cs = str_chars(input);
        let ws = split_words(cs.as_slice());
        let ghost w = words(input@);
        assert(views(ws@) == w);
        if ws.len() == 0 {
            return String::new();
        }
        assert(ws@[0]@ == w[0]);
        let cmd = ws[0].as_slice();
        if chars_eq_str(cmd, "route") {
            route_output(&self.routing_table)
        } else if chars_eq_str(cmd, "arp") {
            arp_output(&self.arp_table, now)
        } else if chars_eq_str(cmd, "ifconfig") || chars_eq_str(cmd, "ip") {
            ifconfig_output(&self.ifaces, false)
        } else if chars_eq_str(cmd, "help") {
            string_of("Available commands:\n  route        - Show routing table\n  arp          - Show ARP table\n  ifconfig     - Show interfaces\n  help         - Show this help\n")
        } else {
            let mut s = string_of("unknown command: ");
            push_chars(&mut s, cmd);
            s
        }
    }

    /// Runs the console command `input` now.
    pub fn exec(&self, input: &str) -> (r: String)
        requires
            self.wf(),
        ensures
            exists|now: u64| r@ == router_exec(self@, input@, now),
    {
        let now = self.arp_table.now_nanos();
        self.exec_at(input, now)
    }
}

/// Forwarding packet `pk` (time to live above one): it goes one hop further along the
/// route the lookup picks, or is dropped when no route matches.
pub open spec fn router_forward(s: RouterView, pk: Ipv4Fields, now: u64) -> (RouterView, Seq<ActionV>) {
    let dst = ipv4_from_seq(pk.destination);
    if forall|j: int| 0 <= j < s.routes.len() ==> !route_matches(#[trigger] s.routes[j], ipv4_u32(dst)) {
        (s, seq![ActionV::Step(EventKind::RouteNotFound { dst }, seq![routing_table_v(s.routes)])])
    } else {
        let route = s.routes[choose|i: int| best_route(s.routes, ipv4_u32(dst), i)];
        let found = ActionV::Step(
            EventKind::RouteFound { dst, next_hop: route.next_hop, iface: route.iface_name },
            seq![routing_table_v(s.routes), arp_v(s.arp, now)],
        );
        let r = resolve_send(s.ifaces, s.arp, s.pending, route.iface_id, route.next_hop, one_hop_further(pk), now);
        (RouterView { arp: r.0, pending: r.1, ..s }, seq![found] + r.2)
    }
}

} // verus!
