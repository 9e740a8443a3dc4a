//! What PCs and routers share: resolving a next hop with ARP before sending an IPv4
//! packet, holding packets until the answer comes, and answering pings.
use vstd::prelude::*;
use crate::devices::action::{actions_v, frame_bytes, push_send, push_step, Action, ActionV};
use crate::devices::display::{arp_table_v, arp_table_view};
use crate::events::{EventKind, TableV};
use crate::net::arp::{arp_bytes, arp_error, arp_fields_of, law_arp_read_written, Arp, ArpOperation};
use crate::net::arp::ArpOperations;
use crate::net::ethernet::{crc32_spec, eth_bytes, eth_covered, eth_fcs, eth_fields_of, law_ethernet_read_written, EtherType, Ethernet, EthernetFields};
use crate::net::ethernet::EtherTypes;
use crate::net::icmp::{law_message_read_written, message_bytes, message_checksum, message_fields_of, new_message, Icmp, MessageFields, ECHO_REPLY};
use crate::net::ipv4::{ipv4_bytes, ipv4_checksum, ipv4_error, ipv4_fields_of, ipv4_well_formed, law_ipv4_read_written, new_packet, IpNextHeaderProtocol, Ipv4, Ipv4Fields};
use crate::utils::addrs::ip_addr::{ipv4_from_seq, u32_be, Ipv4Addr};
use crate::utils::addrs::mac_addr::{broadcast_mac, zero_mac, MacAddr};
use crate::utils::interfaces::{iface_index, IfaceRows, Interfaces};
use crate::utils::tables::arp_table::{arp_listing, arp_lookup, ArpRow, ArpTable};

verus! {

broadcast use crate::utils::addrs::ip_addr::lemma_ipv4_view, crate::utils::addrs::mac_addr::lemma_mac_view,
    crate::utils::addrs::ip_addr::lemma_ipv4_from_seq, crate::utils::addrs::mac_addr::lemma_mac_from_seq,
    crate::utils::addrs::ip_addr::lemma_ipv4_of_view, crate::utils::addrs::mac_addr::lemma_mac_of_view;

/// An IPv4 packet waiting for the hardware address of its next hop.
#[derive(Debug)]
pub struct PendingIpv4 {
    pub iface_id: usize,
    pub packet: Ipv4,
}

/// A waiting packet as plain values: the next hop it waits for, the interface it
/// leaves by, and the packet.
pub type PendingV = (Ipv4Addr, usize, Ipv4Fields);

/// The waiting packets as plain values, oldest first.
pub open spec fn pending_v(p: Seq<(Ipv4Addr, PendingIpv4)>) -> Seq<PendingV> {
    p.map_values(|e: (Ipv4Addr, PendingIpv4)| (e.0, e.1.iface_id, e.1.packet@))
}

/// The ARP table as shown at time `now`.
pub open spec fn arp_v(arp: Seq<ArpRow>, now: u64) -> TableV {
    arp_table_v(arp_listing(arp, now))
}

/// The MAC address of interface `id`, or all zeros when there is none.
pub open spec fn mac_or_zero(s: IfaceRows, id: usize) -> Seq<u8> {
    match iface_index(s, id) {
        Some(i) => s[i].1.mac,
        None => zero_mac(),
    }
}

/// The IPv4 address of interface `id`, or `0.0.0.0` when there is none.
pub open spec fn ip_or_zero(s: IfaceRows, id: usize) -> Seq<u8> {
    match iface_index(s, id) {
        Some(i) => u32_be(s[i].1.addr),
        None => seq![0u8, 0, 0, 0],
    }
}

/// The wire form of an ARP message over Ethernet for IPv4.
pub open spec fn arp_message(op: u16, smac: Seq<u8>, sip: Seq<u8>, tmac: Seq<u8>, tip: Seq<u8>) -> Seq<u8> {
    arp_bytes((1u16, 0x0800u16, 6u8, 4u8, op, smac, sip, tmac, tip))
}

/// The frame a host broadcasts to ask who has `tip`: an ARP request from `smac`/`sip`.
pub open spec fn arp_request_frame(smac: Seq<u8>, sip: Seq<u8>, tip: Seq<u8>) -> Seq<u8> {
    frame_bytes(broadcast_mac(), smac, 0x0806, arp_message(1, smac, sip, zero_mac(), tip))
}

/// The frame that answers such a request: an ARP reply telling `rip` is at `rmac`,
/// sent to `tmac`/`tip`.
pub open spec fn arp_reply_frame(rmac: Seq<u8>, rip: Seq<u8>, tmac: Seq<u8>, tip: Seq<u8>) -> Seq<u8> {
    frame_bytes(tmac, rmac, 0x0806, arp_message(2, rmac, rip, tmac, tip))
}

/// The fields of an ARP frame built by a host are read back as built.
pub proof fn lemma_arp_frame_fields(dst: Seq<u8>, src: Seq<u8>, op: u16, smac: Seq<u8>, sip: Seq<u8>, tmac: Seq<u8>, tip: Seq<u8>)
    requires
        dst.len() == 6,
        src.len() == 6,
        smac.len() == 6,
        sip.len() == 4,
        tmac.len() == 6,
        tip.len() == 4,
    ensures
        frame_bytes(dst, src, 0x0806, arp_message(op, smac, sip, tmac, tip)).len() >= 18,
        eth_fields_of(frame_bytes(dst, src, 0x0806, arp_message(op, smac, sip, tmac, tip))).0 == dst,
        eth_fields_of(frame_bytes(dst, src, 0x0806, arp_message(op, smac, sip, tmac, tip))).1 == src,
        eth_fields_of(frame_bytes(dst, src, 0x0806, arp_message(op, smac, sip, tmac, tip))).2 == 0x0806,
        eth_fields_of(frame_bytes(dst, src, 0x0806, arp_message(op, smac, sip, tmac, tip))).3 == arp_message(op, smac, sip, tmac, tip),
        arp_error(arp_message(op, smac, sip, tmac, tip)) is None,
        arp_fields_of(arp_message(op, smac, sip, tmac, tip)) == (1u16, 0x0800u16, 6u8, 4u8, op, smac, sip, tmac, tip),
{
    let a = (1u16, 0x0800u16, 6u8, 4u8, op, smac, sip, tmac, tip);
    law_arp_read_written(a);
    let payload = arp_message(op, smac, sip, tmac, tip);
    let fields = (dst, src, 0x0806u16, payload, crc32_spec(eth_covered((dst, src, 0x0806u16, payload, 0u32))));
    law_ethernet_read_written(fields);
    assert(eth_covered(fields) == eth_covered((dst, src, 0x0806u16, payload, 0u32)));
    assert(frame_bytes(dst, src, 0x0806, payload) == eth_bytes(fields));
}

/// Sending `pk` towards `hop` on interface `id` at time `now`: the ARP table after
/// the lookup of `hop`, the waiting packets, and what is done. A known hop gets the
/// packet at once; an unknown one gets a broadcast ARP request and the packet waits.
pub open spec fn resolve_send(
    s: IfaceRows,
    arp: Seq<ArpRow>,
    pending: Seq<PendingV>,
    id: usize,
    hop: Ipv4Addr,
    pk: Ipv4Fields,
    now: u64,
) -> (Seq<ArpRow>, Seq<PendingV>, Seq<ActionV>) {
    let (arp2, found) = arp_lookup(arp, hop, now);
    let lookup = ActionV::Step(EventKind::ArpLookup { ip: hop, found: found is Some }, seq![arp_v(arp2, now)]);
    match found {
        Some(mac) => (
            arp2,
            pending,
            seq![lookup, ActionV::Send(id, frame_bytes(mac@, mac_or_zero(s, id), 0x0800, ipv4_bytes(pk)))],
        ),
        None => (
            arp2,
            pending.push((hop, id, pk)),
            seq![
                lookup,
                ActionV::Step(EventKind::ArpRequestSent { target_ip: hop }, seq![arp_v(arp2, now)]),
                ActionV::Send(
                    id,
                    frame_bytes(
                        broadcast_mac(),
                        mac_or_zero(s, id),
                        0x0806,
                        arp_message(1, mac_or_zero(s, id), ip_or_zero(s, id), zero_mac(), hop@),
                    ),
                ),
            ],
        ),
    }
}

/// Sending a waiting packet to the hardware address `m`.
pub open spec fn pending_send(s: IfaceRows, m: MacAddr, e: PendingV) -> ActionV {
    ActionV::Send(e.1, frame_bytes(m@, mac_or_zero(s, e.1), 0x0800, ipv4_bytes(e.2)))
}

/// Whether a waiting packet waits for `ip`.
pub open spec fn waits_for(e: PendingV, ip: Ipv4Addr) -> bool {
    e.0 == ip
}

/// Releasing the packets that wait for `ip` once its address is known: they leave the
/// waiting list (oldest first) and, if the lookup of `ip` finds it, are sent to it.
pub open spec fn flush(s: IfaceRows, arp: Seq<ArpRow>, pending: Seq<PendingV>, ip: Ipv4Addr, now: u64) -> (
    Seq<ArpRow>,
    Seq<PendingV>,
    Seq<ActionV>,
) {
    let matching = pending.filter(|e: PendingV| waits_for(e, ip));
    let rest = pending.filter(|e: PendingV| !waits_for(e, ip));
    if matching.len() == 0 {
        (arp, pending, Seq::empty())
    } else {
        let (arp2, found) = arp_lookup(arp, ip, now);
        match found {
            None => (arp2, rest, Seq::empty()),
            Some(m) => (arp2, rest, matching.map_values(|e: PendingV| pending_send(s, m, e))),
        }
    }
}

/// Answering an ICMP echo request `m` carried in packet `pk` of frame `f`: two pause
/// points, then the echo reply back to the sender on the interface it came in by.
pub open spec fn echo_answer(in_idx: usize, f: EthernetFields, pk: Ipv4Fields, m: MessageFields, t: TableV) -> Seq<ActionV> {
    let src = ipv4_from_seq(pk.source);
    let dst = ipv4_from_seq(pk.destination);
    let reply = new_packet(pk.destination, pk.source, 1, message_bytes(new_message(0, 0, m.3)));
    seq![
        ActionV::Step(EventKind::IcmpEchoRequest { src, dst }, seq![t]),
        ActionV::Step(EventKind::IcmpEchoReply { src: dst, dst: src }, seq![t]),
        ActionV::Send(in_idx, frame_bytes(f.1, f.0, 0x0800, ipv4_bytes(reply))),
    ]
}

/// The answer to a ping goes back where the request came from: out of the interface
/// it came in by, to the hardware address it came from, as a whole frame with a right
/// FCS carrying an IPv4 packet with a right checksum from the address pinged to the
/// address that pinged, which carries an echo reply with a right checksum and the
/// request's data.
pub proof fn law_echo_answer_returns_to_sender(in_idx: usize, f: EthernetFields, pk: Ipv4Fields, t: TableV)
    requires
        f.0.len() == 6,
        f.1.len() == 6,
        ipv4_well_formed(pk),
        pk.payload.len() >= 4,
    ensures
        ({
            let m = message_fields_of(pk.payload);
            let acts = echo_answer(in_idx, f, pk, m, t);
            &&& acts.len() == 3
            &&& acts[2] matches ActionV::Send(id, reply) && {
                let rf = eth_fields_of(reply);
                let rp = ipv4_fields_of(rf.3);
                let rm = message_fields_of(rp.payload);
                &&& id == in_idx
                &&& reply.len() >= 18
                &&& rf.0 == f.1 && rf.1 == f.0 && rf.2 == 0x0800
                &&& rf.4 == eth_fcs(rf)
                &&& ipv4_error(rf.3) is None
                &&& rp.source == pk.destination && rp.destination == pk.source && rp.protocol == 1
                &&& rp.checksum == ipv4_checksum(rp)
                &&& rp.payload.len() >= 4
                &&& rm.0 == 0 && rm.1 == 0 && rm.3 == m.3
                &&& rm.2 == message_checksum(rm)
            }
        }),
{
    let m = message_fields_of(pk.payload);
    let msg = new_message(0, 0, m.3);
    law_message_read_written(msg);
    let rp = new_packet(pk.destination, pk.source, 1, message_bytes(msg));
    assert(message_bytes(msg).len() == pk.payload.len());
    assert(ipv4_well_formed(rp));
    law_ipv4_read_written(rp);
    let fields = (f.1, f.0, 0x0800u16, ipv4_bytes(rp), crc32_spec(eth_covered((f.1, f.0, 0x0800u16, ipv4_bytes(rp), 0u32))));
    law_ethernet_read_written(fields);
    assert(eth_covered(fields) == eth_covered((f.1, f.0, 0x0800u16, ipv4_bytes(rp), 0u32)));
    assert(frame_bytes(f.1, f.0, 0x0800, ipv4_bytes(rp)) == eth_bytes(fields));
}

/// What a host does with an ICMP message in a packet addressed to it: a request with
/// a correct checksum is answered; a reply is logged when `logs_replies`.
pub open spec fn on_message(in_idx: usize, f: EthernetFields, pk: Ipv4Fields, t: TableV, logs_replies: bool) -> Seq<ActionV> {
    if pk.payload.len() < 4 {
        Seq::empty()
    } else {
        let m = message_fields_of(pk.payload);
        if m.2 != message_checksum(m) {
            Seq::empty()
        } else if m.0 == 8 && m.1 == 0 {
            echo_answer(in_idx, f, pk, m, t)
        } else if m.0 == 0 && m.1 == 0 && logs_replies {
            seq![
                ActionV::Step(
                    EventKind::IcmpEchoReply {
                        src: ipv4_from_seq(pk.source),
                        dst: ipv4_from_seq(pk.destination),
                    },
                    seq![t],
                ),
            ]
        } else {
            Seq::empty()
        }
    }
}

/// The MAC address of interface `id`, or all zeros.
pub fn mac_or_zero_of(ifaces: &Interfaces, id: usize) -> (r: MacAddr)
    requires
        ifaces.wf(),
    ensures
        r@ == mac_or_zero(ifaces@, id),
{
    match ifaces.mac_of(id) {
        Some(m) => m,
        None => MacAddr::zero(),
    }
}

/// The IPv4 address of interface `id`, or `0.0.0.0`.
pub fn ip_or_zero_of(ifaces: &Interfaces, id: usize) -> (r: Ipv4Addr)
    requires
        ifaces.wf(),
    ensures
        r@ == ip_or_zero(ifaces@, id),
{
    match ifaces.ip_of(id) {
        Some(a) => a,
        None => Ipv4Addr::new(0, 0, 0, 0),
    }
}

/// Sends `packet` towards `hop` on interface `iface_id`, resolving `hop` with ARP
/// first (see `resolve_send`).
pub fn resolve_and_send(
    ifaces: &Interfaces,
    arp: &mut ArpTable,
    pending: &mut Vec<(Ipv4Addr, PendingIpv4)>,
    iface_id: usize,
    hop: Ipv4Addr,
    packet: Ipv4,
    now: u64,
    out: &mut Vec<Action>,
)
    requires
        ifaces.wf(),
        old(arp).wf(),
    ensures
        final(arp).wf(),
        final(arp)@ == resolve_send(ifaces@, old(arp)@, pending_v(old(pending)@), iface_id, hop, packet@, now).0,
        pending_v(final(pending)@) == resolve_send(ifaces@, old(arp)@, pending_v(old(pending)@), iface_id, hop, packet@, now).1,
        actions_v(final(out)@) == actions_v(old(out)@) + resolve_send(ifaces@, old(arp)@, pending_v(old(pending)@), iface_id, hop, packet@, now).2,
{
    let ghost start = actions_v(out@);
    let found = arp.lookup_at(&hop, now);
    let lookup = EventKind::ArpLookup { ip: hop, found: found.is_some() };
    push_step(out, lookup, arp_table_view(arp, now));
    let src_mac = mac_or_zero_of(ifaces, iface_id);
    match found {
        Some(mac) => {
            let frame = Ethernet::new(mac, src_mac, EtherType(EtherTypes::Ipv4), packet.to_bytes());
            push_send(out, iface_id, &frame);
        },
        None => {
            let src_ip = ip_or_zero_of(ifaces, iface_id);
            let ghost before = pending_v(pending@);
            let bytes = packet.to_bytes();
            pending.push((hop, PendingIpv4 { iface_id, packet }));
            assert(pending_v(pending@) =~= before.push((hop, iface_id, packet@)));
            push_step(out, EventKind::ArpRequestSent { target_ip: hop }, arp_table_view(arp, now));
            let request = Arp::new(
                ArpOperation(ArpOperations::REQUEST),
                src_mac,
                src_ip,
                MacAddr::zero(),
                hop,
            );
            let frame = Ethernet::new(MacAddr::broadcast(), src_mac, EtherType(EtherTypes::Arp), request.to_bytes());
            push_send(out, iface_id, &frame);
        },
    }
    assert(actions_v(out@) =~= start + resolve_send(ifaces@, old(arp)@, pending_v(old(pending)@), iface_id, hop, packet@, now).2);
}

/// Releases the packets that wait for `ip` (see `flush`).
pub fn flush_pending(
    ifaces: &Interfaces,
    arp: &mut ArpTable,
    pending: &mut Vec<(Ipv4Addr, PendingIpv4)>,
    ip: Ipv4Addr,
    now: u64,
    out: &mut Vec<Action>,
)
    requires
        ifaces.wf(),
        old(arp).wf(),
    ensures
        final(arp).wf(),
        final(arp)@ == flush(ifaces@, old(arp)@, pending_v(old(pending)@), ip, now).0,
        pending_v(final(pending)@) == flush(ifaces@, old(arp)@, pending_v(old(pending)@), ip, now).1,
        actions_v(final(out)@) == actions_v(old(out)@) + flush(ifaces@, old(arp)@, pending_v(old(pending)@), ip, now).2,
{
    let ghost orig = pending_v(pending@);
    let mut all: Vec<(Ipv4Addr, PendingIpv4)> = Vec::new();
    std::mem::swap(&mut all, pending);
    let mut matching: Vec<(Ipv4Addr, PendingIpv4)> = Vec::new();
    let mut rest: Vec<(Ipv4Addr, PendingIpv4)> = Vec::new();
    let ghost mut k: int = 0;
    while all.len() > 0
        invariant
            0 <= k <= orig.len(),
            pending_v(all@) == orig.skip(k),
            pending_v(matching@) == orig.take(k).filter(|e: PendingV| waits_for(e, ip)),
            pending_v(rest@) == orig.take(k).filter(|e: PendingV| !waits_for(e, ip)),
            matching@.len() == 0 ==> pending_v(rest@) == orig.take(k),
        decreases all.len(),
    {
        let ghost before_all = all@;
        assert(pending_v(before_all).len() == before_all.len());
        assert(k < orig.len());
        let e = all.remove(0);
        assert(e == before_all[0]);
        assert forall|j: int| 0 <= j < all@.len() implies #[trigger] pending_v(all@)[j] == orig.skip(k + 1)[j] by {
            assert(all@[j] == before_all[j + 1]);
            assert(pending_v(before_all)[j + 1] == orig.skip(k)[j + 1]);
        }
        assert(pending_v(all@) =~= orig.skip(k + 1));
        assert(orig[k] == (e.0, e.1.iface_id, e.1.packet@)) by {
            assert(pending_v(before_all)[0] == orig.skip(k)[0]);
        }
        assert(orig.take(k + 1).drop_last() == orig.take(k));
        reveal_with_fuel(Seq::<_>::filter, 1);
        if e.0 == ip {
            let ghost bm = matching@;
            matching.push(e);
            assert(pending_v(matching@) =~= pending_v(bm).push(orig[k]));
        } else {
            let ghost br = rest@;
            rest.push(e);
            assert(pending_v(rest@) =~= pending_v(br).push(orig[k]));
            assert(orig.take(k + 1) == orig.take(k).push(orig[k]));
        }
        proof {
            k = k + 1;
        }
    }
    assert(orig.take(k) == orig);
    if matching.len() == 0 {
        *pending = rest;
        return;
    }
    *pending = rest;
    let found = arp.lookup_at(&ip, now);
    match found {
        None => {},
        Some(mac) => {
            let ghost start = actions_v(out@);
            let ghost mv = pending_v(matching@);
            let mut j: usize = 0;
            while j < matching.len()
                invariant
                    ifaces.wf(),
                    j <= matching@.len(),
                    mv == pending_v(matching@),
                    actions_v(out@) == start + mv.take(j as int).map_values(|e: PendingV| pending_send(ifaces@, mac, e)),
                decreases matching.len() - j,
            {
                let id = matching[j].1.iface_id;
                let src_mac = mac_or_zero_of(ifaces, id);
                let frame = Ethernet::new(mac, src_mac, EtherType(EtherTypes::Ipv4), matching[j].1.packet.to_bytes());
                push_send(out, id, &frame);
                assert(mv[j as int] == (matching@[j as int].0, id, matching@[j as int].1.packet@));
                assert(mv.take(j + 1) == mv.take(j as int).push(mv[j as int]));
                assert(mv.take(j + 1).map_values(|e: PendingV| pending_send(ifaces@, mac, e)) =~= mv.take(j as int).map_values(
                    |e: PendingV| pending_send(ifaces@, mac, e),
                ).push(pending_send(ifaces@, mac, mv[j as int])));
                j = j + 1;
            }
            assert(mv.take(mv.len() as int) == mv);
        },
    }
}

/// Answers an ICMP message in a packet addressed to this host (see `on_message`).
pub fn answer_message(
    in_idx: usize,
    frame: &Ethernet,
    packet: &Ipv4,
    arp: &ArpTable,
    now: u64,
    logs_replies: bool,
    out: &mut Vec<Action>,
)
    ensures
        actions_v(final(out)@) == actions_v(old(out)@) + on_message(in_idx, frame@, packet@, arp_v(arp@, now), logs_replies),
{
    let ghost table = arp_v(arp@, now);
    let ghost start = actions_v(out@);
    let message = match Icmp::from_bytes(packet.payload.as_slice()) {
        Ok(m) => m,
        Err(_) => {
            assert(actions_v(out@) =~= start + on_message(in_idx, frame@, packet@, table, logs_replies));
            return;
        },
    };
    if !message.verify_checksum() {
        assert(actions_v(out@) =~= start + on_message(in_idx, frame@, packet@, table, logs_replies));
        return;
    }
    let ghost m = message_fields_of(packet@.payload);
    assert(message@ == m);
    if message.is_echo_request() {
        push_step(
            out,
            EventKind::IcmpEchoRequest { src: packet.source, dst: packet.destination },
            arp_table_view(arp, now),
        );
        let reply = Icmp::new(ECHO_REPLY, 0, message.payload);
        let answer = Ipv4::new(packet.destination, packet.source, IpNextHeaderProtocol(1), reply.to_bytes());
        let back = Ethernet::new(frame.source, frame.destination, EtherType(EtherTypes::Ipv4), answer.to_bytes());
        push_step(
            out,
            EventKind::IcmpEchoReply { src: packet.destination, dst: packet.source },
            arp_table_view(arp, now),
        );
        push_send(out, in_idx, &back);
        assert(answer@ == new_packet(packet@.destination, packet@.source, 1, message_bytes(new_message(0, 0, m.3))));
        assert(actions_v(out@) =~= start + echo_answer(in_idx, frame@, packet@, m, table));
    } else if message.is_echo_reply() && logs_replies {
        push_step(
            out,
            EventKind::IcmpEchoReply { src: packet.source, dst: packet.destination },
            arp_table_view(arp, now),
        );
    }
    assert(actions_v(out@) =~= start + on_message(in_idx, frame@, packet@, table, logs_replies));
}

} // verus!
