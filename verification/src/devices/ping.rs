//! A ping between two PCs joined by a cable, followed frame by frame: the ARP
//! request and its answer, the echo request and the echo reply.
use vstd::prelude::*;
use crate::devices::action::{frame_bytes, ActionV};
use crate::devices::host::{
    arp_reply_frame, arp_request_frame, arp_v, echo_answer, pending_send, waits_for, PendingV,
};
use crate::devices::pc::{
    law_pc_answers_arp_for_its_address, law_pc_arp_reply_releases_waiting, pc_on_ipv4, pc_on_packet, pc_ping, PcView,
};
use crate::events::EventKind;
use crate::net::ethernet::{crc32_spec, eth_bytes, eth_covered, eth_fields_of, law_ethernet_read_written, EthernetFields};
use crate::net::icmp::{law_message_read_written, message_bytes, message_fields_of, new_message};
use crate::net::ipv4::{
    ipv4_bytes, ipv4_checksum, ipv4_error, ipv4_fields_of, ipv4_well_formed, law_ipv4_read_written, new_packet, Ipv4Fields,
};
use crate::utils::addrs::ip_addr::{ipv4_from_seq, ipv4_u32, lemma_u32_be_roundtrip, u32_be, Ipv4Addr};
use crate::utils::addrs::mac_addr::mac_from_seq;
use crate::utils::interfaces::{iface_with_addr, ifaces_wf, lemma_iface_index_at, IfaceRows};
use crate::utils::tables::arp_table::{arp_distinct, arp_lookup, lemma_arp_lookup_distinct};

verus! {

broadcast use crate::utils::addrs::ip_addr::lemma_ipv4_view, crate::utils::addrs::mac_addr::lemma_mac_view,
    crate::utils::addrs::ip_addr::lemma_ipv4_from_seq, crate::utils::addrs::mac_addr::lemma_mac_from_seq,
    crate::utils::addrs::ip_addr::lemma_ipv4_of_view, crate::utils::addrs::mac_addr::lemma_mac_of_view;

/// The frame that the last action sends (nothing when it sends none).
pub open spec fn last_frame(acts: Seq<ActionV>) -> Seq<u8> {
    match acts.last() {
        ActionV::Send(_, f) => f,
        _ => Seq::empty(),
    }
}

/// Whether the last action sends a frame on interface `id`.
pub open spec fn last_sent_on(acts: Seq<ActionV>, id: usize) -> bool {
    &&& acts.len() > 0
    &&& acts.last() matches ActionV::Send(i, _) && i == id
}

/// The address of the first interface of a PC.
pub open spec fn first_addr(s: PcView) -> Ipv4Addr {
    ipv4_from_seq(u32_be(s.ifaces[0].1.addr))
}

/// The echo request that a PC sends when it pings `target`: from the address of its
/// first interface, carrying an empty echo request.
pub open spec fn echo_request_from(s: PcView, target: Ipv4Addr) -> Ipv4Fields {
    new_packet(u32_be(s.ifaces[0].1.addr), target@, 1, message_bytes(new_message(8, 0, Seq::empty())))
}

/// An address read back from its four bytes is the number it was written from.
proof fn lemma_addr_roundtrip(x: u32)
    ensures
        ipv4_u32(ipv4_from_seq(u32_be(x))) == x,
        u32_be(x).len() == 4,
{
    lemma_u32_be_roundtrip(x);
}

/// The first interface is the first one with its own address.
proof fn lemma_first_with_addr(s: IfaceRows)
    requires
        s.len() > 0,
    ensures
        iface_with_addr(s, s[0].1.addr) == Some(0int),
{
    let addr = s[0].1.addr;
    assert(0 <= 0 < s.len() && s[0].1.addr == addr && forall|j: int| 0 <= j < 0 ==> #[trigger] s[j].1.addr != addr);
    let i = iface_with_addr(s, addr).unwrap();
    if i > 0 {
        assert(s[0].1.addr != addr);
    }
}

/// A packet built by `Ipv4::new` around an ICMP message is well formed and its
/// checksum is right.
proof fn lemma_new_echo_packet(src: Seq<u8>, dst: Seq<u8>, ty: u8)
    requires
        src.len() == 4,
        dst.len() == 4,
    ensures
        ipv4_well_formed(new_packet(src, dst, 1, message_bytes(new_message(ty, 0, Seq::empty())))),
        new_packet(src, dst, 1, message_bytes(new_message(ty, 0, Seq::empty()))).checksum == ipv4_checksum(
            new_packet(src, dst, 1, message_bytes(new_message(ty, 0, Seq::empty()))),
        ),
{
    let pk = new_packet(src, dst, 1, message_bytes(new_message(ty, 0, Seq::empty())));
    law_message_read_written(new_message(ty, 0, Seq::empty()));
    assert(message_bytes(new_message(ty, 0, Seq::empty())).len() == 4);
    assert(Ipv4Fields { checksum: 0, ..pk } == Ipv4Fields {
        checksum: 0,
        ..Ipv4Fields { checksum: 0, ..pk }
    });
}

/// Pinging an address that the ARP table does not know: the packet waits, and an ARP
/// request for the address goes out of the first interface.
proof fn lemma_ping_asks(a: PcView, target: Ipv4Addr, now: u64)
    requires
        ifaces_wf(a.ifaces, a.next_id),
        a.ifaces.len() > 0,
        arp_lookup(a.arp, target, now).1 is None,
    ensures
        ({
            let r = pc_ping(a, target, now);
            &&& r.1
            &&& r.0 == (PcView {
                arp: arp_lookup(a.arp, target, now).0,
                pending: a.pending.push((target, a.ifaces[0].0, echo_request_from(a, target))),
                ..a
            })
            &&& last_sent_on(r.2, a.ifaces[0].0)
            &&& last_frame(r.2) == arp_request_frame(a.ifaces[0].1.mac, u32_be(a.ifaces[0].1.addr), target@)
        }),
{
    lemma_iface_index_at(a.ifaces, a.next_id, 0);
}

/// A frame built around a well-formed IPv4 packet `pk`, received by a PC: it is kept,
/// and the packet is handled as `pc_on_ipv4` says.
proof fn lemma_pc_gets_ipv4_frame(s: PcView, in_idx: usize, dst: Seq<u8>, src: Seq<u8>, pk: Ipv4Fields, now: u64)
    requires
        dst.len() == 6,
        src.len() == 6,
        ipv4_well_formed(pk),
    ensures
        ({
            let p = frame_bytes(dst, src, 0x0800, ipv4_bytes(pk));
            let f = eth_fields_of(p);
            &&& f.0 == dst && f.1 == src && f.2 == 0x0800 && f.3 == ipv4_bytes(pk)
            &&& ipv4_error(f.3) is None
            &&& ipv4_fields_of(f.3) == pk
            &&& pc_on_packet(s, in_idx, p, now) == (
                PcView { packets: s.packets.push(p), ..s },
                pc_on_ipv4(PcView { packets: s.packets.push(p), ..s }, in_idx, f, now),
            )
        }),
{
    law_ipv4_read_written(pk);
    let payload = ipv4_bytes(pk);
    let fields = (dst, src, 0x0800u16, payload, crc32_spec(eth_covered((dst, src, 0x0800u16, payload, 0u32))));
    law_ethernet_read_written(fields);
    assert(eth_covered(fields) == eth_covered((dst, src, 0x0800u16, payload, 0u32)));
    assert(frame_bytes(dst, src, 0x0800, payload) == eth_bytes(fields));
}

/// The empty echo packet of type `ty` from `src` to `dst`.
pub open spec fn echo_packet(src: Seq<u8>, dst: Seq<u8>, ty: u8) -> Ipv4Fields {
    new_packet(src, dst, 1, message_bytes(new_message(ty, 0, Seq::empty())))
}

/// An empty echo message of type `ty` carried to a PC that has the destination
/// address: a request (8) is answered, a reply (0) is shown.
proof fn lemma_pc_on_echo(s: PcView, in_idx: usize, f: EthernetFields, pk: Ipv4Fields, ty: u8, now: u64)
    requires
        ipv4_error(f.3) is None,
        ipv4_fields_of(f.3) == pk,
        pk.checksum == ipv4_checksum(pk),
        pk.protocol == 1,
        pk.payload == message_bytes(new_message(ty, 0, Seq::empty())),
        iface_with_addr(s.ifaces, ipv4_u32(ipv4_from_seq(pk.destination))) is Some,
        ty == 8 || ty == 0,
    ensures
        pc_on_ipv4(s, in_idx, f, now) == if ty == 8 {
            echo_answer(in_idx, f, pk, new_message(8, 0, Seq::empty()), arp_v(s.arp, now))
        } else {
            seq![
                ActionV::Step(
                    EventKind::IcmpEchoReply { src: ipv4_from_seq(pk.source), dst: ipv4_from_seq(pk.destination) },
                    seq![arp_v(s.arp, now)],
                ),
            ]
        },
{
    let m = new_message(ty, 0, Seq::empty());
    law_message_read_written(m);
    assert(message_fields_of(pk.payload) == m);
}

/// The answer to an empty echo request ends with the echo reply, sent back.
proof fn lemma_echo_answer_last(in_idx: usize, f: EthernetFields, pk: Ipv4Fields, t: crate::events::TableV)
    ensures
        echo_answer(in_idx, f, pk, new_message(8, 0, Seq::empty()), t).len() == 3,
        echo_answer(in_idx, f, pk, new_message(8, 0, Seq::empty()), t).last() == ActionV::Send(
            in_idx,
            frame_bytes(f.1, f.0, 0x0800, ipv4_bytes(echo_packet(pk.destination, pk.source, 0))),
        ),
{
}

/// A PC with address `dst` receiving the empty echo request from `src` in a frame from
/// `smac` to `dmac` answers, last, with the echo reply in a frame back to `smac`.
proof fn lemma_pc_answers_echo(s: PcView, in_idx: usize, dmac: Seq<u8>, smac: Seq<u8>, src: Seq<u8>, dst: Seq<u8>, now: u64)
    requires
        dmac.len() == 6,
        smac.len() == 6,
        src.len() == 4,
        dst.len() == 4,
        iface_with_addr(s.ifaces, ipv4_u32(ipv4_from_seq(dst))) is Some,
    ensures
        ({
            let r = pc_on_packet(s, in_idx, frame_bytes(dmac, smac, 0x0800, ipv4_bytes(echo_packet(src, dst, 8))), now);
            &&& last_sent_on(r.1, in_idx)
            &&& last_frame(r.1) == frame_bytes(smac, dmac, 0x0800, ipv4_bytes(echo_packet(dst, src, 0)))
            &&& r.0.ifaces == s.ifaces
        }),
{
    let pk = echo_packet(src, dst, 8);
    lemma_new_echo_packet(src, dst, 8);
    lemma_pc_gets_ipv4_frame(s, in_idx, dmac, smac, pk, now);
    let p = frame_bytes(dmac, smac, 0x0800, ipv4_bytes(pk));
    let s1 = PcView { packets: s.packets.push(p), ..s };
    let f = eth_fields_of(p);
    lemma_pc_on_echo(s1, in_idx, f, pk, 8, now);
    lemma_echo_answer_last(in_idx, f, pk, arp_v(s1.arp, now));
    assert(pk.destination == dst && pk.source == src);
    let r = pc_on_packet(s, in_idx, p, now);
    assert(r.1 == echo_answer(in_idx, f, pk, new_message(8, 0, Seq::empty()), arp_v(s1.arp, now)));
}

/// A PC pinged at the address of any of its interfaces, whichever interface the
/// request comes in by, answers: given, in a frame from `smac` to `dmac`, the empty
/// echo request from `src` to an address `dst` that one of its interfaces has, it
/// ends by sending back out of the interface the request came in by, to `smac`, the
/// echo reply from `dst` to `src`, and keeps its interfaces.
pub proof fn law_pc_answers_ping_to_any_own_address(
    s: PcView,
    in_idx: usize,
    dmac: Seq<u8>,
    smac: Seq<u8>,
    src: Seq<u8>,
    dst: Seq<u8>,
    now: u64,
)
    requires
        dmac.len() == 6,
        smac.len() == 6,
        src.len() == 4,
        dst.len() == 4,
        iface_with_addr(s.ifaces, ipv4_u32(ipv4_from_seq(dst))) is Some,
    ensures
        ({
            let r = pc_on_packet(s, in_idx, frame_bytes(dmac, smac, 0x0800, ipv4_bytes(echo_packet(src, dst, 8))), now);
            &&& last_sent_on(r.1, in_idx)
            &&& last_frame(r.1) == frame_bytes(smac, dmac, 0x0800, ipv4_bytes(echo_packet(dst, src, 0)))
            &&& r.0.ifaces == s.ifaces
        }),
{
    lemma_pc_answers_echo(s, in_idx, dmac, smac, src, dst, now);
}

/// A PC with address `dst` receiving the empty echo reply from `src` shows it, and
/// does nothing else.
proof fn lemma_pc_shows_echo_reply(s: PcView, in_idx: usize, dmac: Seq<u8>, smac: Seq<u8>, src: Seq<u8>, dst: Seq<u8>, now: u64)
    requires
        dmac.len() == 6,
        smac.len() == 6,
        src.len() == 4,
        dst.len() == 4,
        iface_with_addr(s.ifaces, ipv4_u32(ipv4_from_seq(dst))) is Some,
    ensures
        ({
            let r = pc_on_packet(s, in_idx, frame_bytes(dmac, smac, 0x0800, ipv4_bytes(echo_packet(src, dst, 0))), now);
            &&& r.1 == seq![
                ActionV::Step(
                    EventKind::IcmpEchoReply { src: ipv4_from_seq(src), dst: ipv4_from_seq(dst) },
                    seq![arp_v(r.0.arp, now)],
                ),
            ]
            &&& r.0.arp == s.arp
        }),
{
    let pk = echo_packet(src, dst, 0);
    lemma_new_echo_packet(src, dst, 0);
    lemma_pc_gets_ipv4_frame(s, in_idx, dmac, smac, pk, now);
    let p = frame_bytes(dmac, smac, 0x0800, ipv4_bytes(pk));
    let s1 = PcView { packets: s.packets.push(p), ..s };
    lemma_pc_on_echo(s1, in_idx, eth_fields_of(p), pk, 0, now);
}

/// The second PC, asked who has its first address, answers last, on its first
/// interface, with its MAC address.
proof fn lemma_ping_step_2(b: PcView, smac: Seq<u8>, sip: Seq<u8>, now: u64)
    requires
        ifaces_wf(b.ifaces, b.next_id),
        b.ifaces.len() > 0,
        arp_distinct(b.arp),
        smac.len() == 6,
        sip.len() == 4,
    ensures
        ({
            let r = pc_on_packet(b, b.ifaces[0].0, arp_request_frame(smac, sip, u32_be(b.ifaces[0].1.addr)), now);
            &&& last_sent_on(r.1, b.ifaces[0].0)
            &&& last_frame(r.1) == arp_reply_frame(b.ifaces[0].1.mac, u32_be(b.ifaces[0].1.addr), smac, sip)
            &&& r.0.ifaces == b.ifaces
        }),
{
    let xb = b.ifaces[0].1.addr;
    lemma_addr_roundtrip(xb);
    lemma_first_with_addr(b.ifaces);
    law_pc_answers_arp_for_its_address(b, b.ifaces[0].0, smac, sip, u32_be(xb), now);
}

/// The first PC, told where the pinged address is, sends last the echo request that
/// waited for it, to that hardware address, out of its first interface.
proof fn lemma_ping_step_3(a: PcView, a1: PcView, target: Ipv4Addr, rmac: Seq<u8>, now: u64)
    requires
        ifaces_wf(a.ifaces, a.next_id),
        a.ifaces.len() > 0,
        arp_distinct(a1.arp),
        a1.ifaces == a.ifaces,
        a1.pending == a.pending.push((target, a.ifaces[0].0, echo_request_from(a, target))),
        rmac.len() == 6,
    ensures
        ({
            let r = pc_on_packet(
                a1,
                a.ifaces[0].0,
                arp_reply_frame(rmac, target@, a.ifaces[0].1.mac, u32_be(a.ifaces[0].1.addr)),
                now,
            );
            &&& last_sent_on(r.1, a.ifaces[0].0)
            &&& last_frame(r.1) == frame_bytes(rmac, a.ifaces[0].1.mac, 0x0800, ipv4_bytes(echo_request_from(a, target)))
            &&& r.0.ifaces == a.ifaces
        }),
{
    let id = a.ifaces[0].0;
    let item: PendingV = (target, id, echo_request_from(a, target));
    lemma_addr_roundtrip(a.ifaces[0].1.addr);
    law_pc_arp_reply_releases_waiting(a1, id, rmac, target@, a.ifaces[0].1.mac, u32_be(a.ifaces[0].1.addr), now);
    lemma_iface_index_at(a.ifaces, a.next_id, 0);
    a.pending.lemma_filter_push(item, |e: PendingV| waits_for(e, ipv4_from_seq(target@)));
    let waiting = a1.pending.filter(|e: PendingV| waits_for(e, ipv4_from_seq(target@)));
    assert(waiting.last() == item);
    let sends = waiting.map_values(|e: PendingV| pending_send(a1.ifaces, mac_from_seq(rmac), e));
    let r = pc_on_packet(a1, id, arp_reply_frame(rmac, target@, a.ifaces[0].1.mac, u32_be(a.ifaces[0].1.addr)), now);
    assert(r.1.skip(1) == sends);
    assert(r.1.last() == r.1.skip(1)[waiting.len() - 1]);
    assert(sends[waiting.len() - 1] == pending_send(a1.ifaces, mac_from_seq(rmac), item));
}

/// Two PCs joined by a cable between their first interfaces: when the first pings the
/// first address of the second without knowing where it is, and each frame is carried
/// across the cable as it is sent, the first PC asks by ARP, the second answers, the
/// echo request goes across, the echo reply comes back, and the first PC shows that
/// reply, from the second PC's address to its own.
pub proof fn law_ping_across_a_cable(a: PcView, b: PcView, now: u64)
    requires
        ifaces_wf(a.ifaces, a.next_id),
        ifaces_wf(b.ifaces, b.next_id),
        a.ifaces.len() > 0,
        b.ifaces.len() > 0,
        arp_distinct(a.arp),
        arp_distinct(b.arp),
        arp_lookup(a.arp, first_addr(b), now).1 is None,
    ensures
        ({
            let ida = a.ifaces[0].0;
            let idb = b.ifaces[0].0;
            let p1 = pc_ping(a, first_addr(b), now);
            let p2 = pc_on_packet(b, idb, last_frame(p1.2), now);
            let p3 = pc_on_packet(p1.0, ida, last_frame(p2.1), now);
            let p4 = pc_on_packet(p2.0, idb, last_frame(p3.1), now);
            let p5 = pc_on_packet(p3.0, ida, last_frame(p4.1), now);
            &&& p1.1
            &&& last_sent_on(p1.2, ida)
            &&& last_sent_on(p2.1, idb)
            &&& last_sent_on(p3.1, ida)
            &&& last_sent_on(p4.1, idb)
            &&& p5.1 == seq![
                ActionV::Step(
                    EventKind::IcmpEchoReply { src: first_addr(b), dst: first_addr(a) },
                    seq![arp_v(p5.0.arp, now)],
                ),
            ]
        }),
{
    let ida = a.ifaces[0].0;
    let idb = b.ifaces[0].0;
    let mac_a = a.ifaces[0].1.mac;
    let mac_b = b.ifaces[0].1.mac;
    let xa = a.ifaces[0].1.addr;
    let xb = b.ifaces[0].1.addr;
    let target = first_addr(b);
    lemma_addr_roundtrip(xa);
    lemma_addr_roundtrip(xb);
    assert(target@ == u32_be(xb));
    assert(mac_a.len() == 6 && mac_b.len() == 6);
    lemma_ping_asks(a, target, now);
    let p1 = pc_ping(a, target, now);
    lemma_arp_lookup_distinct(a.arp, target, now);
    lemma_ping_step_2(b, mac_a, u32_be(xa), now);
    let p2 = pc_on_packet(b, idb, last_frame(p1.2), now);
    lemma_ping_step_3(a, p1.0, target, mac_b, now);
    let p3 = pc_on_packet(p1.0, ida, last_frame(p2.1), now);
    assert(echo_request_from(a, target) == echo_packet(u32_be(xa), u32_be(xb), 8));
    lemma_first_with_addr(b.ifaces);
    lemma_pc_answers_echo(p2.0, idb, mac_b, mac_a, u32_be(xa), u32_be(xb), now);
    let p4 = pc_on_packet(p2.0, idb, last_frame(p3.1), now);
    lemma_first_with_addr(a.ifaces);
    lemma_pc_shows_echo_reply(p3.0, ida, mac_a, mac_b, u32_be(xb), u32_be(xa), now);
}

} // verus!
