//! Layer-2 forwarding: a hub repeats every frame on all its other ports; a switch or
//! bridge learns where each source address lives and sends a frame only where its
//! destination lives, flooding broadcasts and unknown destinations.
use vstd::prelude::*;
use crate::devices::action::{actions_v, push_action, push_step, Action, ActionV};
use crate::devices::display::{mac_table_v, mac_table_view};
use crate::events::{EventKind, TableV};
use crate::net::ethernet::{eth_fields_of, Ethernet};
use crate::utils::addrs::mac_addr::{broadcast_mac, mac_from_seq};
use crate::utils::interfaces::{IfaceRows, Interfaces};
use crate::utils::clock::age;
use crate::utils::interfaces::ifaces_wf;
use crate::utils::tables::mac_table::{
    law_mac_learn_keeps_others, law_mac_lookup_after_learn, law_mac_lookup_keeps_others, lemma_mac_learn_distinct, mac_distinct, mac_learn,
    mac_listing, mac_lookup, MacRow, MacTable, MAC_ENTRY_TTL,
};

verus! {

broadcast use crate::utils::addrs::mac_addr::lemma_mac_view, crate::utils::addrs::mac_addr::lemma_mac_from_seq,
    crate::utils::addrs::mac_addr::lemma_mac_of_view;

/// The ids of the interfaces, in order.
pub open spec fn port_ids(s: IfaceRows) -> Seq<usize> {
    s.map_values(|e: (usize, crate::utils::interfaces::IfaceView)| e.0)
}

/// Whether a port is not `in_idx`.
pub open spec fn not_port(in_idx: usize) -> spec_fn(usize) -> bool {
    |id: usize| id != in_idx
}

/// The ports other than `in_idx`, in order.
pub open spec fn other_ports(s: IfaceRows, in_idx: usize) -> Seq<usize> {
    port_ids(s).filter(not_port(in_idx))
}

/// Sending `p` on each of the ports, in order.
pub open spec fn send_all(ports: Seq<usize>, p: Seq<u8>) -> Seq<ActionV> {
    ports.map_values(|id: usize| ActionV::Send(id, p))
}

/// The MAC table as shown.
pub open spec fn mac_v(m: Seq<MacRow>) -> TableV {
    mac_table_v(mac_listing(m))
}

/// What a hub does with the bytes `p` received on port `in_idx`: it logs how many
/// ports it repeats them on, then sends them, unchanged, on every other port.
pub open spec fn hub_on_packet(s: IfaceRows, in_idx: usize, p: Seq<u8>) -> Seq<ActionV> {
    let others = other_ports(s, in_idx);
    seq![ActionV::Emit(EventKind::HubFlooded { port_count: others.len() as usize })] + send_all(others, p)
}

/// What a switch or bridge does with the bytes `p` received on port `in_idx` at `now`,
/// given its MAC table `m`: the table after, and what is done. Frames shorter than 18
/// bytes are dropped. The source address is learnt on `in_idx`; a broadcast is
/// flooded; otherwise a known destination on another port gets the frame there, one
/// on the same port gets nothing, and an unknown one is flooded.
pub open spec fn l2_on_packet(s: IfaceRows, m: Seq<MacRow>, in_idx: usize, p: Seq<u8>, now: u64) -> (Seq<MacRow>, Seq<ActionV>) {
    if p.len() < 18 {
        (m, Seq::empty())
    } else {
        let f = eth_fields_of(p);
        let src = mac_from_seq(f.1);
        let dst = mac_from_seq(f.0);
        let m1 = mac_learn(m, src, in_idx, now);
        let learn = ActionV::Step(EventKind::MacTableLearn { mac: src, port: in_idx }, seq![mac_v(m1)]);
        let others = other_ports(s, in_idx);
        if f.0 == broadcast_mac() {
            (
                m1,
                seq![learn, ActionV::Step(EventKind::FrameFlooded { port_count: others.len() as usize }, seq![mac_v(m1)])]
                    + send_all(others, p),
            )
        } else {
            let (m2, port) = mac_lookup(m1, dst, now);
            let lookup = ActionV::Step(EventKind::MacTableLookup { mac: dst, found: port is Some }, seq![mac_v(m2)]);
            match port {
                Some(out) => if out != in_idx {
                    (
                        m2,
                        seq![
                            learn,
                            lookup,
                            ActionV::Step(EventKind::FrameForwarded { out_port: out }, seq![mac_v(m2)]),
                            ActionV::Send(out, p),
                        ],
                    )
                } else {
                    (m2, seq![learn, lookup])
                },
                None => (
                    m2,
                    seq![
                        learn,
                        lookup,
                        ActionV::Step(EventKind::FrameFlooded { port_count: others.len() as usize }, seq![mac_v(m2)]),
                    ] + send_all(others, p),
                ),
            }
        }
    }
}

/// A switch or bridge that has received a frame from address `A` on port `p` sends a
/// later frame for `A` (not a broadcast, from another address, arriving on another
/// port while the entry lives) to port `p` and nowhere else.
pub proof fn law_l2_forwards_to_learnt_port(s: IfaceRows, m: Seq<MacRow>, p: usize, f1: Seq<u8>, t1: u64, q: usize, f2: Seq<u8>, t2: u64)
    requires
        mac_distinct(m),
        f1.len() >= 18,
        f2.len() >= 18,
        eth_fields_of(f2).0 == eth_fields_of(f1).1,
        eth_fields_of(f2).0 != broadcast_mac(),
        eth_fields_of(f2).1 != eth_fields_of(f1).1,
        q != p,
        age(t2, t1) < MAC_ENTRY_TTL,
    ensures
        ({
            let acts = l2_on_packet(s, l2_on_packet(s, m, p, f1, t1).0, q, f2, t2).1;
            &&& acts.len() == 4
            &&& acts[3] == ActionV::Send(p, f2)
            &&& forall|k: int| 0 <= k < 3 ==> #[trigger] acts[k] is Step
        }),
{
    let a = mac_from_seq(eth_fields_of(f1).1);
    let b = mac_from_seq(eth_fields_of(f2).1);
    assert(eth_fields_of(f1).1.len() == 6 && eth_fields_of(f2).1.len() == 6);
    assert(a != b) by {
        if a == b {
            assert(a@ == b@);
        }
    }
    let learnt = mac_learn(m, a, p, t1);
    lemma_mac_learn_distinct(m, a, p, t1);
    law_mac_lookup_after_learn(m, a, p, t1, t2);
    let m1 = l2_on_packet(s, m, p, f1, t1).0;
    let d1 = mac_from_seq(eth_fields_of(f1).0);
    if eth_fields_of(f1).0 == broadcast_mac() {
        assert(m1 == learnt);
    } else if d1 == a {
        law_mac_lookup_after_learn(m, a, p, t1, t1);
        assert(m1 == learnt);
    } else {
        law_mac_lookup_keeps_others(learnt, d1, t1, a, t2);
        assert(m1 == mac_lookup(learnt, d1, t1).0);
    }
    assert(mac_distinct(m1));
    assert(mac_lookup(m1, a, t2).1 == Some(p));
    law_mac_learn_keeps_others(m1, b, q, t2, a, t2);
    assert(mac_from_seq(eth_fields_of(f2).0) == a);
}

/// A hub repeats a frame on every port but the one it came in by, once each, and
/// never back where it came from.
pub proof fn law_hub_repeats_on_every_other_port(s: IfaceRows, next_id: usize, in_idx: usize, p: Seq<u8>)
    requires
        ifaces_wf(s, next_id),
    ensures
        ({
            let acts = hub_on_packet(s, in_idx, p);
            &&& forall|k: int| 1 <= k < acts.len() ==> (#[trigger] acts[k] matches ActionV::Send(id, bytes) && id != in_idx && bytes == p && port_ids(s).contains(id))
            &&& forall|i: int| 0 <= i < s.len() && s[i].0 != in_idx ==> acts.contains(ActionV::Send(#[trigger] s[i].0, p))
            &&& acts.len() == other_ports(s, in_idx).len() + 1
        }),
{
    broadcast use vstd::seq_lib::group_filter_ensures;
    let acts = hub_on_packet(s, in_idx, p);
    let others = other_ports(s, in_idx);
    let ids = port_ids(s);
    assert forall|k: int| 1 <= k < acts.len() implies (#[trigger] acts[k] matches ActionV::Send(id, bytes) && id != in_idx && bytes == p && ids.contains(id)) by {
        assert(acts[k] == ActionV::Send(others[k - 1], p));
        assert(not_port(in_idx)(others[k - 1]));
        ids.lemma_filter_contains_rev(not_port(in_idx), others[k - 1]);
    }
    assert forall|i: int| 0 <= i < s.len() && s[i].0 != in_idx implies acts.contains(ActionV::Send(#[trigger] s[i].0, p)) by {
        assert(ids[i] == s[i].0);
        assert(not_port(in_idx)(ids[i]));
        assert(others.contains(ids[i]));
        let k = choose|k: int| 0 <= k < others.len() && others[k] == ids[i];
        assert(acts[k + 1] == ActionV::Send(others[k], p));
    }
}

/// The ports other than `in_idx`, in order.
pub fn other_port_ids(ifaces: &Interfaces, in_idx: usize) -> (r: Vec<usize>)
    ensures
        r@ == other_ports(ifaces@, in_idx),
{
    let ids = ifaces.ids();
    assert(ids@ == port_ids(ifaces@));
    let mut r: Vec<usize> = Vec::new();
    let mut i: usize = 0;
    while i < ids.len()
        invariant
            i <= ids@.len(),
            ids@ == port_ids(ifaces@),
            r@ == ids@.take(i as int).filter(not_port(in_idx)),
        decreases ids.len() - i,
    {
        assert(ids@.take(i + 1).drop_last() == ids@.take(i as int));
        reveal_with_fuel(Seq::<_>::filter, 1);
        if ids[i] != in_idx {
            r.push(ids[i]);
        }
        i = i + 1;
    }
    assert(ids@.take(ids@.len() as int) == ids@);
    r
}

/// Appends the sending of `p` on each of `ports`.
pub fn push_send_all(out: &mut Vec<Action>, ports: &Vec<usize>, p: &Vec<u8>)
    ensures
        actions_v(final(out)@) == actions_v(old(out)@) + send_all(ports@, p@),
{
    let ghost start = actions_v(out@);
    let mut i: usize = 0;
    while i < ports.len()
        invariant
            i <= ports@.len(),
            actions_v(out@) == start + send_all(ports@.take(i as int), p@),
        decreases ports.len() - i,
    {
        let copy = crate::net::bytes::copy_range(p.as_slice(), 0, p.len());
        assert(copy@ =~= p@);
        push_action(out, Action::Send { iface: ports[i], frame: copy });
        assert(ports@.take(i + 1) == ports@.take(i as int).push(ports@[i as int]));
        assert(send_all(ports@.take(i + 1), p@) =~= send_all(ports@.take(i as int), p@).push(ActionV::Send(ports@[i as int], p@)));
        i = i + 1;
    }
    assert(ports@.take(ports@.len() as int) == ports@);
}

/// Repeats the bytes `packet` received on port `in_idx` (see `hub_on_packet`).
pub fn hub_forward(ifaces: &Interfaces, in_idx: usize, packet: &Vec<u8>) -> (r: Vec<Action>)
    ensures
        actions_v(r@) == hub_on_packet(ifaces@, in_idx, packet@),
{
    let ports = other_port_ids(ifaces, in_idx);
    let mut out: Vec<Action> = Vec::new();
    push_action(&mut out, Action::Emit { kind: EventKind::HubFlooded { port_count: ports.len() } });
    assert(actions_v(out@) =~= seq![ActionV::Emit(EventKind::HubFlooded { port_count: ports@.len() as usize })]);
    push_send_all(&mut out, &ports, packet);
    out
}

/// Learns and forwards the bytes `packet` received on port `in_idx` at `now` (see
/// `l2_on_packet`).
pub fn learn_and_forward(ifaces: &Interfaces, table: &mut MacTable, in_idx: usize, packet: &Vec<u8>, now: u64) -> (r: Vec<Action>)
    requires
        old(table).wf(),
    ensures
        final(table).wf(),
        (final(table)@, actions_v(r@)) == l2_on_packet(ifaces@, old(table)@, in_idx, packet@, now),
{
    let mut out: Vec<Action> = Vec::new();
    assert(actions_v(out@) =~= Seq::<ActionV>::empty());
    let frame = match Ethernet::from_bytes(packet.as_slice()) {
        Ok(f) => f,
        Err(_) => return out,
    };
    table.learn_at(frame.source, in_idx, now);
    push_step(&mut out, EventKind::MacTableLearn { mac: frame.source, port: in_idx }, mac_table_view(table));
    let dst = frame.destination;
    if dst.is_broadcast() {
        let ports = other_port_ids(ifaces, in_idx);
        push_step(&mut out, EventKind::FrameFlooded { port_count: ports.len() }, mac_table_view(table));
        push_send_all(&mut out, &ports, packet);
        assert(actions_v(out@) =~= l2_on_packet(ifaces@, old(table)@, in_idx, packet@, now).1);
        return out;
    }
    let port = table.lookup_at(&dst, now);
    push_step(&mut out, EventKind::MacTableLookup { mac: dst, found: port.is_some() }, mac_table_view(table));
    match port {
        Some(out_idx) => {
            if out_idx != in_idx {
                push_step(&mut out, EventKind::FrameForwarded { out_port: out_idx }, mac_table_view(table));
                let copy = crate::net::bytes::copy_range(packet.as_slice(), 0, packet.len());
                assert(copy@ =~= packet@);
                push_action(&mut out, Action::Send { iface: out_idx, frame: copy });
            }
        },
        None => {
            let ports = other_port_ids(ifaces, in_idx);
            push_step(&mut out, EventKind::FrameFlooded { port_count: ports.len() }, mac_table_view(table));
            push_send_all(&mut out, &ports, packet);
        },
    }
    assert(actions_v(out@) =~= l2_on_packet(ifaces@, old(table)@, in_idx, packet@, now).1);
    out
}

} // verus!
