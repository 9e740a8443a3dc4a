//! What a device asks of the runtime around it after each packet or command: frames
//! to send on an interface, pause points to show, and log lines.
use vstd::prelude::*;
use crate::events::{EventKind, TableV, TableView};
use crate::net::bytes::le32;
use crate::net::ethernet::{crc32_spec, eth_bytes, eth_covered, Ethernet};

verus! {

/// One thing for the runtime to do, in the order the device produced them.
#[derive(Debug)]
pub enum Action {
    /// Send these bytes on this interface (nothing happens if it is not linked).
    Send { iface: usize, frame: Vec<u8> },
    /// A pause point: log it and, in step-by-step mode, wait until it is resumed.
    Step { kind: EventKind, tables: Vec<TableView> },
    /// A log line that never pauses.
    Emit { kind: EventKind },
}

/// An action as plain values.
pub enum ActionV {
    Send(usize, Seq<u8>),
    Step(EventKind, Seq<TableV>),
    Emit(EventKind),
}

/// The tables as plain values.
pub open spec fn tables_v(ts: Seq<TableView>) -> Seq<TableV> {
    ts.map_values(|t: TableView| t@)
}

impl View for Action {
    type V = ActionV;

    open spec fn view(&self) -> ActionV {
        match self {
            Action::Send { iface, frame } => ActionV::Send(*iface, frame@),
            Action::Step { kind, tables } => ActionV::Step(*kind, tables_v(tables@)),
            Action::Emit { kind } => ActionV::Emit(*kind),
        }
    }
}

/// The actions as plain values.
pub open spec fn actions_v(a: Seq<Action>) -> Seq<ActionV> {
    a.map_values(|x: Action| x@)
}

/// The wire form of the frame that `Ethernet::new` builds from these fields: header,
/// payload, and the CRC-32 of both.
pub open spec fn frame_bytes(dst: Seq<u8>, src: Seq<u8>, ethertype: u16, payload: Seq<u8>) -> Seq<u8> {
    let covered = eth_covered((dst, src, ethertype, payload, 0u32));
    covered + le32(crc32_spec(covered))
}

/// A frame built by `Ethernet::new` has the wire form `frame_bytes` of its fields.
pub proof fn lemma_new_frame_bytes(f: Ethernet)
    requires
        f.fcs == crate::net::ethernet::eth_fcs(f@),
    ensures
        eth_bytes(f@) == frame_bytes(f.destination@, f.source@, f.ethertype.0, f.payload@),
{
    assert(eth_covered(f@) == eth_covered((f.destination@, f.source@, f.ethertype.0, f.payload@, 0u32)));
}

/// Appends an action.
pub fn push_action(out: &mut Vec<Action>, a: Action)
    ensures
        actions_v(final(out)@) == actions_v(old(out)@).push(a@),
{
    let ghost before = out@;
    out.push(a);
    assert(actions_v(out@) =~= actions_v(before).push(a@));
}

/// Appends the sending of a frame built by `Ethernet::new` on interface `iface`.
pub fn push_send(out: &mut Vec<Action>, iface: usize, frame: &Ethernet)
    requires
        frame.fcs == crate::net::ethernet::eth_fcs(frame@),
    ensures
        actions_v(final(out)@) == actions_v(old(out)@).push(
            ActionV::Send(
                iface,
                frame_bytes(frame.destination@, frame.source@, frame.ethertype.0, frame.payload@),
            ),
        ),
{
    proof {
        lemma_new_frame_bytes(*frame);
    }
    push_action(out, Action::Send { iface, frame: frame.to_bytes() });
}

/// Appends a pause point with one table.
pub fn push_step(out: &mut Vec<Action>, kind: EventKind, table: TableView)
    ensures
        actions_v(final(out)@) == actions_v(old(out)@).push(ActionV::Step(kind, seq![table@])),
{
    let mut tables: Vec<TableView> = Vec::new();
    tables.push(table);
    assert(tables_v(tables@) =~= seq![table@]);
    push_action(out, Action::Step { kind, tables });
}

/// Appends a pause point with two tables.
pub fn push_step2(out: &mut Vec<Action>, kind: EventKind, first: TableView, second: TableView)
    ensures
        actions_v(final(out)@) == actions_v(old(out)@).push(ActionV::Step(kind, seq![first@, second@])),
{
    let mut tables: Vec<TableView> = Vec::new();
    tables.push(first);
    tables.push(second);
    assert(tables_v(tables@) =~= seq![first@, second@]);
    push_action(out, Action::Step { kind, tables });
}

} // verus!
