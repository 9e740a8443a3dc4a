//! What the devices report as they work: events, the tables they show at each
//! pause, and the text that a log or a step-by-step view prints for them.
use vstd::prelude::*;
use crate::utils::addrs::ip_addr::{ipv4_text, Ipv4Addr};
use crate::utils::addrs::mac_addr::{mac_text, MacAddr};
use crate::utils::text::{dec_usize, join, push_join, push_str, push_usize};

verus! {

/// Something a device did or saw.
#[derive(Debug, Clone)]
pub enum EventKind {
    ArpLookup { ip: Ipv4Addr, found: bool },
    ArpRequestSent { target_ip: Ipv4Addr },
    ArpRequestReceived { sender_ip: Ipv4Addr, sender_mac: MacAddr },
    ArpReplySent { target_ip: Ipv4Addr, mac: MacAddr },
    ArpReplyReceived { sender_ip: Ipv4Addr, sender_mac: MacAddr },
    ArpTableUpdate { ip: Ipv4Addr, mac: MacAddr },
    IcmpEchoRequest { src: Ipv4Addr, dst: Ipv4Addr },
    IcmpEchoReply { src: Ipv4Addr, dst: Ipv4Addr },
    FrameSent { iface: String, dst_mac: MacAddr },
    FrameReceived { iface: String, src_mac: MacAddr },
    FrameDropped { reason: String },
    MacTableLearn { mac: MacAddr, port: usize },
    MacTableLookup { mac: MacAddr, found: bool },
    FrameFlooded { port_count: usize },
    FrameForwarded { out_port: usize },
    HubFlooded { port_count: usize },
    RouteFound { dst: Ipv4Addr, next_hop: Ipv4Addr, iface: String },
    RouteNotFound { dst: Ipv4Addr },
    TtlExpired { src: Ipv4Addr, dst: Ipv4Addr },
    Info { message: String },
}

/// The one-line description of an event.
pub open spec fn event_text(k: EventKind) -> Seq<char> {
    match k {
        EventKind::ArpLookup { ip, found } => "ARP lookup "@ + ipv4_text(ip@) + if found {
            " -> hit"@
        } else {
            " -> miss"@
        },
        EventKind::ArpRequestSent { target_ip } => "ARP request: who has "@ + ipv4_text(target_ip@)
            + "?"@,
        EventKind::ArpRequestReceived { sender_ip, sender_mac } => "ARP request from "@ + ipv4_text(
            sender_ip@,
        ) + " ("@ + mac_text(sender_mac@) + ")"@,
        EventKind::ArpReplySent { target_ip, mac } => "ARP reply: "@ + ipv4_text(target_ip@)
            + " is at "@ + mac_text(mac@),
        EventKind::ArpReplyReceived { sender_ip, sender_mac } => "ARP reply: "@ + ipv4_text(
            sender_ip@,
        ) + " is at "@ + mac_text(sender_mac@),
        EventKind::ArpTableUpdate { ip, mac } => "ARP table updated: "@ + ipv4_text(ip@) + " -> "@
            + mac_text(mac@),
        EventKind::IcmpEchoRequest { src, dst } => "ICMP echo request "@ + ipv4_text(src@) + " -> "@
            + ipv4_text(dst@),
        EventKind::IcmpEchoReply { src, dst } => "ICMP echo reply "@ + ipv4_text(src@) + " -> "@
            + ipv4_text(dst@),
        EventKind::FrameSent { iface, dst_mac } => "frame sent on "@ + iface@ + " -> "@ + mac_text(
            dst_mac@,
        ),
        EventKind::FrameReceived { iface, src_mac } => "frame received on "@ + iface@ + " from "@
            + mac_text(src_mac@),
        EventKind::FrameDropped { reason } => "frame dropped: "@ + reason@,
        EventKind::MacTableLearn { mac, port } => "MAC table: learned "@ + mac_text(mac@)
            + " on port "@ + dec_usize(port),
        EventKind::MacTableLookup { mac, found } => "MAC lookup "@ + mac_text(mac@) + if found {
            " -> hit"@
        } else {
            " -> miss"@
        },
        EventKind::FrameFlooded { port_count } => "flooding frame to "@ + dec_usize(port_count)
            + " ports"@,
        EventKind::FrameForwarded { out_port } => "forwarding to port "@ + dec_usize(out_port),
        EventKind::HubFlooded { port_count } => "hub: repeating to "@ + dec_usize(port_count)
            + " ports"@,
        EventKind::RouteFound { dst, next_hop, iface } => "route for "@ + ipv4_text(dst@)
            + ": via "@ + ipv4_text(next_hop@) + " on "@ + iface@,
        EventKind::RouteNotFound { dst } => "no route to "@ + ipv4_text(dst@),
        EventKind::TtlExpired { src, dst } => "TTL expired: "@ + ipv4_text(src@) + " -> "@
            + ipv4_text(dst@),
        EventKind::Info { message } => message@,
    }
}

impl EventKind {
    /// The one-line description of the event.
    pub fn to_string(&self) -> (r: String)
        ensures
            r@ == event_text(*self),
    {
        let mut s = String::new();
        match self {
            EventKind::ArpLookup { ip, found } => {
                push_str(&mut s, "ARP lookup ");
                push_str(&mut s, ip.to_string().as_str());
                if *found {
                    push_str(&mut s, " -> hit");
                } else {
                    push_str(&mut s, " -> miss");
                }
            },
            EventKind::ArpRequestSent { target_ip } => {
                push_str(&mut s, "ARP request: who has ");
                push_str(&mut s, target_ip.to_string().as_str());
                push_str(&mut s, "?");
            },
            EventKind::ArpRequestReceived { sender_ip, sender_mac } => {
                push_str(&mut s, "ARP request from ");
                push_str(&mut s, sender_ip.to_string().as_str());
                push_str(&mut s, " (");
                push_str(&mut s, sender_mac.to_string().as_str());
                push_str(&mut s, ")");
            },
            EventKind::ArpReplySent { target_ip, mac } => {
                push_str(&mut s, "ARP reply: ");
                push_str(&mut s, target_ip.to_string().as_str());
                push_str(&mut s, " is at ");
                push_str(&mut s, mac.to_string().as_str());
            },
            EventKind::ArpReplyReceived { sender_ip, sender_mac } => {
                push_str(&mut s, "ARP reply: ");
                push_str(&mut s, sender_ip.to_string().as_str());
                push_str(&mut s, " is at ");
                push_str(&mut s, sender_mac.to_string().as_str());
            },
            EventKind::ArpTableUpdate { ip, mac } => {
                push_str(&mut s, "ARP table updated: ");
                push_str(&mut s, ip.to_string().as_str());
                push_str(&mut s, " -> ");
                push_str(&mut s, mac.to_string().as_str());
            },
            EventKind::IcmpEchoRequest { src, dst } => {
                push_str(&mut s, "ICMP echo request ");
                push_str(&mut s, src.to_string().as_str());
                push_str(&mut s, " -> ");
                push_str(&mut s, dst.to_string().as_str());
            },
            EventKind::IcmpEchoReply { src, dst } => {
                push_str(&mut s, "ICMP echo reply ");
                push_str(&mut s, src.to_string().as_str());
                push_str(&mut s, " -> ");
                push_str(&mut s, dst.to_string().as_str());
            },
            EventKind::FrameSent { iface, dst_mac } => {
                push_str(&mut s, "frame sent on ");
                push_str(&mut s, iface.as_str());
                push_str(&mut s, " -> ");
                push_str(&mut s, dst_mac.to_string().as_str());
            },
            EventKind::FrameReceived { iface, src_mac } => {
                push_str(&mut s, "frame received on ");
                push_str(&mut s, iface.as_str());
                push_str(&mut s, " from ");
                push_str(&mut s, src_mac.to_string().as_str());
            },
            EventKind::FrameDropped { reason } => {
                push_str(&mut s, "frame dropped: ");
                push_str(&mut s, reason.as_str());
            },
            EventKind::MacTableLearn { mac, port } => {
                push_str(&mut s, "MAC table: learned ");
                push_str(&mut s, mac.to_string().as_str());
                push_str(&mut s, " on port ");
                push_usize(&mut s, *port);
            },
            EventKind::MacTableLookup { mac, found } => {
                push_str(&mut s, "MAC lookup ");
                push_str(&mut s, mac.to_string().as_str());
                if *found {
                    push_str(&mut s, " -> hit");
                } else {
                    push_str(&mut s, " -> miss");
                }
            },
            EventKind::FrameFlooded { port_count } => {
                push_str(&mut s, "flooding frame to ");
                push_usize(&mut s, *port_count);
                push_str(&mut s, " ports");
            },
            EventKind::FrameForwarded { out_port } => {
                push_str(&mut s, "forwarding to port ");
                push_usize(&mut s, *out_port);
            },
            EventKind::HubFlooded { port_count } => {
                push_str(&mut s, "hub: repeating to ");
                push_usize(&mut s, *port_count);
                push_str(&mut s, " ports");
            },
            EventKind::RouteFound { dst, next_hop, iface } => {
                push_str(&mut s, "route for ");
                push_str(&mut s, dst.to_string().as_str());
                push_str(&mut s, ": via ");
                push_str(&mut s, next_hop.to_string().as_str());
                push_str(&mut s, " on ");
                push_str(&mut s, iface.as_str());
            },
            EventKind::RouteNotFound { dst } => {
                push_str(&mut s, "no route to ");
                push_str(&mut s, dst.to_string().as_str());
            },
            EventKind::TtlExpired { src, dst } => {
                push_str(&mut s, "TTL expired: ");
                push_str(&mut s, src.to_string().as_str());
                push_str(&mut s, " -> ");
                push_str(&mut s, dst.to_string().as_str());
            },
            EventKind::Info { message } => {
                push_str(&mut s, message.as_str());
            },
        }
        assert(s@ =~= event_text(*self));
        s
    }
}

/// A table that a device shows: a name, column headers and rows of cells.
#[derive(Debug, Clone)]
pub struct TableView {
    pub name: String,
    pub headers: Vec<String>,
    pub rows: Vec<Vec<String>>,
}

/// The characters of each string.
pub open spec fn cells(v: Seq<String>) -> Seq<Seq<char>> {
    v.map_values(|c: String| c@)
}

/// A table as plain text values: name, headers, and the cells of each row.
pub type TableV = (Seq<char>, Seq<Seq<char>>, Seq<Seq<Seq<char>>>);

impl View for TableView {
    type V = TableV;

    open spec fn view(&self) -> TableV {
        (self.name@, cells(self.headers@), self.rows@.map_values(|r: Vec<String>| cells(r@)))
    }
}

/// The printed rows: each indented by four spaces, cells separated by ` | `, one per line.
pub open spec fn rows_text(rows: Seq<Vec<String>>) -> Seq<char>
    decreases rows.len(),
{
    if rows.len() == 0 {
        Seq::empty()
    } else {
        rows_text(rows.drop_last()) + "    "@ + join(cells(rows.last()@), " | "@) + "\n"@
    }
}

/// The printed table: its name, then `(empty)` or the headers and the rows.
pub open spec fn table_text(t: TableView) -> Seq<char> {
    "  "@ + t.name@ + ":\n"@ + if t.rows@.len() == 0 {
        "    (empty)\n"@
    } else {
        "    "@ + join(cells(t.headers@), " | "@) + "\n"@ + rows_text(t.rows@)
    }
}

impl TableView {
    /// The printed table.
    pub fn to_string(&self) -> (r: String)
        ensures
            r@ == table_text(*self),
    {
        let mut s = String::new();
        push_str(&mut s, "  ");
        push_str(&mut s, self.name.as_str());
        push_str(&mut s, ":\n");
        if self.rows.len() == 0 {
            push_str(&mut s, "    (empty)\n");
            assert(s@ =~= table_text(*self));
            return s;
        }
        push_str(&mut s, "    ");
        push_join(&mut s, &self.headers, " | ");
        push_str(&mut s, "\n");
        let ghost head = s@;
        let mut i: usize = 0;
        while i < self.rows.len()
            invariant
                i <= self.rows@.len(),
                s@ == head + rows_text(self.rows@.take(i as int)),
            decreases self.rows.len() - i,
        {
            assert(self.rows@.take(i as int + 1).drop_last() == self.rows@.take(i as int));
            push_str(&mut s, "    ");
            push_join(&mut s, &self.rows[i], " | ");
            push_str(&mut s, "\n");
            i = i + 1;
        }
        assert(self.rows@.take(self.rows@.len() as int) == self.rows@);
        assert(s@ =~= table_text(*self));
        s
    }
}

/// One pause point: the device, what happened there, and the tables it shows.
#[derive(Debug, Clone)]
pub struct Step {
    pub device: String,
    pub kind: EventKind,
    pub tables: Vec<TableView>,
}

/// The printed tables, one after the other.
pub open spec fn tables_text(ts: Seq<TableView>) -> Seq<char>
    decreases ts.len(),
{
    if ts.len() == 0 {
        Seq::empty()
    } else {
        tables_text(ts.drop_last()) + table_text(ts.last())
    }
}

/// The printed step: `[device] event` on a line, then its tables.
pub open spec fn step_text(s: Step) -> Seq<char> {
    "["@ + s.device@ + "] "@ + event_text(s.kind) + "\n"@ + tables_text(s.tables@)
}

impl Step {
    /// The printed step.
    pub fn to_string(&self) -> (r: String)
        ensures
            r@ == step_text(*self),
    {
        let mut s = String::new();
        push_str(&mut s, "[");
        push_str(&mut s, self.device.as_str());
        push_str(&mut s, "] ");
        push_str(&mut s, self.kind.to_string().as_str());
        push_str(&mut s, "\n");
        let ghost head = s@;
        let mut i: usize = 0;
        while i < self.tables.len()
            invariant
                i <= self.tables@.len(),
                s@ == head + tables_text(self.tables@.take(i as int)),
            decreases self.tables.len() - i,
        {
            assert(self.tables@.take(i as int + 1).drop_last() == self.tables@.take(i as int));
            push_str(&mut s, self.tables[i].to_string().as_str());
            i = i + 1;
        }
        assert(self.tables@.take(self.tables@.len() as int) == self.tables@);
        assert(s@ =~= step_text(*self));
        s
    }
}

} // verus!
