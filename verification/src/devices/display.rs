//! What the devices show: their tables at each pause point, and the text that their
//! console commands print.
use vstd::prelude::*;
use crate::events::{cells, TableV, TableView};
use crate::utils::addrs::ip_addr::{ipv4_text, u32_be, Ipv4Addr};
use crate::utils::addrs::mac_addr::{mac_text, MacAddr};
use crate::utils::interfaces::{Iface, IfaceRows, IfaceView, Interfaces};
use crate::utils::tables::arp_table::{arp_listing, ArpRow, ArpTable};
use crate::utils::clock::age;
use crate::utils::tables::mac_table::{mac_listing, MacTable};
use crate::utils::tables::routing_table::{count_ones, ones, Route, RoutingTable};
use crate::utils::text::{dec, dec_usize, push_dec, push_str, push_usize, string_of};

verus! {

// ------------------------------------------------------------------
// Small builders
// ------------------------------------------------------------------

/// A list of two strings.
fn strings2(a: String, b: String) -> (r: Vec<String>)
    ensures
        cells(r@) == seq![a@, b@],
{
    let mut r: Vec<String> = Vec::new();
    r.push(a);
    r.push(b);
    assert(cells(r@) =~= seq![a@, b@]);
    r
}

/// A list of three strings.
fn strings3(a: String, b: String, c: String) -> (r: Vec<String>)
    ensures
        cells(r@) == seq![a@, b@, c@],
{
    let mut r: Vec<String> = Vec::new();
    r.push(a);
    r.push(b);
    r.push(c);
    assert(cells(r@) =~= seq![a@, b@, c@]);
    r
}

/// Whole seconds in `ns` nanoseconds, as text.
pub open spec fn secs_text(ns: u64) -> Seq<char> {
    dec((ns / 1_000_000_000) as nat)
}

/// Appends the whole seconds in `ns` nanoseconds.
fn push_secs(s: &mut String, ns: u64)
    ensures
        final(s)@ == old(s)@ + secs_text(ns),
{
    push_dec(s, ns / 1_000_000_000);
}

/// Appends a network as `a.b.c.d/len`, the length being the one bits of the mask.
fn push_network(s: &mut String, network: u32, mask: u32)
    ensures
        final(s)@ == old(s)@ + ipv4_text(u32_be(network)) + "/"@ + dec(ones(mask)),
{
    push_str(s, Ipv4Addr::from_u32(network).to_string().as_str());
    push_str(s, "/");
    let n = count_ones(mask);
    push_dec(s, n as u64);
}

/// The cells of the rows after one more row.
proof fn lemma_rows_push(before: Seq<Vec<String>>, row: Vec<String>)
    ensures
        before.push(row).map_values(|r: Vec<String>| cells(r@)) == before.map_values(
            |r: Vec<String>| cells(r@),
        ).push(cells(row@)),
{
    assert(before.push(row).map_values(|r: Vec<String>| cells(r@)) =~= before.map_values(
        |r: Vec<String>| cells(r@),
    ).push(cells(row@)));
}

// ------------------------------------------------------------------
// Tables shown at pause points
// ------------------------------------------------------------------

/// A row of the ARP table view: address, hardware address, age in seconds.
pub open spec fn arp_row_v(e: (Ipv4Addr, MacAddr, u64)) -> Seq<Seq<char>> {
    seq![ipv4_text(e.0@), mac_text(e.1@), secs_text(e.2) + "s"@]
}

/// The ARP table view of a listing.
pub open spec fn arp_table_v(l: Seq<(Ipv4Addr, MacAddr, u64)>) -> TableV {
    ("ARP Table"@, seq!["IP"@, "MAC"@, "Age"@], l.map_values(|e: (Ipv4Addr, MacAddr, u64)| arp_row_v(e)))
}

/// The ARP table as shown at time `now`.
pub fn arp_table_view(t: &ArpTable, now: u64) -> (r: TableView)
    ensures
        r@ == arp_table_v(arp_listing(t@, now)),
{
    let l = t.entries_at(now);
    let mut rows: Vec<Vec<String>> = Vec::new();
    let mut i: usize = 0;
    while i < l.len()
        invariant
            i <= l@.len(),
            rows@.map_values(|r: Vec<String>| cells(r@)) == l@.take(i as int).map_values(
                |e: (Ipv4Addr, MacAddr, u64)| arp_row_v(e),
            ),
        decreases l.len() - i,
    {
        let e = l[i];
        let mut age = String::new();
        push_secs(&mut age, e.2);
        push_str(&mut age, "s");
        let row = strings3(e.0.to_string(), e.1.to_string(), age);
        assert(cells(row@) == arp_row_v(e));
        proof {
            lemma_rows_push(rows@, row);
        }
        rows.push(row);
        assert(l@.take(i + 1) == l@.take(i as int).push(e));
        assert(l@.take(i + 1).map_values(|e: (Ipv4Addr, MacAddr, u64)| arp_row_v(e)) =~= l@.take(
            i as int,
        ).map_values(|e: (Ipv4Addr, MacAddr, u64)| arp_row_v(e)).push(arp_row_v(e)));
        i = i + 1;
    }
    assert(l@.take(l@.len() as int) == l@);
    let headers = strings3(string_of("IP"), string_of("MAC"), string_of("Age"));
    TableView { name: string_of("ARP Table"), headers, rows }
}

/// A row of the MAC table view: address and `port N`.
pub open spec fn mac_row_v(e: (MacAddr, usize)) -> Seq<Seq<char>> {
    seq![mac_text(e.0@), "port "@ + dec_usize(e.1)]
}

/// The MAC table view of a listing.
pub open spec fn mac_table_v(l: Seq<(MacAddr, usize)>) -> TableV {
    ("MAC Table"@, seq!["MAC"@, "Port"@], l.map_values(|e: (MacAddr, usize)| mac_row_v(e)))
}

/// The MAC address table as shown.
pub fn mac_table_view(t: &MacTable) -> (r: TableView)
    ensures
        r@ == mac_table_v(mac_listing(t@)),
{
    let l = t.entries();
    let mut rows: Vec<Vec<String>> = Vec::new();
    let mut i: usize = 0;
    while i < l.len()
        invariant
            i <= l@.len(),
            rows@.map_values(|r: Vec<String>| cells(r@)) == l@.take(i as int).map_values(
                |e: (MacAddr, usize)| mac_row_v(e),
            ),
        decreases l.len() - i,
    {
        let e = l[i];
        let mut port = string_of("port ");
        push_usize(&mut port, e.1);
        let row = strings2(e.0.to_string(), port);
        assert(cells(row@) == mac_row_v(e));
        proof {
            lemma_rows_push(rows@, row);
        }
        rows.push(row);
        assert(l@.take(i + 1) == l@.take(i as int).push(e));
        assert(l@.take(i + 1).map_values(|e: (MacAddr, usize)| mac_row_v(e)) =~= l@.take(
            i as int,
        ).map_values(|e: (MacAddr, usize)| mac_row_v(e)).push(mac_row_v(e)));
        i = i + 1;
    }
    assert(l@.take(l@.len() as int) == l@);
    let headers = strings2(string_of("MAC"), string_of("Port"));
    TableView { name: string_of("MAC Table"), headers, rows }
}

/// A row of the routing table view: `network/len`, next hop, interface name.
pub open spec fn route_row_v(r: Route) -> Seq<Seq<char>> {
    seq![ipv4_text(u32_be(r.network)) + "/"@ + dec(ones(r.mask)), ipv4_text(r.next_hop@), r.iface_name@]
}

/// The routing table view of a list of routes.
pub open spec fn routing_table_v(rs: Seq<Route>) -> TableV {
    (
        "Routing Table"@,
        seq!["Network"@, "Next Hop"@, "Interface"@],
        rs.map_values(|r: Route| route_row_v(r)),
    )
}

/// The routing table as shown.
pub fn routing_table_view(t: &RoutingTable) -> (r: TableView)
    ensures
        r@ == routing_table_v(t@),
{
    let l = t.entries();
    let mut rows: Vec<Vec<String>> = Vec::new();
    let mut i: usize = 0;
    while i < l.len()
        invariant
            i <= l@.len(),
            rows@.map_values(|r: Vec<String>| cells(r@)) == l@.take(i as int).map_values(
                |r: Route| route_row_v(r),
            ),
        decreases l.len() - i,
    {
        let route = &l[i];
        let mut net = String::new();
        push_network(&mut net, route.network, route.mask);
        let row = strings3(net, route.next_hop.to_string(), route.iface_name.clone());
        assert(cells(row@) == route_row_v(*route));
        proof {
            lemma_rows_push(rows@, row);
        }
        rows.push(row);
        assert(l@.take(i + 1) == l@.take(i as int).push(*route));
        assert(l@.take(i + 1).map_values(|r: Route| route_row_v(r)) =~= l@.take(i as int).map_values(
            |r: Route| route_row_v(r),
        ).push(route_row_v(*route)));
        i = i + 1;
    }
    assert(l@.take(l@.len() as int) == l@);
    let headers = strings3(string_of("Network"), string_of("Next Hop"), string_of("Interface"));
    TableView { name: string_of("Routing Table"), headers, rows }
}

// ------------------------------------------------------------------
// Console output
// ------------------------------------------------------------------

/// The line of the `arp` command for one entry.
pub open spec fn arp_line(e: (Ipv4Addr, MacAddr, u64)) -> Seq<char> {
    "  "@ + ipv4_text(e.0@) + " -> "@ + mac_text(e.1@) + " ("@ + secs_text(e.2) + "s ago)\n"@
}

/// The lines of the `arp` command, one per entry.
pub open spec fn arp_lines(l: Seq<(Ipv4Addr, MacAddr, u64)>) -> Seq<char>
    decreases l.len(),
{
    if l.len() == 0 {
        Seq::empty()
    } else {
        arp_lines(l.drop_last()) + arp_line(l.last())
    }
}

fn arp_line_output(e: (Ipv4Addr, MacAddr, u64)) -> (r: String)
    ensures
        r@ == arp_line(e),
{
    let mut out = string_of("  ");
    push_str(&mut out, e.0.to_string().as_str());
    push_str(&mut out, " -> ");
    push_str(&mut out, e.1.to_string().as_str());
    push_str(&mut out, " (");
    push_secs(&mut out, e.2);
    push_str(&mut out, "s ago)\n");
    out
}

/// The output of the `arp` command.
pub open spec fn arp_text(l: Seq<(Ipv4Addr, MacAddr, u64)>) -> Seq<char> {
    "ARP Table:\n"@ + if l.len() == 0 {
        "  (empty)\n"@
    } else {
        arp_lines(l)
    }
}

/// Pieces of text one after the other.
pub open spec fn joined(p: Seq<Seq<char>>) -> Seq<char>
    decreases p.len(),
{
    if p.len() == 0 {
        Seq::empty()
    } else {
        joined(p.drop_last()) + p.last()
    }
}

/// Where piece `k` starts in `joined(p)`: after the pieces before it.
pub open spec fn piece_start(p: Seq<Seq<char>>, k: int) -> int
    decreases k,
{
    if k <= 0 {
        0
    } else {
        piece_start(p, k - 1) + p[k - 1].len()
    }
}

proof fn lemma_piece_start_prefix(p: Seq<Seq<char>>, q: Seq<Seq<char>>, k: int)
    requires
        0 <= k <= p.len(),
        k <= q.len(),
        forall|j: int| 0 <= j < k ==> p[j] == q[j],
    ensures
        piece_start(p, k) == piece_start(q, k),
    decreases k,
{
    if k > 0 {
        lemma_piece_start_prefix(p, q, k - 1);
    }
}

proof fn lemma_piece_start_grows(p: Seq<Seq<char>>, j: int, k: int)
    requires
        0 <= j <= k,
    ensures
        0 <= piece_start(p, j) <= piece_start(p, k),
    decreases k,
{
    if k > j {
        lemma_piece_start_grows(p, j, k - 1);
    } else if k > 0 {
        lemma_piece_start_grows(p, 0, k - 1);
    }
}

/// Joined pieces are laid out one after the other: piece `k` is what stands between
/// its start and the next piece's start, and the text ends after the last piece.
pub proof fn law_joined_layout(p: Seq<Seq<char>>)
    ensures
        joined(p).len() == piece_start(p, p.len() as int),
        forall|k: int| 0 <= k < p.len() ==> joined(p).subrange(piece_start(p, k), piece_start(p, k + 1)) == #[trigger] p[k],
    decreases p.len(),
{
    if p.len() > 0 {
        let n = p.len() - 1;
        let q = p.drop_last();
        law_joined_layout(q);
        let a = joined(q);
        let b = p.last();
        assert forall|k: int| 0 <= k <= n implies piece_start(p, k) == piece_start(q, k) by {
            lemma_piece_start_prefix(p, q, k);
        }
        assert forall|k: int| 0 <= k < p.len() implies joined(p).subrange(piece_start(p, k), piece_start(p, k + 1))
            == #[trigger] p[k] by {
            if k < n {
                assert(q[k] == p[k]);
                lemma_piece_start_grows(q, k, k + 1);
                lemma_piece_start_grows(q, k + 1, n);
                assert((a + b).subrange(piece_start(p, k), piece_start(p, k + 1)) =~= a.subrange(
                    piece_start(p, k),
                    piece_start(p, k + 1),
                ));
            } else {
                assert((a + b).subrange(a.len() as int, (a.len() + b.len()) as int) =~= b);
            }
        }
    }
}

/// The line that the `arp` command shows for an entry: two spaces, the address,
/// ` -> `, the hardware address, then its age in whole seconds as ` (Ns ago)`.
pub open spec fn arp_entry_text(e: (Ipv4Addr, MacAddr, u64)) -> Seq<char> {
    "  "@ + ipv4_text(e.0@) + " -> "@ + mac_text(e.1@) + " ("@ + dec((e.2 / 1_000_000_000) as nat) + "s ago)\n"@
}

/// Where the line of entry `k` starts in the output of the `arp` command: after the
/// 11-character header and the lines of the entries before it.
pub open spec fn arp_entry_pos(l: Seq<(Ipv4Addr, MacAddr, u64)>, k: int) -> int
    decreases k,
{
    if k <= 0 {
        11
    } else {
        arp_entry_pos(l, k - 1) + arp_entry_text(l[k - 1]).len()
    }
}

/// Positions depend only on the entries before them.
proof fn lemma_arp_entry_pos_prefix(l: Seq<(Ipv4Addr, MacAddr, u64)>, m: Seq<(Ipv4Addr, MacAddr, u64)>, k: int)
    requires
        0 <= k <= l.len(),
        k <= m.len(),
        forall|j: int| 0 <= j < k ==> l[j] == m[j],
    ensures
        arp_entry_pos(l, k) == arp_entry_pos(m, k),
    decreases k,
{
    if k > 0 {
        lemma_arp_entry_pos_prefix(l, m, k - 1);
    }
}

/// Positions never go down.
proof fn lemma_arp_entry_pos_grows(l: Seq<(Ipv4Addr, MacAddr, u64)>, j: int, k: int)
    requires
        0 <= j <= k,
    ensures
        11 <= arp_entry_pos(l, j) <= arp_entry_pos(l, k),
    decreases k,
{
    if k > j {
        lemma_arp_entry_pos_grows(l, j, k - 1);
    } else if k > 0 {
        lemma_arp_entry_pos_grows(l, 0, k - 1);
    }
}

/// The lines of the `arp` command are the entry lines one after the other.
proof fn lemma_arp_lines_layout(l: Seq<(Ipv4Addr, MacAddr, u64)>)
    ensures
        arp_lines(l).len() + 11 == arp_entry_pos(l, l.len() as int),
        forall|k: int|
            0 <= k < l.len() ==> arp_lines(l).subrange(arp_entry_pos(l, k) - 11, arp_entry_pos(l, k + 1) - 11)
                == #[trigger] arp_entry_text(l[k]),
    decreases l.len(),
{
    if l.len() > 0 {
        let n = l.len() - 1;
        let m = l.drop_last();
        lemma_arp_lines_layout(m);
        let a = arp_lines(m);
        let b = arp_line(l.last());
        assert(b == arp_entry_text(l[n]));
        assert forall|k: int| 0 <= k <= n implies arp_entry_pos(l, k) == arp_entry_pos(m, k) by {
            lemma_arp_entry_pos_prefix(l, m, k);
        }
        assert(arp_entry_pos(l, n + 1) == arp_entry_pos(l, n) + b.len());
        assert forall|k: int| 0 <= k < l.len() implies arp_lines(l).subrange(arp_entry_pos(l, k) - 11, arp_entry_pos(l, k + 1) - 11)
            == #[trigger] arp_entry_text(l[k]) by {
            if k < n {
                assert(m[k] == l[k]);
                lemma_arp_entry_pos_grows(m, k, k + 1);
                lemma_arp_entry_pos_grows(m, k + 1, n);
                assert(arp_entry_text(m[k]) == a.subrange(arp_entry_pos(m, k) - 11, arp_entry_pos(m, k + 1) - 11));
                assert((a + b).subrange(arp_entry_pos(l, k) - 11, arp_entry_pos(l, k + 1) - 11) =~= a.subrange(
                    arp_entry_pos(l, k) - 11,
                    arp_entry_pos(l, k + 1) - 11,
                ));
            } else {
                assert((a + b).subrange(a.len() as int, (a.len() + b.len()) as int) =~= b);
            }
        }
    }
}

/// The `arp` command lists every entry, in order, and nothing else: its output is the
/// header `ARP Table:` then, for each entry, the line naming its address, hardware
/// address and age, one after the other to the end; an empty table shows `(empty)`.
pub proof fn law_arp_output_lists_every_entry(l: Seq<(Ipv4Addr, MacAddr, u64)>)
    ensures
        arp_text(l).take(11) == "ARP Table:\n"@,
        l.len() == 0 ==> arp_text(l) == "ARP Table:\n  (empty)\n"@,
        l.len() > 0 ==> arp_text(l).len() == arp_entry_pos(l, l.len() as int),
        l.len() > 0 ==> forall|k: int|
            0 <= k < l.len() ==> arp_text(l).subrange(arp_entry_pos(l, k), arp_entry_pos(l, k + 1))
                == #[trigger] arp_entry_text(l[k]),
{
    reveal_strlit("ARP Table:\n");
    let h = "ARP Table:\n"@;
    assert(h.len() == 11);
    assert(arp_text(l).take(11) =~= h);
    if l.len() == 0 {
        reveal_strlit("  (empty)\n");
        reveal_strlit("ARP Table:\n  (empty)\n");
        assert(arp_text(l) =~= "ARP Table:\n  (empty)\n"@);
    }
    if l.len() > 0 {
        lemma_arp_lines_layout(l);
        let t = arp_lines(l);
        assert forall|k: int| 0 <= k < l.len() implies arp_text(l).subrange(arp_entry_pos(l, k), arp_entry_pos(l, k + 1))
            == #[trigger] arp_entry_text(l[k]) by {
            lemma_arp_entry_pos_grows(l, k, k + 1);
            lemma_arp_entry_pos_grows(l, k + 1, l.len() as int);
            assert((h + t).subrange(arp_entry_pos(l, k), arp_entry_pos(l, k + 1)) =~= t.subrange(
                arp_entry_pos(l, k) - 11,
                arp_entry_pos(l, k + 1) - 11,
            ));
        }
    }
}

/// The `arp` command run at time `now` on an ARP table shows every entry of the
/// table, in the table's order: entry `k`'s line names its address and hardware
/// address and the whole seconds since it was learnt, and the output ends after the
/// last entry's line.
pub proof fn law_arp_command_shows_every_entry(s: Seq<ArpRow>, now: u64)
    ensures
        s.len() > 0 ==> arp_text(arp_listing(s, now)).len() == arp_entry_pos(arp_listing(s, now), s.len() as int),
        forall|k: int|
            0 <= k < s.len() ==> arp_text(arp_listing(s, now)).subrange(
                arp_entry_pos(arp_listing(s, now), k),
                arp_entry_pos(arp_listing(s, now), k + 1),
            ) == "  "@ + ipv4_text((#[trigger] s[k]).0@) + " -> "@ + mac_text(s[k].1@) + " ("@ + dec(
                (age(now, s[k].2) / 1_000_000_000) as nat,
            ) + "s ago)\n"@,
{
    let l = arp_listing(s, now);
    law_arp_output_lists_every_entry(l);
    assert forall|k: int| 0 <= k < s.len() implies arp_text(l).subrange(arp_entry_pos(l, k), arp_entry_pos(l, k + 1))
        == "  "@ + ipv4_text((#[trigger] s[k]).0@) + " -> "@ + mac_text(s[k].1@) + " ("@ + dec(
        (age(now, s[k].2) / 1_000_000_000) as nat,
    ) + "s ago)\n"@ by {
        assert(l[k] == (s[k].0, s[k].1, age(now, s[k].2)));
        assert(arp_entry_text(l[k]) == arp_text(l).subrange(arp_entry_pos(l, k), arp_entry_pos(l, k + 1)));
    }
}

/// The output of the `arp` command at time `now`.
pub fn arp_output(t: &ArpTable, now: u64) -> (r: String)
    ensures
        r@ == arp_text(arp_listing(t@, now)),
{
    let l = t.entries_at(now);
    let mut out = string_of("ARP Table:\n");
    let ghost head = out@;
    let mut i: usize = 0;
    while i < l.len()
        invariant
            i <= l@.len(),
            out@ == head + arp_lines(l@.take(i as int)),
        decreases l.len() - i,
    {
        let e = l[i];
        assert(l@.take(i + 1).drop_last() == l@.take(i as int));
        push_str(&mut out, arp_line_output(e).as_str());
        i = i + 1;
    }
    assert(l@.take(l@.len() as int) == l@);
    if l.len() == 0 {
        push_str(&mut out, "  (empty)\n");
    }
    out
}

/// The line of the `route` command for one route.
pub open spec fn route_line(r: Route) -> Seq<char> {
    "  "@ + ipv4_text(u32_be(r.network)) + "/"@ + dec(ones(r.mask)) + " via "@ + ipv4_text(r.next_hop@)
        + " dev "@ + r.iface_name@ + "\n"@
}

/// The lines of the `route` command, one per route.
pub open spec fn route_lines(rs: Seq<Route>) -> Seq<char>
    decreases rs.len(),
{
    if rs.len() == 0 {
        Seq::empty()
    } else {
        route_lines(rs.drop_last()) + route_line(rs.last())
    }
}

fn route_line_output(route: &Route) -> (r: String)
    ensures
        r@ == route_line(*route),
{
    let mut out = string_of("  ");
    push_network(&mut out, route.network, route.mask);
    push_str(&mut out, " via ");
    push_str(&mut out, route.next_hop.to_string().as_str());
    push_str(&mut out, " dev ");
    push_str(&mut out, route.iface_name.as_str());
    push_str(&mut out, "\n");
    out
}

/// The output of the `route` command.
pub open spec fn route_text(rs: Seq<Route>) -> Seq<char> {
    "Routing Table:\n"@ + if rs.len() == 0 {
        "  (empty)\n"@
    } else {
        route_lines(rs)
    }
}

/// The output of the `route` command.
pub fn route_output(t: &RoutingTable) -> (r: String)
    ensures
        r@ == route_text(t@),
{
    let l = t.entries();
    let mut out = string_of("Routing Table:\n");
    let ghost head = out@;
    let mut i: usize = 0;
    while i < l.len()
        invariant
            i <= l@.len(),
            out@ == head + route_lines(l@.take(i as int)),
        decreases l.len() - i,
    {
        let route = &l[i];
        assert(l@.take(i + 1).drop_last() == l@.take(i as int));
        push_str(&mut out, route_line_output(route).as_str());
        i = i + 1;
    }
    assert(l@.take(l@.len() as int) == l@);
    if l.len() == 0 {
        push_str(&mut out, "  (empty)\n");
    }
    out
}

/// The line of the `mac` command for one entry.
pub open spec fn mac_line(e: (MacAddr, usize)) -> Seq<char> {
    "  "@ + mac_text(e.0@) + " -> port "@ + dec_usize(e.1) + "\n"@
}

/// The lines of the `mac` command, one per entry.
pub open spec fn mac_lines(l: Seq<(MacAddr, usize)>) -> Seq<char>
    decreases l.len(),
{
    if l.len() == 0 {
        Seq::empty()
    } else {
        mac_lines(l.drop_last()) + mac_line(l.last())
    }
}

fn mac_line_output(e: (MacAddr, usize)) -> (r: String)
    ensures
        r@ == mac_line(e),
{
    let mut out = string_of("  ");
    push_str(&mut out, e.0.to_string().as_str());
    push_str(&mut out, " -> port ");
    push_usize(&mut out, e.1);
    push_str(&mut out, "\n");
    out
}

/// The output of the `mac` command.
pub open spec fn mac_text_table(l: Seq<(MacAddr, usize)>) -> Seq<char> {
    "MAC Table:\n"@ + if l.len() == 0 {
        "  (empty)\n"@
    } else {
        mac_lines(l)
    }
}

/// The output of the `mac` command.
pub fn mac_output(t: &MacTable) -> (r: String)
    ensures
        r@ == mac_text_table(mac_listing(t@)),
{
    let l = t.entries();
    let mut out = string_of("MAC Table:\n");
    let ghost head = out@;
    let mut i: usize = 0;
    while i < l.len()
        invariant
            i <= l@.len(),
            out@ == head + mac_lines(l@.take(i as int)),
        decreases l.len() - i,
    {
        let e = l[i];
        assert(l@.take(i + 1).drop_last() == l@.take(i as int));
        push_str(&mut out, mac_line_output(e).as_str());
        i = i + 1;
    }
    assert(l@.take(l@.len() as int) == l@);
    if l.len() == 0 {
        push_str(&mut out, "  (empty)\n");
    }
    out
}

/// How a host (PC or router) describes one interface.
pub open spec fn host_iface_text(e: (usize, IfaceView)) -> Seq<char> {
    e.1.name + " (id="@ + dec_usize(e.0) + "):\n  IP:   "@ + ipv4_text(u32_be(e.1.addr)) + "/"@
        + dec(e.1.mask as nat) + "\n  MAC:  "@ + mac_text(e.1.mac) + "\n  MTU:  "@ + dec(e.1.mtu as nat)
        + "\n\n"@
}

/// How a hub, switch or bridge describes one of its ports.
pub open spec fn port_iface_text(e: (usize, IfaceView)) -> Seq<char> {
    e.1.name + " (port "@ + dec_usize(e.0) + "):\n  MAC:  "@ + mac_text(e.1.mac) + "\n  IP:   "@
        + ipv4_text(u32_be(e.1.addr)) + "/"@ + dec(e.1.mask as nat) + "\n  MTU:  "@ + dec(e.1.mtu as nat)
        + "\n\n"@
}

/// The descriptions of the interfaces, in id order, host style or port style.
pub open spec fn ifaces_lines(s: IfaceRows, ports: bool) -> Seq<char>
    decreases s.len(),
{
    if s.len() == 0 {
        Seq::empty()
    } else {
        ifaces_lines(s.drop_last(), ports) + if ports {
            port_iface_text(s.last())
        } else {
            host_iface_text(s.last())
        }
    }
}

/// The output of the `ifconfig` command.
pub open spec fn ifconfig_text(s: IfaceRows, ports: bool) -> Seq<char> {
    if s.len() == 0 {
        "no interfaces configured\n"@
    } else {
        ifaces_lines(s, ports)
    }
}

/// The description of one interface, host style or port style.
fn iface_output(id: usize, iface: &Iface, ports: bool) -> (r: String)
    requires
        iface.mac@.len() == 6,
    ensures
        r@ == if ports {
            port_iface_text((id, iface@))
        } else {
            host_iface_text((id, iface@))
        },
{
    let mac = MacAddr::new(iface.mac[0], iface.mac[1], iface.mac[2], iface.mac[3], iface.mac[4], iface.mac[5]);
    assert(mac@ =~= iface.mac@);
    let ip = Ipv4Addr::from_u32(iface.addr);
    let mut out = String::new();
    push_str(&mut out, iface.name.as_str());
    if ports {
        push_str(&mut out, " (port ");
        push_usize(&mut out, id);
        push_str(&mut out, "):\n  MAC:  ");
        push_str(&mut out, mac.to_string().as_str());
        push_str(&mut out, "\n  IP:   ");
        push_str(&mut out, ip.to_string().as_str());
        push_str(&mut out, "/");
        push_dec(&mut out, iface.mask as u64);
    } else {
        push_str(&mut out, " (id=");
        push_usize(&mut out, id);
        push_str(&mut out, "):\n  IP:   ");
        push_str(&mut out, ip.to_string().as_str());
        push_str(&mut out, "/");
        push_dec(&mut out, iface.mask as u64);
        push_str(&mut out, "\n  MAC:  ");
        push_str(&mut out, mac.to_string().as_str());
    }
    push_str(&mut out, "\n  MTU:  ");
    push_dec(&mut out, iface.mtu as u64);
    push_str(&mut out, "\n\n");
    out
}

/// The output of the `ifconfig` command: host style for PCs and routers, port style
/// (`ports`) for hubs, switches and bridges.
pub fn ifconfig_output(ifaces: &Interfaces, ports: bool) -> (r: String)
    requires
        ifaces.wf(),
    ensures
        r@ == ifconfig_text(ifaces@, ports),
{
    let l = ifaces.iter_with_id();
    let ghost rows = ifaces@;
    assert(rows.len() == l@.len());
    let mut out = String::new();
    let mut i: usize = 0;
    while i < l.len()
        invariant
            i <= l@.len(),
            rows == l@.map_values(|e: (usize, Iface)| (e.0, e.1@)),
            ifaces.wf(),
            rows == ifaces@,
            out@ == ifaces_lines(rows.take(i as int), ports),
        decreases l.len() - i,
    {
        let id = l[i].0;
        let iface = &l[i].1;
        assert(rows[i as int] == (id, iface@));
        assert(rows.take(i + 1).drop_last() == rows.take(i as int));
        assert(rows[i as int].1.mac.len() == 6);
        push_str(&mut out, iface_output(id, iface, ports).as_str());
        i = i + 1;
    }
    assert(rows.take(rows.len() as int) == rows);
    if l.len() == 0 {
        push_str(&mut out, "no interfaces configured\n");
    }
    out
}


/// The line that the `route` command shows for a route: the network as
/// `a.b.c.d/len` (the length being the one bits of the mask), ` via ` the next hop,
/// ` dev ` the interface name.
pub open spec fn route_entry_text(r: Route) -> Seq<char> {
    "  "@ + ipv4_text(u32_be(r.network)) + "/"@ + dec(ones(r.mask)) + " via "@ + ipv4_text(r.next_hop@) + " dev "@
        + r.iface_name@ + "\n"@
}

proof fn lemma_route_lines_joined(rs: Seq<Route>)
    ensures
        route_lines(rs) == joined(rs.map_values(|r: Route| route_entry_text(r))),
    decreases rs.len(),
{
    if rs.len() > 0 {
        lemma_route_lines_joined(rs.drop_last());
        assert(rs.map_values(|r: Route| route_entry_text(r)).drop_last() =~= rs.drop_last().map_values(
            |r: Route| route_entry_text(r),
        ));
    }
}

/// The `route` command lists every route, in the order they were added, and nothing
/// else: its output is the header `Routing Table:` then each route's line one after
/// the other (see `law_joined_layout` for where each stands); with no route it shows
/// `(empty)`.
pub proof fn law_route_output_lists_every_route(rs: Seq<Route>)
    ensures
        route_text(rs) == "Routing Table:\n"@ + if rs.len() == 0 {
            "  (empty)\n"@
        } else {
            joined(rs.map_values(|r: Route| route_entry_text(r)))
        },
{
    lemma_route_lines_joined(rs);
}

/// The line that the `mac` command shows for an entry: the hardware address, then
/// ` -> port ` and the port.
pub open spec fn mac_entry_text(e: (MacAddr, usize)) -> Seq<char> {
    "  "@ + mac_text(e.0@) + " -> port "@ + dec(e.1 as nat) + "\n"@
}

proof fn lemma_mac_lines_joined(l: Seq<(MacAddr, usize)>)
    ensures
        mac_lines(l) == joined(l.map_values(|e: (MacAddr, usize)| mac_entry_text(e))),
    decreases l.len(),
{
    if l.len() > 0 {
        lemma_mac_lines_joined(l.drop_last());
        assert(l.map_values(|e: (MacAddr, usize)| mac_entry_text(e)).drop_last() =~= l.drop_last().map_values(
            |e: (MacAddr, usize)| mac_entry_text(e),
        ));
    }
}

/// The `mac` command lists every entry of the MAC table, in order, and nothing else:
/// the header `MAC Table:` then each entry's line one after the other; with no entry
/// it shows `(empty)`.
pub proof fn law_mac_output_lists_every_entry(l: Seq<(MacAddr, usize)>)
    ensures
        mac_text_table(l) == "MAC Table:\n"@ + if l.len() == 0 {
            "  (empty)\n"@
        } else {
            joined(l.map_values(|e: (MacAddr, usize)| mac_entry_text(e)))
        },
{
    lemma_mac_lines_joined(l);
}

/// How `ifconfig` describes one interface: host style (PC, router) gives the id,
/// address, MAC address and MTU; port style (hub, switch, bridge) gives the port,
/// MAC address, address and MTU.
pub open spec fn iface_entry_text(e: (usize, IfaceView), ports: bool) -> Seq<char> {
    if ports {
        e.1.name + " (port "@ + dec(e.0 as nat) + "):\n  MAC:  "@ + mac_text(e.1.mac) + "\n  IP:   "@ + ipv4_text(
            u32_be(e.1.addr),
        ) + "/"@ + dec(e.1.mask as nat) + "\n  MTU:  "@ + dec(e.1.mtu as nat) + "\n\n"@
    } else {
        e.1.name + " (id="@ + dec(e.0 as nat) + "):\n  IP:   "@ + ipv4_text(u32_be(e.1.addr)) + "/"@ + dec(
            e.1.mask as nat,
        ) + "\n  MAC:  "@ + mac_text(e.1.mac) + "\n  MTU:  "@ + dec(e.1.mtu as nat) + "\n\n"@
    }
}

proof fn lemma_ifaces_lines_joined(s: IfaceRows, ports: bool)
    ensures
        ifaces_lines(s, ports) == joined(s.map_values(|e: (usize, IfaceView)| iface_entry_text(e, ports))),
    decreases s.len(),
{
    if s.len() > 0 {
        lemma_ifaces_lines_joined(s.drop_last(), ports);
        assert(s.map_values(|e: (usize, IfaceView)| iface_entry_text(e, ports)).drop_last() =~= s.drop_last().map_values(
            |e: (usize, IfaceView)| iface_entry_text(e, ports),
        ));
    }
}

/// The `ifconfig` command describes every interface, in id order, and nothing else;
/// with no interface it says so.
pub proof fn law_ifconfig_lists_every_interface(s: IfaceRows, ports: bool)
    ensures
        ifconfig_text(s, ports) == if s.len() == 0 {
            "no interfaces configured\n"@
        } else {
            joined(s.map_values(|e: (usize, IfaceView)| iface_entry_text(e, ports)))
        },
{
    lemma_ifaces_lines_joined(s, ports);
}

} // verus!
