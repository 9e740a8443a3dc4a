//! The routing table: IPv4 networks, each reached through a next hop on an interface;
//! a destination takes the most specific matching route.
use vstd::prelude::*;
use crate::utils::addrs::ip_addr::{ipv4_u32, Ipv4Addr};
use crate::utils::text::string_of;

verus! {

/// The mask of a prefix length of at most 32: that many leading one bits.
pub open spec fn prefix_mask(prefix_len: u8) -> u32 {
    if prefix_len == 0 {
        0
    } else {
        (!0u32) << ((32 - prefix_len) as u32)
    }
}

/// The number of one bits of `x`.
pub open spec fn ones(x: u32) -> nat
    decreases x,
{
    if x == 0 {
        0
    } else {
        ((x % 2) as nat) + ones(x / 2)
    }
}

/// Two to the power `k`.
pub open spec fn two_pow(k: nat) -> nat
    decreases k,
{
    if k == 0 {
        1
    } else {
        2 * two_pow((k - 1) as nat)
    }
}

/// A number below `2^k` has at most `k` one bits.
proof fn lemma_ones_below(y: nat, k: nat)
    requires
        y < two_pow(k),
    ensures
        ones_nat(y) <= k,
    decreases k,
{
    if k > 0 && y > 0 {
        lemma_ones_below(y / 2, (k - 1) as nat);
    }
}

/// The number of one bits of `y`.
pub open spec fn ones_nat(y: nat) -> nat
    decreases y,
{
    if y == 0 {
        0
    } else {
        (y % 2) + ones_nat(y / 2)
    }
}

proof fn lemma_ones_same(x: u32)
    ensures
        ones(x) == ones_nat(x as nat),
    decreases x,
{
    if x != 0 {
        lemma_ones_same(x / 2);
    }
}

/// A 32-bit number has at most 32 one bits.
pub proof fn lemma_ones_u32(x: u32)
    ensures
        ones(x) <= 32,
{
    reveal_with_fuel(two_pow, 33);
    assert(two_pow(32) == 4294967296);
    lemma_ones_below(x as nat, 32);
    lemma_ones_same(x);
}

/// The number of one bits of `x`.
pub fn count_ones(x: u32) -> (r: u32)
    ensures
        r == ones(x),
{
    proof {
        lemma_ones_u32(x);
    }
    let mut y = x;
    let mut c: u32 = 0;
    while y != 0
        invariant
            c + ones(y) == ones(x),
            c <= 32 - ones(y),
            ones(y) <= 32,
        decreases y,
    {
        assert(ones(y) == (y % 2) as nat + ones(y / 2));
        c = c + y % 2;
        y = y / 2;
    }
    c
}

/// A route.
#[derive(Debug, Clone)]
pub struct Route {
    pub network: u32,
    pub mask: u32,
    pub next_hop: Ipv4Addr,
    pub iface_id: usize,
    pub iface_name: String,
}

/// Whether route `r` matches destination `dst`.
pub open spec fn route_matches(r: Route, dst: u32) -> bool {
    dst & r.mask == r.network
}

/// Whether `i` is the route that a lookup of `dst` picks among `rs`: it matches, no
/// matching route has a longer mask, and no later matching route has one as long
/// (ties go to the last route added).
pub open spec fn best_route(rs: Seq<Route>, dst: u32, i: int) -> bool {
    &&& 0 <= i < rs.len()
    &&& route_matches(rs[i], dst)
    &&& forall|j: int| 0 <= j < rs.len() && route_matches(#[trigger] rs[j], dst) ==> ones(rs[j].mask) <= ones(rs[i].mask)
    &&& forall|j: int| i < j < rs.len() && route_matches(#[trigger] rs[j], dst) ==> ones(rs[j].mask) < ones(rs[i].mask)
}

/// At most one route is the one a lookup picks.
pub proof fn lemma_best_route_unique(rs: Seq<Route>, dst: u32, i: int, j: int)
    requires
        best_route(rs, dst, i),
        best_route(rs, dst, j),
    ensures
        i == j,
{
    if i < j {
        assert(ones(rs[j].mask) < ones(rs[i].mask));
        assert(ones(rs[i].mask) <= ones(rs[j].mask));
    } else if j < i {
        assert(ones(rs[i].mask) < ones(rs[j].mask));
        assert(ones(rs[j].mask) <= ones(rs[i].mask));
    }
}

/// When some route matches, a lookup has a route to pick.
pub proof fn lemma_best_route_exists(rs: Seq<Route>, dst: u32)
    requires
        exists|j: int| 0 <= j < rs.len() && route_matches(#[trigger] rs[j], dst),
    ensures
        exists|i: int| best_route(rs, dst, i),
    decreases rs.len(),
{
    let n = rs.len() - 1;
    let pre = rs.drop_last();
    assert forall|j: int| 0 <= j < pre.len() implies #[trigger] pre[j] == rs[j] by {}
    if exists|j: int| 0 <= j < pre.len() && route_matches(#[trigger] pre[j], dst) {
        lemma_best_route_exists(pre, dst);
        let b = choose|i: int| best_route(pre, dst, i);
        assert(pre[b] == rs[b]);
        assert forall|j: int| 0 <= j < n && route_matches(#[trigger] rs[j], dst) implies ones(rs[j].mask) <= ones(rs[b].mask) by {
            assert(pre[j] == rs[j]);
            assert(route_matches(pre[j], dst));
        }
        assert forall|j: int| b < j < n && route_matches(#[trigger] rs[j], dst) implies ones(rs[j].mask) < ones(rs[b].mask) by {
            assert(pre[j] == rs[j]);
            assert(route_matches(pre[j], dst));
        }
        if route_matches(rs[n], dst) && ones(rs[n].mask) >= ones(rs[b].mask) {
            assert(best_route(rs, dst, n));
        } else {
            assert(best_route(rs, dst, b));
        }
    } else {
        let j = choose|j: int| 0 <= j < rs.len() && route_matches(#[trigger] rs[j], dst);
        if j < n {
            assert(pre[j] == rs[j]);
            assert(route_matches(pre[j], dst));
        }
        assert(route_matches(rs[n], dst));
        assert forall|k: int| 0 <= k < rs.len() && route_matches(#[trigger] rs[k], dst) implies k == n by {
            if k < n {
                assert(pre[k] == rs[k]);
                assert(route_matches(pre[k], dst));
            }
        }
        assert(best_route(rs, dst, n));
    }
}

/// A route just added to `network/prefix_len` serves every destination in that
/// network: a lookup then finds a route, and one at least as specific.
pub proof fn law_route_added_serves_network(rs: Seq<Route>, added: Route, network: Ipv4Addr, prefix_len: u8, next_hop: Ipv4Addr, iface_id: usize, iface_name: Seq<char>, dst: u32)
    requires
        prefix_len <= 32,
        new_route(network, prefix_len, next_hop, iface_id, iface_name, added),
        dst & prefix_mask(prefix_len) == ipv4_u32(network) & prefix_mask(prefix_len),
    ensures
        exists|i: int| best_route(rs.push(added), dst, i),
        forall|i: int| best_route(rs.push(added), dst, i) ==> ones(rs.push(added)[i].mask) >= ones(prefix_mask(prefix_len)),
{
    let t = rs.push(added);
    let n = rs.len() as int;
    assert(t[n] == added);
    let m = prefix_mask(prefix_len);
    let net = ipv4_u32(network);
    assert(dst & m == (net & m) & m) by (bit_vector)
        requires
            dst & m == net & m,
    ;
    assert(route_matches(t[n], dst));
    lemma_best_route_exists(t, dst);
}

/// The route added for `network/prefix_len` through `next_hop` on an interface.
pub open spec fn new_route(network: Ipv4Addr, prefix_len: u8, next_hop: Ipv4Addr, iface_id: usize, iface_name: Seq<char>, r: Route) -> bool {
    &&& r.mask == prefix_mask(prefix_len)
    &&& r.network == ipv4_u32(network) & prefix_mask(prefix_len)
    &&& r.next_hop == next_hop
    &&& r.iface_id == iface_id
    &&& r.iface_name@ == iface_name
}

/// The routes without those for `network/prefix_len`, in order.
pub open spec fn routes_without(rs: Seq<Route>, network: u32, mask: u32) -> Seq<Route> {
    rs.filter(|r: Route| r.network != network || r.mask != mask)
}

/// Removing the routes to `network/prefix_len` drops exactly the routes to that
/// (masked) network with that very mask: a route with another mask, even to the same
/// network address (a /8 beside the /24 removed), or to another network stays; every
/// route left was there before and is not one to that network with that mask.
pub proof fn law_route_removal_drops_exactly_that_prefix(rs: Seq<Route>, network: Ipv4Addr, prefix_len: u8)
    requires
        prefix_len <= 32,
    ensures
        ({
            let net = ipv4_u32(network) & prefix_mask(prefix_len);
            let mask = prefix_mask(prefix_len);
            let after = routes_without(rs, net, mask);
            &&& forall|i: int|
                0 <= i < rs.len() && (rs[i].network != net || rs[i].mask != mask) ==> #[trigger] after.contains(rs[i])
            &&& forall|j: int|
                0 <= j < after.len() ==> rs.contains(#[trigger] after[j]) && (after[j].network != net || after[j].mask != mask)
            &&& after.len() <= rs.len()
        }),
{
    let net = ipv4_u32(network) & prefix_mask(prefix_len);
    let mask = prefix_mask(prefix_len);
    let pred = |r: Route| r.network != net || r.mask != mask;
    let after = rs.filter(pred);
    assert forall|i: int| 0 <= i < rs.len() && (rs[i].network != net || rs[i].mask != mask) implies #[trigger] after.contains(
        rs[i],
    ) by {
        rs.lemma_filter_contains(pred, i);
    }
    assert forall|j: int| 0 <= j < after.len() implies rs.contains(#[trigger] after[j]) && (after[j].network != net
        || after[j].mask != mask) by {
        rs.lemma_filter_pred(pred, j);
        assert(after.contains(after[j]));
        rs.lemma_filter_contains_rev(pred, after[j]);
    }
    rs.lemma_filter_len(pred);
}

/// The routing table.
#[derive(Debug, Default)]
pub struct RoutingTable {
    routes: Vec<Route>,
}

impl View for RoutingTable {
    type V = Seq<Route>;

    closed spec fn view(&self) -> Seq<Route> {
        self.routes@
    }
}

/// The mask of a prefix length of at most 32.
pub fn mask_of(prefix_len: u8) -> (r: u32)
    requires
        prefix_len <= 32,
    ensures
        r == prefix_mask(prefix_len),
{
    if prefix_len == 0 {
        0
    } else {
        (!0u32) << ((32 - prefix_len) as u32)
    }
}

impl Route {
    /// A copy of the route.
    pub fn copy(&self) -> (r: Route)
        ensures
            r == *self,
    {
        Route {
            network: self.network,
            mask: self.mask,
            next_hop: self.next_hop,
            iface_id: self.iface_id,
            iface_name: self.iface_name.clone(),
        }
    }
}

impl RoutingTable {
    pub fn new() -> (r: Self)
        ensures
            r@ == Seq::<Route>::empty(),
    {
        RoutingTable { routes: Vec::new() }
    }

    /// Adds a route to `network/prefix_len` (the network address masked) at the end.
    pub fn add(&mut self, network: Ipv4Addr, prefix_len: u8, next_hop: Ipv4Addr, iface_id: usize, iface_name: &str)
        requires
            prefix_len <= 32,
        ensures
            final(self)@.len() == old(self)@.len() + 1,
            final(self)@.take(old(self)@.len() as int) == old(self)@,
            new_route(network, prefix_len, next_hop, iface_id, iface_name@, final(self)@.last()),
    {
        let mask = mask_of(prefix_len);
        let route = Route {
            network: network.to_u32() & mask,
            mask,
            next_hop,
            iface_id,
            iface_name: string_of(iface_name),
        };
        self.routes.push(route);
        assert(self.routes@.take(old(self)@.len() as int) =~= old(self)@);
    }

    /// The route for `dst`: among the matching routes, one with the longest mask, the
    /// last added of those; none when no route matches.
    pub fn lookup(&self, dst: Ipv4Addr) -> (r: Option<&Route>)
        ensures
            r is None <==> forall|j: int| 0 <= j < self@.len() ==> !route_matches(#[trigger] self@[j], ipv4_u32(dst)),
            r matches Some(route) ==> exists|i: int| best_route(self@, ipv4_u32(dst), i) && *route == self@[i],
    {
        let d = dst.to_u32();
        let mut best: Option<usize> = None;
        let mut best_ones: u32 = 0;
        let mut i: usize = 0;
        while i < self.routes.len()
            invariant
                i <= self.routes@.len(),
                d == ipv4_u32(dst),
                best is None ==> forall|j: int| 0 <= j < i ==> !route_matches(#[trigger] self.routes@[j], d),
                best matches Some(b) ==> b < i && best_ones == ones(self.routes@[b as int].mask)
                    && route_matches(self.routes@[b as int], d)
                    && (forall|j: int| 0 <= j < i && route_matches(#[trigger] self.routes@[j], d) ==> ones(self.routes@[j].mask) <= best_ones)
                    && (forall|j: int| b < j < i && route_matches(#[trigger] self.routes@[j], d) ==> ones(self.routes@[j].mask) < best_ones),
            decreases self.routes.len() - i,
        {
            let r = &self.routes[i];
            if (d & r.mask) == r.network {
                let n = count_ones(r.mask);
                match best {
                    None => {
                        best = Some(i);
                        best_ones = n;
                    },
                    Some(_) => {
                        if n >= best_ones {
                            best = Some(i);
                            best_ones = n;
                        }
                    },
                }
            }
            i = i + 1;
        }
        match best {
            None => {
                assert(i == self.routes@.len());
                assert(forall|j: int| 0 <= j < self@.len() ==> !route_matches(#[trigger] self@[j], d));
                None
            },
            Some(b) => {
                assert(best_route(self@, ipv4_u32(dst), b as int));
                Some(&self.routes[b])
            },
        }
    }

    /// The routes, in the order they were added.
    pub fn entries(&self) -> (r: &[Route])
        ensures
            r@ == self@,
    {
        self.routes.as_slice()
    }

    /// Drops every route to `network/prefix_len` (the network address masked).
    pub fn remove(&mut self, network: Ipv4Addr, prefix_len: u8)
        requires
            prefix_len <= 32,
        ensures
            final(self)@ == routes_without(old(self)@, ipv4_u32(network) & prefix_mask(prefix_len), prefix_mask(prefix_len)),
    {
        let mask = mask_of(prefix_len);
        let net = network.to_u32() & mask;
        let ghost s = self.routes@;
        let mut kept: Vec<Route> = Vec::new();
        let mut i: usize = 0;
        while i < self.routes.len()
            invariant
                s == self.routes@,
                i <= s.len(),
                kept@ == routes_without(s.take(i as int), net, mask),
            decreases s.len() - i,
        {
            assert(s.take(i + 1).drop_last() == s.take(i as int));
            reveal_with_fuel(Seq::<_>::filter, 1);
            if self.routes[i].network != net || self.routes[i].mask != mask {
                kept.push(self.routes[i].copy());
            }
            i = i + 1;
        }
        assert(s.take(s.len() as int) == s);
        self.routes = kept;
    }
}

} // verus!
