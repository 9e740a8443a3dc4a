//! The interfaces of a device: numbered in the order they were added, each with a
//! name, an IPv4 address and mask, an MTU, and a locally administered MAC address
//! that no other interface of the device has.
use vstd::prelude::*;
use crate::utils::addrs::ip_addr::{ipv4_u32, u32_be, Ipv4Addr};
use crate::utils::addrs::mac_addr::MacAddr;
use crate::utils::text::{str_eq, string_of};

verus! {

/// What an interface holds, as plain values.
#[verifier::ext_equal]
pub struct IfaceView {
    pub name: Seq<char>,
    pub description: Seq<char>,
    pub addr: u32,
    pub mask: u8,
    pub mtu: u16,
    pub mac: Seq<u8>,
}

/// An interface of a device.
#[derive(Debug)]
pub struct Iface {
    pub name: String,
    pub description: String,
    pub addr: u32,
    pub mask: u8,
    pub mtu: u16,
    pub mac: [u8; 6],
}

impl View for Iface {
    type V = IfaceView;

    open spec fn view(&self) -> IfaceView {
        IfaceView {
            name: self.name@,
            description: self.description@,
            addr: self.addr,
            mask: self.mask,
            mtu: self.mtu,
            mac: self.mac@,
        }
    }
}

/// The interfaces as a sequence of (id, interface), ids increasing.
pub type IfaceRows = Seq<(usize, IfaceView)>;

/// Where interface `id` stands, if it exists.
pub open spec fn iface_index(s: IfaceRows, id: usize) -> Option<int> {
    if exists|i: int| 0 <= i < s.len() && #[trigger] s[i].0 == id {
        Some(choose|i: int| 0 <= i < s.len() && #[trigger] s[i].0 == id)
    } else {
        None
    }
}

/// The first interface named `name`, in id order.
pub open spec fn iface_named(s: IfaceRows, name: Seq<char>) -> Option<int> {
    if exists|i: int| 0 <= i < s.len() && #[trigger] s[i].1.name == name {
        Some(choose|i: int| 0 <= i < s.len() && #[trigger] s[i].1.name == name && forall|j: int| 0 <= j < i ==> s[j].1.name != name)
    } else {
        None
    }
}

/// The first interface, in id order, whose address is `addr`.
pub open spec fn iface_with_addr(s: IfaceRows, addr: u32) -> Option<int> {
    if exists|i: int| 0 <= i < s.len() && #[trigger] s[i].1.addr == addr {
        Some(choose|i: int| 0 <= i < s.len() && #[trigger] s[i].1.addr == addr && forall|j: int| 0 <= j < i ==> s[j].1.addr != addr)
    } else {
        None
    }
}

/// In well-formed rows, the interface at position `i` is found by its id.
pub proof fn lemma_iface_index_at(s: IfaceRows, next_id: usize, i: int)
    requires
        ifaces_wf(s, next_id),
        0 <= i < s.len(),
    ensures
        iface_index(s, s[i].0) == Some(i),
{
    let k = choose|k: int| 0 <= k < s.len() && #[trigger] s[k].0 == s[i].0;
    assert(s[i].0 == s[i].0);
    if k < i {
    } else if k > i {
    }
}

/// Whether `mac` is the MAC address of some interface.
pub open spec fn mac_in_use(s: IfaceRows, mac: Seq<u8>) -> bool {
    exists|i: int| 0 <= i < s.len() && #[trigger] s[i].1.mac == mac
}

/// Ids strictly increase, all below the next id; MAC addresses are six bytes and
/// pairwise distinct.
pub open spec fn ifaces_wf(s: IfaceRows, next_id: usize) -> bool {
    &&& forall|i: int, j: int| 0 <= i < j < s.len() ==> s[i].0 < s[j].0
    &&& forall|i: int| 0 <= i < s.len() ==> #[trigger] s[i].0 < next_id
    &&& forall|i: int| 0 <= i < s.len() ==> (#[trigger] s[i].1.mac).len() == 6
    &&& forall|i: int, j: int| 0 <= i < s.len() && 0 <= j < s.len() && i != j ==> s[i].1.mac != s[j].1.mac
}

/// The interface after an update: each given field replaced.
pub open spec fn iface_updated(v: IfaceView, name: Option<Seq<char>>, addr: Option<u32>, mask: Option<u8>, mtu: Option<u16>) -> IfaceView {
    IfaceView {
        name: match name {
            Some(n) => n,
            None => v.name,
        },
        addr: match addr {
            Some(a) => a,
            None => v.addr,
        },
        mask: match mask {
            Some(m) => m,
            None => v.mask,
        },
        mtu: match mtu {
            Some(m) => m,
            None => v.mtu,
        },
        ..v
    }
}

/// The characters of an optional name.
pub open spec fn opt_chars(name: Option<&str>) -> Option<Seq<char>> {
    match name {
        Some(n) => Some(n@),
        None => None,
    }
}

/// The rows after `Interfaces::update` of interface `id`: its given settings
/// replaced, or nothing changed when there is no such interface.
pub open spec fn rows_updated(s: IfaceRows, id: usize, name: Option<Seq<char>>, addr: Option<u32>, mask: Option<u8>, mtu: Option<u16>) -> IfaceRows {
    match iface_index(s, id) {
        Some(i) => s.update(i, (id, iface_updated(s[i].1, name, addr, mask, mtu))),
        None => s,
    }
}

/// The row of an interface just added.
pub open spec fn added_row(id: usize, name: Seq<char>, addr: u32, mask: u8, mtu: u16, mac: Seq<u8>) -> (usize, IfaceView) {
    (id, IfaceView { name, description: Seq::empty(), addr, mask, mtu, mac })
}

/// Six random bytes.
///
/// Trusted: calls `rand::thread_rng()` and `Rng::fill` on a six-byte array. Nothing is
/// promised of the bytes: they are random.
#[verifier::external_body]
fn random_mac_bytes() -> (r: [u8; 6]) {
    let mut mac = [0u8; 6];
    rand::Rng::fill(&mut rand::thread_rng(), &mut mac[..]);
    mac
}

/// The low 40 bits of a MAC address (all but the first byte), as a number.
pub open spec fn mac_low40(m: Seq<u8>) -> int {
    m[1] * 4294967296 + m[2] * 16777216 + m[3] * 65536 + m[4] * 256 + m[5]
}

/// The locally administered MAC address `02` followed by `k` on five bytes.
pub open spec fn counter_mac(k: u64) -> Seq<u8> {
    seq![
        2u8,
        ((k / 4294967296) % 256) as u8,
        ((k / 16777216) % 256) as u8,
        ((k / 65536) % 256) as u8,
        ((k / 256) % 256) as u8,
        (k % 256) as u8,
    ]
}

proof fn lemma_counter_mac_low40(k: u64)
    requires
        k < 1099511627776,
    ensures
        mac_low40(counter_mac(k)) == k,
{
    let m = counter_mac(k);
    assert(m[1] * 4294967296 + m[2] * 16777216 + m[3] * 65536 + m[4] * 256 + m[5] == k) by (nonlinear_arith)
        requires
            k < 1099511627776,
            m[1] == (k / 4294967296) % 256,
            m[2] == (k / 16777216) % 256,
            m[3] == (k / 65536) % 256,
            m[4] == (k / 256) % 256,
            m[5] == k % 256,
    ;
}

/// Among the counter addresses for `0..=n`, one is not in use when fewer than
/// `n + 1` interfaces exist.
proof fn lemma_counter_mac_free(s: IfaceRows, n: u64)
    requires
        s.len() <= n,
        n < 1099511627776,
    ensures
        exists|k: u64| k <= n && !mac_in_use(s, #[trigger] counter_mac(k)),
{
    if forall|k: u64| k <= n ==> mac_in_use(s, #[trigger] counter_mac(k)) {
        let vals = s.map_values(|e: (usize, IfaceView)| mac_low40(e.1.mac));
        let range = vstd::set_lib::set_int_range(0, n + 1);
        vstd::set_lib::lemma_int_range(0, n + 1);
        assert forall|x: int| #[trigger] range.contains(x) implies vals.to_set().contains(x) by {
            let k = x as u64;
            assert(mac_in_use(s, counter_mac(k)));
            let i = choose|i: int| 0 <= i < s.len() && #[trigger] s[i].1.mac == counter_mac(k);
            lemma_counter_mac_low40(k);
            assert(vals[i] == x);
        }
        vals.lemma_cardinality_of_set();
        vstd::set_lib::lemma_len_subset(range, vals.to_set());
        assert(false);
    }
}

/// One call on the interfaces, as the contracts of `Interfaces::add` and
/// `Interfaces::remove` state it, on (rows, next id): an `add` that gave `Some(id)`
/// gave the next id, appended a row with it and raised the next id by one; a `remove`
/// (`None`) left the next id as it was.
pub open spec fn iface_call(before: (IfaceRows, usize), after: (IfaceRows, usize), given: Option<usize>) -> bool {
    match given {
        Some(id) => {
            &&& id == before.1
            &&& after.1 == before.1 + 1
            &&& after.0.len() == before.0.len() + 1
            &&& after.0.drop_last() == before.0
            &&& after.0.last().0 == id
        },
        None => after.1 == before.1,
    }
}

/// Over a run of calls, the next id never goes down.
proof fn lemma_next_id_grows(states: Seq<(IfaceRows, usize)>, given: Seq<Option<usize>>, i: int, k: int)
    requires
        states.len() == given.len() + 1,
        forall|j: int| 0 <= j < given.len() ==> iface_call(states[j], states[j + 1], #[trigger] given[j]),
        0 <= i <= k < states.len(),
    ensures
        states[i].1 <= states[k].1,
    decreases k - i,
{
    if i < k {
        lemma_next_id_grows(states, given, i, k - 1);
        assert(iface_call(states[k - 1], states[k], given[k - 1]));
    }
}

/// Interface ids are never reused: over any run of `add` and `remove` calls from
/// well-formed interfaces, the ids that the `add`s give strictly increase, and none
/// is the id of an interface there at the start, even one removed since.
pub proof fn law_iface_ids_never_reused(states: Seq<(IfaceRows, usize)>, given: Seq<Option<usize>>)
    requires
        states.len() == given.len() + 1,
        ifaces_wf(states[0].0, states[0].1),
        forall|j: int| 0 <= j < given.len() ==> iface_call(states[j], states[j + 1], #[trigger] given[j]),
    ensures
        forall|i: int, j: int|
            #![trigger given[i], given[j]]
            0 <= i < j < given.len() && given[i] is Some && given[j] is Some ==> given[i]->0 < given[j]->0,
        forall|j: int, r: int|
            #![trigger given[j], states[0].0[r]]
            0 <= j < given.len() && given[j] is Some && 0 <= r < states[0].0.len() ==> states[0].0[r].0 < given[j]->0,
{
    assert forall|i: int, j: int|
        #![trigger given[i], given[j]]
        0 <= i < j < given.len() && given[i] is Some && given[j] is Some implies given[i]->0 < given[j]->0 by {
        assert(iface_call(states[i], states[i + 1], given[i]));
        assert(iface_call(states[j], states[j + 1], given[j]));
        lemma_next_id_grows(states, given, i + 1, j);
    }
    assert forall|j: int, r: int|
        #![trigger given[j], states[0].0[r]]
        0 <= j < given.len() && given[j] is Some && 0 <= r < states[0].0.len() implies states[0].0[r].0 < given[j]->0 by {
        assert(iface_call(states[j], states[j + 1], given[j]));
        lemma_next_id_grows(states, given, 0, j);
    }
}

/// The interfaces of a device.
#[derive(Debug)]
pub struct Interfaces {
    ifaces: Vec<(usize, Iface)>,
    next_id: usize,
}

/// Whether `a` and `b` hold the same six bytes.
fn same_mac(a: &[u8; 6], b: &[u8; 6]) -> (r: bool)
    ensures
        r == (a@ == b@),
{
    let r = a[0] == b[0] && a[1] == b[1] && a[2] == b[2] && a[3] == b[3] && a[4] == b[4] && a[5] == b[5];
    if r {
        assert(a@ =~= b@);
    }
    r
}

impl View for Interfaces {
    type V = IfaceRows;

    closed spec fn view(&self) -> IfaceRows {
        self.ifaces@.map_values(|e: (usize, Iface)| (e.0, e.1@))
    }
}

impl Interfaces {
    /// The id that the next interface will get.
    pub closed spec fn next_id(&self) -> usize {
        self.next_id
    }

    /// Ids increase and are below the next id; MAC addresses are pairwise distinct.
    pub open spec fn wf(&self) -> bool {
        ifaces_wf(self@, self.next_id())
    }

    pub fn new() -> (r: Self)
        ensures
            r@ == IfaceRows::empty(),
            r.next_id() == 0,
            r.wf(),
    {
        let r = Interfaces { ifaces: Vec::new(), next_id: 0 };
        assert(r@ =~= IfaceRows::empty());
        r
    }

    /// Whether some interface has the MAC address `mac`.
    fn has_mac(&self, mac: &[u8; 6]) -> (r: bool)
        ensures
            r == mac_in_use(self@, mac@),
    {
        let mut i: usize = 0;
        while i < self.ifaces.len()
            invariant
                i <= self.ifaces@.len(),
                forall|j: int| 0 <= j < i ==> self@[j].1.mac != mac@,
            decreases self.ifaces.len() - i,
        {
            if same_mac(&self.ifaces[i].1.mac, mac) {
                assert(self@[i as int].1.mac == mac@);
                return true;
            }
            i = i + 1;
        }
        false
    }

    /// A locally administered MAC address (first byte `02`) that no interface has:
    /// random, or, after repeated collisions, the first free counter address.
    fn generate_unique_mac(&self) -> (r: [u8; 6])
        requires
            self@.len() < 1099511627776,
        ensures
            r@[0] == 2,
            !mac_in_use(self@, r@),
    {
        let mut tries: u32 = 0;
        while tries < 64
            decreases 64 - tries,
        {
            let mut mac = random_mac_bytes();
            mac[0] = 0x02;
            if !self.has_mac(&mac) {
                return mac;
            }
            tries = tries + 1;
        }
        let n = self.ifaces.len() as u64;
        assert(self@.len() == self.ifaces@.len());
        proof {
            lemma_counter_mac_free(self@, n);
        }
        let mut k: u64 = 0;
        while k <= n
            invariant
                n < 1099511627776,
                self@.len() <= n,
                forall|j: u64| j < k ==> mac_in_use(self@, #[trigger] counter_mac(j)),
            decreases n + 1 - k,
        {
            let mac: [u8; 6] = [
                0x02,
                ((k / 4294967296) % 256) as u8,
                ((k / 16777216) % 256) as u8,
                ((k / 65536) % 256) as u8,
                ((k / 256) % 256) as u8,
                (k % 256) as u8,
            ];
            assert(mac@ =~= counter_mac(k));
            if !self.has_mac(&mac) {
                return mac;
            }
            k = k + 1;
        }
        proof {
            let w = choose|w: u64| w <= n && !mac_in_use(self@, #[trigger] counter_mac(w));
            assert(mac_in_use(self@, counter_mac(w)));
        }
        [0x02, 0, 0, 0, 0, 0]
    }

    /// Adds an interface under the next id, with a fresh MAC address.
    pub fn add(&mut self, name: &str, addr: u32, mask: u8, mtu: u16) -> (r: (usize, [u8; 6]))
        requires
            old(self).wf(),
            old(self).next_id() < usize::MAX,
            old(self)@.len() < 1099511627776,
        ensures
            final(self).wf(),
            r.0 == old(self).next_id(),
            forall|i: int| 0 <= i < old(self)@.len() ==> #[trigger] old(self)@[i].0 < r.0,
            final(self).next_id() == old(self).next_id() + 1,
            iface_call((old(self)@, old(self).next_id()), (final(self)@, final(self).next_id()), Some(r.0)),
            r.1@[0] == 2,
            !mac_in_use(old(self)@, r.1@),
            final(self)@ == old(self)@.push(
                (
                    r.0,
                    IfaceView {
                        name: name@,
                        description: Seq::empty(),
                        addr,
                        mask,
                        mtu,
                        mac: r.1@,
                    },
                ),
            ),
    {
        let id = self.next_id;
        let mac = self.generate_unique_mac();
        self.next_id = self.next_id + 1;
        let iface = Iface {
            name: string_of(name),
            description: String::new(),
            addr,
            mask,
            mtu,
            mac,
        };
        let ghost old_rows = self@;
        self.ifaces.push((id, iface));
        assert(self@ =~= old_rows.push((id, iface@)));
        assert(self@.drop_last() =~= old_rows);
        (id, mac)
    }

    /// Where interface `id` stands.
    fn index_of(&self, id: usize) -> (r: Option<usize>)
        requires
            self.wf(),
        ensures
            r matches Some(k) ==> iface_index(self@, id) == Some(k as int) && k < self@.len(),
            r is None ==> iface_index(self@, id) is None,
    {
        let mut i: usize = 0;
        while i < self.ifaces.len()
            invariant
                self.wf(),
                i <= self.ifaces@.len(),
                forall|j: int| 0 <= j < i ==> self@[j].0 != id,
            decreases self.ifaces.len() - i,
        {
            if self.ifaces[i].0 == id {
                assert(self@[i as int].0 == id);
                let ghost k = choose|k: int| 0 <= k < self@.len() && #[trigger] self@[k].0 == id;
                assert(k == i) by {
                    if k < i {
                    } else if k > i {
                    }
                }
                return Some(i);
            }
            i = i + 1;
        }
        None
    }

    /// Replaces the given fields of interface `id`; false when there is none.
    pub fn update(&mut self, id: usize, name: Option<&str>, addr: Option<u32>, mask: Option<u8>, mtu: Option<u16>) -> (r: bool)
        requires
            old(self).wf(),
        ensures
            final(self).wf(),
            final(self).next_id() == old(self).next_id(),
            r == (iface_index(old(self)@, id) is Some),
            match iface_index(old(self)@, id) {
                Some(i) => final(self)@ == old(self)@.update(
                    i,
                    (
                        id,
                        iface_updated(
                            old(self)@[i].1,
                            match name {
                                Some(n) => Some(n@),
                                None => None,
                            },
                            addr,
                            mask,
                            mtu,
                        ),
                    ),
                ),
                None => final(self)@ == old(self)@,
            },
    {
        match self.index_of(id) {
            None => false,
            Some(i) => {
                let ghost old_rows = self@;
                let (_, old_iface) = self.ifaces.remove(i);
                let new_iface = Iface {
                    name: match name {
                        Some(n) => string_of(n),
                        None => old_iface.name,
                    },
                    description: old_iface.description,
                    addr: match addr {
                        Some(a) => a,
                        None => old_iface.addr,
                    },
                    mask: match mask {
                        Some(m) => m,
                        None => old_iface.mask,
                    },
                    mtu: match mtu {
                        Some(m) => m,
                        None => old_iface.mtu,
                    },
                    mac: old_iface.mac,
                };
                self.ifaces.insert(i, (id, new_iface));
                assert(self@ =~= old_rows.update(
                    i as int,
                    (
                        id,
                        iface_updated(
                            old_rows[i as int].1,
                            match name {
                                Some(n) => Some(n@),
                                None => None,
                            },
                            addr,
                            mask,
                            mtu,
                        ),
                    ),
                ));
                true
            },
        }
    }

    /// Removes interface `id` and gives it back; none when there is none.
    pub fn remove(&mut self, id: usize) -> (r: Option<Iface>)
        requires
            old(self).wf(),
        ensures
            final(self).wf(),
            final(self).next_id() == old(self).next_id(),
            iface_call((old(self)@, old(self).next_id()), (final(self)@, final(self).next_id()), None),
            match iface_index(old(self)@, id) {
                Some(i) => r matches Some(f) && f@ == old(self)@[i].1 && final(self)@ == old(self)@.remove(i),
                None => r is None && final(self)@ == old(self)@,
            },
    {
        match self.index_of(id) {
            None => None,
            Some(i) => {
                let ghost old_rows = self@;
                let (_, iface) = self.ifaces.remove(i);
                assert(self@ =~= old_rows.remove(i as int));
                assert forall|a: int, b: int| 0 <= a < b < self@.len() implies self@[a].0 < self@[b].0 by {
                    let a2 = if a < i { a } else { a + 1 };
                    let b2 = if b < i { b } else { b + 1 };
                    assert(self@[a] == old_rows[a2] && self@[b] == old_rows[b2]);
                }
                assert forall|a: int, b: int| 0 <= a < self@.len() && 0 <= b < self@.len() && a != b implies self@[a].1.mac != self@[b].1.mac by {
                    let a2 = if a < i { a } else { a + 1 };
                    let b2 = if b < i { b } else { b + 1 };
                    assert(self@[a] == old_rows[a2] && self@[b] == old_rows[b2]);
                }
                Some(iface)
            },
        }
    }

    /// The ids, increasing.
    pub fn ids(&self) -> (r: Vec<usize>)
        ensures
            r@ == self@.map_values(|e: (usize, IfaceView)| e.0),
    {
        let mut r: Vec<usize> = Vec::new();
        let mut i: usize = 0;
        while i < self.ifaces.len()
            invariant
                i <= self.ifaces@.len(),
                r@ == self@.take(i as int).map_values(|e: (usize, IfaceView)| e.0),
            decreases self.ifaces.len() - i,
        {
            r.push(self.ifaces[i].0);
            assert(self@.take(i + 1) == self@.take(i as int).push(self@[i as int]));
            assert(r@ =~= self@.take(i + 1).map_values(|e: (usize, IfaceView)| e.0));
            i = i + 1;
        }
        assert(self@.take(self.ifaces.len() as int) == self@);
        r
    }

    /// Interface `id`, if it exists.
    pub fn get(&self, id: usize) -> (r: Option<&Iface>)
        requires
            self.wf(),
        ensures
            match iface_index(self@, id) {
                Some(i) => r matches Some(f) && f@ == self@[i].1,
                None => r is None,
            },
    {
        match self.index_of(id) {
            None => None,
            Some(i) => Some(&self.ifaces[i].1),
        }
    }

    /// The interfaces with their ids, ids increasing.
    pub fn iter_with_id(&self) -> (r: &[(usize, Iface)])
        ensures
            r@.map_values(|e: (usize, Iface)| (e.0, e.1@)) == self@,
    {
        self.ifaces.as_slice()
    }

    /// The number of interfaces.
    pub fn len(&self) -> (r: usize)
        ensures
            r == self@.len(),
    {
        self.ifaces.len()
    }

    /// The IPv4 address of interface `id`, if it exists.
    pub fn ip_of(&self, id: usize) -> (r: Option<Ipv4Addr>)
        requires
            self.wf(),
        ensures
            match iface_index(self@, id) {
                Some(i) => r matches Some(a) && a@ == u32_be(self@[i].1.addr),
                None => r is None,
            },
    {
        match self.index_of(id) {
            None => None,
            Some(i) => Some(Ipv4Addr::from_u32(self.ifaces[i].1.addr)),
        }
    }

    /// The MAC address of interface `id`, if it exists.
    pub fn mac_of(&self, id: usize) -> (r: Option<MacAddr>)
        requires
            self.wf(),
        ensures
            match iface_index(self@, id) {
                Some(i) => r matches Some(m) && m@ == self@[i].1.mac,
                None => r is None,
            },
    {
        match self.index_of(id) {
            None => None,
            Some(i) => {
                let m = &self.ifaces[i].1.mac;
                let mac = MacAddr::new(m[0], m[1], m[2], m[3], m[4], m[5]);
                assert(mac@ =~= self@[i as int].1.mac);
                Some(mac)
            },
        }
    }

    /// Where the first interface (in id order) with address `ip` stands.
    fn index_with_ip(&self, ip: Ipv4Addr) -> (r: Option<usize>)
        ensures
            r matches Some(k) ==> iface_with_addr(self@, ipv4_u32(ip)) == Some(k as int) && k < self@.len(),
            r is None ==> iface_with_addr(self@, ipv4_u32(ip)) is None,
    {
        let a = ip.to_u32();
        let mut i: usize = 0;
        while i < self.ifaces.len()
            invariant
                i <= self.ifaces@.len(),
                a == ipv4_u32(ip),
                forall|j: int| 0 <= j < i ==> self@[j].1.addr != a,
            decreases self.ifaces.len() - i,
        {
            if self.ifaces[i].1.addr == a {
                assert(self@[i as int].1.addr == a);
                let ghost k = choose|k: int| 0 <= k < self@.len() && #[trigger] self@[k].1.addr == a && forall|j: int| 0 <= j < k ==> self@[j].1.addr != a;
                assert(k == i) by {
                    if k < i {
                    } else if k > i {
                    }
                }
                return Some(i);
            }
            i = i + 1;
        }
        None
    }

    /// Whether some interface has the address `ip`.
    pub fn has_ip(&self, ip: Ipv4Addr) -> (r: bool)
        ensures
            r == (iface_with_addr(self@, ipv4_u32(ip)) is Some),
    {
        self.index_with_ip(ip).is_some()
    }

    /// The MAC address of the first interface (in id order) with address `ip`.
    pub fn mac_for_ip(&self, ip: Ipv4Addr) -> (r: Option<MacAddr>)
        ensures
            match iface_with_addr(self@, ipv4_u32(ip)) {
                Some(i) => r matches Some(m) && m@ == self@[i].1.mac,
                None => r is None,
            },
    {
        match self.index_with_ip(ip) {
            None => None,
            Some(i) => {
                let m = &self.ifaces[i].1.mac;
                let mac = MacAddr::new(m[0], m[1], m[2], m[3], m[4], m[5]);
                assert(self@[i as int].1.mac == m@);
                assert(mac@ =~= m@);
                Some(mac)
            },
        }
    }

    /// The lowest id, if there is an interface.
    pub fn first_id(&self) -> (r: Option<usize>)
        ensures
            self@.len() == 0 ==> r is None,
            self@.len() > 0 ==> r == Some(self@[0].0),
    {
        if self.ifaces.len() == 0 {
            None
        } else {
            Some(self.ifaces[0].0)
        }
    }

    /// The id of the first interface named `name`, ids increasing.
    pub fn id_by_name(&self, name: &str) -> (r: Option<usize>)
        ensures
            match iface_named(self@, name@) {
                Some(i) => r == Some(self@[i].0),
                None => r is None,
            },
    {
        let mut i: usize = 0;
        while i < self.ifaces.len()
            invariant
                i <= self.ifaces@.len(),
                forall|j: int| 0 <= j < i ==> self@[j].1.name != name@,
            decreases self.ifaces.len() - i,
        {
            let same = str_eq(self.ifaces[i].1.name.as_str(), name);
            if same {
                assert(self@[i as int].1.name == name@);
                let ghost k = choose|k: int| 0 <= k < self@.len() && #[trigger] self@[k].1.name == name@ && forall|j: int| 0 <= j < k ==> self@[j].1.name != name@;
                assert(k == i) by {
                    if k < i {
                    } else if k > i {
                    }
                }
                return Some(self.ifaces[i].0);
            }
            i = i + 1;
        }
        None
    }
}

} // verus!
