//! The ARP cache: IPv4 address to MAC address, each entry forgotten five minutes
//! after it was learnt.
use vstd::prelude::*;
use crate::utils::addrs::ip_addr::Ipv4Addr;
use crate::utils::addrs::mac_addr::MacAddr;
use crate::utils::clock::{age, age_of, Clock};

verus! {

broadcast use crate::utils::addrs::ip_addr::lemma_ipv4_view;

/// How long an entry lives, in nanoseconds (five minutes).
pub const ARP_ENTRY_TTL: u64 = 300_000_000_000;

/// One entry of the cache: address, hardware address, and when it was learnt (ms).
pub type ArpRow = (Ipv4Addr, MacAddr, u64);

/// Where `ip` stands in the rows, if it does.
pub open spec fn arp_find(s: Seq<ArpRow>, ip: Ipv4Addr) -> Option<int> {
    if exists|i: int| 0 <= i < s.len() && #[trigger] s[i].0 == ip {
        Some(choose|i: int| 0 <= i < s.len() && #[trigger] s[i].0 == ip)
    } else {
        None
    }
}

/// No address occurs twice.
pub open spec fn arp_distinct(s: Seq<ArpRow>) -> bool {
    forall|i: int, j: int| 0 <= i < s.len() && 0 <= j < s.len() && i != j ==> s[i].0 != s[j].0
}

/// The rows after learning `ip -> mac` at time `now`: an existing entry for `ip` is
/// overwritten in place, otherwise the entry is added at the end.
pub open spec fn arp_learn(s: Seq<ArpRow>, ip: Ipv4Addr, mac: MacAddr, now: u64) -> Seq<ArpRow> {
    match arp_find(s, ip) {
        Some(i) => s.update(i, (ip, mac, now)),
        None => s.push((ip, mac, now)),
    }
}

/// The rows without the entry for `ip`.
pub open spec fn arp_remove(s: Seq<ArpRow>, ip: Ipv4Addr) -> Seq<ArpRow> {
    match arp_find(s, ip) {
        Some(i) => s.remove(i),
        None => s,
    }
}

/// Whether an entry learnt at `then` is still alive at `now`.
pub open spec fn arp_fresh(now: u64, then: u64) -> bool {
    age(now, then) < ARP_ENTRY_TTL
}

/// What a lookup of `ip` at `now` gives, and the rows after it: the hardware address
/// of a live entry; nothing for a missing one; nothing for an expired one, which is
/// dropped.
pub open spec fn arp_lookup(s: Seq<ArpRow>, ip: Ipv4Addr, now: u64) -> (Seq<ArpRow>, Option<MacAddr>) {
    match arp_find(s, ip) {
        Some(i) => if arp_fresh(now, s[i].2) {
            (s, Some(s[i].1))
        } else {
            (s.remove(i), None)
        },
        None => (s, None),
    }
}

/// The rows still alive at `now`, in order.
pub open spec fn arp_purge(s: Seq<ArpRow>, now: u64) -> Seq<ArpRow> {
    s.filter(|e: ArpRow| arp_fresh(now, e.2))
}

/// The rows as listed at `now`: address, hardware address, age in nanoseconds.
pub open spec fn arp_listing(s: Seq<ArpRow>, now: u64) -> Seq<(Ipv4Addr, MacAddr, u64)> {
    s.map_values(|e: ArpRow| (e.0, e.1, age(now, e.2)))
}

proof fn lemma_arp_find_unique(s: Seq<ArpRow>, ip: Ipv4Addr, i: int)
    requires
        arp_distinct(s),
        0 <= i < s.len(),
        s[i].0 == ip,
    ensures
        arp_find(s, ip) == Some(i),
{
}

proof fn lemma_arp_find_none(s: Seq<ArpRow>, ip: Ipv4Addr)
    requires
        forall|i: int| 0 <= i < s.len() ==> s[i].0 != ip,
    ensures
        arp_find(s, ip) is None,
{
}

proof fn lemma_arp_remove_distinct(s: Seq<ArpRow>, i: int)
    requires
        arp_distinct(s),
        0 <= i < s.len(),
    ensures
        arp_distinct(s.remove(i)),
{
    let r = s.remove(i);
    assert forall|a: int, b: int| 0 <= a < r.len() && 0 <= b < r.len() && a != b implies r[a].0 != r[b].0 by {
        let a2 = if a < i { a } else { a + 1 };
        let b2 = if b < i { b } else { b + 1 };
        assert(r[a] == s[a2] && r[b] == s[b2]);
    }
}

pub proof fn lemma_arp_learn_distinct(s: Seq<ArpRow>, ip: Ipv4Addr, mac: MacAddr, now: u64)
    requires
        arp_distinct(s),
    ensures
        arp_distinct(arp_learn(s, ip, mac, now)),
{
}

/// A lookup keeps the rows free of duplicates.
pub proof fn lemma_arp_lookup_distinct(s: Seq<ArpRow>, ip: Ipv4Addr, now: u64)
    requires
        arp_distinct(s),
    ensures
        arp_distinct(arp_lookup(s, ip, now).0),
{
    if let Some(i) = arp_find(s, ip) {
        if !arp_fresh(now, s[i].2) {
            lemma_arp_remove_distinct(s, i);
        }
    }
}

/// A lookup while an entry is alive gives what was learnt last, and changes nothing.
pub proof fn law_arp_lookup_after_learn(s: Seq<ArpRow>, ip: Ipv4Addr, mac: MacAddr, learnt: u64, now: u64)
    requires
        arp_distinct(s),
        age(now, learnt) < ARP_ENTRY_TTL,
    ensures
        arp_lookup(arp_learn(s, ip, mac, learnt), ip, now) == (arp_learn(s, ip, mac, learnt), Some(mac)),
{
    lemma_arp_learn_distinct(s, ip, mac, learnt);
    let t = arp_learn(s, ip, mac, learnt);
    let i = match arp_find(s, ip) {
        Some(i) => i,
        None => s.len() as int,
    };
    assert(t[i] == (ip, mac, learnt));
    lemma_arp_find_unique(t, ip, i);
}

/// Learning one address leaves what a lookup of any other address gives unchanged.
pub proof fn law_arp_learn_keeps_others(s: Seq<ArpRow>, ip: Ipv4Addr, mac: MacAddr, learnt: u64, other: Ipv4Addr, now: u64)
    requires
        arp_distinct(s),
        other != ip,
    ensures
        arp_lookup(arp_learn(s, ip, mac, learnt), other, now).1 == arp_lookup(s, other, now).1,
{
    lemma_arp_learn_distinct(s, ip, mac, learnt);
    let t = arp_learn(s, ip, mac, learnt);
    match arp_find(s, other) {
        Some(i) => {
            assert(t[i] == s[i]);
            lemma_arp_find_unique(t, other, i);
        },
        None => {
            assert forall|j: int| 0 <= j < t.len() implies t[j].0 != other by {
                if j < s.len() {
                }
            }
            lemma_arp_find_none(t, other);
        },
    }
}

/// A lookup of one address leaves what a lookup of any other address gives unchanged,
/// and keeps the table free of duplicates.
pub proof fn law_arp_lookup_keeps_others(s: Seq<ArpRow>, ip: Ipv4Addr, first: u64, other: Ipv4Addr, now: u64)
    requires
        arp_distinct(s),
        other != ip,
    ensures
        arp_distinct(arp_lookup(s, ip, first).0),
        arp_lookup(arp_lookup(s, ip, first).0, other, now).1 == arp_lookup(s, other, now).1,
{
    lemma_arp_lookup_distinct(s, ip, first);
    match arp_find(s, ip) {
        Some(i) => {
            if !arp_fresh(first, s[i].2) {
                let t = s.remove(i);
                match arp_find(s, other) {
                    Some(k) => {
                        let k2 = if k < i { k } else { k - 1 };
                        assert(t[k2] == s[k]);
                        lemma_arp_find_unique(t, other, k2);
                    },
                    None => {
                        assert forall|j: int| 0 <= j < t.len() implies t[j].0 != other by {
                            let j2 = if j < i { j } else { j + 1 };
                            assert(t[j] == s[j2]);
                        }
                        lemma_arp_find_none(t, other);
                    },
                }
            }
        },
        None => {},
    }
}

/// Learning an address again replaces what was learnt before: one entry, the new one.
pub proof fn law_arp_learn_replaces(s: Seq<ArpRow>, ip: Ipv4Addr, other: MacAddr, mac: MacAddr, first: u64, second: u64)
    requires
        arp_distinct(s),
    ensures
        arp_learn(arp_learn(s, ip, other, first), ip, mac, second) == arp_learn(s, ip, mac, second),
{
    lemma_arp_learn_distinct(s, ip, other, first);
    let t = arp_learn(s, ip, other, first);
    match arp_find(s, ip) {
        Some(i) => {
            lemma_arp_find_unique(t, ip, i);
            assert(t.update(i, (ip, mac, second)) =~= s.update(i, (ip, mac, second)));
        },
        None => {
            lemma_arp_find_unique(t, ip, s.len() as int);
            assert(t.update(s.len() as int, (ip, mac, second)) =~= s.push((ip, mac, second)));
        },
    }
}

/// Once an entry has lived its time, a lookup gives nothing and forgets it.
pub proof fn law_arp_expired_lookup_forgets(s: Seq<ArpRow>, ip: Ipv4Addr, mac: MacAddr, learnt: u64, now: u64)
    requires
        arp_distinct(s),
        age(now, learnt) >= ARP_ENTRY_TTL,
    ensures
        arp_lookup(arp_learn(s, ip, mac, learnt), ip, now).1 is None,
        arp_find(arp_lookup(arp_learn(s, ip, mac, learnt), ip, now).0, ip) is None,
{
    lemma_arp_learn_distinct(s, ip, mac, learnt);
    let t = arp_learn(s, ip, mac, learnt);
    let i = match arp_find(s, ip) {
        Some(i) => i,
        None => s.len() as int,
    };
    assert(t[i] == (ip, mac, learnt));
    lemma_arp_find_unique(t, ip, i);
    let r = t.remove(i);
    assert forall|j: int| 0 <= j < r.len() implies r[j].0 != ip by {
        let j2 = if j < i { j } else { j + 1 };
        assert(r[j] == t[j2]);
    }
    lemma_arp_find_none(r, ip);
}

/// After an address is removed, a lookup of it gives nothing.
pub proof fn law_arp_removed_not_found(s: Seq<ArpRow>, ip: Ipv4Addr, now: u64)
    requires
        arp_distinct(s),
    ensures
        arp_lookup(arp_remove(s, ip), ip, now).1 is None,
{
    match arp_find(s, ip) {
        Some(i) => {
            let r = s.remove(i);
            assert forall|j: int| 0 <= j < r.len() implies r[j].0 != ip by {
                let j2 = if j < i { j } else { j + 1 };
                assert(r[j] == s[j2]);
            }
            lemma_arp_find_none(r, ip);
        },
        None => {},
    }
}

/// The ARP cache.
#[derive(Debug)]
pub struct ArpTable {
    entries: Vec<ArpRow>,
    clock: Clock,
}

impl Default for ArpTable {
    /// An empty table.
    fn default() -> (r: Self)
        ensures
            r@ == Seq::<ArpRow>::empty(),
            r.wf(),
    {
        ArpTable::new()
    }
}

impl View for ArpTable {
    type V = Seq<ArpRow>;

    closed spec fn view(&self) -> Seq<ArpRow> {
        self.entries@
    }
}

impl ArpTable {
    /// A well-formed table holds no address twice.
    pub open spec fn wf(&self) -> bool {
        arp_distinct(self@)
    }

    pub fn new() -> (r: Self)
        ensures
            r@ == Seq::<ArpRow>::empty(),
            r.wf(),
    {
        ArpTable { entries: Vec::new(), clock: Clock::start() }
    }

    /// Nanoseconds on the table's clock, which started when the table was made;
    /// entries are aged against it.
    pub(crate) fn now_nanos(&self) -> u64 {
        self.clock.now_nanos()
    }

    /// Where `ip` stands in the table.
    fn find(&self, ip: Ipv4Addr) -> (r: Option<usize>)
        requires
            self.wf(),
        ensures
            r matches Some(k) ==> arp_find(self@, ip) == Some(k as int) && k < self@.len(),
            r is None ==> arp_find(self@, ip) is None,
    {
        let mut i: usize = 0;
        while i < self.entries.len()
            invariant
                i <= self.entries@.len(),
                arp_distinct(self.entries@),
                forall|j: int| 0 <= j < i ==> self.entries@[j].0 != ip,
            decreases self.entries.len() - i,
        {
            if self.entries[i].0 == ip {
                proof {
                    lemma_arp_find_unique(self.entries@, ip, i as int);
                }
                return Some(i);
            }
            i = i + 1;
        }
        None
    }

    /// Learns `ip -> mac` at time `now` (nanoseconds).
    pub fn learn_at(&mut self, ip: Ipv4Addr, mac: MacAddr, now: u64)
        requires
            old(self).wf(),
        ensures
            final(self).wf(),
            final(self)@ == arp_learn(old(self)@, ip, mac, now),
    {
        match self.find(ip) {
            Some(i) => {
                self.entries.set(i, (ip, mac, now));
            },
            None => {
                self.entries.push((ip, mac, now));
            },
        }
    }

    /// Looks `ip` up at time `now`, dropping its entry if it has expired.
    pub fn lookup_at(&mut self, ip: &Ipv4Addr, now: u64) -> (r: Option<MacAddr>)
        requires
            old(self).wf(),
        ensures
            final(self).wf(),
            (final(self)@, r) == arp_lookup(old(self)@, *ip, now),
    {
        match self.find(*ip) {
            Some(i) => {
                let e = self.entries[i];
                if age_of(now, e.2) < ARP_ENTRY_TTL {
                    Some(e.1)
                } else {
                    proof {
                        lemma_arp_remove_distinct(self.entries@, i as int);
                    }
                    self.entries.remove(i);
                    None
                }
            },
            None => None,
        }
    }

    /// Drops the entries that have expired at time `now`.
    pub fn purge_expired_at(&mut self, now: u64)
        requires
            old(self).wf(),
        ensures
            final(self).wf(),
            final(self)@ == arp_purge(old(self)@, now),
    {
        let ghost s = self.entries@;
        let mut kept: Vec<ArpRow> = Vec::new();
        let mut i: usize = 0;
        while i < self.entries.len()
            invariant
                s == self.entries@,
                arp_distinct(s),
                i <= s.len(),
                kept@ == arp_purge(s.take(i as int), now),
                forall|k: int| 0 <= k < kept@.len() ==> exists|j: int| 0 <= j < i && #[trigger] s[j] == #[trigger] kept@[k],
                arp_distinct(kept@),
            decreases s.len() - i,
        {
            let e = self.entries[i];
            assert(s.take(i + 1).drop_last() == s.take(i as int));
            reveal_with_fuel(Seq::<_>::filter, 1);
            if age_of(now, e.2) < ARP_ENTRY_TTL {
                assert forall|k: int| 0 <= k < kept@.len() implies kept@[k].0 != e.0 by {
                    let j = choose|j: int| 0 <= j < i && #[trigger] s[j] == kept@[k];
                    assert(s[j].0 != s[i as int].0);
                }
                let ghost old_kept = kept@;
                kept.push(e);
                assert forall|k: int| 0 <= k < kept@.len() implies exists|j: int| 0 <= j < i + 1 && #[trigger] s[j] == #[trigger] kept@[k] by {
                    if k < old_kept.len() {
                        let j = choose|j: int| 0 <= j < i && #[trigger] s[j] == old_kept[k];
                        assert(s[j] == kept@[k]);
                    } else {
                        assert(s[i as int] == kept@[k]);
                    }
                }
            }
            i = i + 1;
        }
        assert(s.take(s.len() as int) == s);
        self.entries = kept;
    }

    /// The entries at time `now`: address, hardware address, age in nanoseconds.
    pub fn entries_at(&self, now: u64) -> (r: Vec<(Ipv4Addr, MacAddr, u64)>)
        ensures
            r@ == arp_listing(self@, now),
    {
        let mut r: Vec<(Ipv4Addr, MacAddr, u64)> = Vec::new();
        let mut i: usize = 0;
        while i < self.entries.len()
            invariant
                i <= self.entries@.len(),
                r@ == arp_listing(self.entries@.take(i as int), now),
            decreases self.entries.len() - i,
        {
            let e = self.entries[i];
            r.push((e.0, e.1, age_of(now, e.2)));
            assert(self.entries@.take(i + 1) == self.entries@.take(i as int).push(e));
            assert(r@ =~= arp_listing(self.entries@.take(i + 1), now));
            i = i + 1;
        }
        assert(self.entries@.take(self.entries.len() as int) == self.entries@);
        r
    }

    /// Forgets `ip`.
    pub fn remove(&mut self, ip: &Ipv4Addr)
        requires
            old(self).wf(),
        ensures
            final(self).wf(),
            final(self)@ == arp_remove(old(self)@, *ip),
    {
        match self.find(*ip) {
            Some(i) => {
                proof {
                    lemma_arp_remove_distinct(self.entries@, i as int);
                }
                self.entries.remove(i);
            },
            None => {},
        }
    }

    /// Learns `ip -> mac` now.
    pub fn learn(&mut self, ip: Ipv4Addr, mac: MacAddr)
        requires
            old(self).wf(),
        ensures
            final(self).wf(),
            exists|now: u64| final(self)@ == arp_learn(old(self)@, ip, mac, now),
    {
        let now = self.clock.now_nanos();
        self.learn_at(ip, mac, now);
    }

    /// Looks `ip` up now, dropping its entry if it has expired.
    pub fn lookup(&mut self, ip: &Ipv4Addr) -> (r: Option<MacAddr>)
        requires
            old(self).wf(),
        ensures
            final(self).wf(),
            exists|now: u64| (final(self)@, r) == arp_lookup(old(self)@, *ip, now),
    {
        let now = self.clock.now_nanos();
        self.lookup_at(ip, now)
    }

    /// Drops the entries that have expired now.
    pub fn purge_expired(&mut self)
        requires
            old(self).wf(),
        ensures
            final(self).wf(),
            exists|now: u64| final(self)@ == arp_purge(old(self)@, now),
    {
        let now = self.clock.now_nanos();
        self.purge_expired_at(now);
    }

    /// The entries now: address, hardware address, age in nanoseconds.
    pub fn entries(&self) -> (r: Vec<(Ipv4Addr, MacAddr, u64)>)
        ensures
            exists|now: u64| r@ == arp_listing(self@, now),
    {
        let now = self.clock.now_nanos();
        self.entries_at(now)
    }
}

} // verus!
