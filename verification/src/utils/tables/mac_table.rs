//! The MAC address table of a switch or bridge: MAC address to port, each entry
//! forgotten five minutes after it was learnt.
use vstd::prelude::*;
use crate::utils::addrs::mac_addr::MacAddr;
use crate::utils::clock::{age, age_of, Clock};

verus! {

broadcast use crate::utils::addrs::mac_addr::lemma_mac_view;

/// How long an entry lives, in nanoseconds (five minutes).
pub const MAC_ENTRY_TTL: u64 = 300_000_000_000;

/// One entry of the table: MAC address, port, and when it was learnt (ms).
pub type MacRow = (MacAddr, usize, u64);

/// Where `mac` stands in the rows, if it does.
pub open spec fn mac_find(s: Seq<MacRow>, mac: MacAddr) -> Option<int> {
    if exists|i: int| 0 <= i < s.len() && #[trigger] s[i].0 == mac {
        Some(choose|i: int| 0 <= i < s.len() && #[trigger] s[i].0 == mac)
    } else {
        None
    }
}

/// No address occurs twice.
pub open spec fn mac_distinct(s: Seq<MacRow>) -> bool {
    forall|i: int, j: int| 0 <= i < s.len() && 0 <= j < s.len() && i != j ==> s[i].0 != s[j].0
}

/// The rows after learning `mac -> port` at time `now`: an existing entry for `mac` is
/// overwritten in place, otherwise the entry is added at the end.
pub open spec fn mac_learn(s: Seq<MacRow>, mac: MacAddr, port: usize, now: u64) -> Seq<MacRow> {
    match mac_find(s, mac) {
        Some(i) => s.update(i, (mac, port, now)),
        None => s.push((mac, port, now)),
    }
}

/// The rows without the entry for `mac`.
pub open spec fn mac_remove(s: Seq<MacRow>, mac: MacAddr) -> Seq<MacRow> {
    match mac_find(s, mac) {
        Some(i) => s.remove(i),
        None => s,
    }
}

/// Whether an entry learnt at `then` is still alive at `now`.
pub open spec fn mac_fresh(now: u64, then: u64) -> bool {
    age(now, then) < MAC_ENTRY_TTL
}

/// What a lookup of `mac` at `now` gives, and the rows after it: the port
/// of a live entry; nothing for a missing one; nothing for an expired one, which is
/// dropped.
pub open spec fn mac_lookup(s: Seq<MacRow>, mac: MacAddr, now: u64) -> (Seq<MacRow>, Option<usize>) {
    match mac_find(s, mac) {
        Some(i) => if mac_fresh(now, s[i].2) {
            (s, Some(s[i].1))
        } else {
            (s.remove(i), None)
        },
        None => (s, None),
    }
}

/// The rows still alive at `now`, in order.
pub open spec fn mac_purge(s: Seq<MacRow>, now: u64) -> Seq<MacRow> {
    s.filter(|e: MacRow| mac_fresh(now, e.2))
}

/// The rows as listed: MAC address and port.
pub open spec fn mac_listing(s: Seq<MacRow>) -> Seq<(MacAddr, usize)> {
    s.map_values(|e: MacRow| (e.0, e.1))
}

/// The rows without those on `port`, in order.
pub open spec fn mac_without_port(s: Seq<MacRow>, port: usize) -> Seq<MacRow> {
    s.filter(|e: MacRow| e.1 != port)
}

proof fn lemma_mac_find_unique(s: Seq<MacRow>, mac: MacAddr, i: int)
    requires
        mac_distinct(s),
        0 <= i < s.len(),
        s[i].0 == mac,
    ensures
        mac_find(s, mac) == Some(i),
{
}

proof fn lemma_mac_find_none(s: Seq<MacRow>, mac: MacAddr)
    requires
        forall|i: int| 0 <= i < s.len() ==> s[i].0 != mac,
    ensures
        mac_find(s, mac) is None,
{
}

proof fn lemma_mac_remove_distinct(s: Seq<MacRow>, i: int)
    requires
        mac_distinct(s),
        0 <= i < s.len(),
    ensures
        mac_distinct(s.remove(i)),
{
    let r = s.remove(i);
    assert forall|a: int, b: int| 0 <= a < r.len() && 0 <= b < r.len() && a != b implies r[a].0 != r[b].0 by {
        let a2 = if a < i { a } else { a + 1 };
        let b2 = if b < i { b } else { b + 1 };
        assert(r[a] == s[a2] && r[b] == s[b2]);
    }
}

pub proof fn lemma_mac_learn_distinct(s: Seq<MacRow>, mac: MacAddr, port: usize, now: u64)
    requires
        mac_distinct(s),
    ensures
        mac_distinct(mac_learn(s, mac, port, now)),
{
}

/// A lookup while an entry is alive gives what was learnt last, and changes nothing.
pub proof fn law_mac_lookup_after_learn(s: Seq<MacRow>, mac: MacAddr, port: usize, learnt: u64, now: u64)
    requires
        mac_distinct(s),
        age(now, learnt) < MAC_ENTRY_TTL,
    ensures
        mac_lookup(mac_learn(s, mac, port, learnt), mac, now) == (mac_learn(s, mac, port, learnt), Some(port)),
{
    lemma_mac_learn_distinct(s, mac, port, learnt);
    let t = mac_learn(s, mac, port, learnt);
    let i = match mac_find(s, mac) {
        Some(i) => i,
        None => s.len() as int,
    };
    assert(t[i] == (mac, port, learnt));
    lemma_mac_find_unique(t, mac, i);
}

/// Learning an address again replaces what was learnt before: one entry, the new one.
pub proof fn law_mac_learn_replaces(s: Seq<MacRow>, mac: MacAddr, other: usize, port: usize, first: u64, second: u64)
    requires
        mac_distinct(s),
    ensures
        mac_learn(mac_learn(s, mac, other, first), mac, port, second) == mac_learn(s, mac, port, second),
{
    lemma_mac_learn_distinct(s, mac, other, first);
    let t = mac_learn(s, mac, other, first);
    match mac_find(s, mac) {
        Some(i) => {
            lemma_mac_find_unique(t, mac, i);
            assert(t.update(i, (mac, port, second)) =~= s.update(i, (mac, port, second)));
        },
        None => {
            lemma_mac_find_unique(t, mac, s.len() as int);
            assert(t.update(s.len() as int, (mac, port, second)) =~= s.push((mac, port, second)));
        },
    }
}

/// Once an entry has lived its time, a lookup gives nothing and forgets it.
pub proof fn law_mac_expired_lookup_forgets(s: Seq<MacRow>, mac: MacAddr, port: usize, learnt: u64, now: u64)
    requires
        mac_distinct(s),
        age(now, learnt) >= MAC_ENTRY_TTL,
    ensures
        mac_lookup(mac_learn(s, mac, port, learnt), mac, now).1 is None,
        mac_find(mac_lookup(mac_learn(s, mac, port, learnt), mac, now).0, mac) is None,
{
    lemma_mac_learn_distinct(s, mac, port, learnt);
    let t = mac_learn(s, mac, port, learnt);
    let i = match mac_find(s, mac) {
        Some(i) => i,
        None => s.len() as int,
    };
    assert(t[i] == (mac, port, learnt));
    lemma_mac_find_unique(t, mac, i);
    let r = t.remove(i);
    assert forall|j: int| 0 <= j < r.len() implies r[j].0 != mac by {
        let j2 = if j < i { j } else { j + 1 };
        assert(r[j] == t[j2]);
    }
    lemma_mac_find_none(r, mac);
}

/// Learning one address leaves what a lookup of any other address gives unchanged.
pub proof fn law_mac_learn_keeps_others(s: Seq<MacRow>, mac: MacAddr, port: usize, learnt: u64, other: MacAddr, now: u64)
    requires
        mac_distinct(s),
        other != mac,
    ensures
        mac_lookup(mac_learn(s, mac, port, learnt), other, now).1 == mac_lookup(s, other, now).1,
{
    lemma_mac_learn_distinct(s, mac, port, learnt);
    let t = mac_learn(s, mac, port, learnt);
    match mac_find(s, other) {
        Some(i) => {
            assert(t[i] == s[i]);
            lemma_mac_find_unique(t, other, i);
        },
        None => {
            assert forall|j: int| 0 <= j < t.len() implies t[j].0 != other by {
                if j < s.len() {
                }
            }
            lemma_mac_find_none(t, other);
        },
    }
}

/// A lookup of one address leaves what a lookup of any other address gives unchanged,
/// and keeps the table free of duplicates.
pub proof fn law_mac_lookup_keeps_others(s: Seq<MacRow>, mac: MacAddr, first: u64, other: MacAddr, now: u64)
    requires
        mac_distinct(s),
        other != mac,
    ensures
        mac_distinct(mac_lookup(s, mac, first).0),
        mac_lookup(mac_lookup(s, mac, first).0, other, now).1 == mac_lookup(s, other, now).1,
{
    match mac_find(s, mac) {
        Some(i) => {
            if !mac_fresh(first, s[i].2) {
                lemma_mac_remove_distinct(s, i);
                let t = s.remove(i);
                match mac_find(s, other) {
                    Some(k) => {
                        let k2 = if k < i { k } else { k - 1 };
                        assert(t[k2] == s[k]);
                        lemma_mac_find_unique(t, other, k2);
                    },
                    None => {
                        assert forall|j: int| 0 <= j < t.len() implies t[j].0 != other by {
                            let j2 = if j < i { j } else { j + 1 };
                            assert(t[j] == s[j2]);
                        }
                        lemma_mac_find_none(t, other);
                    },
                }
            }
        },
        None => {},
    }
}

/// After an address is removed, a lookup of it gives nothing.
pub proof fn law_mac_removed_not_found(s: Seq<MacRow>, mac: MacAddr, now: u64)
    requires
        mac_distinct(s),
    ensures
        mac_lookup(mac_remove(s, mac), mac, now).1 is None,
{
    match mac_find(s, mac) {
        Some(i) => {
            let r = s.remove(i);
            assert forall|j: int| 0 <= j < r.len() implies r[j].0 != mac by {
                let j2 = if j < i { j } else { j + 1 };
                assert(r[j] == s[j2]);
            }
            lemma_mac_find_none(r, mac);
        },
        None => {},
    }
}

/// The MAC address table.
#[derive(Debug)]
pub struct MacTable {
    entries: Vec<MacRow>,
    clock: Clock,
}

impl Default for MacTable {
    /// An empty table.
    fn default() -> (r: Self)
        ensures
            r@ == Seq::<MacRow>::empty(),
            r.wf(),
    {
        MacTable::new()
    }
}

impl View for MacTable {
    type V = Seq<MacRow>;

    closed spec fn view(&self) -> Seq<MacRow> {
        self.entries@
    }
}

impl MacTable {
    /// A well-formed table holds no address twice.
    pub open spec fn wf(&self) -> bool {
        mac_distinct(self@)
    }

    pub fn new() -> (r: Self)
        ensures
            r@ == Seq::<MacRow>::empty(),
            r.wf(),
    {
        MacTable { entries: Vec::new(), clock: Clock::start() }
    }

    /// Nanoseconds on the table's clock, which started when the table was made;
    /// entries are aged against it.
    pub(crate) fn now_nanos(&self) -> u64 {
        self.clock.now_nanos()
    }

    /// Where `mac` stands in the table.
    fn find(&self, mac: MacAddr) -> (r: Option<usize>)
        requires
            self.wf(),
        ensures
            r matches Some(k) ==> mac_find(self@, mac) == Some(k as int) && k < self@.len(),
            r is None ==> mac_find(self@, mac) is None,
    {
        let mut i: usize = 0;
        while i < self.entries.len()
            invariant
                i <= self.entries@.len(),
                mac_distinct(self.entries@),
                forall|j: int| 0 <= j < i ==> self.entries@[j].0 != mac,
            decreases self.entries.len() - i,
        {
            if self.entries[i].0 == mac {
                proof {
                    lemma_mac_find_unique(self.entries@, mac, i as int);
                }
                return Some(i);
            }
            i = i + 1;
        }
        None
    }

    /// Learns `mac -> port` at time `now` (nanoseconds).
    pub fn learn_at(&mut self, mac: MacAddr, port: usize, now: u64)
        requires
            old(self).wf(),
        ensures
            final(self).wf(),
            final(self)@ == mac_learn(old(self)@, mac, port, now),
    {
        match self.find(mac) {
            Some(i) => {
                self.entries.set(i, (mac, port, now));
            },
            None => {
                self.entries.push((mac, port, now));
            },
        }
    }

    /// Looks `mac` up at time `now`, dropping its entry if it has expired.
    pub fn lookup_at(&mut self, mac: &MacAddr, now: u64) -> (r: Option<usize>)
        requires
            old(self).wf(),
        ensures
            final(self).wf(),
            (final(self)@, r) == mac_lookup(old(self)@, *mac, now),
    {
        match self.find(*mac) {
            Some(i) => {
                let e = self.entries[i];
                if age_of(now, e.2) < MAC_ENTRY_TTL {
                    Some(e.1)
                } else {
                    proof {
                        lemma_mac_remove_distinct(self.entries@, i as int);
                    }
                    self.entries.remove(i);
                    None
                }
            },
            None => None,
        }
    }

    /// Drops the entries that have expired at time `now`.
    pub fn purge_expired_at(&mut self, now: u64)
        requires
            old(self).wf(),
        ensures
            final(self).wf(),
            final(self)@ == mac_purge(old(self)@, now),
    {
        let ghost s = self.entries@;
        let mut kept: Vec<MacRow> = Vec::new();
        let mut i: usize = 0;
        while i < self.entries.len()
            invariant
                s == self.entries@,
                mac_distinct(s),
                i <= s.len(),
                kept@ == mac_purge(s.take(i as int), now),
                forall|k: int| 0 <= k < kept@.len() ==> exists|j: int| 0 <= j < i && #[trigger] s[j] == #[trigger] kept@[k],
                mac_distinct(kept@),
            decreases s.len() - i,
        {
            let e = self.entries[i];
            assert(s.take(i + 1).drop_last() == s.take(i as int));
            reveal_with_fuel(Seq::<_>::filter, 1);
            if age_of(now, e.2) < MAC_ENTRY_TTL {
                assert forall|k: int| 0 <= k < kept@.len() implies kept@[k].0 != e.0 by {
                    let j = choose|j: int| 0 <= j < i && #[trigger] s[j] == kept@[k];
                    assert(s[j].0 != s[i as int].0);
                }
                let ghost old_kept = kept@;
                kept.push(e);
                assert forall|k: int| 0 <= k < kept@.len() implies exists|j: int| 0 <= j < i + 1 && #[trigger] s[j] == #[trigger] kept@[k] by {
                    if k < old_kept.len() {
                        let j = choose|j: int| 0 <= j < i && #[trigger] s[j] == old_kept[k];
                        assert(s[j] == kept@[k]);
                    } else {
                        assert(s[i as int] == kept@[k]);
                    }
                }
            }
            i = i + 1;
        }
        assert(s.take(s.len() as int) == s);
        self.entries = kept;
    }

    /// The entries: MAC address and port.
    pub fn entries(&self) -> (r: Vec<(MacAddr, usize)>)
        ensures
            r@ == mac_listing(self@),
    {
        let mut r: Vec<(MacAddr, usize)> = Vec::new();
        let mut i: usize = 0;
        while i < self.entries.len()
            invariant
                i <= self.entries@.len(),
                r@ == mac_listing(self.entries@.take(i as int)),
            decreases self.entries.len() - i,
        {
            let e = self.entries[i];
            r.push((e.0, e.1));
            assert(self.entries@.take(i + 1) == self.entries@.take(i as int).push(e));
            assert(r@ =~= mac_listing(self.entries@.take(i + 1)));
            i = i + 1;
        }
        assert(self.entries@.take(self.entries.len() as int) == self.entries@);
        r
    }

    /// Forgets every address learnt on `port`.
    pub fn remove_port(&mut self, port: usize)
        requires
            old(self).wf(),
        ensures
            final(self).wf(),
            final(self)@ == mac_without_port(old(self)@, port),
    {
        let ghost s = self.entries@;
        let mut kept: Vec<MacRow> = Vec::new();
        let mut i: usize = 0;
        while i < self.entries.len()
            invariant
                s == self.entries@,
                mac_distinct(s),
                i <= s.len(),
                kept@ == mac_without_port(s.take(i as int), port),
                forall|k: int| 0 <= k < kept@.len() ==> exists|j: int| 0 <= j < i && #[trigger] s[j] == #[trigger] kept@[k],
                mac_distinct(kept@),
            decreases s.len() - i,
        {
            let e = self.entries[i];
            assert(s.take(i + 1).drop_last() == s.take(i as int));
            reveal_with_fuel(Seq::<_>::filter, 1);
            if e.1 != port {
                assert forall|k: int| 0 <= k < kept@.len() implies kept@[k].0 != e.0 by {
                    let j = choose|j: int| 0 <= j < i && #[trigger] s[j] == kept@[k];
                    assert(s[j].0 != s[i as int].0);
                }
                let ghost old_kept = kept@;
                kept.push(e);
                assert forall|k: int| 0 <= k < kept@.len() implies exists|j: int| 0 <= j < i + 1 && #[trigger] s[j] == #[trigger] kept@[k] by {
                    if k < old_kept.len() {
                        let j = choose|j: int| 0 <= j < i && #[trigger] s[j] == old_kept[k];
                        assert(s[j] == kept@[k]);
                    } else {
                        assert(s[i as int] == kept@[k]);
                    }
                }
            }
            i = i + 1;
        }
        assert(s.take(s.len() as int) == s);
        self.entries = kept;
    }

    /// Learns `mac -> port` now.
    pub fn learn(&mut self, mac: MacAddr, port: usize)
        requires
            old(self).wf(),
        ensures
            final(self).wf(),
            exists|now: u64| final(self)@ == mac_learn(old(self)@, mac, port, now),
    {
        let now = self.clock.now_nanos();
        self.learn_at(mac, port, now);
    }

    /// Looks `mac` up now, dropping its entry if it has expired.
    pub fn lookup(&mut self, mac: &MacAddr) -> (r: Option<usize>)
        requires
            old(self).wf(),
        ensures
            final(self).wf(),
            exists|now: u64| (final(self)@, r) == mac_lookup(old(self)@, *mac, now),
    {
        let now = self.clock.now_nanos();
        self.lookup_at(mac, now)
    }

    /// Drops the entries that have expired now.
    pub fn purge_expired(&mut self)
        requires
            old(self).wf(),
        ensures
            final(self).wf(),
            exists|now: u64| final(self)@ == mac_purge(old(self)@, now),
    {
        let now = self.clock.now_nanos();
        self.purge_expired_at(now);
    }

}

} // verus!
