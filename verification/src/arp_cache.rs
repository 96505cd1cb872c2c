//! The ARP cache: a keyed store from IPv4 address to link address with
//! per-entry expiry.  Both lookup directions are served from one record
//! table in which addresses of either kind appear at most once, so the
//! forward map and the reverse map agree on membership at every point.

use vstd::prelude::*;
use crate::clock::{Duration, Instant};
use crate::ip::Ipv4Addr;
use crate::mac::MacAddress;

verus! {

#[derive(Clone, Copy, Debug)]
pub struct ArpRecord {
    pub ipv4_addr: Ipv4Addr,
    pub link_addr: MacAddress,
    /// `None` means the entry never expires.
    pub expiry: Option<Instant>,
}

/// The record is still valid at `now`.
pub open spec fn live(r: ArpRecord, now: Instant) -> bool {
    match r.expiry {
        None => true,
        Some(e) => now.ns < e.ns,
    }
}

/// Each IPv4 address and each link address appears at most once: the two
/// lookup directions are inverses of one another on the table.
pub open spec fn cache_wf(s: Seq<ArpRecord>) -> bool {
    forall|a: int, b: int| 0 <= a < b < s.len() ==> (#[trigger] s[a]).ipv4_addr != (
    #[trigger] s[b]).ipv4_addr && s[a].link_addr != s[b].link_addr
}

pub open spec fn has_ip(s: Seq<ArpRecord>, ip: Ipv4Addr) -> bool {
    exists|i: int| 0 <= i < s.len() && (#[trigger] s[i]).ipv4_addr == ip
}

pub open spec fn has_mac(s: Seq<ArpRecord>, mac: MacAddress) -> bool {
    exists|i: int| 0 <= i < s.len() && (#[trigger] s[i]).link_addr == mac
}


/// Removing one element keeps every other element present, and adds
/// nothing.
pub proof fn lemma_remove_keeps<A>(s: Seq<A>, i: int)
    requires
        0 <= i < s.len(),
    ensures
        forall|x: A| #[trigger] s.remove(i).contains(x) ==> s.contains(x),
        forall|x: A| s.contains(x) && x != s[i] ==> s.remove(i).contains(x),
{
    assert forall|x: A| #[trigger] s.remove(i).contains(x) implies s.contains(x) by {
        let a = choose|a: int| 0 <= a < s.remove(i).len() && s.remove(i)[a] == x;
        if a < i {
            assert(s[a] == x);
        } else {
            assert(s[a + 1] == x);
        }
    }
    assert forall|x: A| s.contains(x) && x != s[i] implies s.remove(i).contains(x) by {
        let a = choose|a: int| 0 <= a < s.len() && s[a] == x;
        if a < i {
            assert(s.remove(i)[a] == x);
        } else {
            assert(a != i);
            assert(s.remove(i)[a - 1] == x);
        }
    }
}

pub struct ArpCache {
    pub entries: Vec<ArpRecord>,
    pub default_ttl: Option<Duration>,
    pub now: Instant,
}

impl ArpCache {
    pub open spec fn wf(&self) -> bool {
        cache_wf(self.entries@)
    }

    /// The expiry an entry inserted now would get under TTL `ttl`.
    pub open spec fn spec_expiry(&self, ttl: Option<Duration>) -> Option<Instant> {
        match ttl {
            Some(d) => Some(
                Instant {
                    ns: if self.now.ns + d.ns <= u64::MAX {
                        (self.now.ns + d.ns) as u64
                    } else {
                        u64::MAX
                    },
                },
            ),
            None => match self.default_ttl {
                Some(d) => Some(
                    Instant {
                        ns: if self.now.ns + d.ns <= u64::MAX {
                            (self.now.ns + d.ns) as u64
                        } else {
                            u64::MAX
                        },
                    },
                ),
                None => None,
            },
        }
    }

    pub fn new(now: Instant, default_ttl: Option<Duration>) -> (r: ArpCache)
        ensures
            r.wf(),
            r.entries@.len() == 0,
            r.default_ttl == default_ttl,
            r.now == now,
    {
        ArpCache { entries: Vec::new(), default_ttl, now }
    }

    /// Index of the entry for `ip`, unique when the cache is well formed.
    fn find_ip(&self, ip: Ipv4Addr) -> (r: Option<usize>)
        ensures
            r matches Some(i) ==> i < self.entries@.len() && self.entries@[i as int].ipv4_addr
                == ip,
            r is None ==> !has_ip(self.entries@, ip),
    {
        let n = self.entries.len();
        let mut i: usize = 0;
        while i < n
            invariant
                i <= n,
                n == self.entries@.len(),
                forall|j: int| 0 <= j < i ==> (#[trigger] self.entries@[j]).ipv4_addr != ip,
            decreases n - i,
        {
            if self.entries[i].ipv4_addr.bits == ip.bits {
                return Some(i);
            }
            i = i + 1;
        }
        None
    }

    fn find_mac(&self, mac: &MacAddress) -> (r: Option<usize>)
        ensures
            r matches Some(i) ==> i < self.entries@.len() && self.entries@[i as int].link_addr
                == *mac,
            r is None ==> !has_mac(self.entries@, *mac),
    {
        let n = self.entries.len();
        let mut i: usize = 0;
        while i < n
            invariant
                i <= n,
                n == self.entries@.len(),
                forall|j: int| 0 <= j < i ==> (#[trigger] self.entries@[j]).link_addr != *mac,
            decreases n - i,
        {
            if self.entries[i].link_addr == *mac {
                return Some(i);
            }
            i = i + 1;
        }
        None
    }

    /// Removes the entry at index `i`, preserving well-formedness.
    fn remove_idx(&mut self, i: usize)
        requires
            old(self).wf(),
            i < old(self).entries@.len(),
        ensures
            final(self).wf(),
            final(self).entries@ == old(self).entries@.remove(i as int),
            final(self).now == old(self).now,
            final(self).default_ttl == old(self).default_ttl,
    {
        let ghost o = self.entries@;
        self.entries.remove(i);
        proof {
            assert forall|a: int, b: int| 0 <= a < b < self.entries@.len() implies (
            #[trigger] self.entries@[a]).ipv4_addr != (#[trigger] self.entries@[b]).ipv4_addr
                && self.entries@[a].link_addr != self.entries@[b].link_addr by {
                let oa: int = if a < i {
                    a
                } else {
                    a + 1
                };
                let ob: int = if b < i {
                    b
                } else {
                    b + 1
                };
                assert(self.entries@[a] == o[oa]);
                assert(self.entries@[b] == o[ob]);
                assert(o[oa].ipv4_addr != o[ob].ipv4_addr && o[oa].link_addr != o[ob].link_addr);
            }
        }
    }

    /// Inserts `ip -> mac` with the given TTL (`None`: use the default).
    /// Any entry under the same IPv4 address or the same link address is
    /// displaced, which keeps the two directions inverse to each other.
    /// Returns the link address previously held for `ip`, if any.
    pub fn insert_with_ttl(&mut self, ipv4_addr: Ipv4Addr, link_addr: MacAddress, ttl: Option<
        Duration,
    >) -> (r: Option<MacAddress>)
        requires
            old(self).wf(),
        ensures
            final(self).wf(),
            final(self).now == old(self).now,
            final(self).default_ttl == old(self).default_ttl,
            final(self).entries@.len() >= 1,
            final(self).entries@.len() <= old(self).entries@.len() + 1,
            final(self).entries@.last() == (ArpRecord {
                ipv4_addr,
                link_addr,
                expiry: old(self).spec_expiry(ttl),
            }),
            // unrelated entries are preserved, and nothing else appears
            forall|r2: ArpRecord| #[trigger] old(self).entries@.contains(r2) && r2.ipv4_addr
                != ipv4_addr && r2.link_addr != link_addr ==> final(self).entries@.contains(r2),
            forall|r2: ArpRecord| #[trigger] final(self).entries@.contains(r2) ==> r2 == final(self).entries@.last() || old(self).entries@.contains(r2),
            r matches Some(m) ==> exists|i: int| 0 <= i < old(self).entries@.len() && (
            #[trigger] old(self).entries@[i]).ipv4_addr == ipv4_addr && old(self).entries@[i].link_addr == m,
            r is None ==> !has_ip(old(self).entries@, ipv4_addr),
    {
        let ghost s0 = self.entries@;
        let expiry: Option<Instant> = match ttl {
            Some(d) => Some(self.now.plus(d)),
            None => match self.default_ttl {
                Some(d) => Some(self.now.plus(d)),
                None => None,
            },
        };
        let displaced: Option<MacAddress> = match self.find_ip(ipv4_addr) {
            Some(i) => {
                let m = self.entries[i].link_addr;
                let ghost pre = self.entries@;
                self.remove_idx(i);
                proof {
                    lemma_remove_keeps(pre, i as int);
                    assert forall|r2: ArpRecord| #[trigger] s0.contains(r2) && r2.ipv4_addr
                        != ipv4_addr implies self.entries@.contains(r2) by {
                        assert(r2 != pre[i as int]);
                    }
                    assert(forall|r2: ArpRecord| #[trigger] self.entries@.contains(r2)
                        ==> s0.contains(r2));
                }
                Some(m)
            },
            None => None,
        };
        proof {
            assert(forall|r2: ArpRecord| #[trigger] s0.contains(r2) && r2.ipv4_addr != ipv4_addr
                ==> self.entries@.contains(r2));
            assert(forall|r2: ArpRecord| #[trigger] self.entries@.contains(r2) ==> s0.contains(
                r2,
            ));
        }
        let ghost s1 = self.entries@;
        match self.find_mac(&link_addr) {
            Some(j) => {
                let ghost pre = self.entries@;
                self.remove_idx(j);
                proof {
                    lemma_remove_keeps(pre, j as int);
                    assert forall|r2: ArpRecord| #[trigger] s1.contains(r2) && r2.link_addr
                        != link_addr implies self.entries@.contains(r2) by {
                        assert(r2 != pre[j as int]);
                    }
                    assert(forall|r2: ArpRecord| #[trigger] self.entries@.contains(r2)
                        ==> s1.contains(r2));
                }
            },
            None => {},
        };
        proof {
            assert(forall|r2: ArpRecord| #[trigger] s1.contains(r2) && r2.link_addr != link_addr
                ==> self.entries@.contains(r2));
            assert(forall|r2: ArpRecord| #[trigger] self.entries@.contains(r2) ==> s1.contains(
                r2,
            ));
        }
        let ghost before = self.entries@;
        self.entries.push(ArpRecord { ipv4_addr, link_addr, expiry });
        proof {
            assert forall|a: int, b: int| 0 <= a < b < self.entries@.len() implies (
            #[trigger] self.entries@[a]).ipv4_addr != (#[trigger] self.entries@[b]).ipv4_addr
                && self.entries@[a].link_addr != self.entries@[b].link_addr by {
                if b == self.entries@.len() - 1 {
                    assert(self.entries@[a] == before[a]);
                } else {
                    assert(self.entries@[a] == before[a]);
                    assert(self.entries@[b] == before[b]);
                }
            }
            assert forall|r2: ArpRecord| #[trigger] s0.contains(r2) && r2.ipv4_addr != ipv4_addr
                && r2.link_addr != link_addr implies self.entries@.contains(r2) by {
                assert(before.contains(r2));
                let a = choose|a: int| 0 <= a < before.len() && before[a] == r2;
                assert(self.entries@[a] == r2);
            }
            assert forall|r2: ArpRecord| #[trigger] self.entries@.contains(r2) implies r2
                == self.entries@.last() || s0.contains(r2) by {
                let a = choose|a: int| 0 <= a < self.entries@.len() && self.entries@[a] == r2;
                if a < self.entries@.len() - 1 {
                    assert(before[a] == r2);
                    assert(before.contains(r2));
                }
            }
        }
        displaced
    }

    /// Inserts with the default TTL.
    pub fn insert(&mut self, ipv4_addr: Ipv4Addr, link_addr: MacAddress) -> (r: Option<MacAddress>)
        requires
            old(self).wf(),
        ensures
            final(self).wf(),
            final(self).now == old(self).now,
            final(self).default_ttl == old(self).default_ttl,
            final(self).entries@.len() >= 1,
            final(self).entries@.len() <= old(self).entries@.len() + 1,
            final(self).entries@.last() == (ArpRecord {
                ipv4_addr,
                link_addr,
                expiry: old(self).spec_expiry(None),
            }),
            forall|r2: ArpRecord| #[trigger] old(self).entries@.contains(r2) && r2.ipv4_addr
                != ipv4_addr && r2.link_addr != link_addr ==> final(self).entries@.contains(r2),
            forall|r2: ArpRecord| #[trigger] final(self).entries@.contains(r2) ==> r2 == final(self).entries@.last() || old(self).entries@.contains(r2),
            r matches Some(m) ==> exists|i: int| 0 <= i < old(self).entries@.len() && (
            #[trigger] old(self).entries@[i]).ipv4_addr == ipv4_addr && old(self).entries@[i].link_addr == m,
            r is None ==> !has_ip(old(self).entries@, ipv4_addr),
    {
        self.insert_with_ttl(ipv4_addr, link_addr, None)
    }

    /// Removes the entry for `ip`, which must exist.
    pub fn remove(&mut self, ipv4_addr: Ipv4Addr)
        requires
            old(self).wf(),
            has_ip(old(self).entries@, ipv4_addr),
        ensures
            final(self).wf(),
            final(self).now == old(self).now,
            final(self).default_ttl == old(self).default_ttl,
            !has_ip(final(self).entries@, ipv4_addr),
            final(self).entries@.len() == old(self).entries@.len() - 1,
    {
        let i = match self.find_ip(ipv4_addr) {
            Some(i) => i,
            None => {
                proof {
                    assert(false);
                }
                0
            },
        };
        let ghost o = self.entries@;
        self.remove_idx(i);
        proof {
            assert forall|j: int| 0 <= j < self.entries@.len() implies (
            #[trigger] self.entries@[j]).ipv4_addr != ipv4_addr by {
                if j < i {
                    assert(self.entries@[j] == o[j]);
                    assert(o[j].ipv4_addr != o[i as int].ipv4_addr);
                } else {
                    assert(self.entries@[j] == o[j + 1]);
                    assert(o[i as int].ipv4_addr != o[j + 1].ipv4_addr);
                }
            }
        }
    }

    /// The link address learned for `ip`, if the entry is still live.
    pub fn get_link_addr(&self, ipv4_addr: Ipv4Addr) -> (r: Option<MacAddress>)
        requires
            self.wf(),
        ensures
            r matches Some(m) ==> exists|i: int| 0 <= i < self.entries@.len() && (
            #[trigger] self.entries@[i]).ipv4_addr == ipv4_addr && self.entries@[i].link_addr == m
                && live(self.entries@[i], self.now),
            r is None ==> forall|i: int| 0 <= i < self.entries@.len() && (
            #[trigger] self.entries@[i]).ipv4_addr == ipv4_addr ==> !live(
                self.entries@[i],
                self.now,
            ),
    {
        match self.find_ip(ipv4_addr) {
            Some(i) => {
                let rec = self.entries[i];
                let is_live = match rec.expiry {
                    None => true,
                    Some(e) => self.now.ns < e.ns,
                };
                if is_live {
                    Some(rec.link_addr)
                } else {
                    proof {
                        assert forall|j: int|
                            0 <= j < self.entries@.len() && (
                            #[trigger] self.entries@[j]).ipv4_addr == ipv4_addr implies !live(
                            self.entries@[j],
                            self.now,
                        ) by {
                            if j < i as int {
                                assert(self.entries@[j].ipv4_addr
                                    != self.entries@[i as int].ipv4_addr);
                            } else if j > i as int {
                                assert(self.entries@[i as int].ipv4_addr
                                    != self.entries@[j].ipv4_addr);
                            }
                        }
                    }
                    None
                }
            },
            None => None,
        }
    }

    /// The reverse direction: the IPv4 address whose entry carries `mac`.
    pub fn get_ipv4_addr(&self, link_addr: MacAddress) -> (r: Option<Ipv4Addr>)
        requires
            self.wf(),
        ensures
            r matches Some(ip) ==> exists|i: int| 0 <= i < self.entries@.len() && (
            #[trigger] self.entries@[i]).ipv4_addr == ip && self.entries@[i].link_addr == link_addr
                && live(self.entries@[i], self.now),
            r is None ==> forall|i: int| 0 <= i < self.entries@.len() && (
            #[trigger] self.entries@[i]).link_addr == link_addr ==> !live(
                self.entries@[i],
                self.now,
            ),
    {
        match self.find_mac(&link_addr) {
            Some(i) => {
                let rec = self.entries[i];
                let is_live = match rec.expiry {
                    None => true,
                    Some(e) => self.now.ns < e.ns,
                };
                if is_live {
                    Some(rec.ipv4_addr)
                } else {
                    proof {
                        assert forall|j: int|
                            0 <= j < self.entries@.len() && (
                            #[trigger] self.entries@[j]).link_addr == link_addr implies !live(
                            self.entries@[j],
                            self.now,
                        ) by {
                            if j < i as int {
                                assert(self.entries@[j].link_addr
                                    != self.entries@[i as int].link_addr);
                            } else if j > i as int {
                                assert(self.entries@[i as int].link_addr
                                    != self.entries@[j].link_addr);
                            }
                        }
                    }
                    None
                }
            },
            None => None,
        }
    }

    /// Advances the cache clock and drops every expired entry.
    pub fn advance_clock(&mut self, now: Instant)
        requires
            old(self).wf(),
        ensures
            final(self).wf(),
            final(self).now == now,
            final(self).default_ttl == old(self).default_ttl,
            forall|i: int| 0 <= i < final(self).entries@.len() ==> live(
                #[trigger] final(self).entries@[i],
                now,
            ),
            // every entry still live at `now` survives, and nothing new
            // appears
            forall|r2: ArpRecord| #[trigger] old(self).entries@.contains(r2) && live(r2, now)
                ==> final(self).entries@.contains(r2),
            forall|r2: ArpRecord| #[trigger] final(self).entries@.contains(r2) ==> old(self).entries@.contains(r2),
    {
        self.now = now;
        let ghost s0 = self.entries@;
        let mut i: usize = 0;
        while i < self.entries.len()
            invariant
                i <= self.entries@.len(),
                cache_wf(self.entries@),
                self.now == now,
                self.default_ttl == old(self).default_ttl,
                forall|j: int| 0 <= j < i ==> live(#[trigger] self.entries@[j], now),
                forall|r2: ArpRecord| #[trigger] s0.contains(r2) && live(r2, now)
                    ==> self.entries@.contains(r2),
                forall|r2: ArpRecord| #[trigger] self.entries@.contains(r2) ==> s0.contains(r2),
            decreases self.entries@.len() - i,
        {
            let rec = self.entries[i];
            let is_live = match rec.expiry {
                None => true,
                Some(e) => now.ns < e.ns,
            };
            if is_live {
                i = i + 1;
            } else {
                let ghost o = self.entries@;
                self.remove_idx(i);
                proof {
                    lemma_remove_keeps(o, i as int);
                    assert forall|j: int| 0 <= j < i implies live(
                        #[trigger] self.entries@[j],
                        now,
                    ) by {
                        assert(self.entries@[j] == o[j]);
                    }
                    assert forall|r2: ArpRecord| #[trigger] s0.contains(r2) && live(
                        r2,
                        now,
                    ) implies self.entries@.contains(r2) by {
                        assert(o.contains(r2));
                        assert(r2 != o[i as int]);
                    }
                }
            }
        }
    }

    /// Removes and returns up to `count` entries, oldest first (the
    /// table keeps insertion order, so the front holds the oldest).  An
    /// expired entry further back survives until `advance_clock` drops
    /// it: forced eviction is by age alone.  A count at least the table
    /// size empties the cache entirely.
    pub fn try_evict(&mut self, count: usize) -> (r: Vec<(Ipv4Addr, MacAddress)>)
        requires
            old(self).wf(),
        ensures
            final(self).wf(),
            final(self).now == old(self).now,
            final(self).default_ttl == old(self).default_ttl,
            r@.len() == vstd::math::min(count as int, old(self).entries@.len() as int),
            final(self).entries@.len() == old(self).entries@.len() - r@.len(),
            count >= old(self).entries@.len() ==> final(self).entries@.len() == 0,
            forall|i: int| 0 <= i < r@.len() ==> (#[trigger] r@[i]).0 == old(self).entries@[i].ipv4_addr && r@[i].1 == old(self).entries@[i].link_addr,
            final(self).entries@ == old(self).entries@.subrange(
                r@.len() as int,
                old(self).entries@.len() as int,
            ),
    {
        let ghost o = self.entries@;
        let mut out: Vec<(Ipv4Addr, MacAddress)> = Vec::new();
        let mut k: usize = 0;
        while k < count && self.entries.len() > 0
            invariant
                k <= count,
                k == out@.len(),
                self.now == old(self).now,
                self.default_ttl == old(self).default_ttl,
                k <= o.len(),
                self.entries@.len() == o.len() - k,
                k == count || self.entries@.len() == o.len() - k,
                forall|i: int| 0 <= i < self.entries@.len() ==> #[trigger] self.entries@[i] == o[i
                    + k],
                forall|i: int| 0 <= i < k ==> (#[trigger] out@[i]).0 == o[i].ipv4_addr && out@[i].1
                    == o[i].link_addr,
                cache_wf(self.entries@),
            decreases count - k,
        {
            let rec = self.entries.remove(0);
            out.push((rec.ipv4_addr, rec.link_addr));
            k = k + 1;
            proof {
                assert forall|a: int, b: int| 0 <= a < b < self.entries@.len() implies (
                #[trigger] self.entries@[a]).ipv4_addr != (#[trigger] self.entries@[b]).ipv4_addr
                    && self.entries@[a].link_addr != self.entries@[b].link_addr by {
                    assert(self.entries@[a] == o[a + k]);
                    assert(self.entries@[b] == o[b + k]);
                }
            }
        }
        proof {
            assert(self.entries@ =~= o.subrange(out@.len() as int, o.len() as int));
        }
        out
    }

    pub fn clear(&mut self)
        ensures
            final(self).wf(),
            final(self).entries@.len() == 0,
            final(self).now == old(self).now,
            final(self).default_ttl == old(self).default_ttl,
    {
        self.entries.clear();
    }

    /// The current table as address pairs, in table order.
    pub fn export(&self) -> (r: Vec<(Ipv4Addr, MacAddress)>)
        ensures
            r@.len() == self.entries@.len(),
            forall|i: int| 0 <= i < r@.len() ==> (#[trigger] r@[i]).0 == self.entries@[i].ipv4_addr
                && r@[i].1 == self.entries@[i].link_addr,
    {
        let n = self.entries.len();
        let mut out: Vec<(Ipv4Addr, MacAddress)> = Vec::new();
        let mut i: usize = 0;
        while i < n
            invariant
                i <= n,
                n == self.entries@.len(),
                out@.len() == i,
                forall|j: int| 0 <= j < i ==> (#[trigger] out@[j]).0 == self.entries@[j].ipv4_addr
                    && out@[j].1 == self.entries@[j].link_addr,
            decreases n - i,
        {
            let rec = self.entries[i];
            out.push((rec.ipv4_addr, rec.link_addr));
            i = i + 1;
        }
        out
    }

    /// Replaces the table with the given pairs under the default TTL.
    /// With pairwise distinct addresses (as `export` produces them), the
    /// imported table holds exactly the given pairs in the given order:
    /// importing an export restores the cache modulo TTL.
    pub fn import(&mut self, pairs: &Vec<(Ipv4Addr, MacAddress)>)
        requires
            old(self).wf(),
            forall|a: int, b: int| 0 <= a < b < pairs@.len() ==> (#[trigger] pairs@[a]).0 != (
            #[trigger] pairs@[b]).0 && pairs@[a].1 != pairs@[b].1,
        ensures
            final(self).wf(),
            final(self).now == old(self).now,
            final(self).default_ttl == old(self).default_ttl,
            final(self).entries@.len() == pairs@.len(),
            forall|i: int| 0 <= i < pairs@.len() ==> (#[trigger] final(self).entries@[i]).ipv4_addr
                == pairs@[i].0 && final(self).entries@[i].link_addr == pairs@[i].1,
    {
        self.clear();
        let n = pairs.len();
        let mut i: usize = 0;
        while i < n
            invariant
                i <= n,
                n == pairs@.len(),
                cache_wf(self.entries@),
                self.now == old(self).now,
                self.default_ttl == old(self).default_ttl,
                self.entries@.len() == i,
                forall|j: int| 0 <= j < i ==> (#[trigger] self.entries@[j]).ipv4_addr == pairs@[j].0
                    && self.entries@[j].link_addr == pairs@[j].1,
                forall|a: int, b: int| 0 <= a < b < pairs@.len() ==> (#[trigger] pairs@[a]).0 != (
                #[trigger] pairs@[b]).0 && pairs@[a].1 != pairs@[b].1,
            decreases n - i,
        {
            let p = pairs[i];
            let expiry: Option<Instant> = match self.default_ttl {
                Some(d) => Some(self.now.plus(d)),
                None => None,
            };
            self.entries.push(ArpRecord { ipv4_addr: p.0, link_addr: p.1, expiry });
            proof {
                assert forall|a: int, b: int| 0 <= a < b < self.entries@.len() implies (
                #[trigger] self.entries@[a]).ipv4_addr != (#[trigger] self.entries@[b]).ipv4_addr
                    && self.entries@[a].link_addr != self.entries@[b].link_addr by {
                    if b == self.entries@.len() - 1 {
                        assert(self.entries@[a].ipv4_addr == pairs@[a].0);
                        assert(self.entries@[b].ipv4_addr == pairs@[i as int].0);
                        assert(pairs@[a].0 != pairs@[i as int].0);
                        assert(pairs@[a].1 != pairs@[i as int].1);
                    }
                }
            }
            i = i + 1;
        }
    }
}

/// Reverse-index consistency: in a well-formed table the two directions
/// are inverses — the entry that holds a link address is exactly the
/// entry of the IPv4 address it was learned for.
pub proof fn lemma_reverse_index_consistency(s: Seq<ArpRecord>, i: int, j: int)
    requires
        cache_wf(s),
        0 <= i < s.len(),
        0 <= j < s.len(),
        s[j].link_addr == s[i].link_addr,
    ensures
        i == j,
        s[j].ipv4_addr == s[i].ipv4_addr,
{
    if i < j {
        assert(s[i].link_addr != s[j].link_addr);
    } else if j < i {
        assert(s[j].link_addr != s[i].link_addr);
    }
}

} // verus!
