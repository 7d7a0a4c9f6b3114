//! Tracking sent announcements so that an inbound proof request can be matched
//! with the announcement that triggered it.

use vstd::prelude::*;

use std::collections::VecDeque;

use crate::messages::{CompactionKey, CompactionKeyView};

verus! {

/// How long a sent announcement is remembered (120 s, in nanoseconds).
pub const ANNOUNCEMENT_TRACK_TTL_NS: u64 = 120_000_000_000;

/// At most this many announcements are remembered once old ones are cleaned up.
pub const MAX_PENDING_ANNOUNCEMENTS: usize = 50_000;

/// One remembered announcement: its key, when it was sent and its sequence number.
#[derive(Debug)]
pub struct PendingEntry {
    pub key: CompactionKey,
    pub sent_at_ns: u64,
    pub seq: u64,
}

/// A slot in the age order of announcements: key and the sequence number it was sent with.
#[derive(Debug)]
pub struct OrderEntry {
    pub key: CompactionKey,
    pub seq: u64,
}

/// Remembered announcements: (key, sent at, sequence number).
pub type PendingMapView = Seq<(CompactionKeyView, u64, u64)>;

/// Age order: (key, sequence number), oldest first.
pub type PendingOrderView = Seq<(CompactionKeyView, u64)>;

pub open spec fn pending_has(m: PendingMapView, k: CompactionKeyView) -> bool {
    exists|i: int| 0 <= i < m.len() && (#[trigger] m[i]).0 == k
}

pub open spec fn pending_index(m: PendingMapView, k: CompactionKeyView) -> int {
    choose|i: int| 0 <= i < m.len() && (#[trigger] m[i]).0 == k
}

pub open spec fn pending_keys_unique(m: PendingMapView) -> bool {
    forall|i: int, j: int| 0 <= i < m.len() && 0 <= j < m.len() && i != j ==> (#[trigger] m[i]).0 != (#[trigger] m[j]).0
}

/// Every remembered announcement has its (key, sequence number) slot in the age order.
pub open spec fn order_covers(m: PendingMapView, o: PendingOrderView) -> bool {
    forall|i: int| 0 <= i < m.len() ==> has_slot(o, #[trigger] m[i])
}

/// The age order holds a slot for the entry `e`.
pub open spec fn has_slot(o: PendingOrderView, e: (CompactionKeyView, u64, u64)) -> bool {
    exists|j: int| 0 <= j < o.len() && o[j] == (e.0, e.2)
}

/// An announcement sent at `sent_at` is forgotten from time `now` on.
pub open spec fn is_expired(sent_at: u64, now: u64) -> bool {
    (if now >= sent_at { now - sent_at } else { 0 }) >= ANNOUNCEMENT_TRACK_TTL_NS
}

/// `m` with the entry for `k` (if any) set to `(k, t, q)`.
pub open spec fn pending_put(m: PendingMapView, k: CompactionKeyView, t: u64, q: u64) -> PendingMapView {
    if pending_has(m, k) {
        m.update(pending_index(m, k), (k, t, q))
    } else {
        m.push((k, t, q))
    }
}

/// `m` without the entry for `k`.
pub open spec fn pending_remove(m: PendingMapView, k: CompactionKeyView) -> PendingMapView {
    if pending_has(m, k) {
        m.remove(pending_index(m, k))
    } else {
        m
    }
}

/// The state after clean-up at time `now`: slots are dropped from the old end of
/// the age order while they are stale (their key is gone or was sent again later),
/// or their announcement expired, or more than the maximum are remembered; an
/// expired or surplus announcement is forgotten along with its slot.
pub open spec fn cleanup_result(m: PendingMapView, o: PendingOrderView, now: u64) -> (PendingMapView, PendingOrderView)
    decreases o.len(),
{
    if o.len() == 0 {
        (m, o)
    } else {
        let k = o[0].0;
        let q = o[0].1;
        if !pending_has(m, k) || m[pending_index(m, k)].2 != q {
            cleanup_result(m, o.drop_first(), now)
        } else if is_expired(m[pending_index(m, k)].1, now) || m.len() > MAX_PENDING_ANNOUNCEMENTS {
            cleanup_result(pending_remove(m, k), o.drop_first(), now)
        } else {
            (m, o)
        }
    }
}

/// The announcements a peer session has sent and not yet seen requested.
#[derive(Debug)]
pub struct PendingAnnouncements {
    entries: Vec<PendingEntry>,
    order: VecDeque<OrderEntry>,
    next_seq: u64,
}

impl PendingAnnouncements {
    pub closed spec fn map(&self) -> PendingMapView {
        self.entries@.map_values(|e: PendingEntry| (e.key@, e.sent_at_ns, e.seq))
    }

    pub closed spec fn age_order(&self) -> PendingOrderView {
        self.order@.map_values(|e: OrderEntry| (e.key@, e.seq))
    }

    pub closed spec fn spec_next_seq(&self) -> u64 {
        self.next_seq
    }

    pub open spec fn wf(&self) -> bool {
        &&& pending_keys_unique(self.map())
        &&& order_covers(self.map(), self.age_order())
    }

    /// Nothing remembered; sequence numbers start at one.
    pub fn new() -> (r: Self)
        ensures
            r.wf(),
            r.map().len() == 0,
            r.age_order().len() == 0,
            r.spec_next_seq() == 1,
    {
        let r = PendingAnnouncements { entries: Vec::new(), order: VecDeque::new(), next_seq: 1 };
        assert(r.map() =~= Seq::empty());
        assert(r.age_order() =~= Seq::empty());
        r
    }

    /// Number of remembered announcements.
    pub fn len(&self) -> (r: usize)
        ensures
            r == self.map().len(),
    {
        self.entries.len()
    }

    fn find(&self, key: &CompactionKey) -> (r: Option<usize>)
        requires
            self.wf(),
        ensures
            match r {
                Some(i) => i < self.map().len() && self.map()[i as int].0 == key@ && pending_has(self.map(), key@)
                    && pending_index(self.map(), key@) == i,
                None => !pending_has(self.map(), key@),
            },
    {
        let n = self.entries.len();
        let mut i: usize = 0;
        while i < n
            invariant
                self.wf(),
                n == self.map().len(),
                0 <= i <= n,
                forall|j: int| 0 <= j < i ==> (#[trigger] self.map()[j]).0 != key@,
            decreases n - i,
        {
            assert(self.map()[i as int] == (self.entries@[i as int].key@, self.entries@[i as int].sent_at_ns, self.entries@[i as int].seq));
            if self.entries[i].key.same_as(key) {
                let ghost m = self.map();
                assert(pending_has(m, key@));
                assert(pending_index(m, key@) == i);
                return Some(i);
            }
            i = i + 1;
        }
        None
    }

    /// Remembers that `key` was announced at `now_ns`, under the next sequence number.
    pub fn remember(&mut self, key: CompactionKey, now_ns: u64)
        requires
            old(self).wf(),
        ensures
            final(self).wf(),
            final(self).spec_next_seq() == old(self).spec_next_seq().wrapping_add(1),
            final(self).map() == pending_put(old(self).map(), key@, now_ns, old(self).spec_next_seq()),
            final(self).age_order() == old(self).age_order().push((key@, old(self).spec_next_seq())),
    {
        let ghost m = self.map();
        let ghost o = self.age_order();
        let seq = self.next_seq;
        self.next_seq = self.next_seq.wrapping_add(1);
        let ghost kv = key@;
        let order_key = key.clone();
        match self.find(&key) {
            Some(i) => {
                self.entries.set(i, PendingEntry { key, sent_at_ns: now_ns, seq });
                assert(self.map() =~= m.update(i as int, (kv, now_ns, seq)));
            },
            None => {
                self.entries.push(PendingEntry { key, sent_at_ns: now_ns, seq });
                assert(self.map() =~= m.push((kv, now_ns, seq)));
            },
        }
        self.order.push_back(OrderEntry { key: order_key, seq });
        assert(self.age_order() =~= o.push((kv, seq)));
        proof { lemma_put_keeps(m, o, kv, now_ns, seq); }
    }

    /// Forgets `key`, returning when it was announced if it was remembered.
    pub fn take(&mut self, key: &CompactionKey) -> (r: Option<u64>)
        requires
            old(self).wf(),
        ensures
            final(self).wf(),
            final(self).spec_next_seq() == old(self).spec_next_seq(),
            final(self).age_order() == old(self).age_order(),
            final(self).map() == pending_remove(old(self).map(), key@),
            match r {
                Some(t) => pending_has(old(self).map(), key@)
                    && t == old(self).map()[pending_index(old(self).map(), key@)].1,
                None => !pending_has(old(self).map(), key@),
            },
    {
        let ghost m = self.map();
        let ghost o = self.age_order();
        match self.find(key) {
            Some(i) => {
                let e = self.entries.remove(i);
                assert(self.map() =~= m.remove(i as int));
                proof { lemma_remove_keeps(m, o, i as int); }
                Some(e.sent_at_ns)
            },
            None => None,
        }
    }

    /// Drops stale, expired and surplus announcements from the old end (see [`cleanup_result`]).
    pub fn cleanup(&mut self, now_ns: u64)
        requires
            old(self).wf(),
        ensures
            final(self).wf(),
            final(self).spec_next_seq() == old(self).spec_next_seq(),
            (final(self).map(), final(self).age_order()) == cleanup_result(old(self).map(), old(self).age_order(), now_ns),
            final(self).map().len() <= MAX_PENDING_ANNOUNCEMENTS,
    {
        loop
            invariant
                self.wf(),
                self.spec_next_seq() == old(self).spec_next_seq(),
                cleanup_result(self.map(), self.age_order(), now_ns) == cleanup_result(old(self).map(), old(self).age_order(), now_ns),
            decreases self.order@.len(),
        {
            let ghost m = self.map();
            let ghost o = self.age_order();
            if self.order.len() == 0 {
                proof { lemma_covered_empty(m, o); }
                return;
            }
            let front_seq = self.order[0].seq;
            assert(o[0] == (self.order@[0].key@, self.order@[0].seq));
            let found = self.find(&self.order[0].key);
            match found {
                None => {
                    let _ = self.order.pop_front();
                    assert(self.age_order() =~= o.drop_first());
                    proof { lemma_drop_stale(m, o); }
                },
                Some(i) => {
                    if self.entries[i].seq != front_seq {
                        let _ = self.order.pop_front();
                        assert(self.age_order() =~= o.drop_first());
                        proof { lemma_drop_stale(m, o); }
                    } else {
                        let sent_at = self.entries[i].sent_at_ns;
                        let age = if now_ns >= sent_at { now_ns - sent_at } else { 0 };
                        let expired = age >= ANNOUNCEMENT_TRACK_TTL_NS;
                        let over_limit = self.entries.len() > MAX_PENDING_ANNOUNCEMENTS;
                        if expired || over_limit {
                            let _ = self.order.pop_front();
                            let _ = self.entries.remove(i);
                            assert(self.age_order() =~= o.drop_first());
                            assert(self.map() =~= m.remove(i as int));
                            proof { lemma_drop_live(m, o, i as int); }
                        } else {
                            return;
                        }
                    }
                },
            }
        }
    }
}

/// Removing an entry keeps keys unique and every other entry covered.
proof fn lemma_remove_keeps(m: PendingMapView, o: PendingOrderView, i: int)
    requires
        0 <= i < m.len(),
        pending_keys_unique(m),
        order_covers(m, o),
    ensures
        pending_keys_unique(m.remove(i)),
        order_covers(m.remove(i), o),
{
    let r = m.remove(i);
    assert forall|a: int, b: int| 0 <= a < r.len() && 0 <= b < r.len() && a != b implies (
    #[trigger] r[a]).0 != (#[trigger] r[b]).0 by {
        let a2 = if a < i { a } else { a + 1 };
        let b2 = if b < i { b } else { b + 1 };
        assert(r[a] == m[a2]);
        assert(r[b] == m[b2]);
    }
    assert forall|a: int| 0 <= a < r.len() implies has_slot(o, #[trigger] r[a]) by {
        let a2 = if a < i { a } else { a + 1 };
        assert(r[a] == m[a2]);
        assert(has_slot(o, m[a2]));
    }
}

/// With every entry covered, an empty age order means nothing is remembered.
proof fn lemma_covered_empty(m: PendingMapView, o: PendingOrderView)
    requires
        order_covers(m, o),
        o.len() == 0,
    ensures
        m.len() == 0,
        cleanup_result(m, o, 0) == (m, o),
{
    if m.len() > 0 {
        assert(has_slot(o, m[0]));
        assert(false);
    }
}

/// Dropping a slot that no remembered announcement uses.
proof fn lemma_drop_stale(m: PendingMapView, o: PendingOrderView)
    requires
        o.len() > 0,
        pending_keys_unique(m),
        order_covers(m, o),
        !pending_has(m, o[0].0) || m[pending_index(m, o[0].0)].2 != o[0].1,
    ensures
        order_covers(m, o.drop_first()),
{
    let d = o.drop_first();
    assert forall|a: int| 0 <= a < m.len() implies has_slot(d, #[trigger] m[a]) by {
        assert(has_slot(o, m[a]));
        let j = choose|j: int| 0 <= j < o.len() && o[j] == (m[a].0, m[a].2);
        if j == 0 {
            assert(pending_has(m, o[0].0));
            let p = pending_index(m, o[0].0);
            assert(m[p].0 == m[a].0);
            assert(p == a);
            assert(false);
        }
        assert(d[j - 1] == o[j]);
    }
}

/// Dropping the oldest slot together with its announcement.
proof fn lemma_drop_live(m: PendingMapView, o: PendingOrderView, i: int)
    requires
        o.len() > 0,
        0 <= i < m.len(),
        m[i].0 == o[0].0,
        m[i].2 == o[0].1,
        pending_keys_unique(m),
        order_covers(m, o),
    ensures
        pending_keys_unique(m.remove(i)),
        order_covers(m.remove(i), o.drop_first()),
{
    lemma_remove_keeps(m, o, i);
    let r = m.remove(i);
    let d = o.drop_first();
    assert forall|a: int| 0 <= a < r.len() implies has_slot(d, #[trigger] r[a]) by {
        let a2 = if a < i { a } else { a + 1 };
        assert(r[a] == m[a2]);
        assert(has_slot(o, m[a2]));
        let j = choose|j: int| 0 <= j < o.len() && o[j] == (r[a].0, r[a].2);
        if j == 0 {
            assert(m[a2].0 == m[i].0);
            assert(false);
        }
        assert(d[j - 1] == o[j]);
    }
}


/// Setting an entry and appending its slot keeps keys unique and every entry covered.
proof fn lemma_put_keeps(m: PendingMapView, o: PendingOrderView, kv: CompactionKeyView, t: u64, q: u64)
    requires
        pending_keys_unique(m),
        order_covers(m, o),
    ensures
        pending_keys_unique(pending_put(m, kv, t, q)),
        order_covers(pending_put(m, kv, t, q), o.push((kv, q))),
        pending_has(pending_put(m, kv, t, q), kv),
        pending_put(m, kv, t, q)[pending_index(pending_put(m, kv, t, q), kv)] == (kv, t, q),
        pending_put(m, kv, t, q).len() == (if pending_has(m, kv) { m.len() } else { m.len() + 1 }),
{
    let m2 = pending_put(m, kv, t, q);
    let o2 = o.push((kv, q));
    assert(pending_keys_unique(m2)) by {
        assert forall|a: int, b: int| 0 <= a < m2.len() && 0 <= b < m2.len() && a != b implies (
        #[trigger] m2[a]).0 != (#[trigger] m2[b]).0 by {
            if pending_has(m, kv) {
                let i = pending_index(m, kv);
                if a != i && b != i {
                    assert(m[a].0 != m[b].0);
                } else if a == i {
                    assert(m[b].0 != m[i].0);
                } else {
                    assert(m[a].0 != m[i].0);
                }
            } else {
                if a < m.len() && b < m.len() {
                    assert(m[a].0 != m[b].0);
                } else if a < m.len() {
                    assert(m[a].0 != kv);
                } else {
                    assert(m[b].0 != kv);
                }
            }
        }
    }
    assert(order_covers(m2, o2)) by {
        assert forall|a: int| 0 <= a < m2.len() implies has_slot(o2, #[trigger] m2[a]) by {
            if m2[a].0 == kv {
                if pending_has(m, kv) {
                    let i = pending_index(m, kv);
                    if a != i {
                        assert(m[a].0 == m[i].0);
                        assert(false);
                    }
                }
                assert(o2[o.len() as int] == (m2[a].0, m2[a].2));
            } else {
                assert(m2[a] == m[a]);
                assert(has_slot(o, m[a]));
                let j = choose|j: int| 0 <= j < o.len() && o[j] == (m[a].0, m[a].2);
                assert(o2[j] == o[j]);
            }
        }
    }
    let i2 = if pending_has(m, kv) { pending_index(m, kv) } else { m.len() as int };
    assert(m2[i2].0 == kv);
    assert(pending_has(m2, kv));
    let p = pending_index(m2, kv);
    assert(m2[p].0 == m2[i2].0);
}

/// Removing the entry of another key keeps the entry of `k`.
proof fn lemma_remove_other(m: PendingMapView, i: int, k: CompactionKeyView)
    requires
        pending_keys_unique(m),
        0 <= i < m.len(),
        m[i].0 != k,
        pending_has(m, k),
    ensures
        pending_keys_unique(m.remove(i)),
        pending_has(m.remove(i), k),
        m.remove(i)[pending_index(m.remove(i), k)] == m[pending_index(m, k)],
{
    let r = m.remove(i);
    let p = pending_index(m, k);
    assert forall|a: int, b: int| 0 <= a < r.len() && 0 <= b < r.len() && a != b implies (
    #[trigger] r[a]).0 != (#[trigger] r[b]).0 by {
        let a2 = if a < i { a } else { a + 1 };
        let b2 = if b < i { b } else { b + 1 };
        assert(r[a] == m[a2]);
        assert(r[b] == m[b2]);
    }
    let p2 = if p < i { p } else { p - 1 };
    assert(r[p2] == m[p]);
    assert(pending_has(r, k));
    let q = pending_index(r, k);
    assert(r[q].0 == r[p2].0);
}

/// Clean-up keeps keys unique and every entry covered, and leaves at most the
/// maximum number of announcements.
pub proof fn lemma_cleanup_bounded(m: PendingMapView, o: PendingOrderView, now: u64)
    requires
        pending_keys_unique(m),
        order_covers(m, o),
    ensures
        pending_keys_unique(cleanup_result(m, o, now).0),
        order_covers(cleanup_result(m, o, now).0, cleanup_result(m, o, now).1),
        cleanup_result(m, o, now).0.len() <= MAX_PENDING_ANNOUNCEMENTS,
    decreases o.len(),
{
    if o.len() == 0 {
        lemma_covered_empty(m, o);
    } else {
        let k = o[0].0;
        let q = o[0].1;
        if !pending_has(m, k) || m[pending_index(m, k)].2 != q {
            lemma_drop_stale(m, o);
            lemma_cleanup_bounded(m, o.drop_first(), now);
        } else if is_expired(m[pending_index(m, k)].1, now) || m.len() > MAX_PENDING_ANNOUNCEMENTS {
            let i = pending_index(m, k);
            lemma_drop_live(m, o, i);
            assert(pending_remove(m, k) == m.remove(i));
            lemma_cleanup_bounded(m.remove(i), o.drop_first(), now);
        }
    }
}

/// Clean-up keeps an announcement that has not expired while at most the maximum
/// number of announcements are remembered.
pub proof fn lemma_cleanup_keeps_fresh(m: PendingMapView, o: PendingOrderView, now: u64, k: CompactionKeyView)
    requires
        pending_keys_unique(m),
        pending_has(m, k),
        !is_expired(m[pending_index(m, k)].1, now),
        m.len() <= MAX_PENDING_ANNOUNCEMENTS,
    ensures
        pending_has(cleanup_result(m, o, now).0, k),
        cleanup_result(m, o, now).0[pending_index(cleanup_result(m, o, now).0, k)] == m[pending_index(m, k)],
    decreases o.len(),
{
    if o.len() > 0 {
        let k0 = o[0].0;
        let q0 = o[0].1;
        if !pending_has(m, k0) || m[pending_index(m, k0)].2 != q0 {
            lemma_cleanup_keeps_fresh(m, o.drop_first(), now, k);
        } else if is_expired(m[pending_index(m, k0)].1, now) || m.len() > MAX_PENDING_ANNOUNCEMENTS {
            let i = pending_index(m, k0);
            assert(k0 != k);
            lemma_remove_other(m, i, k);
            assert(pending_remove(m, k0) == m.remove(i));
            lemma_cleanup_keeps_fresh(m.remove(i), o.drop_first(), now, k);
        }
    }
}

/// Clean-up keeps a fresh announcement whose slot is the newest one and appears
/// nowhere earlier, however many announcements are remembered: every older
/// entry is dropped or the clean-up stops before reaching it.
proof fn lemma_cleanup_keeps_newest(m: PendingMapView, o: PendingOrderView, now: u64, k: CompactionKeyView)
    requires
        pending_keys_unique(m),
        order_covers(m, o),
        pending_has(m, k),
        !is_expired(m[pending_index(m, k)].1, now),
        o.len() > 0,
        o.last() == (k, m[pending_index(m, k)].2),
        forall|j: int| 0 <= j < o.len() - 1 ==> o[j] != (k, m[pending_index(m, k)].2),
    ensures
        pending_has(cleanup_result(m, o, now).0, k),
        cleanup_result(m, o, now).0[pending_index(cleanup_result(m, o, now).0, k)] == m[pending_index(m, k)],
    decreases o.len(),
{
    let p = pending_index(m, k);
    let k0 = o[0].0;
    let q0 = o[0].1;
    if !pending_has(m, k0) || m[pending_index(m, k0)].2 != q0 {
        if o.len() == 1 {
            assert(o[0] == (k, m[p].2));
            assert(false);
        }
        lemma_drop_stale(m, o);
        let d = o.drop_first();
        assert(d.last() == o.last());
        assert forall|j: int| 0 <= j < d.len() - 1 implies d[j] != (k, m[p].2) by {
            assert(d[j] == o[j + 1]);
        }
        lemma_cleanup_keeps_newest(m, d, now, k);
    } else {
        let i = pending_index(m, k0);
        if o.len() == 1 {
            assert(o[0] == (k, m[p].2));
            assert(k0 == k);
            // Every entry has a slot, and the only slot is the one of `k`.
            assert(m.len() <= 1) by {
                if m.len() > 1 {
                    let other = if p == 0 { 1int } else { 0int };
                    assert(has_slot(o, m[other]));
                    assert(m[other].0 == k);
                    assert(m[other].0 == m[p].0);
                    assert(false);
                }
            }
        } else {
            if k0 == k {
                assert(i == p);
                assert(o[0] == (k, m[p].2));
                assert(false);
            }
            if is_expired(m[i].1, now) || m.len() > MAX_PENDING_ANNOUNCEMENTS {
                lemma_drop_live(m, o, i);
                lemma_remove_other(m, i, k);
                assert(pending_remove(m, k0) == m.remove(i));
                let d = o.drop_first();
                let r = m.remove(i);
                assert(d.last() == o.last());
                assert(r[pending_index(r, k)] == m[p]);
                assert forall|j: int| 0 <= j < d.len() - 1 implies d[j] != (k, r[pending_index(r, k)].2) by {
                    assert(d[j] == o[j + 1]);
                }
                lemma_cleanup_keeps_newest(r, d, now, k);
            }
        }
    }
}

/// An inbound request for an announcement sent less than the tracking TTL ago is
/// matched with it, and its delay measured from when it was sent: remembering `kv`
/// at `t1` under a sequence number the age order does not yet hold, cleaning up
/// at `t1` (as after a send) and again at `t2` (as before a match) leaves `kv`
/// remembered as sent at `t1`.
pub proof fn lemma_recent_announcement_matched(
    m: PendingMapView,
    o: PendingOrderView,
    q: u64,
    kv: CompactionKeyView,
    t1: u64,
    t2: u64,
)
    requires
        pending_keys_unique(m),
        order_covers(m, o),
        forall|j: int| 0 <= j < o.len() ==> (#[trigger] o[j]).1 != q,
        t1 <= t2,
        t2 - t1 < ANNOUNCEMENT_TRACK_TTL_NS,
    ensures
        ({
            let (m1, o1) = cleanup_result(pending_put(m, kv, t1, q), o.push((kv, q)), t1);
            let (m2, o2) = cleanup_result(m1, o1, t2);
            pending_has(m2, kv) && m2[pending_index(m2, kv)].1 == t1
        }),
{
    let m0 = pending_put(m, kv, t1, q);
    let o0 = o.push((kv, q));
    lemma_put_keeps(m, o, kv, t1, q);
    assert(o0.last() == (kv, q));
    assert forall|j: int| 0 <= j < o0.len() - 1 implies o0[j] != (kv, m0[pending_index(m0, kv)].2) by {
        assert(o0[j] == o[j]);
    }
    lemma_cleanup_keeps_newest(m0, o0, t1, kv);
    lemma_cleanup_bounded(m0, o0, t1);
    let (m1, o1) = cleanup_result(m0, o0, t1);
    lemma_cleanup_keeps_fresh(m1, o1, t2, kv);
}

} // verus!
