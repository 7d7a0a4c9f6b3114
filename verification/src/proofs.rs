//! Serving archived proofs to peers: a bounded first-in-first-out cache keyed
//! by compaction, and the bookkeeping around one lookup.

use vstd::prelude::*;

use crate::archive::ArchiveError;
use crate::bytes::copy_bytes;
use crate::messages::{lemma_request_key_injective, request_key, CompactionKey, CompactionKeyView, MessageError};
use crate::metrics::{wrap_add_u64, Counter, GaugeU64, Timer};

verus! {

/// Counters and timers describing how inbound proof requests were served.
#[derive(Debug)]
pub struct ProofServingMetrics {
    pub requests_total: Counter,
    pub cache_hits_total: Counter,
    pub cache_misses_total: Counter,
    pub fetch_inflight: GaugeU64,
    pub fetch_ok_total: Counter,
    pub fetch_not_found_total: Counter,
    pub fetch_err_total: Counter,
    pub announcement_request_match_total: Counter,
    pub announcement_request_miss_total: Counter,
    pub respond_send_ok_total: Counter,
    pub respond_send_err_total: Counter,
    pub permit_wait_ms: Timer,
    pub fetch_db_ms: Timer,
    pub fetch_total_ms: Timer,
    pub announcement_to_request_ms: Timer,
    pub respond_send_ms: Timer,
}

impl Default for ProofServingMetrics {
    fn default() -> (r: Self)
        ensures
            r.requests_total@ == 0,
            r.cache_hits_total@ == 0,
            r.cache_misses_total@ == 0,
            r.fetch_inflight@ == 0,
            r.fetch_ok_total@ == 0,
            r.fetch_not_found_total@ == 0,
            r.fetch_err_total@ == 0,
            r.announcement_request_match_total@ == 0,
            r.announcement_request_miss_total@ == 0,
            r.respond_send_ok_total@ == 0,
            r.respond_send_err_total@ == 0,
            r.permit_wait_ms.spec_count() == 0 && r.permit_wait_ms.spec_total_ms() == 0 && r.permit_wait_ms.spec_max_ms() == 0,
            r.fetch_db_ms.spec_count() == 0 && r.fetch_db_ms.spec_total_ms() == 0 && r.fetch_db_ms.spec_max_ms() == 0,
            r.fetch_total_ms.spec_count() == 0 && r.fetch_total_ms.spec_total_ms() == 0 && r.fetch_total_ms.spec_max_ms() == 0,
            r.announcement_to_request_ms.spec_count() == 0 && r.announcement_to_request_ms.spec_total_ms() == 0 && r.announcement_to_request_ms.spec_max_ms() == 0,
            r.respond_send_ms.spec_count() == 0 && r.respond_send_ms.spec_total_ms() == 0 && r.respond_send_ms.spec_max_ms() == 0,
    {
        ProofServingMetrics {
            requests_total: Counter::default(),
            cache_hits_total: Counter::default(),
            cache_misses_total: Counter::default(),
            fetch_inflight: GaugeU64::default(),
            fetch_ok_total: Counter::default(),
            fetch_not_found_total: Counter::default(),
            fetch_err_total: Counter::default(),
            announcement_request_match_total: Counter::default(),
            announcement_request_miss_total: Counter::default(),
            respond_send_ok_total: Counter::default(),
            respond_send_err_total: Counter::default(),
            permit_wait_ms: Timer::default(),
            fetch_db_ms: Timer::default(),
            fetch_total_ms: Timer::default(),
            announcement_to_request_ms: Timer::default(),
            respond_send_ms: Timer::default(),
        }
    }
}

/// One cached proof.
#[derive(Debug)]
pub struct CacheEntry {
    pub key: CompactionKey,
    pub value: Vec<u8>,
}

/// Cache contents in insertion order: (key, response payload) pairs.
pub type CacheView = Seq<(CompactionKeyView, Seq<u8>)>;

/// Whether `s` holds an entry for `k`.
pub open spec fn cache_has(s: CacheView, k: CompactionKeyView) -> bool {
    exists|i: int| 0 <= i < s.len() && (#[trigger] s[i]).0 == k
}

/// No key occurs twice.
pub open spec fn keys_unique(s: CacheView) -> bool {
    forall|i: int, j: int| 0 <= i < s.len() && 0 <= j < s.len() && i != j ==> (#[trigger] s[i]).0 != (#[trigger] s[j]).0
}

/// The position of the entry for `k` (meaningful when there is one).
pub open spec fn cache_index(s: CacheView, k: CompactionKeyView) -> int {
    choose|i: int| 0 <= i < s.len() && (#[trigger] s[i]).0 == k
}

/// The payload stored for `k`, if any.
pub open spec fn cache_lookup(s: CacheView, k: CompactionKeyView) -> Option<Seq<u8>> {
    if cache_has(s, k) {
        Some(s[cache_index(s, k)].1)
    } else {
        None
    }
}

/// The contents after storing `v` under `k` in a cache of capacity `max`:
/// an existing entry is updated where it stands; a new one is appended and,
/// when that exceeds the capacity, the oldest entry is evicted.
pub open spec fn cache_insert(s: CacheView, max: nat, k: CompactionKeyView, v: Seq<u8>) -> CacheView {
    if cache_has(s, k) {
        s.update(cache_index(s, k), (k, v))
    } else if s.len() + 1 > max {
        s.push((k, v)).drop_first()
    } else {
        s.push((k, v))
    }
}

/// A bounded cache of proof responses; the oldest entry is evicted first.
#[derive(Debug)]
pub struct ProofCache {
    max_entries: usize,
    entries: Vec<CacheEntry>,
}

/// The result of looking a request up in the cache.
#[derive(Debug)]
pub enum ProofLookup {
    /// The cached response payload.
    Hit(Vec<u8>),
    /// Not cached: the archive is to be asked.
    Miss,
}

impl ProofCache {
    /// Cache contents in insertion order.
    pub closed spec fn contents(&self) -> CacheView {
        self.entries@.map_values(|e: CacheEntry| (e.key@, e.value@))
    }

    /// Capacity.
    pub closed spec fn capacity(&self) -> nat {
        self.max_entries as nat
    }

    /// At least one entry fits, no more than the capacity are held, keys are unique.
    pub open spec fn wf(&self) -> bool {
        &&& self.capacity() >= 1
        &&& self.contents().len() <= self.capacity()
        &&& keys_unique(self.contents())
    }

    /// An empty cache holding at most `max_entries` (at least one).
    pub fn new(max_entries: usize) -> (r: Self)
        ensures
            r.wf(),
            r.capacity() == (if max_entries == 0 { 1 } else { max_entries as nat }),
            r.contents().len() == 0,
    {
        let r = ProofCache { max_entries: if max_entries == 0 { 1 } else { max_entries }, entries: Vec::new() };
        assert(r.contents() =~= Seq::empty());
        r
    }

    /// The cached payload for `key`.
    pub fn get(&self, key: &CompactionKey) -> (r: Option<Vec<u8>>)
        requires
            self.wf(),
        ensures
            match cache_lookup(self.contents(), key@) {
                Some(v) => r matches Some(b) && b@ == v,
                None => r is None,
            },
    {
        let n = self.entries.len();
        let mut i: usize = 0;
        while i < n
            invariant
                self.wf(),
                n == self.entries@.len(),
                0 <= i <= n,
                forall|j: int| 0 <= j < i ==> (#[trigger] self.contents()[j]).0 != key@,
            decreases n - i,
        {
            assert(self.contents()[i as int] == (self.entries@[i as int].key@, self.entries@[i as int].value@));
            if self.entries[i].key.same_as(key) {
                let ghost s = self.contents();
                assert(s[i as int].0 == key@);
                assert(cache_has(s, key@));
                assert(cache_index(s, key@) == i);
                return Some(copy_bytes(&self.entries[i].value));
            }
            i = i + 1;
        }
        None
    }

    /// Stores `value` under `key`.
    pub fn insert(&mut self, key: CompactionKey, value: Vec<u8>)
        requires
            old(self).wf(),
        ensures
            final(self).wf(),
            final(self).capacity() == old(self).capacity(),
            final(self).contents() == cache_insert(old(self).contents(), old(self).capacity(), key@, value@),
    {
        let ghost s = self.contents();
        let ghost kv = key@;
        let ghost vv = value@;
        let n = self.entries.len();
        let mut i: usize = 0;
        while i < n
            invariant
                self.wf(),
                self.contents() == s,
                old(self).contents() == s,
                self.capacity() == old(self).capacity(),
                key@ == kv,
                value@ == vv,
                n == self.entries@.len(),
                0 <= i <= n,
                forall|j: int| 0 <= j < i ==> (#[trigger] s[j]).0 != kv,
            decreases n - i,
        {
            assert(s[i as int] == (self.entries@[i as int].key@, self.entries@[i as int].value@));
            if self.entries[i].key.same_as(&key) {
                assert(s[i as int].0 == kv);
                self.entries.set(i, CacheEntry { key, value });
                assert(cache_has(s, kv));
                assert(cache_index(s, kv) == i);
                assert(self.contents() =~= s.update(i as int, (kv, vv)));
                return;
            }
            i = i + 1;
        }
        assert(!cache_has(s, kv));
        self.entries.push(CacheEntry { key, value });
        assert(self.contents() =~= s.push((kv, vv)));
        if self.entries.len() > self.max_entries {
            self.entries.remove(0);
            assert(self.contents() =~= s.push((kv, vv)).drop_first());
        }
    }

    /// First half of serving a request: counts it, derives its key and looks the key up.
    /// A malformed request is an error; a cached payload is a hit; otherwise the key to fetch.
    pub fn begin_fetch(
        &self,
        request: &[u8],
        requests_total: &mut Counter,
        cache_hits_total: &mut Counter,
        cache_misses_total: &mut Counter,
    ) -> (r: Result<ProofLookup, MessageError>)
        requires
            self.wf(),
        ensures
            final(requests_total)@ == wrap_add_u64(old(requests_total)@, 1),
            match request_key(request@) {
                Err(e) => {
                    &&& r == Err::<ProofLookup, MessageError>(e)
                    &&& final(cache_hits_total)@ == old(cache_hits_total)@
                    &&& final(cache_misses_total)@ == old(cache_misses_total)@
                },
                Ok(kv) => match cache_lookup(self.contents(), kv) {
                    Some(v) => {
                        &&& r matches Ok(ProofLookup::Hit(b)) && b@ == v
                        &&& final(cache_hits_total)@ == wrap_add_u64(old(cache_hits_total)@, 1)
                        &&& final(cache_misses_total)@ == old(cache_misses_total)@
                    },
                    None => {
                        &&& r matches Ok(ProofLookup::Miss)
                        &&& final(cache_hits_total)@ == old(cache_hits_total)@
                        &&& final(cache_misses_total)@ == wrap_add_u64(old(cache_misses_total)@, 1)
                    },
                },
            },
    {
        requests_total.inc();
        let key = CompactionKey::from_request(request)?;
        match self.get(&key) {
            Some(hit) => {
                cache_hits_total.inc();
                Ok(ProofLookup::Hit(hit))
            },
            None => {
                cache_misses_total.inc();
                Ok(ProofLookup::Miss)
            },
        }
    }

    /// Second half of serving a request: counts the archive's answer to `request`
    /// and caches a found payload under the request's own key.
    pub fn finish_fetch(
        &mut self,
        request: &[u8],
        fetched: Result<Option<Vec<u8>>, ArchiveError>,
        fetch_ok_total: &mut Counter,
        fetch_not_found_total: &mut Counter,
        fetch_err_total: &mut Counter,
    ) -> (r: Result<Option<Vec<u8>>, ArchiveError>)
        requires
            old(self).wf(),
        ensures
            final(self).wf(),
            final(self).capacity() == old(self).capacity(),
            match fetched {
                Ok(Some(b)) => {
                    &&& r matches Ok(Some(b2)) && b2@ == b@
                    &&& final(self).contents() == match request_key(request@) {
                        Ok(k) => cache_insert(old(self).contents(), old(self).capacity(), k, b@),
                        Err(_) => old(self).contents(),
                    }
                    &&& final(fetch_ok_total)@ == wrap_add_u64(old(fetch_ok_total)@, 1)
                    &&& final(fetch_not_found_total)@ == old(fetch_not_found_total)@
                    &&& final(fetch_err_total)@ == old(fetch_err_total)@
                },
                Ok(None) => {
                    &&& r matches Ok(None)
                    &&& final(self).contents() == old(self).contents()
                    &&& final(fetch_ok_total)@ == old(fetch_ok_total)@
                    &&& final(fetch_not_found_total)@ == wrap_add_u64(old(fetch_not_found_total)@, 1)
                    &&& final(fetch_err_total)@ == old(fetch_err_total)@
                },
                Err(e) => {
                    &&& r matches Err(e2) && e2.message@ == e.message@
                    &&& final(self).contents() == old(self).contents()
                    &&& final(fetch_ok_total)@ == old(fetch_ok_total)@
                    &&& final(fetch_not_found_total)@ == old(fetch_not_found_total)@
                    &&& final(fetch_err_total)@ == wrap_add_u64(old(fetch_err_total)@, 1)
                },
            },
    {
        match fetched {
            Ok(Some(b)) => {
                fetch_ok_total.inc();
                if let Ok(key) = CompactionKey::from_request(request) {
                    let stored = copy_bytes(&b);
                    self.insert(key, stored);
                }
                Ok(Some(b))
            },
            Ok(None) => {
                fetch_not_found_total.inc();
                Ok(None)
            },
            Err(e) => {
                fetch_err_total.inc();
                Err(e)
            },
        }
    }
}

/// Two lookups of the same key in a well-formed cache: looking up right after
/// storing gives back the stored payload, and storing never breaks the bounds.
pub proof fn lemma_cache_read_after_write(s: CacheView, max: nat, k: CompactionKeyView, v: Seq<u8>)
    requires
        max >= 1,
        s.len() <= max,
        keys_unique(s),
    ensures
        keys_unique(cache_insert(s, max, k, v)),
        cache_insert(s, max, k, v).len() <= max,
        cache_lookup(cache_insert(s, max, k, v), k) == Some(v),
{
    let t = cache_insert(s, max, k, v);
    if cache_has(s, k) {
        let i = cache_index(s, k);
        assert(t[i].0 == k);
        assert(cache_has(t, k));
        assert(keys_unique(t)) by {
            assert forall|a: int, b: int| 0 <= a < t.len() && 0 <= b < t.len() && a != b implies (
            #[trigger] t[a]).0 != (#[trigger] t[b]).0 by {
                if a != i && b != i {
                    assert(s[a].0 != s[b].0);
                } else if a == i {
                    assert(s[b].0 != s[i].0);
                } else {
                    assert(s[a].0 != s[i].0);
                }
            }
        }
        let j = cache_index(t, k);
        assert(j == i);
    } else {
        let u = s.push((k, v));
        assert(keys_unique(u)) by {
            assert forall|a: int, b: int| 0 <= a < u.len() && 0 <= b < u.len() && a != b implies (
            #[trigger] u[a]).0 != (#[trigger] u[b]).0 by {
                if a < s.len() && b < s.len() {
                    assert(s[a].0 != s[b].0);
                } else if a < s.len() {
                    assert(s[a] == u[a]);
                } else {
                    assert(s[b] == u[b]);
                }
            }
        }
        assert(t.len() > 0);
        assert(t[t.len() - 1] == (k, v));
        assert(cache_has(t, k));
        let j = cache_index(t, k);
        if s.len() + 1 > max {
            assert(t =~= u.drop_first());
            assert(u[j + 1] == t[j]);
            assert(u[u.len() - 1] == t[t.len() - 1]);
        }
        assert(t[j] == (k, v));
    }
}

/// Every cached payload is what `answer` (the archive's contents, by request
/// bytes) gives for the requests with that entry's key.
pub open spec fn cache_agrees(s: CacheView, answer: spec_fn(Seq<u8>) -> Option<Seq<u8>>) -> bool {
    forall|i: int, q: Seq<u8>|
        #![trigger s[i], request_key(q)]
        0 <= i < s.len() && request_key(q) == Ok::<CompactionKeyView, MessageError>(s[i].0) ==> answer(q) == Some(s[i].1)
}

/// Serving agrees with the archive while its contents do not change: for a
/// well-formed request, a cached payload is the archive's answer, and caching the
/// archive's answer keeps every entry in agreement (an empty cache agrees trivially).
pub proof fn lemma_fetch_agrees_with_archive(
    s: CacheView,
    max: nat,
    q: Seq<u8>,
    answer: spec_fn(Seq<u8>) -> Option<Seq<u8>>,
)
    requires
        max >= 1,
        s.len() <= max,
        keys_unique(s),
        cache_agrees(s, answer),
        request_key(q) is Ok,
    ensures
        cache_lookup(s, request_key(q)->Ok_0) matches Some(v) ==> answer(q) == Some(v),
        answer(q) matches Some(b) ==> cache_agrees(cache_insert(s, max, request_key(q)->Ok_0, b), answer),
        cache_agrees(Seq::empty(), answer),
{
    let k = request_key(q)->Ok_0;
    if cache_has(s, k) {
        let i = cache_index(s, k);
        assert(s[i].0 == k);
    }
    if answer(q) is Some {
        let b = answer(q)->Some_0;
        let t = cache_insert(s, max, k, b);
        assert forall|j: int, q2: Seq<u8>|
            #![trigger t[j], request_key(q2)]
            0 <= j < t.len() && request_key(q2) == Ok::<CompactionKeyView, MessageError>(t[j].0) implies answer(q2) == Some(
                t[j].1,
            ) by {
            if t[j] == (k, b) {
                lemma_request_key_injective(q, q2);
            } else if cache_has(s, k) {
                assert(t[j] == s[j]);
            } else if s.len() + 1 > max {
                let u = s.push((k, b));
                assert(t[j] == u[j + 1]);
                if j + 1 < s.len() {
                    assert(u[j + 1] == s[j + 1]);
                }
            } else {
                assert(j < s.len());
                assert(t[j] == s[j]);
            }
        }
    }
}

/// The cache after serving request `q` once (as `begin_fetch` then, on a miss,
/// `finish_fetch` do) against an archive that answers `answer`, where `failed`
/// says the archive read failed: a hit, a malformed request, a failed read or a
/// payload the archive lacks leave the cache as it is; a found payload is cached.
pub open spec fn serve_step(
    s: CacheView,
    max: nat,
    q: Seq<u8>,
    failed: bool,
    answer: spec_fn(Seq<u8>) -> Option<Seq<u8>>,
) -> CacheView {
    match request_key(q) {
        Err(_) => s,
        Ok(k) => if cache_lookup(s, k) is Some || failed {
            s
        } else {
            match answer(q) {
                Some(b) => cache_insert(s, max, k, b),
                None => s,
            }
        },
    }
}

/// The cache of capacity `max` after serving the requests of `hist` in order,
/// starting empty; each entry is a request and whether its archive read failed.
pub open spec fn cache_after(max: nat, hist: Seq<(Seq<u8>, bool)>, answer: spec_fn(Seq<u8>) -> Option<Seq<u8>>) -> CacheView
    decreases hist.len(),
{
    if hist.len() == 0 {
        Seq::empty()
    } else {
        serve_step(cache_after(max, hist.drop_last(), answer), max, hist.last().0, hist.last().1, answer)
    }
}

/// What serving a well-formed request `q` gives with cache `s`: the cached
/// payload on a hit, otherwise what the archive answers.
pub open spec fn served(s: CacheView, q: Seq<u8>, answer: spec_fn(Seq<u8>) -> Option<Seq<u8>>) -> Option<Seq<u8>> {
    match cache_lookup(s, request_key(q)->Ok_0) {
        Some(v) => Some(v),
        None => answer(q),
    }
}

/// Serving keeps the cache well-formed and in agreement with the archive.
proof fn lemma_history_agrees(max: nat, hist: Seq<(Seq<u8>, bool)>, answer: spec_fn(Seq<u8>) -> Option<Seq<u8>>)
    requires
        max >= 1,
    ensures
        keys_unique(cache_after(max, hist, answer)),
        cache_after(max, hist, answer).len() <= max,
        cache_agrees(cache_after(max, hist, answer), answer),
    decreases hist.len(),
{
    if hist.len() == 0 {
        assert(cache_after(max, hist, answer).len() == 0);
    } else {
        let s = cache_after(max, hist.drop_last(), answer);
        lemma_history_agrees(max, hist.drop_last(), answer);
        let q = hist.last().0;
        if request_key(q) is Ok {
            let k = request_key(q)->Ok_0;
            if !(cache_lookup(s, k) is Some || hist.last().1) && answer(q) is Some {
                let b = answer(q)->Some_0;
                lemma_fetch_agrees_with_archive(s, max, q, answer);
                lemma_cache_read_after_write(s, max, k, b);
            }
        }
    }
}

/// Across any history of requests served while the archive's contents stay the
/// same, serving a well-formed request answers what the archive answers for it:
/// a cache hit never returns anything else, and not-found answers and failed
/// reads are never cached.
pub proof fn lemma_serving_agrees_with_archive(
    max: nat,
    hist: Seq<(Seq<u8>, bool)>,
    answer: spec_fn(Seq<u8>) -> Option<Seq<u8>>,
    q: Seq<u8>,
)
    requires
        max >= 1,
        request_key(q) is Ok,
    ensures
        served(cache_after(max, hist, answer), q, answer) == answer(q),
{
    lemma_history_agrees(max, hist, answer);
    lemma_fetch_agrees_with_archive(cache_after(max, hist, answer), max, q, answer);
}

} // verus!
