//! Expiring correlation collections: a key/value table and a key set
//! whose entries live for a fixed time-to-live and are removed by an
//! explicit sweep. Time is an explicit argument, a monotonic count of
//! milliseconds supplied by the caller.

use vstd::prelude::*;

verus! {

/// One table entry: a key, its value, and the absolute expiry time.
#[derive(Clone, Copy)]
pub struct MapEntry<V> {
    pub key: u16,
    pub value: V,
    pub expire_at: u64,
}

/// A map from 16-bit transaction IDs to values with per-entry expiry.
pub struct ExpiringMap<V> {
    pub entries: Vec<MapEntry<V>>,
    pub time_to_live: u64,
}

impl<V: Copy> ExpiringMap<V> {
    /// Well-formed: no key occurs twice.
    pub open spec fn wf(self) -> bool {
        forall|i: int, j: int|
            0 <= i < j < self.entries@.len() ==> self.entries@[i].key != self.entries@[j].key
    }

    /// The key is present, irrespective of expiry.
    pub open spec fn spec_has(self, k: u16) -> bool {
        exists|i: int| 0 <= i < self.entries@.len() && self.entries@[i].key == k
    }

    /// Index of the entry holding `k` (meaningful under `wf` and `spec_has`).
    pub open spec fn idx(self, k: u16) -> int {
        choose|i: int| 0 <= i < self.entries@.len() && self.entries@[i].key == k
    }

    /// The value stored under `k`.
    pub open spec fn spec_value(self, k: u16) -> V {
        self.entries@[self.idx(k)].value
    }

    /// The absolute expiry time of the entry under `k`.
    pub open spec fn spec_expire(self, k: u16) -> u64 {
        self.entries@[self.idx(k)].expire_at
    }

    /// What `get` observes at time `now`: the value iff present and unexpired.
    pub open spec fn spec_get(self, k: u16, now: u64) -> Option<V> {
        if self.spec_has(k) && now <= self.spec_expire(k) {
            Some(self.spec_value(k))
        } else {
            None
        }
    }

    /// `post` is `pre` with `k -> v` recorded at time `now`: the entry for
    /// `k` is fresh, every other key is untouched.
    pub open spec fn spec_inserted(pre: Self, post: Self, k: u16, v: V, now: u64) -> bool {
        &&& post.time_to_live == pre.time_to_live
        &&& post.wf()
        &&& post.spec_has(k)
        &&& post.spec_value(k) == v
        &&& post.spec_expire(k) == now + pre.time_to_live
        &&& forall|k2: u16| k2 != k ==> post.spec_has(k2) == pre.spec_has(k2)
        &&& forall|k2: u16|
            k2 != k && pre.spec_has(k2) ==> post.spec_value(k2) == pre.spec_value(k2)
                && post.spec_expire(k2) == pre.spec_expire(k2)
    }

    /// `post` is `pre` swept at time `now`: exactly the unexpired entries
    /// survive, unchanged.
    pub open spec fn spec_swept(pre: Self, post: Self, now: u64) -> bool {
        &&& post.time_to_live == pre.time_to_live
        &&& post.wf()
        &&& forall|k: u16| post.spec_has(k) <==> (pre.spec_has(k) && now <= pre.spec_expire(k))
        &&& forall|k: u16|
            post.spec_has(k) ==> post.spec_value(k) == pre.spec_value(k)
                && post.spec_expire(k) == pre.spec_expire(k)
    }

    /// Under `wf`, any position holding `k` is the position `idx(k)` speaks of.
    pub proof fn lemma_idx_unique(self, k: u16, i: int)
        requires
            self.wf(),
            0 <= i < self.entries@.len(),
            self.entries@[i].key == k,
        ensures
            self.spec_has(k),
            self.idx(k) == i,
    {
        assert(self.spec_has(k));
        let j = self.idx(k);
        if i < j {
            assert(self.entries@[i].key != self.entries@[j].key);
        } else if j < i {
            assert(self.entries@[j].key != self.entries@[i].key);
        }
    }

    /// A fresh, empty table with the given time-to-live.
    pub fn new(time_to_live: u64) -> (r: Self)
        ensures
            r.wf(),
            r.time_to_live == time_to_live,
            r.entries@.len() == 0,
            forall|k: u16| !r.spec_has(k),
    {
        ExpiringMap { entries: Vec::new(), time_to_live }
    }

    /// Position of the entry holding `k`, if any.
    fn find_index(&self, k: u16) -> (r: Option<usize>)
        ensures
            match r {
                Some(i) => 0 <= i < self.entries@.len() && self.entries@[i as int].key == k,
                None => !self.spec_has(k),
            },
    {
        let mut i: usize = 0;
        while i < self.entries.len()
            invariant
                i <= self.entries@.len(),
                forall|j: int| 0 <= j < i ==> self.entries@[j].key != k,
            decreases self.entries@.len() - i,
        {
            if self.entries[i].key == k {
                return Some(i);
            }
            i += 1;
        }
        None
    }

    /// Record `v` under `k` with expiry `now + time_to_live`. Returns the
    /// displaced value only if it was still live at `now`.
    pub fn insert(&mut self, k: u16, v: V, now: u64) -> (displaced: Option<V>)
        requires
            old(self).wf(),
            now + old(self).time_to_live <= u64::MAX,
        ensures
            Self::spec_inserted(*old(self), *final(self), k, v, now),
            displaced == old(self).spec_get(k, now),
    {
        let ghost pre = *self;
        let entry = MapEntry { key: k, value: v, expire_at: now + self.time_to_live };
        match self.find_index(k) {
            Some(i) => {
                proof {
                    pre.lemma_idx_unique(k, i as int);
                }
                let old_entry = self.entries[i];
                self.entries.set(i, entry);
                proof {
                    self.lemma_idx_unique(k, i as int);
                    assert forall|k2: u16| k2 != k && pre.spec_has(k2) implies self.spec_has(k2)
                        && self.spec_value(k2) == pre.spec_value(k2)
                        && self.spec_expire(k2) == pre.spec_expire(k2) by {
                        let j = pre.idx(k2);
                        pre.lemma_idx_unique(k2, j);
                        assert(self.entries@[j].key == k2);
                        self.lemma_idx_unique(k2, j);
                    }
                    assert forall|k2: u16| k2 != k && self.spec_has(k2) implies pre.spec_has(
                        k2,
                    ) by {
                        let j = self.idx(k2);
                        assert(pre.entries@[j].key == k2);
                    }
                }
                if now <= old_entry.expire_at {
                    Some(old_entry.value)
                } else {
                    None
                }
            },
            None => {
                self.entries.push(entry);
                proof {
                    let n = pre.entries@.len();
                    assert(self.entries@[n as int].key == k);
                    self.lemma_idx_unique(k, n as int);
                    assert forall|k2: u16| k2 != k && pre.spec_has(k2) implies self.spec_has(k2)
                        && self.spec_value(k2) == pre.spec_value(k2)
                        && self.spec_expire(k2) == pre.spec_expire(k2) by {
                        let j = pre.idx(k2);
                        pre.lemma_idx_unique(k2, j);
                        assert(self.entries@[j].key == k2);
                        self.lemma_idx_unique(k2, j);
                    }
                    assert forall|k2: u16| k2 != k && self.spec_has(k2) implies pre.spec_has(
                        k2,
                    ) by {
                        let j = self.idx(k2);
                        assert(pre.entries@[j].key == k2);
                    }
                }
                None
            },
        }
    }

    /// Presence gate: true iff `k` is in the table, irrespective of expiry.
    pub fn contains(&self, k: u16) -> (r: bool)
        ensures
            r == self.spec_has(k),
    {
        self.find_index(k).is_some()
    }

    /// The value under `k` iff present and unexpired at `now`.
    pub fn get(&self, k: u16, now: u64) -> (r: Option<V>)
        requires
            self.wf(),
        ensures
            r == self.spec_get(k, now),
    {
        match self.find_index(k) {
            Some(i) => {
                proof {
                    self.lemma_idx_unique(k, i as int);
                }
                let e = self.entries[i];
                if now <= e.expire_at {
                    Some(e.value)
                } else {
                    None
                }
            },
            None => None,
        }
    }

    /// Remove every entry whose expiry lies before `now`.
    pub fn remove_expired_entries(&mut self, now: u64)
        requires
            old(self).wf(),
        ensures
            Self::spec_swept(*old(self), *final(self), now),
    {
        let ghost pre = *self;
        let mut kept: Vec<MapEntry<V>> = Vec::new();
        let mut i: usize = 0;
        while i < self.entries.len()
            invariant
                pre == *self,
                pre.wf(),
                i <= pre.entries@.len(),
                forall|j: int| 0 <= j < kept@.len() ==> now <= kept@[j].expire_at,
                forall|j: int|
                    0 <= j < kept@.len() ==> exists|j2: int|
                        0 <= j2 < i && #[trigger] pre.entries@[j2] == #[trigger] kept@[j],
                forall|j2: int|
                    0 <= j2 < i && now <= (#[trigger] pre.entries@[j2]).expire_at ==> exists|j: int|
                        0 <= j < kept@.len() && #[trigger] kept@[j] == pre.entries@[j2],
                forall|j: int, j2: int|
                    0 <= j < j2 < kept@.len() ==> kept@[j].key != kept@[j2].key,
            decreases pre.entries@.len() - i,
        {
            let e = self.entries[i];
            if now <= e.expire_at {
                proof {
                    assert forall|j: int| 0 <= j < kept@.len() implies kept@[j].key
                        != pre.entries@[i as int].key by {
                        let j2 = choose|j2: int| 0 <= j2 < i && pre.entries@[j2] == kept@[j];
                        assert(pre.entries@[j2].key != pre.entries@[i as int].key);
                    }
                }
                let ghost kept0 = kept@;
                kept.push(e);
                proof {
                    assert forall|j2: int|
                        0 <= j2 < i + 1 && now <= (#[trigger] pre.entries@[j2]).expire_at implies
                        exists|j: int|
                            0 <= j < kept@.len() && #[trigger] kept@[j] == pre.entries@[j2] by {
                        if j2 == i {
                            assert(kept@[kept0.len() as int] == pre.entries@[i as int]);
                        } else {
                            let j = choose|j: int| 0 <= j < kept0.len() && kept0[j]
                                == pre.entries@[j2];
                            assert(kept@[j] == pre.entries@[j2]);
                        }
                    }
                }
            }
            i += 1;
        }
        self.entries = kept;
        proof {
            assert forall|k: u16| self.spec_has(k) implies pre.spec_has(k) && now
                <= pre.spec_expire(k) && self.spec_value(k) == pre.spec_value(k)
                && self.spec_expire(k) == pre.spec_expire(k) by {
                let j = self.idx(k);
                let j2 = choose|j2: int|
                    0 <= j2 < pre.entries@.len() && pre.entries@[j2] == self.entries@[j];
                pre.lemma_idx_unique(k, j2);
            }
            assert forall|k: u16| pre.spec_has(k) && now <= pre.spec_expire(k) implies self.spec_has(
                k,
            ) by {
                let j2 = pre.idx(k);
                assert(now <= pre.entries@[j2].expire_at);
                let j = choose|j: int|
                    0 <= j < self.entries@.len() && self.entries@[j] == pre.entries@[j2];
                assert(self.entries@[j].key == k);
            }
        }
    }
}

/// A set of 16-bit transaction IDs with per-entry expiry: the map variant
/// with the value channel omitted.
pub struct ExpiringSet {
    pub inner: ExpiringMap<()>,
}

impl ExpiringSet {
    /// Well-formed: no key occurs twice.
    pub open spec fn wf(self) -> bool {
        self.inner.wf()
    }

    /// The key is present, irrespective of expiry.
    pub open spec fn spec_has(self, v: u16) -> bool {
        self.inner.spec_has(v)
    }

    /// The absolute expiry time of the entry for `v`.
    pub open spec fn spec_expire(self, v: u16) -> u64 {
        self.inner.spec_expire(v)
    }

    /// A fresh, empty set with the given time-to-live.
    pub fn new(time_to_live: u64) -> (r: Self)
        ensures
            r.wf(),
            r.inner.time_to_live == time_to_live,
            forall|v: u16| !r.spec_has(v),
    {
        ExpiringSet { inner: ExpiringMap::new(time_to_live) }
    }

    /// Record `v` with expiry `now + time_to_live`.
    pub fn insert(&mut self, v: u16, now: u64)
        requires
            old(self).wf(),
            now + old(self).inner.time_to_live <= u64::MAX,
        ensures
            ExpiringMap::spec_inserted(old(self).inner, final(self).inner, v, (), now),
    {
        let _ = self.inner.insert(v, (), now);
    }

    /// Presence gate: true iff `v` is in the set, irrespective of expiry.
    pub fn contains(&self, v: u16) -> (r: bool)
        ensures
            r == self.spec_has(v),
    {
        self.inner.contains(v)
    }

    /// Remove every entry whose expiry lies before `now`.
    pub fn remove_expired_entries(&mut self, now: u64)
        requires
            old(self).wf(),
        ensures
            ExpiringMap::spec_swept(old(self).inner, final(self).inner, now),
    {
        self.inner.remove_expired_entries(now);
    }
}

/// At any moment the table holds at most one entry per transaction ID:
/// two positions holding the same key are one position.
pub proof fn lemma_at_most_one_entry_per_id<V: Copy>(m: ExpiringMap<V>, i: int, j: int)
    requires
        m.wf(),
        0 <= i < m.entries@.len(),
        0 <= j < m.entries@.len(),
        m.entries@[i].key == m.entries@[j].key,
    ensures
        i == j,
{
}

/// Replies correlated through the table go to one client only: whenever
/// `get` yields a value for an ID, at any two times, it is the same value.
pub proof fn lemma_one_client_per_id<V: Copy>(m: ExpiringMap<V>, k: u16, t1: u64, t2: u64)
    requires
        m.wf(),
    ensures
        m.spec_get(k, t1) is Some && m.spec_get(k, t2) is Some ==> m.spec_get(k, t1)
            == m.spec_get(k, t2),
{
}

/// TTL lower bound: an entry inserted at time `t` is observable via `get`
/// at any time `t2` with `t <= t2 <= t + time_to_live`, even across a
/// sweep run at any time `ts` up to `t + time_to_live`.
pub proof fn lemma_ttl_lower_bound<V: Copy>(
    m0: ExpiringMap<V>,
    m1: ExpiringMap<V>,
    m2: ExpiringMap<V>,
    k: u16,
    v: V,
    t: u64,
    ts: u64,
    t2: u64,
)
    requires
        ExpiringMap::spec_inserted(m0, m1, k, v, t),
        ExpiringMap::spec_swept(m1, m2, ts),
        ts <= t + m0.time_to_live,
        t <= t2 <= t + m0.time_to_live,
    ensures
        m1.spec_get(k, t2) == Some(v),
        m2.spec_get(k, t2) == Some(v),
{
}

/// Sweep upper bound: an entry inserted at time `t` is gone once a sweep
/// runs at any time `ts` past `t + time_to_live`; `get` is absent at every
/// time thereafter.
pub proof fn lemma_sweep_upper_bound<V: Copy>(
    m0: ExpiringMap<V>,
    m1: ExpiringMap<V>,
    m2: ExpiringMap<V>,
    k: u16,
    v: V,
    t: u64,
    ts: u64,
    t2: u64,
)
    requires
        ExpiringMap::spec_inserted(m0, m1, k, v, t),
        ExpiringMap::spec_swept(m1, m2, ts),
        ts > t + m0.time_to_live,
    ensures
        !m2.spec_has(k),
        m2.spec_get(k, t2) is None,
{
}

} // verus!
