//! Bind-group cache with least-recently-used eviction.
//!
//! Avoids rebuilding identical bind groups across frames by keying them on
//! a stable identity (layout plus resource ids). Counters record hits,
//! misses and evictions.
use vstd::prelude::*;

verus! {

/// Identity of a bind group: its layout and the ids of the bound resources.
#[derive(Clone, Hash, PartialEq, Eq, Debug)]
pub struct BgKey {
    pub layout_hash: u64,
    pub ids: Vec<u64>,
}

/// A key as a mathematical value.
pub type BgKeyView = (u64, Seq<u64>);

impl View for BgKey {
    type V = BgKeyView;

    open spec fn view(&self) -> BgKeyView {
        (self.layout_hash, self.ids@)
    }
}

impl BgKey {
    /// A key for a layout (identified by `layout_hash`) and resource ids.
    pub fn new(layout_hash: u64, ids: &[u64]) -> (k: Self)
        ensures
            k@ == (layout_hash, ids@),
    {
        Self { layout_hash, ids: vstd::slice::slice_to_vec(ids) }
    }
}

/// Whether two keys are equal.
fn key_eq(a: &BgKey, b: &BgKey) -> (r: bool)
    ensures
        r == (a@ == b@),
{
    if a.layout_hash != b.layout_hash || a.ids.len() != b.ids.len() {
        return false;
    }
    let n = a.ids.len();
    let mut i: usize = 0;
    while i < n
        invariant
            n == a.ids@.len(),
            n == b.ids@.len(),
            0 <= i <= n,
            forall|k: int| 0 <= k < i ==> a.ids@[k] == b.ids@[k],
        decreases n - i,
    {
        if a.ids[i] != b.ids[i] {
            return false;
        }
        i = i + 1;
    }
    proof {
        assert(a.ids@ =~= b.ids@);
    }
    true
}

/// Cached bind groups, least recently used first.
pub struct BgCache<V> {
    entries: Vec<(BgKey, V)>,
    cap: usize,
    pub hits: u64,
    pub misses: u64,
    pub evictions: u64,
    /// Number of `get_or_create` calls so far.
    lookups: Ghost<nat>,
}

/// The keys of the entries, in order.
pub open spec fn entry_keys<V>(es: Seq<(BgKeyView, V)>) -> Seq<BgKeyView> {
    es.map_values(|e: (BgKeyView, V)| e.0)
}

/// No key occurs twice.
pub open spec fn keys_distinct<V>(es: Seq<(BgKeyView, V)>) -> bool {
    forall|i: int, j: int| 0 <= i < j < es.len() ==> #[trigger] es[i].0 != #[trigger] es[j].0
}

/// The most entries a cache of capacity `cap` holds (a capacity of 0 acts as 1).
pub open spec fn max_entries(cap: nat) -> nat {
    if cap == 0 {
        1
    } else {
        cap
    }
}

/// Entries after a miss makes room: the least recently used entry goes when
/// the cache is full.
pub open spec fn after_eviction<V>(es: Seq<(BgKeyView, V)>, cap: nat) -> Seq<(BgKeyView, V)> {
    if es.len() >= cap && es.len() > 0 {
        es.subrange(1, es.len() as int)
    } else {
        es
    }
}

impl<V: Clone> BgCache<V> {
    /// Cached entries (key, bind group), least recently used first.
    pub closed spec fn entries(&self) -> Seq<(BgKeyView, V)> {
        self.entries@.map_values(|e: (BgKey, V)| (e.0@, e.1))
    }

    /// Capacity the cache was made with.
    pub closed spec fn capacity(&self) -> nat {
        self.cap as nat
    }

    /// Hit, miss and eviction counters.
    pub closed spec fn counters(&self) -> (u64, u64, u64) {
        (self.hits, self.misses, self.evictions)
    }

    /// How many times `get_or_create` has been called on this cache.
    pub closed spec fn lookups(&self) -> nat {
        self.lookups@
    }

    /// Keys are distinct and the cache holds no more than its capacity;
    /// every lookup was counted once, as a hit or as a miss; and each miss
    /// added one entry, which is still cached unless it was evicted.
    pub open spec fn wf(&self) -> bool {
        &&& keys_distinct(self.entries())
        &&& self.entries().len() <= max_entries(self.capacity())
        &&& self.counters().0 + self.counters().1 == self.lookups()
        &&& self.entries().len() + self.counters().2 == self.counters().1
    }

    /// An empty cache holding at most `cap` bind groups.
    pub fn with_capacity(cap: usize) -> (c: Self)
        ensures
            c.wf(),
            c.entries() == Seq::<(BgKeyView, V)>::empty(),
            c.capacity() == cap,
            c.counters() == (0u64, 0u64, 0u64),
            c.lookups() == 0,
    {
        let c = Self {
            entries: Vec::new(),
            cap,
            hits: 0,
            misses: 0,
            evictions: 0,
            lookups: Ghost(0),
        };
        proof {
            assert(c.entries() =~= Seq::<(BgKeyView, V)>::empty());
        }
        c
    }

    /// The counters `(hits, misses, evictions)`, as the public fields hold them.
    pub fn stats(&self) -> (r: (u64, u64, u64))
        ensures
            r == self.counters(),
    {
        (self.hits, self.misses, self.evictions)
    }

    /// Number of cached bind groups.
    pub fn len(&self) -> (n: usize)
        ensures
            n == self.entries().len(),
    {
        self.entries.len()
    }

    /// Return the cached bind group for `key`, refreshing its recency, or
    /// create one with `make`, evicting the least recently used entry when
    /// the cache is full, and cache it as the most recent.
    pub fn get_or_create<F>(&mut self, key: BgKey, make: F) -> (r: V) where F: FnOnce() -> V
        requires
            old(self).wf(),
            call_requires(make, ()),
            old(self).counters().0 < u64::MAX,
            old(self).counters().1 < u64::MAX,
            old(self).counters().2 < u64::MAX,
        ensures
            final(self).wf(),
            final(self).capacity() == old(self).capacity(),
            final(self).lookups() == old(self).lookups() + 1,
            final(self).entries().len() > 0,
            final(self).entries().last().0 == key@,
            entry_keys(old(self).entries()).contains(key@) ==> {
                let i = entry_keys(old(self).entries()).index_of(key@);
                &&& final(self).entries() == old(self).entries().remove(i).push(old(self).entries()[i])
                &&& final(self).counters() == (
                    (old(self).counters().0 + 1) as u64,
                    old(self).counters().1,
                    old(self).counters().2,
                )
                &&& cloned(old(self).entries()[i].1, r)
            },
            !entry_keys(old(self).entries()).contains(key@) ==> {
                let evicts = old(self).entries().len() >= old(self).capacity() && old(self).entries().len() > 0;
                &&& final(self).counters() == (
                    old(self).counters().0,
                    (old(self).counters().1 + 1) as u64,
                    (if evicts { old(self).counters().2 + 1 } else { old(self).counters().2 as int }) as u64,
                )
                &&& final(self).entries().drop_last() == after_eviction(old(self).entries(), old(self).capacity())
                &&& call_ensures(make, (), final(self).entries().last().1)
                &&& cloned(final(self).entries().last().1, r)
            },
    {
        let ghost es = self.entries();
        self.lookups = Ghost(self.lookups@ + 1);
        let n = self.entries.len();
        let mut i: usize = 0;
        while i < n
            invariant
                n == self.entries@.len(),
                es == self.entries(),
                es.len() == n,
                0 <= i <= n,
                forall|k: int| 0 <= k < i ==> es[k].0 != key@,
            ensures
                0 <= i <= n,
                i < n ==> es[i as int].0 == key@,
                forall|k: int| 0 <= k < i ==> es[k].0 != key@,
            decreases n - i,
        {
            proof {
                assert(self.entries()[i as int].0 == self.entries@[i as int].0@);
            }
            if key_eq(&self.entries[i].0, &key) {
                break;
            }
            i = i + 1;
        }
        if i < n {
            // Hit: refresh recency by moving the entry to the back.
            proof {
                assert(es[i as int].0 == key@);
                assert(entry_keys(es)[i as int] == key@);
                assert(entry_keys(es).contains(key@));
                lemma_index_of_distinct(es, i as int);
            }
            self.hits = self.hits + 1;
            let e = self.entries.remove(i);
            let bg = e.1.clone();
            self.entries.push(e);
            proof {
                assert(self.entries() =~= es.remove(i as int).push(es[i as int]));
                lemma_move_to_back_distinct(es, i as int);
            }
            return bg;
        }
        proof {
            assert(!entry_keys(es).contains(key@)) by {
                if entry_keys(es).contains(key@) {
                    let k = choose|k: int| 0 <= k < entry_keys(es).len() && entry_keys(es)[k] == key@;
                    assert(es[k].0 == key@);
                }
            }
        }
        self.misses = self.misses + 1;
        // Evict the least recently used entry when full.
        if self.entries.len() >= self.cap && self.entries.len() > 0 {
            let _old = self.entries.remove(0);
            self.evictions = self.evictions + 1;
            proof {
                assert(self.entries() =~= es.subrange(1, es.len() as int));
            }
        }
        let ghost kept = self.entries();
        let bg = make();
        let out = bg.clone();
        self.entries.push((key, bg));
        proof {
            assert(kept == after_eviction(es, self.cap as nat));
            assert(self.entries() =~= kept.push((key@, bg)));
            assert(self.entries().drop_last() =~= kept);
            assert forall|a: int, b: int| 0 <= a < b < self.entries().len() implies #[trigger] self.entries()[a].0
                != #[trigger] self.entries()[b].0 by {
                if b == kept.len() {
                    if es.len() >= self.cap && es.len() > 0 {
                        assert(kept[a] == es[a + 1]);
                        assert(entry_keys(es)[a + 1] == es[a + 1].0);
                    } else {
                        assert(entry_keys(es)[a] == es[a].0);
                    }
                } else if es.len() >= self.cap && es.len() > 0 {
                    assert(kept[a] == es[a + 1]);
                    assert(kept[b] == es[b + 1]);
                }
            }
        }
        out
    }
}

proof fn lemma_index_of_distinct<V>(es: Seq<(BgKeyView, V)>, i: int)
    requires
        keys_distinct(es),
        0 <= i < es.len(),
    ensures
        entry_keys(es).index_of(es[i].0) == i,
{
    let ks = entry_keys(es);
    assert(ks[i] == es[i].0);
    assert(ks.contains(es[i].0));
    let j = ks.index_of(es[i].0);
    assert(ks[j] == es[i].0);
    assert(es[j].0 == es[i].0);
}

proof fn lemma_move_to_back_distinct<V>(es: Seq<(BgKeyView, V)>, i: int)
    requires
        keys_distinct(es),
        0 <= i < es.len(),
    ensures
        keys_distinct(es.remove(i).push(es[i])),
        es.remove(i).push(es[i]).len() == es.len(),
{
    let m = es.remove(i).push(es[i]);
    assert forall|a: int, b: int| 0 <= a < b < m.len() implies #[trigger] m[a].0 != #[trigger] m[b].0 by {
        let ia = if a < i { a } else { a + 1 };
        let ib = if b == m.len() - 1 { i } else if b < i { b } else { b + 1 };
        assert(m[a] == es[ia]);
        assert(m[b] == es[ib]);
    }
}

} // verus!
