//! The background cache: per provider, the items of its last load and when
//! that load finished.
use vstd::prelude::*;

use crate::command::LoadedItem;
use crate::json::str_eq;

verus! {

/// The cached items of one provider. Times are milliseconds on a monotonic clock.
#[derive(Debug)]
pub struct CacheEntry {
    pub name: String,
    pub items: Vec<LoadedItem>,
    pub last_updated: u64,
}

/// Provider name to cached items; an entry is only ever replaced whole.
#[derive(Debug)]
pub struct SourceCache {
    entries: Vec<CacheEntry>,
}

/// The map that a list of entries stands for; a later entry of a name wins.
pub open spec fn entries_map(es: Seq<CacheEntry>) -> Map<Seq<char>, (Seq<LoadedItem>, u64)>
    decreases es.len(),
{
    if es.len() == 0 {
        Map::empty()
    } else {
        entries_map(es.drop_last()).insert(
            es.last().name@,
            (es.last().items@, es.last().last_updated),
        )
    }
}

/// Time passed from `then` to `now`, none when `now` is earlier.
pub open spec fn elapsed(then: u64, now: u64) -> int {
    if now >= then {
        now - then
    } else {
        0
    }
}

/// Whether the entry of `name` in `m` is stale at `now` for `interval`: it is
/// when there is none, or when at least `interval` has passed since its update.
pub open spec fn stale(m: Map<Seq<char>, (Seq<LoadedItem>, u64)>, name: Seq<char>, interval: u64, now: u64) -> bool {
    !m.contains_key(name) || elapsed(m[name].1, now) >= interval
}

proof fn lemma_entries_map_keys(es: Seq<CacheEntry>, k: Seq<char>)
    ensures
        entries_map(es).contains_key(k) <==> exists|i: int| 0 <= i < es.len() && es[i].name@ == k,
    decreases es.len(),
{
    if es.len() > 0 {
        lemma_entries_map_keys(es.drop_last(), k);
        if entries_map(es.drop_last()).contains_key(k) {
            let i = choose|i: int| 0 <= i < es.drop_last().len() && es.drop_last()[i].name@ == k;
            assert(es[i].name@ == k);
        }
        if exists|i: int| 0 <= i < es.len() && es[i].name@ == k {
            let i = choose|i: int| 0 <= i < es.len() && es[i].name@ == k;
            if i < es.len() - 1 {
                assert(es.drop_last()[i].name@ == k);
            }
        }
    }
}

proof fn lemma_entries_map_update(es: Seq<CacheEntry>, i: int, e: CacheEntry)
    requires
        0 <= i < es.len(),
        es[i].name@ == e.name@,
        forall|a: int, b: int|
            0 <= a < es.len() && 0 <= b < es.len() && a != b ==> es[a].name@ != es[b].name@,
    ensures
        entries_map(es.update(i, e)) == entries_map(es).insert(e.name@, (e.items@, e.last_updated)),
    decreases es.len(),
{
    let n = es.len() - 1;
    if i == n {
        assert(es.update(i, e).drop_last() =~= es.drop_last());
        assert(entries_map(es.update(i, e)) =~= entries_map(es).insert(
            e.name@,
            (e.items@, e.last_updated),
        ));
    } else {
        assert(es.update(i, e).drop_last() =~= es.drop_last().update(i, e));
        lemma_entries_map_update(es.drop_last(), i, e);
        assert(es[n].name@ != e.name@);
        assert(entries_map(es.update(i, e)) =~= entries_map(es).insert(
            e.name@,
            (e.items@, e.last_updated),
        ));
    }
}

impl View for SourceCache {
    type V = Map<Seq<char>, (Seq<LoadedItem>, u64)>;

    closed spec fn view(&self) -> Map<Seq<char>, (Seq<LoadedItem>, u64)> {
        entries_map(self.entries@)
    }
}

impl SourceCache {
    /// No two entries share a name.
    pub closed spec fn wf(&self) -> bool {
        forall|a: int, b: int|
            0 <= a < self.entries@.len() && 0 <= b < self.entries@.len() && a != b
                ==> self.entries@[a].name@ != self.entries@[b].name@
    }

    /// An empty cache.
    pub fn new() -> (r: SourceCache)
        ensures
            r.wf(),
            r@ == Map::<Seq<char>, (Seq<LoadedItem>, u64)>::empty(),
    {
        SourceCache { entries: Vec::new() }
    }

    fn find(&self, name: &str) -> (r: Option<usize>)
        requires
            self.wf(),
        ensures
            match r {
                Some(i) => i < self.entries@.len() && self.entries@[i as int].name@ == name@,
                None => forall|i: int| 0 <= i < self.entries@.len() ==> self.entries@[i].name@ != name@,
            },
    {
        let mut i: usize = 0;
        while i < self.entries.len()
            invariant
                i <= self.entries@.len(),
                forall|j: int| 0 <= j < i ==> self.entries@[j].name@ != name@,
            decreases self.entries.len() - i,
        {
            if str_eq(self.entries[i].name.as_str(), name) {
                return Some(i);
            }
            i = i + 1;
        }
        None
    }

    proof fn lemma_view_at(&self, i: int)
        requires
            self.wf(),
            0 <= i < self.entries@.len(),
        ensures
            self@.contains_key(self.entries@[i].name@),
            self@[self.entries@[i].name@] == (
                self.entries@[i].items@,
                self.entries@[i].last_updated,
            ),
    {
        let es = self.entries@;
        let e = es[i];
        lemma_entries_map_update(es, i, e);
        assert(es.update(i, e) =~= es);
    }

    /// The cached items of `name`.
    pub fn get(&self, name: &str) -> (r: Option<&Vec<LoadedItem>>)
        requires
            self.wf(),
        ensures
            match r {
                Some(items) => self@.contains_key(name@) && self@[name@].0 == items@,
                None => !self@.contains_key(name@),
            },
    {
        match self.find(name) {
            Some(i) => {
                proof {
                    self.lemma_view_at(i as int);
                }
                Some(&self.entries[i].items)
            },
            None => {
                proof {
                    lemma_entries_map_keys(self.entries@, name@);
                }
                None
            },
        }
    }

    /// When the entry of `name` was last updated.
    pub fn last_updated(&self, name: &str) -> (r: Option<u64>)
        requires
            self.wf(),
        ensures
            match r {
                Some(t) => self@.contains_key(name@) && self@[name@].1 == t,
                None => !self@.contains_key(name@),
            },
    {
        match self.find(name) {
            Some(i) => {
                proof {
                    self.lemma_view_at(i as int);
                }
                Some(self.entries[i].last_updated)
            },
            None => {
                proof {
                    lemma_entries_map_keys(self.entries@, name@);
                }
                None
            },
        }
    }

    /// Replaces the entry of `name` with `items`, updated at `now`.
    pub fn put(&mut self, name: String, items: Vec<LoadedItem>, now: u64)
        requires
            old(self).wf(),
        ensures
            final(self).wf(),
            final(self)@ == old(self)@.insert(name@, (items@, now)),
    {
        match self.find(name.as_str()) {
            Some(i) => {
                let e = CacheEntry { name, items, last_updated: now };
                proof {
                    lemma_entries_map_update(self.entries@, i as int, e);
                }
                self.entries.set(i, e);
            },
            None => {
                self.entries.push(CacheEntry { name, items, last_updated: now });
                assert(self.entries@.drop_last() =~= old(self).entries@);
            },
        }
    }

    /// Whether the entry of `name` is stale at `now` for `interval`.
    pub fn is_stale(&self, name: &str, interval: u64, now: u64) -> (r: bool)
        requires
            self.wf(),
        ensures
            r == stale(self@, name@, interval, now),
    {
        match self.last_updated(name) {
            None => true,
            Some(t) => {
                let passed: u64 = if now >= t {
                    now - t
                } else {
                    0
                };
                passed >= interval
            },
        }
    }
}

/// An entry is stale exactly when at least the interval has passed since its
/// update; at equality it is stale, one step before it is fresh.
pub proof fn lemma_staleness_threshold(
    m: Map<Seq<char>, (Seq<LoadedItem>, u64)>,
    name: Seq<char>,
    interval: u64,
    now: u64,
)
    requires
        m.contains_key(name),
        m[name].1 <= now,
    ensures
        stale(m, name, interval, now) <==> now - m[name].1 >= interval,
        now - m[name].1 == interval ==> stale(m, name, interval, now),
        now - m[name].1 + 1 == interval ==> !stale(m, name, interval, now),
{
}

} // verus!
