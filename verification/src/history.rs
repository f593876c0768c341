//! Timelog history: one entry per GitLab timelog id, so that repeated polls
//! overwrite instead of duplicating.

use vstd::prelude::*;

use crate::db::{
    agree_at, keys_where, lemma_entry_is_listed, lemma_values_where, loaded, remove_where, rows_of,
    select, values_where, without, KvStore,
};
use crate::gitlab::Issuable;
use crate::order::{lemma_sorted_contains, sort, sorted, Ranked};

verus! {

#[derive(Debug)]
pub struct StoredTimelog {
    pub timelog_id: u64,
    pub spent_at_secs: u64,
    /// What the time was logged on.
    pub kind: Issuable,
    pub project_id: i64,
    pub iid: i64,
    pub title: String,
    pub web_url: String,
    pub duration: String,
    pub summary: String,
}

/// Most recent first.
impl Ranked for StoredTimelog {
    open spec fn before(self, other: Self) -> bool {
        self.spent_at_secs > other.spent_at_secs
    }

    fn precedes(&self, other: &Self) -> (r: bool) {
        self.spent_at_secs > other.spent_at_secs
    }

    proof fn weak_order(x: Self, y: Self, z: Self) {
    }
}

/// `m` with each of `events` under its timelog id, the last of several.
pub open spec fn logged(m: Map<u64, StoredTimelog>, events: Seq<StoredTimelog>) -> Map<
    u64,
    StoredTimelog,
>
    decreases events.len(),
{
    if events.len() == 0 {
        m
    } else {
        logged(m, events.drop_last()).insert(events.last().timelog_id, events.last())
    }
}

/// Accepts the entries spent at or after `cutoff`.
pub open spec fn spent_since(cutoff: u64) -> spec_fn(u64, StoredTimelog) -> bool {
    |k: u64, e: StoredTimelog| e.spent_at_secs >= cutoff
}

/// Accepts the entries spent from `min` on and before `max`.
pub open spec fn spent_between(min: u64, max: u64) -> spec_fn(u64, StoredTimelog) -> bool {
    |k: u64, e: StoredTimelog| min <= e.spent_at_secs < max
}

pub struct HistoryCache {
    store: KvStore<StoredTimelog>,
}

impl View for HistoryCache {
    type V = Map<u64, StoredTimelog>;

    /// The entries by timelog id.
    closed spec fn view(&self) -> Map<u64, StoredTimelog> {
        self.store@
    }
}

impl HistoryCache {
    /// What the cache held when it was last saved.
    pub closed spec fn saved(&self) -> Map<u64, StoredTimelog> {
        self.store.saved()
    }

    /// A history with what was saved.
    pub fn open(rows: Vec<(u64, StoredTimelog)>) -> (r: Self)
        ensures
            r@ == loaded(rows@),
            r.saved() == r@,
    {
        HistoryCache { store: KvStore::load(rows) }
    }

    /// Inserts or overwrites each event under its timelog id.
    pub fn upsert(&mut self, events: Vec<StoredTimelog>)
        ensures
            final(self).saved() == old(self).saved(),
            final(self)@ == logged(old(self)@, events@),
    {
        let ghost all = events@;
        let ghost m0 = self@;
        let mut rest = crate::order::reversed(events);
        proof {
            assert(all.skip(0) =~= all);
            assert(all.take(0) =~= Seq::<StoredTimelog>::empty());
        }
        while rest.len() > 0
            invariant
                rest@.len() <= all.len(),
                rest@ == all.skip(all.len() - rest@.len()).reverse(),
                self@ == logged(m0, all.take(all.len() - rest@.len())),
                self.saved() == old(self).saved(),
            decreases rest@.len(),
        {
            let ghost n = all.len() - rest@.len();
            let ghost r0 = rest@;
            match rest.pop() {
                Some(x) => {
                    proof {
                        assert(r0.reverse() =~= all.skip(n));
                        assert(r0.reverse()[0] == x);
                        assert(all[n] == x);
                        assert(all.take(n + 1).drop_last() =~= all.take(n));
                        assert(rest@ =~= all.skip(n + 1).reverse());
                    }
                    self.store.put(x.timelog_id, x);
                },
                None => {},
            }
        }
        proof {
            assert(all.take(all.len() as int) =~= all);
        }
    }

    /// Every entry spent at or after `cutoff_secs`, most recent first; entries
    /// of the same second in the order of their ids.
    pub fn all_since(&self, cutoff_secs: u64) -> (r: Vec<&StoredTimelog>)
        ensures
            r@ == sorted(values_where(rows_of(self@), spent_since(cutoff_secs))),
    {
        let wanted = |_k: u64, e: &StoredTimelog| -> (b: bool)
            ensures
                b == (e.spent_at_secs >= cutoff_secs),
            { e.spent_at_secs >= cutoff_secs };
        let list = select(&self.store, wanted, Ghost(spent_since(cutoff_secs)));
        sort(&list)
    }

    /// Drops every entry spent before `cutoff_secs`; how many those were.
    pub fn prune(&mut self, cutoff_secs: u64) -> (r: usize)
        ensures
            final(self).saved() == old(self).saved(),
            final(self)@ == without(old(self)@, spent_between(0, cutoff_secs)),
            r == keys_where(rows_of(old(self)@), spent_between(0, cutoff_secs)).len(),
    {
        self.clear_between(0, cutoff_secs)
    }

    /// Drops every entry spent in `[min_secs, max_secs)`; how many those were.
    pub fn clear_between(&mut self, min_secs: u64, max_secs: u64) -> (r: usize)
        ensures
            final(self).saved() == old(self).saved(),
            final(self)@ == without(old(self)@, spent_between(min_secs, max_secs)),
            r == keys_where(rows_of(old(self)@), spent_between(min_secs, max_secs)).len(),
    {
        let gone = |_k: u64, e: &StoredTimelog| -> (b: bool)
            ensures
                b == (min_secs <= e.spent_at_secs < max_secs),
            { e.spent_at_secs >= min_secs && e.spent_at_secs < max_secs };
        remove_where(&mut self.store, gone, Ghost(spent_between(min_secs, max_secs))).len()
    }

    /// Drops every entry.
    pub fn clear(&mut self)
        ensures
            final(self).saved() == old(self).saved(),
            final(self)@ == Map::<u64, StoredTimelog>::empty(),
    {
        self.store.clear();
    }

    /// What is kept under a key, for saving.
    pub fn entry(&self, key: u64) -> (r: Option<&StoredTimelog>)
        ensures
            match r {
                Some(v) => self@.contains_key(key) && self@[key] == *v,
                None => !self@.contains_key(key),
            },
    {
        self.store.get(key)
    }

    /// The keys that were written or removed since the cache was last saved: every
    /// other key holds what was saved.
    pub fn dirty_keys(&self) -> (r: &Vec<u64>)
        ensures
            forall|k: u64| !r@.contains(k) ==> #[trigger] agree_at(self.saved(), self@, k),
    {
        self.store.dirty_keys()
    }

    /// Takes note that everything has been saved.
    pub fn mark_saved(&mut self)
        ensures
            final(self)@ == old(self)@,
            final(self).saved() == old(self)@,
    {
        self.store.mark_saved();
    }
}

/// A time entry that was logged is listed from its time on, unless a later one
/// under the same id replaced it.
pub proof fn law_logged_is_listed(
    m: Map<u64, StoredTimelog>,
    events: Seq<StoredTimelog>,
    i: int,
    cutoff: u64,
)
    requires
        0 <= i < events.len(),
        forall|j: int|
            i < j < events.len() ==> (#[trigger] events[j]).timelog_id != events[i].timelog_id,
    ensures
        logged(m, events).contains_key(events[i].timelog_id),
        logged(m, events)[events[i].timelog_id] == events[i],
        events[i].spent_at_secs >= cutoff ==> sorted(
            values_where(rows_of(logged(m, events)), spent_since(cutoff)),
        ).contains(&events[i]),
    decreases events.len(),
{
    let e = events[i];
    let after = logged(m, events);
    if i < events.len() - 1 {
        let init = events.drop_last();
        assert(init[i] == e);
        assert forall|j: int| i < j < init.len() implies (#[trigger] init[j]).timelog_id
            != init[i].timelog_id by {
            assert(events[j] == init[j]);
        }
        law_logged_is_listed(m, init, i, cutoff);
        assert(events[events.len() - 1].timelog_id != e.timelog_id);
    }
    if e.spent_at_secs >= cutoff {
        let p = spent_since(cutoff);
        lemma_entry_is_listed(after, e.timelog_id);
        lemma_values_where(rows_of(after), p, e);
        lemma_sorted_contains(values_where(rows_of(after), p), &e);
    }
}

/// The quick, slow and stale bands of the history lie one after the other: every
/// entry before the end of time is in exactly one of them, and clearing all
/// three leaves nothing.
pub proof fn law_bands_partition(
    m: Map<u64, StoredTimelog>,
    slow_start: u64,
    quick_start: u64,
    k: u64,
)
    requires
        slow_start <= quick_start,
        forall|j: u64| m.contains_key(j) ==> (#[trigger] m[j]).spent_at_secs < u64::MAX,
    ensures
        ({
            let quick = without(m, spent_between(quick_start, u64::MAX));
            let slow = without(quick, spent_between(slow_start, quick_start));
            let stale = without(slow, spent_between(0, slow_start));
            stale == Map::<u64, StoredTimelog>::empty()
        }),
        m.contains_key(k) ==> {
            let q = spent_between(quick_start, u64::MAX)(k, m[k]);
            let s = spent_between(slow_start, quick_start)(k, m[k]);
            let t = spent_between(0, slow_start)(k, m[k]);
            (q && !s && !t) || (!q && s && !t) || (!q && !s && t)
        },
{
    let quick = without(m, spent_between(quick_start, u64::MAX));
    let slow = without(quick, spent_between(slow_start, quick_start));
    let stale = without(slow, spent_between(0, slow_start));
    assert(stale =~= Map::<u64, StoredTimelog>::empty());
}

/// Clearing a band removes exactly the entries of the half-open window and
/// changes no other.
pub proof fn law_clear_is_half_open(m: Map<u64, StoredTimelog>, min: u64, max: u64, k: u64)
    ensures
        without(m, spent_between(min, max)).contains_key(k) <==> m.contains_key(k) && !(min
            <= m[k].spent_at_secs < max),
        without(m, spent_between(min, max)).contains_key(k) ==> without(m, spent_between(min, max))[k]
            == m[k],
{
}

/// What was logged last is listed first.
pub proof fn law_history_is_newest_first(
    m: Map<u64, StoredTimelog>,
    cutoff: u64,
    i: int,
    j: int,
)
    requires
        0 <= i < j < sorted(values_where(rows_of(m), spent_since(cutoff))).len(),
    ensures
        ({
            let list = sorted(values_where(rows_of(m), spent_since(cutoff)));
            list[i].spent_at_secs >= list[j].spent_at_secs
        }),
{
    let all = values_where(rows_of(m), spent_since(cutoff));
    crate::order::law_sorted(all, |t: &StoredTimelog| true);
    let list = sorted(all);
    assert(!list[j].before(list[i]));
}

} // verus!
