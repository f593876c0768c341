//! The search corpus: issues, merge requests, projects and groups, each an
//! entry of its own under its global GitLab id, with the bookkeeping of the
//! background sync and of the projects worth refreshing.
//!
//! Writes go through a [`SyncGuard`], which the lock of the cache hands out to
//! one holder at a time. Reads need no guard.

use std::collections::HashSet;

use vstd::prelude::*;
use vstd::string::*;

use crate::db::{
    agree_at, ascending, find, first_where, keys_where, law_survives_reopen, lemma_first_where,
    lemma_row_in_map, loaded, remove_where, rows_map, rows_of, select, values_where, without,
    written_through, KvStore,
};
use crate::order::Ranked;
use crate::text::{
    all_ascii, all_digits, ascii_lowered, chars_of, contains, decimal, digits_value, has_substring,
    is_digit, law_decimal_reads_back, lemma_trim_padded, lemma_trimmed_within, lowercased,
    occurs_at, read_digits, str_before, text_before, to_lowercase, trim, trimmed, Fringe,
};

verus! {

#[derive(Debug)]
pub struct SearchIssue {
    pub id: i64,
    pub iid: i64,
    pub project_id: i64,
    pub title: String,
    pub web_url: String,
    pub state: String,
    pub labels: Vec<String>,
    /// Epic URL, empty when the issue has no parent.
    pub parent: String,
    /// Human-readable total time spent, e.g. `"1h 30m"`.
    pub total_time: String,
    pub updated_at_secs: u64,
}

/// One assignee of a merge request, captured at sync time.
#[derive(Debug, PartialEq)]
pub struct MrAssignee {
    pub id: i64,
    pub username: String,
}

impl Clone for MrAssignee {
    fn clone(&self) -> (r: Self)
        ensures
            r == *self,
    {
        MrAssignee { id: self.id, username: self.username.clone() }
    }
}

#[derive(Debug)]
pub struct SearchMr {
    pub id: i64,
    pub iid: i64,
    pub project_id: i64,
    pub title: String,
    pub web_url: String,
    pub state: String,
    pub labels: Vec<String>,
    pub assignees: Vec<MrAssignee>,
    pub updated_at_secs: u64,
}

#[derive(Debug)]
pub struct SearchProject {
    pub id: i64,
    pub name: String,
    /// Path with namespace, e.g. `"team/backend/api"`.
    pub path: String,
    pub web_url: String,
}

#[derive(Debug)]
pub struct SearchGroup {
    pub id: i64,
    pub name: String,
    /// Full path, e.g. `"team/backend"`.
    pub path: String,
    pub web_url: String,
}

/// The schema version of the entries. Stamps of an older version count as never
/// synced, so that one full resync rewrites every entry.
pub const SEARCH_SCHEMA_VERSION: u32 = 1;

/// Sync bookkeeping of the whole cache. Zero means "never".
#[derive(Clone, Copy, PartialEq, Eq, Structural, Debug)]
pub struct SyncStamps {
    pub last_partial_sync_secs: u64,
    pub last_full_sync_secs: u64,
    /// Kept for stamps that were written with it; always written `false`.
    pub degraded_to_member: bool,
    /// The schema version that the entries were written under.
    pub schema_version: u32,
    /// The user whose session ran the sync; zero means "never synced".
    pub synced_user_id: i64,
}

/// The stamps of a cache that was never synced.
pub open spec fn never_synced() -> SyncStamps {
    SyncStamps {
        last_partial_sync_secs: 0,
        last_full_sync_secs: 0,
        degraded_to_member: false,
        schema_version: 0,
        synced_user_id: 0,
    }
}

impl Default for SyncStamps {
    fn default() -> (r: Self)
        ensures
            r == never_synced(),
    {
        SyncStamps {
            last_partial_sync_secs: 0,
            last_full_sync_secs: 0,
            degraded_to_member: false,
            schema_version: 0,
            synced_user_id: 0,
        }
    }
}

/// Bookkeeping of a project that is kept fresh while there is recent local
/// evidence of relevance.
#[derive(Clone, Copy, PartialEq, Eq, Structural, Debug)]
pub struct TrackedProject {
    /// UNIX seconds of the most recent evidence.
    pub last_evidence_secs: u64,
}

/// Entries that are stored under their global GitLab id.
pub trait HasId: Sized {
    spec fn spec_id(self) -> i64;

    fn id(&self) -> (r: i64)
        ensures
            r == self.spec_id(),
    ;
}

/// Entries that belong to a project.
pub trait InProject: Sized {
    spec fn spec_project(self) -> i64;

    fn project(&self) -> (r: i64)
        ensures
            r == self.spec_project(),
    ;
}

/// The same strings once more.
pub(crate) fn clone_texts(v: &Vec<String>) -> (r: Vec<String>)
    ensures
        r@ == v@,
{
    let mut r: Vec<String> = Vec::new();
    let mut i: usize = 0;
    while i < v.len()
        invariant
            i <= v@.len(),
            r@ == v@.take(i as int),
        decreases v@.len() - i,
    {
        r.push(v[i].clone());
        i += 1;
        proof {
            assert(r@ =~= v@.take(i as int));
        }
    }
    proof {
        assert(v@.take(v@.len() as int) =~= v@);
    }
    r
}

/// Whether two issues have the same contents.
pub open spec fn same_issue(a: SearchIssue, b: SearchIssue) -> bool {
    &&& a.labels@ == b.labels@
    &&& a == (SearchIssue { labels: a.labels, ..b })
}

impl Clone for SearchIssue {
    fn clone(&self) -> (r: Self)
        ensures
            same_issue(r, *self),
    {
        SearchIssue {
            id: self.id,
            iid: self.iid,
            project_id: self.project_id,
            title: self.title.clone(),
            web_url: self.web_url.clone(),
            state: self.state.clone(),
            labels: clone_texts(&self.labels),
            parent: self.parent.clone(),
            total_time: self.total_time.clone(),
            updated_at_secs: self.updated_at_secs,
        }
    }
}

/// Whether two merge requests have the same contents.
pub open spec fn same_mr(a: SearchMr, b: SearchMr) -> bool {
    &&& a.labels@ == b.labels@
    &&& a.assignees@ == b.assignees@
    &&& a == (SearchMr { labels: a.labels, assignees: a.assignees, ..b })
}

impl Clone for SearchMr {
    fn clone(&self) -> (r: Self)
        ensures
            same_mr(r, *self),
    {
        let mut assignees: Vec<MrAssignee> = Vec::new();
        let mut i: usize = 0;
        while i < self.assignees.len()
            invariant
                i <= self.assignees@.len(),
                assignees@ == self.assignees@.take(i as int),
            decreases self.assignees@.len() - i,
        {
            assignees.push(self.assignees[i].clone());
            i += 1;
            proof {
                assert(assignees@ =~= self.assignees@.take(i as int));
            }
        }
        proof {
            assert(self.assignees@.take(self.assignees@.len() as int) =~= self.assignees@);
        }
        SearchMr {
            id: self.id,
            iid: self.iid,
            project_id: self.project_id,
            title: self.title.clone(),
            web_url: self.web_url.clone(),
            state: self.state.clone(),
            labels: clone_texts(&self.labels),
            assignees,
            updated_at_secs: self.updated_at_secs,
        }
    }
}

impl HasId for SearchIssue {
    open spec fn spec_id(self) -> i64 {
        self.id
    }

    fn id(&self) -> (r: i64) {
        self.id
    }
}

impl HasId for SearchMr {
    open spec fn spec_id(self) -> i64 {
        self.id
    }

    fn id(&self) -> (r: i64) {
        self.id
    }
}

impl Clone for SearchProject {
    fn clone(&self) -> (r: Self)
        ensures
            r == *self,
    {
        SearchProject {
            id: self.id,
            name: self.name.clone(),
            path: self.path.clone(),
            web_url: self.web_url.clone(),
        }
    }
}

impl HasId for SearchProject {
    open spec fn spec_id(self) -> i64 {
        self.id
    }

    fn id(&self) -> (r: i64) {
        self.id
    }
}

impl Clone for SearchGroup {
    fn clone(&self) -> (r: Self)
        ensures
            r == *self,
    {
        SearchGroup {
            id: self.id,
            name: self.name.clone(),
            path: self.path.clone(),
            web_url: self.web_url.clone(),
        }
    }
}

impl HasId for SearchGroup {
    open spec fn spec_id(self) -> i64 {
        self.id
    }

    fn id(&self) -> (r: i64) {
        self.id
    }
}

impl InProject for SearchIssue {
    open spec fn spec_project(self) -> i64 {
        self.project_id
    }

    fn project(&self) -> (r: i64) {
        self.project_id
    }
}

/// Most recently updated first.
impl Ranked for SearchIssue {
    open spec fn before(self, other: Self) -> bool {
        self.updated_at_secs > other.updated_at_secs
    }

    fn precedes(&self, other: &Self) -> (r: bool) {
        self.updated_at_secs > other.updated_at_secs
    }

    proof fn weak_order(x: Self, y: Self, z: Self) {
    }
}

impl InProject for SearchMr {
    open spec fn spec_project(self) -> i64 {
        self.project_id
    }

    fn project(&self) -> (r: i64) {
        self.project_id
    }
}

/// Most recently updated first.
impl Ranked for SearchMr {
    open spec fn before(self, other: Self) -> bool {
        self.updated_at_secs > other.updated_at_secs
    }

    fn precedes(&self, other: &Self) -> (r: bool) {
        self.updated_at_secs > other.updated_at_secs
    }

    proof fn weak_order(x: Self, y: Self, z: Self) {
    }
}

/// By path.
impl Ranked for SearchProject {
    open spec fn before(self, other: Self) -> bool {
        text_before(self.path@, other.path@)
    }

    fn precedes(&self, other: &Self) -> (r: bool) {
        str_before(self.path.as_str(), other.path.as_str())
    }

    proof fn weak_order(x: Self, y: Self, z: Self) {
        String::weak_order(x.path, y.path, z.path);
    }
}

/// By path.
impl Ranked for SearchGroup {
    open spec fn before(self, other: Self) -> bool {
        text_before(self.path@, other.path@)
    }

    fn precedes(&self, other: &Self) -> (r: bool) {
        str_before(self.path.as_str(), other.path.as_str())
    }

    proof fn weak_order(x: Self, y: Self, z: Self) {
        String::weak_order(x.path, y.path, z.path);
    }
}

/// The key that an id is stored under.
pub open spec fn id_key(id: i64) -> u64 {
    id as u64
}

/// The key that an id is stored under.
pub fn key_of(id: i64) -> (r: u64)
    ensures
        r == id_key(id),
{
    id as u64
}

/// The id that is stored under a key.
pub open spec fn key_id(k: u64) -> i64 {
    k as i64
}

/// `disk` with the current entry, or none, under each of `keys`.
pub open spec fn corpus_written_through(keys: DirtyKeys<'_>, disk: Corpus, now: Corpus) -> Corpus {
    Corpus {
        issues: written_through(disk.issues, keys.issues@, now.issues),
        mrs: written_through(disk.mrs, keys.mrs@, now.mrs),
        projects: written_through(disk.projects, keys.projects@, now.projects),
        groups: written_through(disk.groups, keys.groups@, now.groups),
        tracked_set: written_through(disk.tracked_set, keys.tracked_set@, now.tracked_set),
        stamps: if keys.stamps {
            now.stamps
        } else {
            disk.stamps
        },
    }
}

/// Writing the unsaved keys through to a disk with what was saved before
/// leaves on it what the cache holds.
pub proof fn law_corpus_survives_reopen(keys: DirtyKeys<'_>, saved: Corpus, now: Corpus)
    requires
        covers(keys, saved, now),
    ensures
        corpus_written_through(keys, saved, now) == now,
{
    law_survives_reopen(saved.issues, now.issues, keys.issues@);
    law_survives_reopen(saved.mrs, now.mrs, keys.mrs@);
    law_survives_reopen(saved.projects, now.projects, keys.projects@);
    law_survives_reopen(saved.groups, now.groups, keys.groups@);
    law_survives_reopen(saved.tracked_set, now.tracked_set, keys.tracked_set@);
}

/// Ids and their keys determine each other.
pub proof fn law_key_roundtrip(id: i64, k: u64)
    ensures
        key_id(id_key(id)) == id,
        id_key(key_id(k)) == k,
{
    assert((id as u64) as i64 == id) by (bit_vector);
    assert((k as i64) as u64 == k) by (bit_vector);
}

// ── the cache ────────────────────────────────────────────────────────────────

pub struct SearchCache {
    issues: KvStore<SearchIssue>,
    mrs: KvStore<SearchMr>,
    projects: KvStore<SearchProject>,
    groups: KvStore<SearchGroup>,
    tracked_set: KvStore<TrackedProject>,
    /// The sync stamps, under the key zero.
    meta: KvStore<SyncStamps>,
    /// Whether a guard is out.
    locked: bool,
}

/// Exclusive write permission for the cache, for the duration of one sync, one
/// clear or one update.
pub struct SyncGuard {
    _lock: (),
}

/// What a cache holds.
pub ghost struct Corpus {
    pub issues: Map<u64, SearchIssue>,
    pub mrs: Map<u64, SearchMr>,
    pub projects: Map<u64, SearchProject>,
    pub groups: Map<u64, SearchGroup>,
    pub tracked_set: Map<u64, TrackedProject>,
    pub stamps: SyncStamps,
}

impl View for SearchCache {
    type V = Corpus;

    closed spec fn view(&self) -> Corpus {
        Corpus {
            issues: self.issues@,
            mrs: self.mrs@,
            projects: self.projects@,
            groups: self.groups@,
            tracked_set: self.tracked_set@,
            stamps: if self.meta@.contains_key(0) {
                self.meta@[0]
            } else {
                never_synced()
            },
        }
    }
}

/// What a cache without entries holds.
pub open spec fn empty_corpus() -> Corpus {
    Corpus {
        issues: Map::empty(),
        mrs: Map::empty(),
        projects: Map::empty(),
        groups: Map::empty(),
        tracked_set: Map::empty(),
        stamps: never_synced(),
    }
}

/// `m` with each of `items` under its id, the last of several under one id.
pub open spec fn upserted<T: HasId>(m: Map<u64, T>, items: Seq<T>) -> Map<u64, T>
    decreases items.len(),
{
    if items.len() == 0 {
        m
    } else {
        upserted(m, items.drop_last()).insert(id_key(items.last().spec_id()), items.last())
    }
}

/// Inserts or overwrites each entry under its id.
fn upsert<T: HasId>(store: &mut KvStore<T>, items: Vec<T>)
    ensures
        final(store).saved() == old(store).saved(),
        final(store)@ == upserted(old(store)@, items@),
{
    let ghost all = items@;
    let ghost m0 = store@;
    let ghost saved0 = store.saved();
    let mut rest = crate::order::reversed(items);
    proof {
        assert(all.skip(0) =~= all);
        assert(all.take(0) =~= Seq::<T>::empty());
    }
    while rest.len() > 0
        invariant
            rest@.len() <= all.len(),
            rest@ == all.skip(all.len() - rest@.len()).reverse(),
            store@ == upserted(m0, all.take(all.len() - rest@.len())),
            store.saved() == saved0,
        decreases rest@.len(),
    {
        let ghost n = all.len() - rest@.len();
        let ghost r0 = rest@;
        match rest.pop() {
            Some(x) => {
                proof {
                    assert(r0.reverse() =~= all.skip(n));
                    assert(r0.reverse()[0] == x);
                    assert(all[n] == x);
                    assert(all.take(n + 1).drop_last() =~= all.take(n));
                    assert(rest@ =~= all.skip(n + 1).reverse());
                }
                store.put(key_of(x.id()), x);
            },
            None => {},
        }
    }
    proof {
        assert(all.take(all.len() as int) =~= all);
    }
}

/// `m` with the entry under each of `ids` at evidence no older than `now`.
pub open spec fn noted(
    m: Map<u64, TrackedProject>,
    ids: Seq<i64>,
    now: u64,
) -> Map<u64, TrackedProject>
    decreases ids.len(),
{
    if ids.len() == 0 {
        m
    } else {
        let rest = noted(m, ids.drop_last(), now);
        let k = id_key(ids.last());
        let last = if rest.contains_key(k) {
            rest[k].last_evidence_secs
        } else {
            0
        };
        if now > last {
            rest.insert(k, TrackedProject { last_evidence_secs: now })
        } else {
            rest
        }
    }
}

impl SearchCache {
    /// What the cache held when it was last saved.
    pub closed spec fn saved(&self) -> Corpus {
        Corpus {
            issues: self.issues.saved(),
            mrs: self.mrs.saved(),
            projects: self.projects.saved(),
            groups: self.groups.saved(),
            tracked_set: self.tracked_set.saved(),
            stamps: if self.meta.saved().contains_key(0) {
                self.meta.saved()[0]
            } else {
                never_synced()
            },
        }
    }

    /// Whether a guard is out.
    pub closed spec fn syncing(&self) -> bool {
        self.locked
    }

    /// A cache with the entries that were saved.
    pub fn open(
        issues: Vec<(u64, SearchIssue)>,
        mrs: Vec<(u64, SearchMr)>,
        projects: Vec<(u64, SearchProject)>,
        groups: Vec<(u64, SearchGroup)>,
        tracked_set: Vec<(u64, TrackedProject)>,
        stamps: Option<SyncStamps>,
    ) -> (r: Self)
        ensures
            r@.issues == loaded(issues@),
            r@.mrs == loaded(mrs@),
            r@.projects == loaded(projects@),
            r@.groups == loaded(groups@),
            r@.tracked_set == loaded(tracked_set@),
            r@.stamps == match stamps {
                Some(s) => s,
                None => never_synced(),
            },
            r.saved() == r@,
            !r.syncing(),
    {
        let mut meta: Vec<(u64, SyncStamps)> = Vec::new();
        match stamps {
            Some(s) => {
                meta.push((0, s));
                proof {
                    reveal_with_fuel(loaded, 2);
                    assert(meta@.drop_last() =~= Seq::<(u64, SyncStamps)>::empty());
                }
            },
            None => {},
        }
        SearchCache {
            issues: KvStore::load(issues),
            mrs: KvStore::load(mrs),
            projects: KvStore::load(projects),
            groups: KvStore::load(groups),
            tracked_set: KvStore::load(tracked_set),
            meta: KvStore::load(meta),
            locked: false,
        }
    }

    /// Whether a guard is out.
    pub fn is_syncing(&self) -> (r: bool)
        ensures
            r == self.syncing(),
    {
        self.locked
    }

    /// Takes the lock, unless a guard is out already.
    pub fn try_begin_sync(&mut self) -> (r: Option<SyncGuard>)
        ensures
            r is Some <==> !old(self).syncing(),
            final(self).syncing(),
            final(self)@ == old(self)@,
            final(self).saved() == old(self).saved(),
    {
        if self.locked {
            None
        } else {
            self.locked = true;
            Some(SyncGuard { _lock: () })
        }
    }

    /// The sync bookkeeping.
    pub fn stamps(&self) -> (r: SyncStamps)
        ensures
            r == self@.stamps,
    {
        match self.meta.get(0) {
            Some(s) => *s,
            None => SyncStamps::default(),
        }
    }

    /// Every issue, in the order of the ids' keys.
    pub fn all_issues(&self) -> (r: Vec<&SearchIssue>)
        ensures
            r@ == values_where(rows_of(self@.issues), everything()),
    {
        let any = |_k: u64, _v: &SearchIssue| -> (b: bool)
            ensures
                b,
            { true };
        select(&self.issues, any, Ghost(everything()))
    }

    /// Every merge request, in the order of the ids' keys.
    pub fn all_mrs(&self) -> (r: Vec<&SearchMr>)
        ensures
            r@ == values_where(rows_of(self@.mrs), everything()),
    {
        let any = |_k: u64, _v: &SearchMr| -> (b: bool)
            ensures
                b,
            { true };
        select(&self.mrs, any, Ghost(everything()))
    }

    /// The global id of the cached merge request `iid` of a project.
    pub fn mr_id(&self, project_id: i64, iid: i64) -> (r: Option<i64>)
        ensures
            r == match first_where(rows_of(self@.mrs), mr_at(project_id, iid)) {
                Some((_, m)) => Some(m.id),
                None => None,
            },
    {
        let wanted = |_k: u64, m: &SearchMr| -> (b: bool)
            ensures
                b == (m.project_id == project_id && m.iid == iid),
            { m.project_id == project_id && m.iid == iid };
        match find(&self.mrs, wanted, Ghost(mr_at(project_id, iid))) {
            Some((_, m)) => Some(m.id),
            None => None,
        }
    }

    /// Every project, in the order of the ids' keys.
    pub fn all_projects(&self) -> (r: Vec<&SearchProject>)
        ensures
            r@ == values_where(rows_of(self@.projects), everything()),
    {
        let any = |_k: u64, _v: &SearchProject| -> (b: bool)
            ensures
                b,
            { true };
        select(&self.projects, any, Ghost(everything()))
    }

    /// Every group, in the order of the ids' keys.
    pub fn all_groups(&self) -> (r: Vec<&SearchGroup>)
        ensures
            r@ == values_where(rows_of(self@.groups), everything()),
    {
        let any = |_k: u64, _v: &SearchGroup| -> (b: bool)
            ensures
                b,
            { true };
        select(&self.groups, any, Ghost(everything()))
    }

    /// Every tracked project with its bookkeeping, in the order of the keys.
    pub fn tracked_projects(&self) -> (r: Vec<(i64, TrackedProject)>)
        ensures
            r@ == rows_of(self@.tracked_set).map_values(
                |row: (u64, TrackedProject)| (key_id(row.0), row.1),
            ),
            ascending(rows_of(self@.tracked_set)),
            rows_map(rows_of(self@.tracked_set)) == self@.tracked_set,
    {
        let rows = self.tracked_set.scan();
        let ghost rows0 = rows_of(self@.tracked_set);
        let ghost f = |row: (u64, TrackedProject)| (key_id(row.0), row.1);
        let mut r: Vec<(i64, TrackedProject)> = Vec::new();
        let mut i: usize = 0;
        while i < rows.len()
            invariant
                i <= rows@.len() == rows0.len(),
                forall|j: int|
                    0 <= j < rows@.len() ==> (#[trigger] rows@[j]).0 == rows0[j].0 && *rows@[j].1
                        == rows0[j].1,
                f == |row: (u64, TrackedProject)| (key_id(row.0), row.1),
                r@ == rows0.take(i as int).map_values(f),
            decreases rows@.len() - i,
        {
            r.push((rows[i].0 as i64, *rows[i].1));
            i += 1;
            proof {
                assert(r@ =~= rows0.take(i as int).map_values(f));
            }
        }
        proof {
            assert(rows0.take(rows0.len() as int) =~= rows0);
        }
        r
    }

    /// The issue with the global id `id`.
    pub fn issue_by_id(&self, id: i64) -> (r: Option<&SearchIssue>)
        ensures
            match r {
                Some(i) => self@.issues.contains_key(id_key(id)) && self@.issues[id_key(id)] == *i,
                None => !self@.issues.contains_key(id_key(id)),
            },
    {
        self.issues.get(key_of(id))
    }

    /// The issues that satisfy `wanted`, in the order of the ids' keys.
    pub(crate) fn select_issues<F: Fn(u64, &SearchIssue) -> bool>(
        &self,
        wanted: F,
        Ghost(p): Ghost<spec_fn(u64, SearchIssue) -> bool>,
    ) -> (r: Vec<&SearchIssue>)
        requires
            forall|k: u64, v: SearchIssue| #[trigger] wanted.requires((k, &v)),
            forall|k: u64, v: SearchIssue, b: bool|
                #[trigger] wanted.ensures((k, &v), b) ==> b == p(k, v),
        ensures
            r@ == values_where(rows_of(self@.issues), p),
    {
        select(&self.issues, wanted, Ghost(p))
    }

    /// The mrs that satisfy `wanted`, in the order of the ids' keys.
    pub(crate) fn select_mrs<F: Fn(u64, &SearchMr) -> bool>(
        &self,
        wanted: F,
        Ghost(p): Ghost<spec_fn(u64, SearchMr) -> bool>,
    ) -> (r: Vec<&SearchMr>)
        requires
            forall|k: u64, v: SearchMr| #[trigger] wanted.requires((k, &v)),
            forall|k: u64, v: SearchMr, b: bool|
                #[trigger] wanted.ensures((k, &v), b) ==> b == p(k, v),
        ensures
            r@ == values_where(rows_of(self@.mrs), p),
    {
        select(&self.mrs, wanted, Ghost(p))
    }

    /// The projects that satisfy `wanted`, in the order of the ids' keys.
    pub(crate) fn select_projects<F: Fn(u64, &SearchProject) -> bool>(
        &self,
        wanted: F,
        Ghost(p): Ghost<spec_fn(u64, SearchProject) -> bool>,
    ) -> (r: Vec<&SearchProject>)
        requires
            forall|k: u64, v: SearchProject| #[trigger] wanted.requires((k, &v)),
            forall|k: u64, v: SearchProject, b: bool|
                #[trigger] wanted.ensures((k, &v), b) ==> b == p(k, v),
        ensures
            r@ == values_where(rows_of(self@.projects), p),
    {
        select(&self.projects, wanted, Ghost(p))
    }

    /// The groups that satisfy `wanted`, in the order of the ids' keys.
    pub(crate) fn select_groups<F: Fn(u64, &SearchGroup) -> bool>(
        &self,
        wanted: F,
        Ghost(p): Ghost<spec_fn(u64, SearchGroup) -> bool>,
    ) -> (r: Vec<&SearchGroup>)
        requires
            forall|k: u64, v: SearchGroup| #[trigger] wanted.requires((k, &v)),
            forall|k: u64, v: SearchGroup, b: bool|
                #[trigger] wanted.ensures((k, &v), b) ==> b == p(k, v),
        ensures
            r@ == values_where(rows_of(self@.groups), p),
    {
        select(&self.groups, wanted, Ghost(p))
    }

    /// Whether a project is among the cached ones.
    pub fn has_project(&self, id: i64) -> (r: bool)
        ensures
            r == self@.projects.contains_key(id_key(id)),
    {
        match self.projects.get(key_of(id)) {
            Some(_) => true,
            None => false,
        }
    }

    /// The keys of every kind that were written or removed since the cache was last
    /// saved: everything else is as it was saved.
    pub fn dirty_keys(&self) -> (r: DirtyKeys<'_>)
        ensures
            covers(r, self.saved(), self@),
    {
        let stamps = self.meta.dirty_keys();
        proof {
            assert(stamps@.len() == 0 ==> !stamps@.contains(0));
            assert(!stamps@.contains(0) ==> agree_at(self.meta.saved(), self.meta@, 0));
        }
        DirtyKeys {
            issues: self.issues.dirty_keys(),
            mrs: self.mrs.dirty_keys(),
            projects: self.projects.dirty_keys(),
            groups: self.groups.dirty_keys(),
            tracked_set: self.tracked_set.dirty_keys(),
            stamps: stamps.len() > 0,
        }
    }

    /// Takes note that everything has been saved.
    pub fn mark_saved(&mut self)
        ensures
            final(self)@ == old(self)@,
            final(self).saved() == old(self)@,
            final(self).syncing() == old(self).syncing(),
    {
        self.issues.mark_saved();
        self.mrs.mark_saved();
        self.projects.mark_saved();
        self.groups.mark_saved();
        self.tracked_set.mark_saved();
        self.meta.mark_saved();
    }

    /// The entries under one key, one per kind, for saving.
    pub fn entry(&self, key: u64) -> (r: Entry<'_>)
        ensures
            match r.issue {
                Some(v) => self@.issues.contains_key(key) && self@.issues[key] == *v,
                None => !self@.issues.contains_key(key),
            },
            match r.mr {
                Some(v) => self@.mrs.contains_key(key) && self@.mrs[key] == *v,
                None => !self@.mrs.contains_key(key),
            },
            match r.project {
                Some(v) => self@.projects.contains_key(key) && self@.projects[key] == *v,
                None => !self@.projects.contains_key(key),
            },
            match r.group {
                Some(v) => self@.groups.contains_key(key) && self@.groups[key] == *v,
                None => !self@.groups.contains_key(key),
            },
            match r.evidence {
                Some(v) => self@.tracked_set.contains_key(key) && self@.tracked_set[key] == *v,
                None => !self@.tracked_set.contains_key(key),
            },
    {
        Entry {
            issue: self.issues.get(key),
            mr: self.mrs.get(key),
            project: self.projects.get(key),
            group: self.groups.get(key),
            evidence: self.tracked_set.get(key),
        }
    }
}

/// The keys that have to be saved, per kind.
pub struct DirtyKeys<'a> {
    pub issues: &'a Vec<u64>,
    pub mrs: &'a Vec<u64>,
    pub projects: &'a Vec<u64>,
    pub groups: &'a Vec<u64>,
    pub tracked_set: &'a Vec<u64>,
    pub stamps: bool,
}

/// Whether `keys` names everything in which `now` differs from `saved`.
pub open spec fn covers(keys: DirtyKeys<'_>, saved: Corpus, now: Corpus) -> bool {
    &&& forall|k: u64|
        !keys.issues@.contains(k) ==> #[trigger] agree_at(saved.issues, now.issues, k)
    &&& forall|k: u64| !keys.mrs@.contains(k) ==> #[trigger] agree_at(saved.mrs, now.mrs, k)
    &&& forall|k: u64|
        !keys.projects@.contains(k) ==> #[trigger] agree_at(saved.projects, now.projects, k)
    &&& forall|k: u64|
        !keys.groups@.contains(k) ==> #[trigger] agree_at(saved.groups, now.groups, k)
    &&& forall|k: u64|
        !keys.tracked_set@.contains(k) ==> #[trigger] agree_at(
            saved.tracked_set,
            now.tracked_set,
            k,
        )
    &&& !keys.stamps ==> saved.stamps == now.stamps
}

/// The entries under one key, one per kind.
pub struct Entry<'a> {
    pub issue: Option<&'a SearchIssue>,
    pub mr: Option<&'a SearchMr>,
    pub project: Option<&'a SearchProject>,
    pub group: Option<&'a SearchGroup>,
    pub evidence: Option<&'a TrackedProject>,
}

/// Accepts the entries whose key is not in `keep`.
pub open spec fn not_kept<V>(keep: Set<u64>) -> spec_fn(u64, V) -> bool {
    |k: u64, v: V| !keep.contains(k)
}

/// Accepts the entries of a project whose key is not in `keep`.
pub open spec fn not_kept_in<V: InProject>(
    project_id: i64,
    keep: Set<u64>,
) -> spec_fn(u64, V) -> bool {
    |k: u64, v: V| v.spec_project() == project_id && !keep.contains(k)
}

/// Accepts the entries whose project is not in `projects`.
pub open spec fn outside_of<V: InProject>(projects: Set<i64>) -> spec_fn(u64, V) -> bool {
    |k: u64, v: V| !projects.contains(v.spec_project())
}

/// Accepts the projects whose last evidence predates `cutoff`.
pub open spec fn stale_before(cutoff: u64) -> spec_fn(u64, TrackedProject) -> bool {
    |k: u64, t: TrackedProject| t.last_evidence_secs < cutoff
}

/// Removes every entry whose key is not in `keep`; how many those were.
fn retain<T>(store: &mut KvStore<T>, keep: &HashSet<u64>) -> (r: usize)
    ensures
        final(store).saved() == old(store).saved(),
        final(store)@ == without(old(store)@, not_kept(keep@)),
        r == keys_where(rows_of(old(store)@), not_kept::<T>(keep@)).len(),
{
    let gone = |k: u64, _v: &T| -> (b: bool)
        ensures
            b == !keep@.contains(k),
        { !keep.contains(&k) };
    remove_where(store, gone, Ghost(not_kept(keep@))).len()
}

/// Removes the entries of a project whose key is not in `keep`; how many those
/// were.
fn retain_in_project<T: InProject>(
    store: &mut KvStore<T>,
    project_id: i64,
    keep: &HashSet<u64>,
) -> (r: usize)
    ensures
        final(store).saved() == old(store).saved(),
        final(store)@ == without(old(store)@, not_kept_in(project_id, keep@)),
        r == keys_where(rows_of(old(store)@), not_kept_in::<T>(project_id, keep@)).len(),
{
    let gone = |k: u64, v: &T| -> (b: bool)
        ensures
            b == (v.spec_project() == project_id && !keep@.contains(k)),
        { v.project() == project_id && !keep.contains(&k) };
    remove_where(store, gone, Ghost(not_kept_in(project_id, keep@))).len()
}

/// Removes the entries whose project is not in `projects`; how many those were.
fn prune_by_project<T: InProject>(store: &mut KvStore<T>, projects: &HashSet<i64>) -> (r: usize)
    ensures
        final(store).saved() == old(store).saved(),
        final(store)@ == without(old(store)@, outside_of(projects@)),
        r == keys_where(rows_of(old(store)@), outside_of::<T>(projects@)).len(),
{
    let gone = |_k: u64, v: &T| -> (b: bool)
        ensures
            b == !projects@.contains(v.spec_project()),
        { !projects.contains(&v.project()) };
    remove_where(store, gone, Ghost(outside_of(projects@))).len()
}

impl SyncGuard {
    /// Gives the lock back.
    pub fn end(self, cache: &mut SearchCache)
        ensures
            !final(cache).syncing(),
            final(cache)@ == old(cache)@,
            final(cache).saved() == old(cache).saved(),
    {
        cache.locked = false;
    }

    pub fn set_stamps(&self, cache: &mut SearchCache, stamps: &SyncStamps)
        ensures
            final(cache)@ == (Corpus { stamps: *stamps, ..old(cache)@ }),
            final(cache).syncing() == old(cache).syncing(),
            final(cache).saved() == old(cache).saved(),
    {
        cache.meta.put(0, *stamps);
    }

    /// Inserts or overwrites each entry under its id.
    pub fn upsert_issues(&self, cache: &mut SearchCache, items: Vec<SearchIssue>)
        ensures
            final(cache)@ == (Corpus {
                issues: upserted(old(cache)@.issues, items@),
                ..old(cache)@
            }),
            final(cache).syncing() == old(cache).syncing(),
            final(cache).saved() == old(cache).saved(),
    {
        upsert(&mut cache.issues, items);
    }

    /// Inserts or overwrites each entry under its id.
    pub fn upsert_mrs(&self, cache: &mut SearchCache, items: Vec<SearchMr>)
        ensures
            final(cache)@ == (Corpus {
                mrs: upserted(old(cache)@.mrs, items@),
                ..old(cache)@
            }),
            final(cache).syncing() == old(cache).syncing(),
            final(cache).saved() == old(cache).saved(),
    {
        upsert(&mut cache.mrs, items);
    }

    /// Inserts or overwrites each entry under its id.
    pub fn upsert_projects(&self, cache: &mut SearchCache, items: Vec<SearchProject>)
        ensures
            final(cache)@ == (Corpus {
                projects: upserted(old(cache)@.projects, items@),
                ..old(cache)@
            }),
            final(cache).syncing() == old(cache).syncing(),
            final(cache).saved() == old(cache).saved(),
    {
        upsert(&mut cache.projects, items);
    }

    /// Inserts or overwrites each entry under its id.
    pub fn upsert_groups(&self, cache: &mut SearchCache, items: Vec<SearchGroup>)
        ensures
            final(cache)@ == (Corpus {
                groups: upserted(old(cache)@.groups, items@),
                ..old(cache)@
            }),
            final(cache).syncing() == old(cache).syncing(),
            final(cache).saved() == old(cache).saved(),
    {
        upsert(&mut cache.groups, items);
    }

    /// Removes every entry whose id is not in `keep`; how many those were.
    pub fn retain_issues(&self, cache: &mut SearchCache, keep: &HashSet<u64>) -> (r: usize)
        ensures
            final(cache)@ == (Corpus {
                issues: without(old(cache)@.issues, not_kept(keep@)),
                ..old(cache)@
            }),
            r == keys_where(rows_of(old(cache)@.issues), not_kept::<SearchIssue>(keep@)).len(),
            final(cache).syncing() == old(cache).syncing(),
            final(cache).saved() == old(cache).saved(),
    {
        retain(&mut cache.issues, keep)
    }

    /// Removes every entry whose id is not in `keep`; how many those were.
    pub fn retain_mrs(&self, cache: &mut SearchCache, keep: &HashSet<u64>) -> (r: usize)
        ensures
            final(cache)@ == (Corpus {
                mrs: without(old(cache)@.mrs, not_kept(keep@)),
                ..old(cache)@
            }),
            r == keys_where(rows_of(old(cache)@.mrs), not_kept::<SearchMr>(keep@)).len(),
            final(cache).syncing() == old(cache).syncing(),
            final(cache).saved() == old(cache).saved(),
    {
        retain(&mut cache.mrs, keep)
    }

    /// Removes every entry whose id is not in `keep`; how many those were.
    pub fn retain_projects(&self, cache: &mut SearchCache, keep: &HashSet<u64>) -> (r: usize)
        ensures
            final(cache)@ == (Corpus {
                projects: without(old(cache)@.projects, not_kept(keep@)),
                ..old(cache)@
            }),
            r == keys_where(rows_of(old(cache)@.projects), not_kept::<SearchProject>(keep@)).len(),
            final(cache).syncing() == old(cache).syncing(),
            final(cache).saved() == old(cache).saved(),
    {
        retain(&mut cache.projects, keep)
    }

    /// Removes every entry whose id is not in `keep`; how many those were.
    pub fn retain_groups(&self, cache: &mut SearchCache, keep: &HashSet<u64>) -> (r: usize)
        ensures
            final(cache)@ == (Corpus {
                groups: without(old(cache)@.groups, not_kept(keep@)),
                ..old(cache)@
            }),
            r == keys_where(rows_of(old(cache)@.groups), not_kept::<SearchGroup>(keep@)).len(),
            final(cache).syncing() == old(cache).syncing(),
            final(cache).saved() == old(cache).saved(),
    {
        retain(&mut cache.groups, keep)
    }

    /// Removes the issues of a project whose id is not in `keep`; how many those
    /// were. Entries of other projects are untouched.
    pub fn retain_issues_in_project(
        &self,
        cache: &mut SearchCache,
        project_id: i64,
        keep: &HashSet<u64>,
    ) -> (r: usize)
        ensures
            final(cache)@ == (Corpus {
                issues: without(old(cache)@.issues, not_kept_in(project_id, keep@)),
                ..old(cache)@
            }),
            r == keys_where(
                rows_of(old(cache)@.issues),
                not_kept_in::<SearchIssue>(project_id, keep@),
            ).len(),
            final(cache).syncing() == old(cache).syncing(),
            final(cache).saved() == old(cache).saved(),
    {
        retain_in_project(&mut cache.issues, project_id, keep)
    }

    /// Removes the merge requests of a project whose id is not in `keep`; how many those
    /// were. Entries of other projects are untouched.
    pub fn retain_mrs_in_project(
        &self,
        cache: &mut SearchCache,
        project_id: i64,
        keep: &HashSet<u64>,
    ) -> (r: usize)
        ensures
            final(cache)@ == (Corpus {
                mrs: without(old(cache)@.mrs, not_kept_in(project_id, keep@)),
                ..old(cache)@
            }),
            r == keys_where(
                rows_of(old(cache)@.mrs),
                not_kept_in::<SearchMr>(project_id, keep@),
            ).len(),
            final(cache).syncing() == old(cache).syncing(),
            final(cache).saved() == old(cache).saved(),
    {
        retain_in_project(&mut cache.mrs, project_id, keep)
    }

    /// Records evidence of relevance at `now` for each of `project_ids`. What is
    /// recorded already is kept where it is more recent.
    pub fn note_tracked(&self, cache: &mut SearchCache, project_ids: &Vec<i64>, now: u64)
        ensures
            final(cache)@ == (Corpus {
                tracked_set: noted(old(cache)@.tracked_set, project_ids@, now),
                ..old(cache)@
            }),
            final(cache).syncing() == old(cache).syncing(),
            final(cache).saved() == old(cache).saved(),
    {
        let ghost m0 = cache@.tracked_set;
        let ghost ids = project_ids@;
        let mut i: usize = 0;
        proof {
            assert(ids.take(0) =~= Seq::<i64>::empty());
        }
        while i < project_ids.len()
            invariant
                i <= project_ids@.len(),
                ids == project_ids@,
                m0 == old(cache)@.tracked_set,
                cache@ == (Corpus {
                    tracked_set: noted(m0, ids.take(i as int), now),
                    ..old(cache)@
                }),
                cache.locked == old(cache).locked,
                cache.saved() == old(cache).saved(),
            decreases project_ids@.len() - i,
        {
            let key: u64 = key_of(project_ids[i]);
            let last: u64 = match cache.tracked_set.get(key) {
                Some(t) => t.last_evidence_secs,
                None => 0,
            };
            proof {
                assert(ids.take(i + 1).drop_last() =~= ids.take(i as int));
            }
            if now > last {
                cache.tracked_set.put(key, TrackedProject { last_evidence_secs: now });
            }
            i += 1;
        }
        proof {
            assert(ids.take(ids.len() as int) =~= ids);
        }
    }

    /// Drops the tracked projects whose last evidence predates `cutoff_secs`;
    /// their ids, in the order of the keys.
    pub fn evict_tracked(&self, cache: &mut SearchCache, cutoff_secs: u64) -> (r: Vec<i64>)
        ensures
            final(cache)@ == (Corpus {
                tracked_set: without(old(cache)@.tracked_set, stale_before(cutoff_secs)),
                ..old(cache)@
            }),
            r@ == keys_where(rows_of(old(cache)@.tracked_set), stale_before(cutoff_secs)).map_values(
                |k: u64| key_id(k),
            ),
            final(cache).syncing() == old(cache).syncing(),
            final(cache).saved() == old(cache).saved(),
    {
        let gone = |_k: u64, t: &TrackedProject| -> (b: bool)
            ensures
                b == (t.last_evidence_secs < cutoff_secs),
            { t.last_evidence_secs < cutoff_secs };
        let keys = remove_where(&mut cache.tracked_set, gone, Ghost(stale_before(cutoff_secs)));
        let ghost f = |k: u64| key_id(k);
        let mut evicted: Vec<i64> = Vec::new();
        let mut i: usize = 0;
        while i < keys.len()
            invariant
                i <= keys@.len(),
                f == |k: u64| key_id(k),
                evicted@ == keys@.take(i as int).map_values(f),
            decreases keys@.len() - i,
        {
            evicted.push(keys[i] as i64);
            i += 1;
            proof {
                assert(evicted@ =~= keys@.take(i as int).map_values(f));
            }
        }
        proof {
            assert(keys@.take(keys@.len() as int) =~= keys@);
        }
        evicted
    }

    /// Drops every issue and merge request whose project is not in `projects`;
    /// how many of each those were.
    pub fn prune_untracked(&self, cache: &mut SearchCache, projects: &HashSet<i64>) -> (r: (
        usize,
        usize,
    ))
        ensures
            final(cache)@ == (Corpus {
                issues: without(old(cache)@.issues, outside_of(projects@)),
                mrs: without(old(cache)@.mrs, outside_of(projects@)),
                ..old(cache)@
            }),
            r.0 == keys_where(
                rows_of(old(cache)@.issues),
                outside_of::<SearchIssue>(projects@),
            ).len(),
            r.1 == keys_where(rows_of(old(cache)@.mrs), outside_of::<SearchMr>(projects@)).len(),
            final(cache).syncing() == old(cache).syncing(),
            final(cache).saved() == old(cache).saved(),
    {
        let issues: usize = prune_by_project(&mut cache.issues, projects);
        let mrs: usize = prune_by_project(&mut cache.mrs, projects);
        (issues, mrs)
    }

    /// Stores what `f` makes of a copy of the cached merge request `iid` of a project,
    /// under the id that it has then; whether there is one.
    pub fn update_mr<F: FnOnce(SearchMr) -> SearchMr>(
        &self,
        cache: &mut SearchCache,
        project_id: i64,
        iid: i64,
        f: F,
    ) -> (r: bool)
        requires
            forall|m: SearchMr| #[trigger] f.requires((m,)),
        ensures
            final(cache).syncing() == old(cache).syncing(),
            final(cache).saved() == old(cache).saved(),
            match first_where(rows_of(old(cache)@.mrs), mr_at(project_id, iid)) {
                Some((k, m)) => r && exists|c: SearchMr, n: SearchMr| #[trigger]
                    f.ensures((c,), n) && same_mr(c, m) && final(cache)@ == (Corpus {
                        mrs: old(cache)@.mrs.insert(id_key(n.id), n),
                        ..old(cache)@
                    }),
                None => !r && final(cache)@ == old(cache)@,
            },
    {
        let wanted = |_k: u64, m: &SearchMr| -> (b: bool)
            ensures
                b == (m.project_id == project_id && m.iid == iid),
            { m.project_id == project_id && m.iid == iid };
        let copy: SearchMr = match find(&cache.mrs, wanted, Ghost(mr_at(project_id, iid))) {
            Some((_, m)) => m.clone(),
            None => {
                return false;
            },
        };
        let n = f(copy);
        cache.mrs.put(key_of(n.id), n);
        true
    }

    /// Drops every entry of every kind, the tracked projects and the stamps, so
    /// that the next sync is a full one.
    pub fn clear(&self, cache: &mut SearchCache)
        ensures
            final(cache)@ == empty_corpus(),
            final(cache).syncing() == old(cache).syncing(),
            final(cache).saved() == old(cache).saved(),
    {
        cache.issues.clear();
        cache.mrs.clear();
        cache.projects.clear();
        cache.groups.clear();
        cache.tracked_set.clear();
        cache.meta.clear();
    }
}

/// Accepts every entry.
pub open spec fn everything<V>() -> spec_fn(u64, V) -> bool {
    |k: u64, v: V| true
}

/// Accepts the merge request `iid` of a project.
pub open spec fn mr_at(project_id: i64, iid: i64) -> spec_fn(u64, SearchMr) -> bool {
    |k: u64, m: SearchMr| m.project_id == project_id && m.iid == iid
}

// ── matching ─────────────────────────────────────────────────────────────────

/// The number that a reference query such as `#123` refers to: after trimming,
/// a `#` and then nothing but digits, as far as the number is in range.
pub open spec fn iid_query(query: Seq<char>) -> Option<i64> {
    let t = trimmed(query, Fringe::Space);
    if t.len() > 1 && t[0] == '#' && all_digits(t.skip(1)) && digits_value(t.skip(1)) <= i64::MAX {
        Some(digits_value(t.skip(1)) as i64)
    } else {
        None
    }
}

/// Parses a reference query: `"#123"` refers to 123; anything else is none.
pub fn parse_iid_query(query: &str) -> (r: Option<i64>)
    ensures
        r == iid_query(query@),
{
    let t = trim(query, Fringe::Space);
    let v = chars_of(t.as_str());
    if v.len() == 0 || v[0] != '#' {
        return None;
    }
    proof {
        assert(v@.subrange(1, v@.len() as int) =~= v@.skip(1));
    }
    match read_digits(&v, 1, 9223372036854775807u64) {
        Some(n) => Some(n as i64),
        None => None,
    }
}

/// Case-insensitive substring match. The needle is lowercase already.
pub fn text_matches(needle_lower: &str, hay: &str) -> (r: bool)
    ensures
        r == matches_text(needle_lower@, hay@),
        all_ascii(hay@) ==> r == has_substring(ascii_lowered(hay@), needle_lower@),
{
    let low = to_lowercase(hay);
    contains(low.as_str(), needle_lower)
}

/// Whether the lowercased `hay` contains `needle_lower`.
pub open spec fn matches_text(needle_lower: Seq<char>, hay: Seq<char>) -> bool {
    has_substring(lowercased(hay), needle_lower)
}

// ── laws ─────────────────────────────────────────────────────────────────────

/// After an upsert every id holds the last item given for it, and ids that were
/// not given hold what they held.
pub proof fn law_upsert_dedupes_by_id<T: HasId>(m: Map<u64, T>, items: Seq<T>, k: u64)
    ensures
        (forall|i: int| 0 <= i < items.len() ==> id_key((#[trigger] items[i]).spec_id()) != k)
            ==> agree_at(upserted(m, items), m, k),
        forall|i: int|
            0 <= i < items.len() && id_key((#[trigger] items[i]).spec_id()) == k && (forall|j: int|
                i < j < items.len() ==> id_key((#[trigger] items[j]).spec_id()) != k)
                ==> upserted(m, items).contains_key(k) && upserted(m, items)[k] == items[i],
    decreases items.len(),
{
    if items.len() > 0 {
        let init = items.drop_last();
        law_upsert_dedupes_by_id(m, init, k);
        if id_key(items.last().spec_id()) != k {
            assert(agree_at(upserted(m, items), upserted(m, init), k));
            assert forall|i: int|
                0 <= i < items.len() && id_key((#[trigger] items[i]).spec_id()) == k && (forall|
                    j: int,
                |
                    i < j < items.len() ==> id_key((#[trigger] items[j]).spec_id())
                        != k) implies upserted(m, items).contains_key(k) && upserted(m, items)[k]
                == items[i] by {
                assert(init[i] == items[i]);
                assert forall|j: int| i < j < init.len() implies id_key(
                    (#[trigger] init[j]).spec_id(),
                ) != k by {
                    assert(items[j] == init[j]);
                }
            }
            if forall|i: int|
                0 <= i < items.len() ==> id_key((#[trigger] items[i]).spec_id()) != k {
                assert forall|i: int| 0 <= i < init.len() implies id_key(
                    (#[trigger] init[i]).spec_id(),
                ) != k by {
                    assert(items[i] == init[i]);
                }
            }
        } else {
            assert(id_key(items[items.len() - 1].spec_id()) == k);
        }
    }
}

/// Noting evidence never ages a project, never forgets one, and leaves every
/// noted project with evidence at least as recent as `now`.
pub proof fn law_noting_never_ages(
    m: Map<u64, TrackedProject>,
    ids: Seq<i64>,
    now: u64,
    k: u64,
)
    ensures
        m.contains_key(k) ==> noted(m, ids, now).contains_key(k)
            && noted(m, ids, now)[k].last_evidence_secs >= m[k].last_evidence_secs,
        now > 0 && (exists|i: int| 0 <= i < ids.len() && id_key(#[trigger] ids[i]) == k)
            ==> noted(m, ids, now).contains_key(k) && noted(m, ids, now)[k].last_evidence_secs
            >= now,
        noted(m, ids, now).contains_key(k) && !m.contains_key(k) ==> exists|i: int|
            0 <= i < ids.len() && id_key(#[trigger] ids[i]) == k,
    decreases ids.len(),
{
    if ids.len() > 0 {
        let init = ids.drop_last();
        law_noting_never_ages(m, init, now, k);
        if exists|i: int| 0 <= i < ids.len() && id_key(#[trigger] ids[i]) == k {
            let i = choose|i: int| 0 <= i < ids.len() && id_key(#[trigger] ids[i]) == k;
            if i < init.len() {
                assert(init[i] == ids[i]);
            }
        }
        if noted(m, ids, now).contains_key(k) && !m.contains_key(k) {
            if noted(m, init, now).contains_key(k) {
                let i = choose|i: int| 0 <= i < init.len() && id_key(#[trigger] init[i]) == k;
                assert(ids[i] == init[i]);
            } else {
                assert(id_key(ids[ids.len() - 1]) == k);
            }
        }
    }
}

/// A reference query of the decimal form of any number in range refers to that
/// number, whatever blanks stand around it.
pub proof fn law_iid_query_roundtrip(n: nat, left: Seq<char>, right: Seq<char>)
    requires
        n <= i64::MAX,
        forall|i: int| 0 <= i < left.len() ==> Fringe::Space.has(#[trigger] left[i]),
        forall|i: int| 0 <= i < right.len() ==> Fringe::Space.has(#[trigger] right[i]),
    ensures
        iid_query(left + (seq!['#'] + decimal(n)) + right) == Some(n as i64),
{
    law_decimal_reads_back(n);
    let d = decimal(n);
    let q = seq!['#'] + d;
    assert(is_digit(d[d.len() - 1]));
    assert(q.last() == d.last());
    assert(!Fringe::Space.has(q.last()));
    lemma_trim_padded(left, q, right, Fringe::Space);
    assert(q.skip(1) =~= d);
}

/// A text without a `#` is no reference query.
pub proof fn law_iid_query_needs_hash(q: Seq<char>)
    requires
        !q.contains('#'),
    ensures
        iid_query(q) is None,
{
    lemma_trimmed_within(q, Fringe::Space);
    let t = trimmed(q, Fringe::Space);
    if t.len() > 0 {
        let (a, b) = choose|a: int, b: int|
            0 <= a <= b <= q.len() && #[trigger] q.subrange(a, b) == t;
        assert(t[0] == q[a]);
        assert(q.contains(q[a]));
    }
}

/// A `#` and a tail in which anything but a digit occurs, and which does not end
/// in a blank, are no reference query.
pub proof fn law_iid_query_rejects_junk(tail: Seq<char>, i: int)
    requires
        0 <= i < tail.len(),
        !is_digit(tail[i]),
        !Fringe::Space.has(tail.last()),
    ensures
        iid_query(seq!['#'] + tail) is None,
{
    let q = seq!['#'] + tail;
    assert(q.last() == tail.last());
    assert(Seq::<char>::empty() + q + Seq::<char>::empty() =~= q);
    lemma_trim_padded(Seq::empty(), q, Seq::empty(), Fringe::Space);
    assert(q.skip(1) =~= tail);
}

/// Among ASCII texts a needle is found wherever it stands in the text, in
/// whatever case either is written.
pub proof fn law_match_ignores_case(
    prefix: Seq<char>,
    needle: Seq<char>,
    shown: Seq<char>,
    suffix: Seq<char>,
)
    requires
        ascii_lowered(needle) == ascii_lowered(shown),
    ensures
        has_substring(ascii_lowered(prefix + shown + suffix), ascii_lowered(needle)),
{
    let hay = ascii_lowered(prefix + shown + suffix);
    let n = ascii_lowered(needle);
    let at = prefix.len() as int;
    assert(shown.len() == n.len());
    assert(hay.subrange(at, at + n.len()) =~= n) by {
        assert forall|i: int| 0 <= i < n.len() implies hay[at + i] == n[i] by {
            assert(n[i] == ascii_lowered(shown)[i]);
        }
    }
    assert(occurs_at(hay, n, at));
}

/// An upsert leaves under each id one of the items that were given for it, or what
/// was there.
pub proof fn lemma_upserted_value<T: HasId>(m: Map<u64, T>, items: Seq<T>, k: u64)
    ensures
        m.contains_key(k) ==> upserted(m, items).contains_key(k),
        (exists|i: int| 0 <= i < items.len() && id_key((#[trigger] items[i]).spec_id()) == k)
            ==> upserted(m, items).contains_key(k) && exists|i: int|
            0 <= i < items.len() && id_key((#[trigger] items[i]).spec_id()) == k && upserted(
                m,
                items,
            )[k] == items[i],
        !(exists|i: int| 0 <= i < items.len() && id_key((#[trigger] items[i]).spec_id()) == k)
            ==> agree_at(upserted(m, items), m, k),
    decreases items.len(),
{
    if items.len() > 0 {
        let init = items.drop_last();
        lemma_upserted_value(m, init, k);
        assert(items[items.len() - 1] == items.last());
        if id_key(items.last().spec_id()) != k {
            if exists|i: int| 0 <= i < items.len() && id_key((#[trigger] items[i]).spec_id()) == k {
                let i = choose|i: int|
                    0 <= i < items.len() && id_key((#[trigger] items[i]).spec_id()) == k;
                assert(init[i] == items[i]);
                let n = choose|n: int|
                    0 <= n < init.len() && id_key((#[trigger] init[n]).spec_id()) == k && upserted(
                        m,
                        init,
                    )[k] == init[n];
                assert(items[n] == init[n]);
            }
            if exists|i: int| 0 <= i < init.len() && id_key((#[trigger] init[i]).spec_id()) == k {
                let i = choose|i: int|
                    0 <= i < init.len() && id_key((#[trigger] init[i]).spec_id()) == k;
                assert(items[i] == init[i]);
            }
        }
    }
}

/// A cleared cache holds nothing and counts as never synced.
pub proof fn law_cleared_cache_is_empty(k: u64)
    ensures
        !empty_corpus().issues.contains_key(k),
        !empty_corpus().mrs.contains_key(k),
        !empty_corpus().projects.contains_key(k),
        !empty_corpus().groups.contains_key(k),
        !empty_corpus().tracked_set.contains_key(k),
        empty_corpus().stamps.last_partial_sync_secs == 0,
        empty_corpus().stamps.last_full_sync_secs == 0,
        empty_corpus().stamps.synced_user_id == 0,
{
}

/// A copy has the same contents.
pub proof fn law_copies_are_the_same(a: SearchIssue, b: SearchIssue, m: SearchMr, n: SearchMr)
    ensures
        same_issue(a, b) ==> a.id == b.id && a.iid == b.iid && a.project_id == b.project_id
            && a.title@ == b.title@ && a.web_url@ == b.web_url@ && a.state@ == b.state@ && a.labels@
            == b.labels@ && a.parent@ == b.parent@ && a.total_time@ == b.total_time@
            && a.updated_at_secs == b.updated_at_secs,
        same_mr(m, n) ==> m.id == n.id && m.iid == n.iid && m.project_id == n.project_id
            && m.title@ == n.title@ && m.web_url@ == n.web_url@ && m.state@ == n.state@ && m.labels@
            == n.labels@ && m.assignees@ == n.assignees@ && m.updated_at_secs == n.updated_at_secs,
{
}

/// A text that is found in another one, whatever stands around it, once both are
/// in lower case, matches; nothing else does.
pub proof fn law_matching(needle: Seq<char>, hay: Seq<char>, left: Seq<char>, right: Seq<char>)
    ensures
        lowercased(hay) == left + needle + right ==> matches_text(needle, hay),
        matches_text(needle, hay) ==> exists|at: int|
            0 <= at && at + needle.len() <= lowercased(hay).len() && #[trigger] lowercased(
                hay,
            ).subrange(at, at + needle.len()) == needle,
{
    if lowercased(hay) == left + needle + right {
        let at = left.len() as int;
        assert(lowercased(hay).subrange(at, at + needle.len()) =~= needle);
        assert(occurs_at(lowercased(hay), needle, at));
    }
    if matches_text(needle, hay) {
        let at = choose|at: int| #[trigger] occurs_at(lowercased(hay), needle, at);
        assert(lowercased(hay).subrange(at, at + needle.len()) == needle);
    }
}

} // verus!
