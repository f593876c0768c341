//! Background sync of the search cache.
//!
//! An incremental sync (changes since the last one, nothing removed) runs at
//! most once per partial interval, a full one, which also removes what GitLab
//! no longer has, once per full interval. The stamps that decide this are saved,
//! so a restart costs GitLab nothing.
//!
//! A run alternates between fetches, which the caller makes, and steps that fold
//! what was fetched into the cache. It ends with [`SyncRun::finish`], which
//! stamps the cache only if every step went well.

use std::collections::HashSet;

use vstd::prelude::*;

use crate::cache::cached;
use crate::config::{SearchConfig, SearchPopulation};
use crate::db::{rows_of, values_where, without};
use crate::error::Error;
use crate::handlers::{marks_kept, noted_error, ConnState, Handlers};
use crate::history::{spent_since, StoredTimelog};
use crate::order::{sort, sorted};
use crate::search::{
    id_key, key_id, key_of, never_synced, not_kept, not_kept_in, noted, outside_of, stale_before,
    upserted, Corpus, HasId, SearchGroup, SearchIssue, SearchMr, SearchProject, SyncGuard,
    SyncStamps, TrackedProject, SEARCH_SCHEMA_VERSION,
};

verus! {

/// Seconds taken off the cursor of an incremental sync, so that what was updated
/// while the last one ran is fetched again rather than missed.
pub const UPDATED_AFTER_OVERLAP: u64 = 300;

// ── when a sync is due ───────────────────────────────────────────────────────

/// `a - b`, or zero.
pub open spec fn since(a: u64, b: u64) -> nat {
    if a >= b {
        (a - b) as nat
    } else {
        0
    }
}

/// The stamps that count: those of an older schema are as if never synced.
pub open spec fn effective_stamps(s: SyncStamps) -> SyncStamps {
    if s.schema_version < SEARCH_SCHEMA_VERSION {
        never_synced()
    } else {
        s
    }
}

/// Whether a full sync is due.
pub open spec fn full_due(s: SyncStamps, cfg: SearchConfig, now: u64) -> bool {
    let e = effective_stamps(s);
    e.last_full_sync_secs == 0 || since(now, e.last_full_sync_secs) >= cfg.full_interval_secs
}

/// Whether any sync is due.
pub open spec fn sync_due(s: SyncStamps, cfg: SearchConfig, now: u64) -> bool {
    full_due(s, cfg, now) || since(now, effective_stamps(s).last_partial_sync_secs)
        >= cfg.partial_interval_secs
}

/// What the configured population resolves to.
#[derive(Clone, Copy, PartialEq, Eq, Structural, Debug)]
pub enum Population {
    All,
    Member,
    TrackedProjects,
}

/// What the configured population resolves to.
pub open spec fn resolved(p: SearchPopulation) -> Population {
    match p {
        SearchPopulation::All => Population::All,
        SearchPopulation::Member => Population::Member,
        _ => Population::TrackedProjects,
    }
}

// ── a run ────────────────────────────────────────────────────────────────────

/// How a run ended.
#[derive(Clone, Copy, PartialEq, Eq, Structural, Debug)]
pub enum Outcome {
    Done,
    Failed,
    /// GitLab refused to list everything at once.
    GlobalRejected,
}

/// What a run waits for.
#[derive(Clone, Copy, PartialEq, Eq, Structural, Debug)]
pub enum Phase {
    Projects,
    Groups,
    AssignedMrs,
    Issues,
    MergeRequests,
    Finished(Outcome),
}

/// The next fetch of a run.
#[derive(Clone, Copy, PartialEq, Eq, Structural, Debug)]
pub enum Fetch {
    MemberProjects,
    MemberGroups,
    AssignedMergeRequests,
    /// The issues of one project, or of everything, updated since a time.
    Issues { project: Option<i64>, updated_after: Option<u64> },
    /// The merge requests of one project, or of everything, updated since a time.
    MergeRequests { project: Option<i64>, updated_after: Option<u64> },
}

/// An assigned merge request: what protects it from being removed again.
#[derive(Clone, Copy, PartialEq, Eq, Structural, Debug)]
pub struct MrRef {
    pub id: i64,
    pub project_id: i64,
}

/// What stays the same over a run.
#[derive(Clone, Copy, PartialEq, Eq, Structural, Debug)]
pub struct SyncPlan {
    /// The client that the fetches go through.
    pub client: u64,
    pub user_id: i64,
    pub population: Population,
    /// Where an incremental sync starts; `None` is a full one.
    pub cursor: Option<u64>,
    pub started: u64,
    /// The stamp of the last full sync.
    pub last_full: u64,
}

pub struct SyncRun {
    guard: SyncGuard,
    plan: SyncPlan,
    phase: Phase,
    assigned: Vec<MrRef>,
    targets: Vec<Option<i64>>,
    at: usize,
    issues: Vec<SearchIssue>,
    mrs: Vec<SearchMr>,
}

/// The state of a run.
pub ghost struct RunState {
    pub plan: SyncPlan,
    pub phase: Phase,
    pub assigned: Seq<MrRef>,
    /// What the issues and merge requests are fetched of, one by one.
    pub targets: Seq<Option<i64>>,
    /// How many of the targets are done in this phase.
    pub at: int,
    /// What an eager run has fetched so far.
    pub issues: Seq<SearchIssue>,
    pub mrs: Seq<SearchMr>,
}

impl View for SyncRun {
    type V = RunState;

    closed spec fn view(&self) -> RunState {
        RunState {
            plan: self.plan,
            phase: self.phase,
            assigned: self.assigned@,
            targets: self.targets@,
            at: self.at as int,
            issues: self.issues@,
            mrs: self.mrs@,
        }
    }
}

/// The plan of a sync that starts at `now`.
pub open spec fn plan_of(h: Handlers, client: u64, user_id: i64, now: u64) -> SyncPlan {
    let s = effective_stamps(h.search@.stamps);
    SyncPlan {
        client,
        user_id,
        population: resolved(h.config.search.population),
        cursor: if full_due(h.search@.stamps, h.config.search, now) {
            None
        } else {
            Some(since(s.last_partial_sync_secs, UPDATED_AFTER_OVERLAP) as u64)
        },
        started: now,
        last_full: s.last_full_sync_secs,
    }
}

/// The keys of the ids of `items`.
pub open spec fn keys_in<T: HasId>(items: Seq<T>) -> Set<u64> {
    items.map_values(|t: T| id_key(t.spec_id())).to_set()
}

/// The keys of the ids of assigned merge requests that satisfy `p`.
pub open spec fn assigned_keys(assigned: Seq<MrRef>, p: spec_fn(MrRef) -> bool) -> Set<u64> {
    assigned.filter(p).map_values(|m: MrRef| id_key(m.id)).to_set()
}

/// Accepts every assigned merge request.
pub open spec fn any_mr() -> spec_fn(MrRef) -> bool {
    |m: MrRef| true
}

/// Accepts the assigned merge requests of a project.
pub open spec fn mr_of(project_id: i64) -> spec_fn(MrRef) -> bool {
    |m: MrRef| m.project_id == project_id
}

fn keep_set<T: HasId>(items: &Vec<T>) -> (r: HashSet<u64>)
    ensures
        r@ == keys_in(items@),
{
    let mut r: HashSet<u64> = HashSet::new();
    let mut i: usize = 0;
    let ghost f = |t: T| id_key(t.spec_id());
    let ghost keys = items@.map_values(f);
    while i < items.len()
        invariant
            i <= items@.len(),
            f == |t: T| id_key(t.spec_id()),
            keys == items@.map_values(f),
            r@ == keys.take(i as int).to_set(),
        decreases items@.len() - i,
    {
        let k: u64 = key_of(items[i].id());
        r.insert(k);
        proof {
            assert(keys.take(i + 1) =~= keys.take(i as int).push(k));
            lemma_push_set(keys.take(i as int), k);
        }
        i += 1;
    }
    proof {
        assert(keys.take(keys.len() as int) =~= keys);
    }
    r
}

proof fn lemma_push_set(s: Seq<u64>, k: u64)
    ensures
        s.push(k).to_set() =~= s.to_set().insert(k),
{
    assert forall|x: u64| s.push(k).to_set().contains(x) <==> s.to_set().insert(k).contains(x) by {
        if s.contains(x) {
            let i = choose|i: int| 0 <= i < s.len() && s[i] == x;
            assert(s.push(k)[i] == x);
        }
        assert(s.push(k)[s.len() as int] == k);
        if s.push(k).contains(x) && x != k {
            let i = choose|i: int| 0 <= i < s.push(k).len() && s.push(k)[i] == x;
            assert(s[i] == x);
        }
    }
}

// ── steps ────────────────────────────────────────────────────────────────────

/// The corpus with exactly the fetched projects.
pub open spec fn projects_replaced(c: Corpus, items: Seq<SearchProject>) -> Corpus {
    Corpus { projects: without(upserted(c.projects, items), not_kept(keys_in(items))), ..c }
}

/// The corpus with exactly the fetched groups.
pub open spec fn groups_replaced(c: Corpus, items: Seq<SearchGroup>) -> Corpus {
    Corpus { groups: without(upserted(c.groups, items), not_kept(keys_in(items))), ..c }
}

/// The corpus after an eager fetch of issues: upserted, and in a full sync rid of
/// every issue that was not fetched.
pub open spec fn issues_settled(c: Corpus, items: Seq<SearchIssue>, full: bool) -> Corpus {
    let u = upserted(c.issues, items);
    Corpus {
        issues: if full {
            without(u, not_kept(keys_in(items)))
        } else {
            u
        },
        ..c
    }
}

/// The corpus after an eager fetch of merge requests: upserted, and in a full
/// sync rid of every one that was neither fetched nor is assigned.
pub open spec fn mrs_settled(
    c: Corpus,
    items: Seq<SearchMr>,
    assigned: Seq<MrRef>,
    full: bool,
) -> Corpus {
    let u = upserted(c.mrs, items);
    Corpus {
        mrs: if full {
            without(u, not_kept(keys_in(items).union(assigned_keys(assigned, any_mr()))))
        } else {
            u
        },
        ..c
    }
}

/// The corpus after the issues of one tracked project were fetched.
pub open spec fn project_issues_settled(
    c: Corpus,
    project_id: i64,
    items: Seq<SearchIssue>,
    full: bool,
) -> Corpus {
    let u = upserted(c.issues, items);
    Corpus {
        issues: if full {
            without(u, not_kept_in(project_id, keys_in(items)))
        } else {
            u
        },
        ..c
    }
}

/// The corpus after the merge requests of one tracked project were fetched.
pub open spec fn project_mrs_settled(
    c: Corpus,
    project_id: i64,
    items: Seq<SearchMr>,
    assigned: Seq<MrRef>,
    full: bool,
) -> Corpus {
    let u = upserted(c.mrs, items);
    Corpus {
        mrs: if full {
            without(
                u,
                not_kept_in(
                    project_id,
                    keys_in(items).union(assigned_keys(assigned, mr_of(project_id))),
                ),
            )
        } else {
            u
        },
        ..c
    }
}

/// On to the merge requests, or, with no target left, to the end of an eager run.
pub open spec fn enter_mrs(r: RunState, c: Corpus) -> (RunState, Corpus) {
    if r.at < r.targets.len() {
        (RunState { phase: Phase::MergeRequests, ..r }, c)
    } else {
        (
            RunState { phase: Phase::Finished(Outcome::Done), mrs: Seq::empty(), ..r },
            mrs_settled(c, r.mrs, r.assigned, r.plan.cursor is None),
        )
    }
}

/// On to the issues, or, with no target left, past them: a run over tracked
/// projects is over then, an eager one settles its issues and goes on.
pub open spec fn enter_issues(r: RunState, c: Corpus) -> (RunState, Corpus) {
    if r.at < r.targets.len() {
        (RunState { phase: Phase::Issues, ..r }, c)
    } else if r.plan.population == Population::TrackedProjects {
        (RunState { phase: Phase::Finished(Outcome::Done), ..r }, c)
    } else {
        enter_mrs(
            RunState { at: 0, issues: Seq::empty(), ..r },
            issues_settled(c, r.issues, r.plan.cursor is None),
        )
    }
}

/// The projects that have evidence of relevance: those of assigned merge
/// requests, of assigned issues, and of the history since a time.
pub open spec fn evidence(h: Handlers, assigned: Seq<MrRef>, cutoff: u64) -> Seq<i64> {
    assigned.map_values(|m: MrRef| m.project_id) + cached(h.cache@).map_values(
        |i: crate::api::Issue| i.project_id,
    ) + sorted(values_where(rows_of(h.history@), spent_since(cutoff))).map_values(
        |t: &StoredTimelog| t.project_id,
    )
}

/// The tracked projects after the evidence was noted and, in a full sync, those
/// without recent evidence were dropped.
pub open spec fn tracked_after(
    m: Map<u64, TrackedProject>,
    ids: Seq<i64>,
    cutoff: u64,
    now: u64,
    full: bool,
) -> Map<u64, TrackedProject> {
    let n = noted(m, ids, now);
    if full {
        without(n, stale_before(cutoff))
    } else {
        n
    }
}

/// The ids of tracked projects, ascending.
pub open spec fn tracked_ids(m: Map<u64, TrackedProject>) -> Seq<i64> {
    sorted(rows_of(m).map_values(|row: (u64, TrackedProject)| key_id(row.0)))
}

/// The corpus at the start of a sync over tracked projects: evidence noted, and
/// in a full sync stale projects dropped, with everything of projects that are
/// not tracked.
pub open spec fn tracked_prepared(
    h: Handlers,
    c: Corpus,
    assigned: Seq<MrRef>,
    now: u64,
    full: bool,
) -> Corpus {
    let cutoff = since(now, (h.config.search.tracked_retention_hours * 3600) as u64) as u64;
    let t = tracked_after(c.tracked_set, evidence(h, assigned, cutoff), cutoff, now, full);
    let ids = tracked_ids(t).to_set();
    Corpus {
        tracked_set: t,
        issues: if full {
            without(c.issues, outside_of(ids))
        } else {
            c.issues
        },
        mrs: if full {
            without(c.mrs, outside_of(ids))
        } else {
            c.mrs
        },
        ..c
    }
}

/// Whether only the search cache of `before` changed, to hold `c`.
pub open spec fn only_corpus(before: Handlers, after: Handlers, c: Corpus) -> bool {
    &&& marks_kept(before, after)
    &&& after == (Handlers { search: after.search, ..before })
    &&& after.search@ == c
    &&& after.search.syncing() == before.search.syncing()
}

/// The ids of the projects of a list.
pub open spec fn targets_of(items: Seq<SearchProject>) -> Seq<Option<i64>> {
    items.map_values(|p: SearchProject| Some(p.id))
}

impl Handlers {
    /// Starts a sync of the search cache, unless one is running, none is due, or
    /// there is no session.
    pub fn sync_search_cache(&mut self, now: u64) -> (r: Option<SyncRun>)
        ensures
            match (r, old(self).session) {
                (Some(run), ConnState::Connected(s)) => {
                    &&& !old(self).search.syncing()
                    &&& sync_due(old(self).search@.stamps, old(self).config.search, now)
                    &&& run@ == (RunState {
                        plan: plan_of(*old(self), s.client, s.user_id, now),
                        phase: Phase::Projects,
                        assigned: Seq::empty(),
                        targets: Seq::empty(),
                        at: 0,
                        issues: Seq::empty(),
                        mrs: Seq::empty(),
                    })
                    &&& marks_kept(*old(self), *final(self))
                    &&& *final(self) == (Handlers { search: final(self).search, ..*old(self) })
                    &&& final(self).search@ == old(self).search@
                    &&& final(self).search.syncing()
                },
                (Some(_), ConnState::Dormant(_)) => false,
                (None, s) => {
                    &&& *final(self) == *old(self)
                    &&& old(self).search.syncing() || s is Dormant || !sync_due(
                        old(self).search@.stamps,
                        old(self).config.search,
                        now,
                    )
                },
            },
    {
        if self.search.is_syncing() {
            return None;
        }
        let read = self.search.stamps();
        let stamps = if read.schema_version < SEARCH_SCHEMA_VERSION {
            SyncStamps::default()
        } else {
            read
        };
        let partial_secs: u64 = self.config.search.partial_interval().as_secs();
        let full_secs: u64 = self.config.search.full_interval().as_secs();
        let full: bool = stamps.last_full_sync_secs == 0 || now.saturating_sub(
            stamps.last_full_sync_secs,
        ) >= full_secs;
        let partial: bool = full || now.saturating_sub(stamps.last_partial_sync_secs)
            >= partial_secs;
        if !partial {
            return None;
        }
        let (client, user_id): (u64, i64) = match &self.session {
            ConnState::Connected(s) => (s.client, s.user_id),
            ConnState::Dormant(_) => {
                return None;
            },
        };
        let population = match self.config.search.population {
            SearchPopulation::All => Population::All,
            SearchPopulation::Member => Population::Member,
            SearchPopulation::Auto => Population::TrackedProjects,
            SearchPopulation::TrackedProjects => Population::TrackedProjects,
        };
        let cursor: Option<u64> = if full {
            None
        } else {
            Some(stamps.last_partial_sync_secs.saturating_sub(UPDATED_AFTER_OVERLAP))
        };
        let guard = match self.search.try_begin_sync() {
            Some(g) => g,
            None => {
                return None;
            },
        };
        let plan = SyncPlan {
            client,
            user_id,
            population,
            cursor,
            started: now,
            last_full: stamps.last_full_sync_secs,
        };
        Some(
            SyncRun {
                guard,
                plan,
                phase: Phase::Projects,
                assigned: Vec::new(),
                targets: Vec::new(),
                at: 0,
                issues: Vec::new(),
                mrs: Vec::new(),
            },
        )
    }
}

/// The fetch that a run waits for.
pub open spec fn next_fetch_of(r: RunState) -> Option<Fetch> {
    match r.phase {
        Phase::Projects => Some(Fetch::MemberProjects),
        Phase::Groups => Some(Fetch::MemberGroups),
        Phase::AssignedMrs => Some(Fetch::AssignedMergeRequests),
        Phase::Issues => Some(
            Fetch::Issues { project: r.targets[r.at], updated_after: r.plan.cursor },
        ),
        Phase::MergeRequests => Some(
            Fetch::MergeRequests { project: r.targets[r.at], updated_after: r.plan.cursor },
        ),
        Phase::Finished(_) => None,
    }
}

/// Whether a run waits for a fetch of one of its targets, if for one at all.
pub open spec fn on_target(r: RunState) -> bool {
    &&& 0 <= r.at
    &&& r.phase is Issues || r.phase is MergeRequests ==> r.at < r.targets.len()
    &&& r.plan.population == Population::TrackedProjects ==> forall|i: int|
        0 <= i < r.targets.len() ==> (#[trigger] r.targets[i]) is Some
}

impl SyncRun {
    /// The fetch that the run waits for, or `None` once it is over.
    pub fn next_fetch(&self) -> (r: Option<Fetch>)
        requires
            on_target(self@),
        ensures
            r == next_fetch_of(self@),
    {
        match self.phase {
            Phase::Projects => Some(Fetch::MemberProjects),
            Phase::Groups => Some(Fetch::MemberGroups),
            Phase::AssignedMrs => Some(Fetch::AssignedMergeRequests),
            Phase::Issues => Some(
                Fetch::Issues { project: self.targets[self.at], updated_after: self.plan.cursor },
            ),
            Phase::MergeRequests => Some(
                Fetch::MergeRequests {
                    project: self.targets[self.at],
                    updated_after: self.plan.cursor,
                },
            ),
            Phase::Finished(_) => None,
        }
    }

    /// The client that the fetches go through.
    pub fn client(&self) -> (r: u64)
        ensures
            r == self@.plan.client,
    {
        self.plan.client
    }

    /// How the run ended, once it is over.
    pub fn outcome(&self) -> (r: Option<Outcome>)
        ensures
            r == match self@.phase {
                Phase::Finished(o) => Some(o),
                _ => None,
            },
    {
        match self.phase {
            Phase::Finished(o) => Some(o),
            _ => None,
        }
    }

    /// Ends the run over a failed fetch: a network failure ends the session too.
    fn fail_search_fetch(&mut self, h: &mut Handlers, e: &Error, outcome: Outcome)
        ensures
            final(self)@ == (RunState { phase: Phase::Finished(outcome), ..old(self)@ }),
            noted_error(*old(h), *final(h), old(self)@.plan.client, *e),
    {
        h.note_gitlab_error(self.plan.client, e);
        self.phase = Phase::Finished(outcome);
    }

    /// Takes the projects that the user is a member of. They replace the cached
    /// ones.
    pub fn projects_fetched(
        &mut self,
        h: &mut Handlers,
        fetched: Result<Vec<SearchProject>, Error>,
    )
        requires
            old(self)@.phase is Projects,
            on_target(old(self)@),
        ensures
            on_target(final(self)@),
            match fetched {
                Ok(items) => {
                    &&& final(self)@ == (RunState {
                        phase: Phase::Groups,
                        targets: targets_of(items@),
                        ..old(self)@
                    })
                    &&& only_corpus(*old(h), *final(h), projects_replaced(old(h).search@, items@))
                },
                Err(e) => {
                    &&& final(self)@ == (RunState {
                        phase: Phase::Finished(Outcome::Failed),
                        ..old(self)@
                    })
                    &&& noted_error(*old(h), *final(h), old(self)@.plan.client, e)
                },
            },
    {
        match fetched {
            Ok(items) => {
                let keep = keep_set(&items);
                let mut targets: Vec<Option<i64>> = Vec::new();
                let mut i: usize = 0;
                while i < items.len()
                    invariant
                        i <= items@.len(),
                        targets@ == targets_of(items@.take(i as int)),
                    decreases items@.len() - i,
                {
                    targets.push(Some(items[i].id));
                    i += 1;
                    proof {
                        assert(targets@ =~= targets_of(items@.take(i as int)));
                    }
                }
                proof {
                    assert(items@.take(items@.len() as int) =~= items@);
                }
                self.targets = targets;
                self.guard.upsert_projects(&mut h.search, items);
                let _ = self.guard.retain_projects(&mut h.search, &keep);
                self.phase = Phase::Groups;
            },
            Err(e) => {
                self.fail_search_fetch(h, &e, Outcome::Failed);
            },
        }
    }

    /// Takes the groups that the user is a member of. They replace the cached
    /// ones.
    pub fn groups_fetched(&mut self, h: &mut Handlers, fetched: Result<Vec<SearchGroup>, Error>)
        requires
            old(self)@.phase is Groups,
            on_target(old(self)@),
        ensures
            on_target(final(self)@),
            match fetched {
                Ok(items) => {
                    &&& final(self)@ == (RunState { phase: Phase::AssignedMrs, ..old(self)@ })
                    &&& only_corpus(*old(h), *final(h), groups_replaced(old(h).search@, items@))
                },
                Err(e) => {
                    &&& final(self)@ == (RunState {
                        phase: Phase::Finished(Outcome::Failed),
                        ..old(self)@
                    })
                    &&& noted_error(*old(h), *final(h), old(self)@.plan.client, e)
                },
            },
    {
        match fetched {
            Ok(items) => {
                let keep = keep_set(&items);
                self.guard.upsert_groups(&mut h.search, items);
                let _ = self.guard.retain_groups(&mut h.search, &keep);
                self.phase = Phase::AssignedMrs;
            },
            Err(e) => {
                self.fail_search_fetch(h, &e, Outcome::Failed);
            },
        }
    }

    /// Takes the merge requests that are assigned to the user, and settles what
    /// the rest of the run fetches: everything at once, each project that the
    /// user is a member of, or each tracked project.
    pub fn assigned_fetched(
        &mut self,
        h: &mut Handlers,
        fetched: Result<Vec<SearchMr>, Error>,
        now: u64,
    )
        requires
            old(self)@.phase is AssignedMrs,
            old(self)@.at == 0,
            on_target(old(self)@),
            old(h).config.spans_fit(),
        ensures
            on_target(final(self)@),
            match fetched {
                Ok(items) => {
                    let (r, c) = after_assigned(*old(h), old(self)@, items@, now);
                    &&& final(self)@ == r
                    &&& only_corpus(*old(h), *final(h), c)
                },
                Err(e) => {
                    &&& final(self)@ == (RunState {
                        phase: Phase::Finished(Outcome::Failed),
                        ..old(self)@
                    })
                    &&& noted_error(*old(h), *final(h), old(self)@.plan.client, e)
                },
            },
    {
        match fetched {
            Ok(items) => {
                let assigned = refs(&items);
                self.guard.upsert_mrs(&mut h.search, items);
                match self.plan.population {
                    Population::All => {
                        let mut t: Vec<Option<i64>> = Vec::new();
                        t.push(None);
                        self.targets = t;
                        proof {
                            assert(self.targets@ =~= seq![None::<i64>]);
                        }
                    },
                    Population::Member => {},
                    Population::TrackedProjects => {
                        let full = self.plan.cursor.is_none();
                        let ids = prepare_tracked(&self.guard, h, &assigned, now, full);
                        self.targets = some_of(&ids);
                    },
                }
                self.assigned = assigned;
                self.enter_issues(h);
            },
            Err(e) => {
                self.fail_search_fetch(h, &e, Outcome::Failed);
            },
        }
    }

    fn enter_mrs(&mut self, h: &mut Handlers)
        requires
            0 <= old(self)@.at,
            old(self)@.plan.population == Population::TrackedProjects ==> forall|i: int|
                0 <= i < old(self)@.targets.len() ==> (#[trigger] old(self)@.targets[i]) is Some,
        ensures
            final(self)@ == enter_mrs(old(self)@, old(h).search@).0,
            only_corpus(*old(h), *final(h), enter_mrs(old(self)@, old(h).search@).1),
            on_target(final(self)@),
    {
        if self.at < self.targets.len() {
            self.phase = Phase::MergeRequests;
        } else {
            let full = self.plan.cursor.is_none();
            let mut items: Vec<SearchMr> = Vec::new();
            std::mem::swap(&mut items, &mut self.mrs);
            let mut keep = keep_set(&items);
            add_assigned(&mut keep, &self.assigned, None);
            self.guard.upsert_mrs(&mut h.search, items);
            if full {
                let _ = self.guard.retain_mrs(&mut h.search, &keep);
            }
            self.phase = Phase::Finished(Outcome::Done);
        }
    }

    fn enter_issues(&mut self, h: &mut Handlers)
        requires
            0 <= old(self)@.at,
            old(self)@.plan.population == Population::TrackedProjects ==> forall|i: int|
                0 <= i < old(self)@.targets.len() ==> (#[trigger] old(self)@.targets[i]) is Some,
        ensures
            final(self)@ == enter_issues(old(self)@, old(h).search@).0,
            only_corpus(*old(h), *final(h), enter_issues(old(self)@, old(h).search@).1),
            on_target(final(self)@),
    {
        if self.at < self.targets.len() {
            self.phase = Phase::Issues;
        } else if self.plan.population == Population::TrackedProjects {
            self.phase = Phase::Finished(Outcome::Done);
        } else {
            let full = self.plan.cursor.is_none();
            let mut items: Vec<SearchIssue> = Vec::new();
            std::mem::swap(&mut items, &mut self.issues);
            let keep = keep_set(&items);
            self.guard.upsert_issues(&mut h.search, items);
            if full {
                let _ = self.guard.retain_issues(&mut h.search, &keep);
            }
            self.at = 0;
            self.enter_mrs(h);
        }
    }

    /// Takes the issues of the current target. What a tracked project is fetched
    /// with is folded in at once; a project that GitLab refuses is skipped. An
    /// eager run collects, and settles the issues after the last target; a
    /// refusal to list everything ends it.
    pub fn issues_fetched(&mut self, h: &mut Handlers, fetched: Result<Vec<SearchIssue>, Error>)
        requires
            old(self)@.phase is Issues,
            on_target(old(self)@),
        ensures
            on_target(final(self)@),
            match fetched {
                Ok(items) => {
                    let (r, c) = after_issues(old(self)@, old(h).search@, items@);
                    &&& final(self)@ == r
                    &&& only_corpus(*old(h), *final(h), c)
                },
                Err(e) => if skips(old(self)@.plan, e) {
                    &&& final(self)@ == (RunState { phase: Phase::MergeRequests, ..old(self)@ })
                    &&& *final(h) == *old(h)
                } else {
                    &&& final(self)@ == (RunState {
                        phase: Phase::Finished(failure_of(old(self)@.plan, e)),
                        ..old(self)@
                    })
                    &&& noted_error(*old(h), *final(h), old(self)@.plan.client, e)
                },
            },
    {
        let n: usize = self.targets.len();
        assert(self.at < n);
        match fetched {
            Ok(items) => {
                if self.plan.population == Population::TrackedProjects {
                    let full = self.plan.cursor.is_none();
                    let keep = keep_set(&items);
                    self.guard.upsert_issues(&mut h.search, items);
                    match self.targets[self.at] {
                        Some(pid) => {
                            if full {
                                let _ = self.guard.retain_issues_in_project(
                                    &mut h.search,
                                    pid,
                                    &keep,
                                );
                            }
                        },
                        None => {},
                    }
                    self.phase = Phase::MergeRequests;
                } else {
                    let mut more = items;
                    self.issues.append(&mut more);
                    self.at = self.at + 1;
                    self.enter_issues(h);
                }
            },
            Err(e) => {
                let rejected = match &e {
                    Error::Gitlab(_) => true,
                    _ => false,
                };
                match self.plan.population {
                    Population::TrackedProjects => {
                        if rejected {
                            self.phase = Phase::MergeRequests;
                        } else {
                            self.fail_search_fetch(h, &e, Outcome::Failed);
                        }
                    },
                    Population::All => {
                        let outcome = if rejected {
                            Outcome::GlobalRejected
                        } else {
                            Outcome::Failed
                        };
                        self.fail_search_fetch(h, &e, outcome);
                    },
                    Population::Member => {
                        self.fail_search_fetch(h, &e, Outcome::Failed);
                    },
                }
            },
        }
    }

    /// Takes the merge requests of the current target, as [`Self::issues_fetched`]
    /// does its issues. Assigned merge requests are never removed.
    pub fn mrs_fetched(&mut self, h: &mut Handlers, fetched: Result<Vec<SearchMr>, Error>)
        requires
            old(self)@.phase is MergeRequests,
            on_target(old(self)@),
        ensures
            on_target(final(self)@),
            match fetched {
                Ok(items) => {
                    let (r, c) = after_mrs(old(self)@, old(h).search@, items@);
                    &&& final(self)@ == r
                    &&& only_corpus(*old(h), *final(h), c)
                },
                Err(e) => if skips(old(self)@.plan, e) {
                    &&& final(self)@ == enter_issues(
                        RunState { at: old(self)@.at + 1, ..old(self)@ },
                        old(h).search@,
                    ).0
                    &&& only_corpus(*old(h), *final(h), old(h).search@)
                } else {
                    &&& final(self)@ == (RunState {
                        phase: Phase::Finished(failure_of(old(self)@.plan, e)),
                        ..old(self)@
                    })
                    &&& noted_error(*old(h), *final(h), old(self)@.plan.client, e)
                },
            },
    {
        let n: usize = self.targets.len();
        assert(self.at < n);
        match fetched {
            Ok(items) => {
                if self.plan.population == Population::TrackedProjects {
                    let full = self.plan.cursor.is_none();
                    let mut keep = keep_set(&items);
                    self.guard.upsert_mrs(&mut h.search, items);
                    match self.targets[self.at] {
                        Some(pid) => {
                            if full {
                                add_assigned(&mut keep, &self.assigned, Some(pid));
                                let _ = self.guard.retain_mrs_in_project(
                                    &mut h.search,
                                    pid,
                                    &keep,
                                );
                            }
                        },
                        None => {},
                    }
                    self.at = self.at + 1;
                    self.enter_issues(h);
                } else {
                    let mut more = items;
                    self.mrs.append(&mut more);
                    self.at = self.at + 1;
                    self.enter_mrs(h);
                }
            },
            Err(e) => {
                let rejected = match &e {
                    Error::Gitlab(_) => true,
                    _ => false,
                };
                match self.plan.population {
                    Population::TrackedProjects => {
                        if rejected {
                            self.at = self.at + 1;
                            self.enter_issues(h);
                        } else {
                            self.fail_search_fetch(h, &e, Outcome::Failed);
                        }
                    },
                    Population::All => {
                        let outcome = if rejected {
                            Outcome::GlobalRejected
                        } else {
                            Outcome::Failed
                        };
                        self.fail_search_fetch(h, &e, outcome);
                    },
                    Population::Member => {
                        self.fail_search_fetch(h, &e, Outcome::Failed);
                    },
                }
            },
        }
    }

    /// Ends the run and gives the lock back. Only a run that went well stamps
    /// the cache; after any other the stamps are as they were, and the next tick
    /// tries again.
    pub fn finish(self, h: &mut Handlers)
        ensures
            marks_kept(*old(h), *final(h)),
            *final(h) == (Handlers { search: final(h).search, ..*old(h) }),
            !final(h).search.syncing(),
            final(h).search@ == if self@.phase == Phase::Finished(Outcome::Done) {
                Corpus { stamps: fresh_stamps(self@.plan), ..old(h).search@ }
            } else {
                old(h).search@
            },
    {
        match self.phase {
            Phase::Finished(Outcome::Done) => {
                let fresh = SyncStamps {
                    last_partial_sync_secs: self.plan.started,
                    last_full_sync_secs: if self.plan.cursor.is_none() {
                        self.plan.started
                    } else {
                        self.plan.last_full
                    },
                    degraded_to_member: false,
                    schema_version: SEARCH_SCHEMA_VERSION,
                    synced_user_id: self.plan.user_id,
                };
                self.guard.set_stamps(&mut h.search, &fresh);
            },
            _ => {},
        }
        self.guard.end(&mut h.search);
    }
}

/// The stamps after a run that went well.
pub open spec fn fresh_stamps(p: SyncPlan) -> SyncStamps {
    SyncStamps {
        last_partial_sync_secs: p.started,
        last_full_sync_secs: if p.cursor is None {
            p.started
        } else {
            p.last_full
        },
        degraded_to_member: false,
        schema_version: SEARCH_SCHEMA_VERSION,
        synced_user_id: p.user_id,
    }
}

/// Whether a failed fetch only skips its project: GitLab refused it, in a run
/// over tracked projects.
pub open spec fn skips(p: SyncPlan, e: Error) -> bool {
    p.population == Population::TrackedProjects && e is Gitlab
}

/// How a run ends over a failed fetch of issues or merge requests.
pub open spec fn failure_of(p: SyncPlan, e: Error) -> Outcome {
    if p.population == Population::All && e is Gitlab {
        Outcome::GlobalRejected
    } else {
        Outcome::Failed
    }
}

/// The references of merge requests.
pub open spec fn refs_of(items: Seq<SearchMr>) -> Seq<MrRef> {
    items.map_values(|m: SearchMr| MrRef { id: m.id, project_id: m.project_id })
}

/// A run and the corpus after the assigned merge requests came in.
pub open spec fn after_assigned(h: Handlers, r: RunState, items: Seq<SearchMr>, now: u64) -> (
    RunState,
    Corpus,
) {
    let c = Corpus { mrs: upserted(h.search@.mrs, items), ..h.search@ };
    let refs = refs_of(items);
    match r.plan.population {
        Population::All => enter_issues(
            RunState { assigned: refs, targets: seq![None::<i64>], ..r },
            c,
        ),
        Population::Member => enter_issues(RunState { assigned: refs, ..r }, c),
        Population::TrackedProjects => {
            let p = tracked_prepared(h, c, refs, now, r.plan.cursor is None);
            enter_issues(
                RunState {
                    assigned: refs,
                    targets: tracked_ids(p.tracked_set).map_values(|id: i64| Some(id)),
                    ..r
                },
                p,
            )
        },
    }
}

/// A run and the corpus after the issues of the current target came in.
pub open spec fn after_issues(r: RunState, c: Corpus, items: Seq<SearchIssue>) -> (
    RunState,
    Corpus,
) {
    if r.plan.population == Population::TrackedProjects {
        (
            RunState { phase: Phase::MergeRequests, ..r },
            project_issues_settled(c, r.targets[r.at]->0, items, r.plan.cursor is None),
        )
    } else {
        enter_issues(RunState { at: r.at + 1, issues: r.issues + items, ..r }, c)
    }
}

/// A run and the corpus after the merge requests of the current target came in.
pub open spec fn after_mrs(r: RunState, c: Corpus, items: Seq<SearchMr>) -> (RunState, Corpus) {
    if r.plan.population == Population::TrackedProjects {
        enter_issues(
            RunState { at: r.at + 1, ..r },
            project_mrs_settled(c, r.targets[r.at]->0, items, r.assigned, r.plan.cursor is None),
        )
    } else {
        enter_mrs(RunState { at: r.at + 1, mrs: r.mrs + items, ..r }, c)
    }
}

fn refs(items: &Vec<SearchMr>) -> (r: Vec<MrRef>)
    ensures
        r@ == refs_of(items@),
{
    let mut r: Vec<MrRef> = Vec::new();
    let mut i: usize = 0;
    while i < items.len()
        invariant
            i <= items@.len(),
            r@ == refs_of(items@.take(i as int)),
        decreases items@.len() - i,
    {
        r.push(MrRef { id: items[i].id, project_id: items[i].project_id });
        i += 1;
        proof {
            assert(r@ =~= refs_of(items@.take(i as int)));
        }
    }
    proof {
        assert(items@.take(items@.len() as int) =~= items@);
    }
    r
}

fn some_of(ids: &Vec<i64>) -> (r: Vec<Option<i64>>)
    ensures
        r@ == ids@.map_values(|id: i64| Some(id)),
{
    let ghost f = |id: i64| Some(id);
    let mut r: Vec<Option<i64>> = Vec::new();
    let mut i: usize = 0;
    while i < ids.len()
        invariant
            i <= ids@.len(),
            f == |id: i64| Some(id),
            r@ == ids@.take(i as int).map_values(f),
        decreases ids@.len() - i,
    {
        r.push(Some(ids[i]));
        i += 1;
        proof {
            assert(r@ =~= ids@.take(i as int).map_values(f));
        }
    }
    proof {
        assert(ids@.take(ids@.len() as int) =~= ids@);
    }
    r
}

/// Which assigned merge requests are meant: those of one project, or all.
pub open spec fn which(project: Option<i64>) -> spec_fn(MrRef) -> bool {
    match project {
        Some(p) => mr_of(p),
        None => any_mr(),
    }
}

fn add_assigned(keep: &mut HashSet<u64>, assigned: &Vec<MrRef>, project: Option<i64>)
    ensures
        final(keep)@ == old(keep)@.union(assigned_keys(assigned@, which(project))),
{
    let ghost p = which(project);
    let ghost k0 = keep@;
    let mut i: usize = 0;
    proof {
        reveal(Seq::filter);
        assert(assigned@.take(0).filter(p) =~= Seq::<MrRef>::empty());
        assert(k0.union(assigned_keys(assigned@.take(0), p)) =~= k0);
    }
    while i < assigned.len()
        invariant
            i <= assigned@.len(),
            p == which(project),
            keep@ == k0.union(assigned_keys(assigned@.take(i as int), p)),
        decreases assigned@.len() - i,
    {
        let m = assigned[i];
        let wanted: bool = match project {
            Some(pid) => m.project_id == pid,
            None => true,
        };
        proof {
            reveal(Seq::filter);
            assert(assigned@.take(i + 1).drop_last() =~= assigned@.take(i as int));
            assert(wanted == p(m));
        }
        if wanted {
            let k: u64 = key_of(m.id);
            keep.insert(k);
            proof {
                let f = |m: MrRef| id_key(m.id);
                let a = assigned@.take(i as int).filter(p);
                assert(assigned@.take(i + 1).filter(p) == a.push(m));
                assert(a.push(m).map_values(f) =~= a.map_values(f).push(k));
                lemma_push_set(a.map_values(f), k);
                assert(keep@ =~= k0.union(assigned_keys(assigned@.take(i + 1), p)));
            }
        }
        i += 1;
    }
    proof {
        assert(assigned@.take(assigned@.len() as int) =~= assigned@);
    }
}

/// Notes the evidence for tracked projects and, in a full sync, drops projects
/// whose evidence is stale, with everything of projects that are not tracked.
/// The tracked projects, ascending.
fn prepare_tracked(
    guard: &SyncGuard,
    h: &mut Handlers,
    assigned: &Vec<MrRef>,
    now: u64,
    full: bool,
) -> (r: Vec<i64>)
    requires
        old(h).config.spans_fit(),
    ensures
        only_corpus(
            *old(h),
            *final(h),
            tracked_prepared(*old(h), old(h).search@, assigned@, now, full),
        ),
        r@ == tracked_ids(final(h).search@.tracked_set),
{
    let cutoff: u64 = now.saturating_sub(h.config.search.tracked_retention().as_secs());
    let ids = gather_evidence(h, assigned, cutoff);
    guard.note_tracked(&mut h.search, &ids, now);
    if full {
        let _ = guard.evict_tracked(&mut h.search, cutoff);
    }
    let list = h.search.tracked_projects();
    let ghost rows0 = rows_of(h.search@.tracked_set);
    let ghost g = |row: (u64, TrackedProject)| key_id(row.0);
    let mut unsorted: Vec<i64> = Vec::new();
    let mut i: usize = 0;
    while i < list.len()
        invariant
            i <= list@.len() == rows0.len(),
            g == |row: (u64, TrackedProject)| key_id(row.0),
            forall|j: int| 0 <= j < list@.len() ==> (#[trigger] list@[j]).0 == key_id(rows0[j].0),
            unsorted@ == rows0.take(i as int).map_values(g),
        decreases list@.len() - i,
    {
        unsorted.push(list[i].0);
        i += 1;
        proof {
            assert(unsorted@ =~= rows0.take(i as int).map_values(g));
        }
    }
    proof {
        assert(rows0.take(rows0.len() as int) =~= rows0);
    }
    let r = sort(&unsorted);
    if full {
        let keep = id_set(&r);
        let _ = guard.prune_untracked(&mut h.search, &keep);
    }
    r
}

fn id_set(ids: &Vec<i64>) -> (r: HashSet<i64>)
    ensures
        r@ == ids@.to_set(),
{
    let mut r: HashSet<i64> = HashSet::new();
    let mut i: usize = 0;
    while i < ids.len()
        invariant
            i <= ids@.len(),
            r@ == ids@.take(i as int).to_set(),
        decreases ids@.len() - i,
    {
        r.insert(ids[i]);
        proof {
            let a = ids@.take(i as int);
            let b = ids@.take(i + 1);
            assert(b =~= a.push(ids@[i as int]));
            assert forall|x: i64| b.to_set().contains(x) <==> a.to_set().insert(
                ids@[i as int],
            ).contains(x) by {
                if a.contains(x) {
                    let j = choose|j: int| 0 <= j < a.len() && a[j] == x;
                    assert(b[j] == x);
                }
                assert(b[i as int] == ids@[i as int]);
                if b.contains(x) && x != ids@[i as int] {
                    let j = choose|j: int| 0 <= j < b.len() && b[j] == x;
                    assert(a[j] == x);
                }
            }
            assert(b.to_set() =~= a.to_set().insert(ids@[i as int]));
        }
        i += 1;
    }
    proof {
        assert(ids@.take(ids@.len() as int) =~= ids@);
    }
    r
}

fn gather_evidence(h: &Handlers, assigned: &Vec<MrRef>, cutoff: u64) -> (r: Vec<i64>)
    ensures
        r@ == evidence(*h, assigned@, cutoff),
{
    let mut r: Vec<i64> = Vec::new();
    let ghost e1 = assigned@.map_values(|m: MrRef| m.project_id);
    let ghost e2 = cached(h.cache@).map_values(|i: crate::api::Issue| i.project_id);
    let mut i: usize = 0;
    while i < assigned.len()
        invariant
            i <= assigned@.len(),
            e1 == assigned@.map_values(|m: MrRef| m.project_id),
            r@ == e1.take(i as int),
        decreases assigned@.len() - i,
    {
        r.push(assigned[i].project_id);
        i += 1;
        proof {
            assert(r@ =~= e1.take(i as int));
        }
    }
    proof {
        assert(r@ =~= e1);
    }
    match h.cache.get() {
        Some(issues) => {
            let mut i: usize = 0;
            proof {
                assert(r@ =~= e1 + e2.take(0));
            }
            while i < issues.len()
                invariant
                    i <= issues@.len(),
                    e2 == issues@.map_values(|i: crate::api::Issue| i.project_id),
                    r@ == e1 + e2.take(i as int),
                decreases issues@.len() - i,
            {
                r.push(issues[i].project_id);
                i += 1;
                proof {
                    assert(r@ =~= e1 + e2.take(i as int));
                }
            }
            proof {
                assert(e2.take(e2.len() as int) =~= e2);
            }
        },
        None => {
            proof {
                assert(r@ =~= e1 + e2);
            }
        },
    }
    let events = h.history.all_since(cutoff);
    let ghost e3 = events@.map_values(|t: &StoredTimelog| t.project_id);
    let mut i: usize = 0;
    proof {
        assert(r@ =~= e1 + e2 + e3.take(0));
    }
    while i < events.len()
        invariant
            i <= events@.len(),
            e3 == events@.map_values(|t: &StoredTimelog| t.project_id),
            r@ == e1 + e2 + e3.take(i as int),
        decreases events@.len() - i,
    {
        r.push(events[i].project_id);
        i += 1;
        proof {
            assert(r@ =~= e1 + e2 + e3.take(i as int));
        }
    }
    proof {
        assert(e3.take(e3.len() as int) =~= e3);
    }
    r
}

// ── laws ─────────────────────────────────────────────────────────────────────

/// A cache that was never synced, or only under an older schema, is due for a
/// full sync at any time.
pub proof fn law_never_synced_is_due(s: SyncStamps, cfg: SearchConfig, now: u64)
    requires
        s.last_full_sync_secs == 0 || s.schema_version < SEARCH_SCHEMA_VERSION,
    ensures
        full_due(s, cfg, now),
        sync_due(s, cfg, now),
{
}

/// Right after a run that went well no sync is due, before the shorter of the
/// two intervals has passed; a full one put off the next full one as well.
pub proof fn law_stamped_cache_is_fresh(p: SyncPlan, cfg: SearchConfig, now: u64)
    requires
        p.started > 0,
        p.cursor is None || p.last_full > 0,
        p.cursor is Some ==> since(now, p.last_full) < cfg.full_interval_secs,
        p.started <= now,
        now - p.started < cfg.partial_interval_secs,
        now - p.started < cfg.full_interval_secs,
    ensures
        !sync_due(fresh_stamps(p), cfg, now),
{
}

/// No step of a run touches the stamps: until it is finished, a run that fails
/// leaves them as they were.
pub proof fn law_steps_keep_the_stamps(
    h: Handlers,
    r: RunState,
    c: Corpus,
    projects: Seq<SearchProject>,
    groups: Seq<SearchGroup>,
    issues: Seq<SearchIssue>,
    mrs: Seq<SearchMr>,
    now: u64,
)
    ensures
        projects_replaced(c, projects).stamps == c.stamps,
        groups_replaced(c, groups).stamps == c.stamps,
        after_assigned(h, r, mrs, now).1.stamps == h.search@.stamps,
        after_issues(r, c, issues).1.stamps == c.stamps,
        after_mrs(r, c, mrs).1.stamps == c.stamps,
{
}

/// Whether everything in `a` is in `b`.
pub open spec fn keeps_entries<V>(a: Map<u64, V>, b: Map<u64, V>) -> bool {
    forall|k: u64| #[trigger] a.contains_key(k) ==> b.contains_key(k)
}

proof fn lemma_upsert_keeps<T: HasId>(m: Map<u64, T>, items: Seq<T>)
    ensures
        keeps_entries(m, upserted(m, items)),
    decreases items.len(),
{
    if items.len() > 0 {
        lemma_upsert_keeps(m, items.drop_last());
    }
}

/// An incremental sync removes no issue and no merge request.
pub proof fn law_incremental_removes_nothing(
    h: Handlers,
    r: RunState,
    c: Corpus,
    issues: Seq<SearchIssue>,
    mrs: Seq<SearchMr>,
    now: u64,
)
    requires
        r.plan.cursor is Some,
    ensures
        keeps_entries(h.search@.issues, after_assigned(h, r, mrs, now).1.issues),
        keeps_entries(h.search@.mrs, after_assigned(h, r, mrs, now).1.mrs),
        keeps_entries(c.issues, after_issues(r, c, issues).1.issues),
        keeps_entries(c.mrs, after_issues(r, c, issues).1.mrs),
        keeps_entries(c.issues, after_mrs(r, c, mrs).1.issues),
        keeps_entries(c.mrs, after_mrs(r, c, mrs).1.mrs),
{
    lemma_upsert_keeps(h.search@.mrs, mrs);
    let c1 = upserted(h.search@.mrs, mrs);
    lemma_upsert_keeps(c1, r.mrs);
    lemma_upsert_keeps(h.search@.issues, r.issues);
    lemma_upsert_keeps(c.issues, issues);
    lemma_upsert_keeps(c.issues, r.issues + issues);
    lemma_upsert_keeps(c.mrs, r.mrs);
    lemma_upsert_keeps(c.mrs, mrs);
    lemma_upsert_keeps(c.mrs, r.mrs + mrs);
    lemma_upsert_keeps(c.issues, r.issues);
}

proof fn lemma_upsert_has<T: HasId>(m: Map<u64, T>, items: Seq<T>, k: u64)
    requires
        keys_in(items).contains(k),
    ensures
        upserted(m, items).contains_key(k),
    decreases items.len(),
{
    let keys = items.map_values(|t: T| id_key(t.spec_id()));
    let i = choose|i: int| 0 <= i < keys.len() && keys[i] == k;
    if i < items.len() - 1 {
        let init = items.drop_last();
        let inner = init.map_values(|t: T| id_key(t.spec_id()));
        assert(inner[i] == k);
        assert(keys_in(init).contains(k));
        lemma_upsert_has(m, init, k);
    }
}

/// Every sync makes the cached projects and groups exactly those that the user is
/// a member of, and a full sync of everything the cached issues exactly those that
/// GitLab has.
pub proof fn law_full_sync_is_exact(
    c: Corpus,
    projects: Seq<SearchProject>,
    groups: Seq<SearchGroup>,
    issues: Seq<SearchIssue>,
    k: u64,
)
    ensures
        projects_replaced(c, projects).projects.contains_key(k) <==> keys_in(projects).contains(k),
        groups_replaced(c, groups).groups.contains_key(k) <==> keys_in(groups).contains(k),
        issues_settled(c, issues, true).issues.contains_key(k) <==> keys_in(issues).contains(k),
{
    if keys_in(projects).contains(k) {
        lemma_upsert_has(c.projects, projects, k);
    }
    if keys_in(groups).contains(k) {
        lemma_upsert_has(c.groups, groups, k);
    }
    if keys_in(issues).contains(k) {
        lemma_upsert_has(c.issues, issues, k);
    }
}

proof fn lemma_noted_at_least(m: Map<u64, TrackedProject>, ids: Seq<i64>, now: u64, i: int)
    requires
        0 <= i < ids.len(),
        now > 0,
    ensures
        noted(m, ids, now).contains_key(id_key(ids[i])),
        noted(m, ids, now)[id_key(ids[i])].last_evidence_secs >= now,
    decreases ids.len(),
{
    if i < ids.len() - 1 {
        lemma_noted_at_least(m, ids.drop_last(), now, i);
    }
}

/// A project with evidence of relevance is tracked after the evidence was noted,
/// in a full sync too.
pub proof fn law_evidence_keeps_a_project(
    m: Map<u64, TrackedProject>,
    ids: Seq<i64>,
    cutoff: u64,
    now: u64,
    full: bool,
    i: int,
)
    requires
        0 <= i < ids.len(),
        0 < now,
        cutoff <= now,
    ensures
        tracked_after(m, ids, cutoff, now, full).contains_key(id_key(ids[i])),
{
    lemma_noted_at_least(m, ids, now, i);
}

/// A full sync over tracked projects drops every project without recent evidence,
/// and every issue and merge request of a project that is not tracked.
pub proof fn law_full_sync_drops_the_untracked(
    h: Handlers,
    c: Corpus,
    assigned: Seq<MrRef>,
    now: u64,
    k: u64,
)
    ensures
        ({
            let after = tracked_prepared(h, c, assigned, now, true);
            let cutoff = since(now, (h.config.search.tracked_retention_hours * 3600) as u64);
            &&& after.tracked_set.contains_key(k) ==> after.tracked_set[k].last_evidence_secs
                >= cutoff
            &&& after.issues.contains_key(k) ==> tracked_ids(after.tracked_set).contains(
                after.issues[k].project_id,
            )
            &&& after.mrs.contains_key(k) ==> tracked_ids(after.tracked_set).contains(
                after.mrs[k].project_id,
            )
        }),
{
}

/// After a full sync has folded in the issues of a tracked project, the cached
/// issues of that project are among those that were fetched.
pub proof fn law_full_project_sync_reconciles(
    c: Corpus,
    project_id: i64,
    items: Seq<SearchIssue>,
    k: u64,
)
    ensures
        ({
            let after = project_issues_settled(c, project_id, items, true);
            after.issues.contains_key(k) && after.issues[k].project_id == project_id ==> keys_in(
                items,
            ).contains(k)
        }),
{
}

/// A full sync never removes an assigned merge request: what the run was told is
/// assigned stays, whether or not the other fetches list it.
pub proof fn law_assigned_mrs_survive(
    c: Corpus,
    project_id: i64,
    items: Seq<SearchMr>,
    assigned: Seq<MrRef>,
    i: int,
)
    requires
        0 <= i < assigned.len(),
        c.mrs.contains_key(id_key(assigned[i].id)),
    ensures
        mrs_settled(c, items, assigned, true).mrs.contains_key(id_key(assigned[i].id)),
        assigned[i].project_id == project_id ==> project_mrs_settled(
            c,
            project_id,
            items,
            assigned,
            true,
        ).mrs.contains_key(id_key(assigned[i].id)),
{
    lemma_upsert_keeps(c.mrs, items);
    lemma_assigned_key(assigned, any_mr(), i);
    if assigned[i].project_id == project_id {
        lemma_assigned_key(assigned, mr_of(project_id), i);
    }
}

proof fn lemma_assigned_key(assigned: Seq<MrRef>, p: spec_fn(MrRef) -> bool, i: int)
    requires
        0 <= i < assigned.len(),
        p(assigned[i]),
    ensures
        assigned_keys(assigned, p).contains(id_key(assigned[i].id)),
    decreases assigned.len(),
{
    reveal(Seq::filter);
    let f = |m: MrRef| id_key(m.id);
    let kept = assigned.filter(p);
    if i < assigned.len() - 1 {
        let init = assigned.drop_last();
        lemma_assigned_key(init, p, i);
        let inner = init.filter(p).map_values(f);
        assert(inner.contains(id_key(assigned[i].id)));
        let j = choose|j: int| 0 <= j < inner.len() && inner[j] == id_key(assigned[i].id);
        assert(kept.map_values(f)[j] == id_key(assigned[i].id));
    } else {
        assert(kept.map_values(f)[kept.len() - 1] == id_key(assigned[i].id));
    }
}

/// A full sync is due where none was ever made under the present schema, or once
/// the full interval has passed since the last one; any sync is due then, and once
/// the partial interval has passed since the last one of either sort.
pub proof fn law_when_a_sync_is_due(s: SyncStamps, cfg: SearchConfig, now: u64)
    ensures
        s.schema_version < 1 ==> full_due(s, cfg, now),
        s.last_full_sync_secs == 0 ==> full_due(s, cfg, now),
        now - s.last_full_sync_secs >= cfg.full_interval_secs ==> full_due(s, cfg, now),
        full_due(s, cfg, now) ==> s.schema_version < 1 || s.last_full_sync_secs == 0 || now
            - s.last_full_sync_secs >= cfg.full_interval_secs || cfg.full_interval_secs == 0,
        full_due(s, cfg, now) ==> sync_due(s, cfg, now),
        now - s.last_partial_sync_secs >= cfg.partial_interval_secs ==> sync_due(s, cfg, now),
        sync_due(s, cfg, now) ==> full_due(s, cfg, now) || now - s.last_partial_sync_secs
            >= cfg.partial_interval_secs || cfg.partial_interval_secs == 0,
{
}

/// No step of a run changes what it set out to do.
pub proof fn law_steps_keep_the_plan(
    h: Handlers,
    r: RunState,
    c: Corpus,
    issues: Seq<SearchIssue>,
    mrs: Seq<SearchMr>,
    now: u64,
)
    ensures
        after_assigned(h, r, mrs, now).0.plan == r.plan,
        after_issues(r, c, issues).0.plan == r.plan,
        after_mrs(r, c, mrs).0.plan == r.plan,
{
}

/// The fetches of issues and of merge requests leave no gap: a full sync fetches
/// them whenever they were updated, an incremental one from five minutes before
/// the last sync on, of either kind alike. A sync is full exactly where one is due.
pub proof fn law_no_fetch_leaves_a_gap(
    h: Handlers,
    client: u64,
    user_id: i64,
    now: u64,
    r: RunState,
)
    requires
        r.plan == plan_of(h, client, user_id, now),
    ensures
        ({
            let s = h.search@.stamps;
            let updated_after = match next_fetch_of(r) {
                Some(Fetch::Issues { updated_after: u, .. }) => Some(u),
                Some(Fetch::MergeRequests { updated_after: u, .. }) => Some(u),
                _ => None,
            };
            match updated_after {
                Some(None) => full_due(s, h.config.search, now),
                Some(Some(from)) => {
                    &&& !full_due(s, h.config.search, now)
                    &&& from <= s.last_partial_sync_secs
                    &&& s.last_partial_sync_secs >= 300 ==> from + 300 == s.last_partial_sync_secs
                    &&& s.last_partial_sync_secs < 300 ==> from == 0
                },
                None => true,
            }
        }),
        r.phase is Issues ==> (next_fetch_of(r) matches Some(Fetch::Issues { project, .. })
            && project == r.targets[r.at]),
        r.phase is MergeRequests ==> (next_fetch_of(r) matches Some(
            Fetch::MergeRequests { project, .. },
        ) && project == r.targets[r.at]),
        r.phase is Projects ==> next_fetch_of(r) == Some(Fetch::MemberProjects),
        r.phase is Groups ==> next_fetch_of(r) == Some(Fetch::MemberGroups),
        r.phase is AssignedMrs ==> next_fetch_of(r) == Some(Fetch::AssignedMergeRequests),
{
}

/// A sync picks up where the last one that went well began: whatever was updated
/// from then on, while it ran or after, is fetched by the next one.
pub proof fn law_next_sync_picks_up(
    last: SyncPlan,
    h: Handlers,
    client: u64,
    user_id: i64,
    now: u64,
    r: RunState,
    updated: u64,
)
    requires
        h.search@.stamps == fresh_stamps(last),
        r.plan == plan_of(h, client, user_id, now),
        updated >= last.started,
    ensures
        next_fetch_of(r) matches Some(Fetch::Issues { updated_after: Some(from), .. }) ==> from
            <= updated,
        next_fetch_of(r) matches Some(Fetch::MergeRequests { updated_after: Some(from), .. })
            ==> from <= updated,
{
}

/// A run that went well is stamped with the time at which it began and with the
/// user of its session; only a full one counts as a full sync.
pub proof fn law_stamps_of_a_run(h: Handlers, client: u64, user_id: i64, now: u64)
    ensures
        ({
            let s = h.search@.stamps;
            let after = fresh_stamps(plan_of(h, client, user_id, now));
            &&& after.last_partial_sync_secs == now
            &&& after.synced_user_id == user_id
            &&& !after.degraded_to_member
            &&& after.schema_version == SEARCH_SCHEMA_VERSION
            &&& full_due(s, h.config.search, now) ==> after.last_full_sync_secs == now
            &&& !full_due(s, h.config.search, now) ==> after.last_full_sync_secs
                == s.last_full_sync_secs
        }),
{
}

/// A failed fetch of a project only skips that project, where each tracked project
/// is fetched and GitLab refused it; any other failure ends the run, never as one
/// that went well, and a network failure always does.
pub proof fn law_failed_fetches(p: SyncPlan, e: Error)
    ensures
        skips(p, e) ==> e is Gitlab && p.population is TrackedProjects,
        e is Gitlab && p.population is TrackedProjects ==> skips(p, e),
        failure_of(p, e) != Outcome::Done,
        e is Transient ==> !skips(p, e) && failure_of(p, e) == Outcome::Failed,
        e is Gitlab && p.population is All ==> failure_of(p, e) == Outcome::GlobalRejected,
{
}

/// A run visits every one of its targets for its issues and for its merge
/// requests, and is over after the last, not before: tracked projects one by one,
/// otherwise all issues first.
pub proof fn law_every_target_is_visited(
    r: RunState,
    c: Corpus,
    issues: Seq<SearchIssue>,
    mrs: Seq<SearchMr>,
)
    requires
        on_target(r),
        r.at < r.targets.len(),
    ensures
        after_issues(r, c, issues).0.targets == r.targets,
        after_mrs(r, c, mrs).0.targets == r.targets,
        r.plan.population is TrackedProjects ==> {
            &&& after_issues(r, c, issues).0.phase is MergeRequests
            &&& after_issues(r, c, issues).0.at == r.at
            &&& after_mrs(r, c, mrs).0.at == r.at + 1
            &&& r.at + 1 < r.targets.len() ==> after_mrs(r, c, mrs).0.phase is Issues
        },
        !(r.plan.population is TrackedProjects) ==> {
            &&& r.at + 1 < r.targets.len() ==> after_issues(r, c, issues).0.phase is Issues
                && after_issues(r, c, issues).0.at == r.at + 1
            &&& r.at + 1 == r.targets.len() ==> after_issues(r, c, issues).0.phase
                is MergeRequests && after_issues(r, c, issues).0.at == 0
            &&& r.at + 1 < r.targets.len() ==> after_mrs(r, c, mrs).0.phase is MergeRequests
                && after_mrs(r, c, mrs).0.at == r.at + 1
        },
        r.at + 1 == r.targets.len() ==> after_mrs(r, c, mrs).0.phase == Phase::Finished(
            Outcome::Done,
        ),
{
}

proof fn lemma_key_in<T: HasId>(items: Seq<T>, k: u64)
    ensures
        keys_in(items).contains(k) <==> exists|i: int|
            0 <= i < items.len() && id_key((#[trigger] items[i]).spec_id()) == k,
{
    let keys = items.map_values(|t: T| id_key(t.spec_id()));
    if keys_in(items).contains(k) {
        let i = choose|i: int| 0 <= i < keys.len() && keys[i] == k;
        assert(id_key(items[i].spec_id()) == k);
    }
    if exists|i: int| 0 <= i < items.len() && id_key((#[trigger] items[i]).spec_id()) == k {
        let i = choose|i: int| 0 <= i < items.len() && id_key((#[trigger] items[i]).spec_id()) == k;
        assert(keys[i] == k);
    }
}

/// Whether an issue of that key is among `items`, so that `m` holds it as it was
/// fetched.
pub open spec fn holds_one_of<T: HasId>(m: Map<u64, T>, items: Seq<T>, k: u64) -> bool {
    m.contains_key(k) && exists|n: int|
        0 <= n < items.len() && (#[trigger] items[n]).spec_id() as u64 == k && m[k] == items[n]
}

/// No issue that was fetched is dropped: a run over tracked projects caches it at
/// once, as it was fetched; any other collects it, with all that it collected
/// before, and caches all of them after the last target. Cached issues that were
/// not fetched stay as they were in an incremental sync.
pub proof fn law_fetched_issues_reach_the_corpus(
    r: RunState,
    c: Corpus,
    items: Seq<SearchIssue>,
    i: int,
    k: u64,
)
    requires
        on_target(r),
        r.at < r.targets.len(),
    ensures
        ({
            let (after, corpus) = after_issues(r, c, items);
            &&& after.phase is Issues ==> {
                &&& 0 <= i < items.len() ==> after.issues.contains(items[i])
                &&& 0 <= i < r.issues.len() ==> after.issues.contains(r.issues[i])
                &&& corpus == c
            }
            &&& r.plan.population is TrackedProjects && 0 <= i < items.len() ==> holds_one_of(
                corpus.issues,
                items,
                items[i].id as u64,
            )
            &&& !(r.plan.population is TrackedProjects) && !(after.phase is Issues) ==> {
                &&& 0 <= i < items.len() ==> holds_one_of(
                    corpus.issues,
                    r.issues + items,
                    items[i].id as u64,
                )
                &&& 0 <= i < r.issues.len() ==> holds_one_of(
                    corpus.issues,
                    r.issues + items,
                    r.issues[i].id as u64,
                )
            }
            &&& r.plan.cursor is Some && c.issues.contains_key(k) && (forall|n: int|
                0 <= n < (r.issues + items).len() ==> (#[trigger] (r.issues + items)[n]).id as u64
                    != k) ==> corpus.issues.contains_key(k) && corpus.issues[k] == c.issues[k]
        }),
{
    let all = r.issues + items;
    let (after, corpus) = after_issues(r, c, items);
    let tracking = r.plan.population == Population::TrackedProjects;
    let used = if tracking {
        items
    } else {
        all
    };
    crate::search::lemma_upserted_value(c.issues, used, k);
    if 0 <= i < items.len() {
        let key = items[i].id as u64;
        assert(all[r.issues.len() + i] == items[i]);
        let at = if tracking {
            i
        } else {
            r.issues.len() + i
        };
        assert(id_key(used[at].spec_id()) == key);
        crate::search::lemma_upserted_value(c.issues, used, key);
        lemma_key_in(used, key);
        let n = choose|n: int|
            0 <= n < used.len() && id_key((#[trigger] used[n]).spec_id()) == key && upserted(
                c.issues,
                used,
            )[key] == used[n];
        assert(used[n].spec_id() as u64 == key);
    }
    if 0 <= i < r.issues.len() {
        let key = r.issues[i].id as u64;
        assert(all[i] == r.issues[i]);
        if !tracking {
            assert(id_key(used[i].spec_id()) == key);
            crate::search::lemma_upserted_value(c.issues, used, key);
            lemma_key_in(used, key);
            let n = choose|n: int|
                0 <= n < used.len() && id_key((#[trigger] used[n]).spec_id()) == key && upserted(
                    c.issues,
                    used,
                )[key] == used[n];
            assert(used[n].spec_id() as u64 == key);
        }
    }
    if r.plan.cursor is Some && c.issues.contains_key(k) && (forall|n: int|
        0 <= n < all.len() ==> (#[trigger] all[n]).id as u64 != k) {
        assert forall|n: int| 0 <= n < used.len() implies id_key((#[trigger] used[n]).spec_id())
            != k by {
            if tracking {
                assert(all[r.issues.len() + n] == used[n]);
            }
            assert(exists|x: int| 0 <= x < all.len() && #[trigger] all[x] == used[n]);
        }
    }
}

/// No merge request that was fetched is dropped, as with issues.
pub proof fn law_fetched_mrs_reach_the_corpus(
    r: RunState,
    c: Corpus,
    items: Seq<SearchMr>,
    i: int,
    k: u64,
)
    requires
        on_target(r),
        r.at < r.targets.len(),
    ensures
        ({
            let (after, corpus) = after_mrs(r, c, items);
            &&& after.phase is MergeRequests ==> {
                &&& 0 <= i < items.len() ==> after.mrs.contains(items[i])
                &&& 0 <= i < r.mrs.len() ==> after.mrs.contains(r.mrs[i])
                &&& corpus == c
            }
            &&& r.plan.population is TrackedProjects && 0 <= i < items.len() ==> holds_one_of(
                corpus.mrs,
                items,
                items[i].id as u64,
            )
            &&& !(r.plan.population is TrackedProjects) && !(after.phase is MergeRequests) ==> {
                &&& 0 <= i < items.len() ==> holds_one_of(
                    corpus.mrs,
                    r.mrs + items,
                    items[i].id as u64,
                )
                &&& 0 <= i < r.mrs.len() ==> holds_one_of(
                    corpus.mrs,
                    r.mrs + items,
                    r.mrs[i].id as u64,
                )
            }
            &&& r.plan.cursor is Some && c.mrs.contains_key(k) && (forall|n: int|
                0 <= n < (r.mrs + items).len() ==> (#[trigger] (r.mrs + items)[n]).id as u64 != k)
                ==> corpus.mrs.contains_key(k) && corpus.mrs[k] == c.mrs[k]
        }),
{
    let all = r.mrs + items;
    let (after, corpus) = after_mrs(r, c, items);
    let tracking = r.plan.population == Population::TrackedProjects;
    let used = if tracking {
        items
    } else {
        all
    };
    crate::search::lemma_upserted_value(c.mrs, used, k);
    if 0 <= i < items.len() {
        let key = items[i].id as u64;
        assert(all[r.mrs.len() + i] == items[i]);
        let at = if tracking {
            i
        } else {
            r.mrs.len() + i
        };
        assert(id_key(used[at].spec_id()) == key);
        crate::search::lemma_upserted_value(c.mrs, used, key);
        lemma_key_in(used, key);
        let n = choose|n: int|
            0 <= n < used.len() && id_key((#[trigger] used[n]).spec_id()) == key && upserted(
                c.mrs,
                used,
            )[key] == used[n];
        assert(used[n].spec_id() as u64 == key);
    }
    if 0 <= i < r.mrs.len() {
        let key = r.mrs[i].id as u64;
        assert(all[i] == r.mrs[i]);
        if !tracking {
            assert(id_key(used[i].spec_id()) == key);
            crate::search::lemma_upserted_value(c.mrs, used, key);
            lemma_key_in(used, key);
            let n = choose|n: int|
                0 <= n < used.len() && id_key((#[trigger] used[n]).spec_id()) == key && upserted(
                    c.mrs,
                    used,
                )[key] == used[n];
            assert(used[n].spec_id() as u64 == key);
        }
    }
    if r.plan.cursor is Some && c.mrs.contains_key(k) && (forall|n: int|
        0 <= n < all.len() ==> (#[trigger] all[n]).id as u64 != k) {
        assert forall|n: int| 0 <= n < used.len() implies id_key((#[trigger] used[n]).spec_id())
            != k by {
            if tracking {
                assert(all[r.mrs.len() + n] == used[n]);
            }
            assert(exists|x: int| 0 <= x < all.len() && #[trigger] all[x] == used[n]);
        }
    }
}

proof fn lemma_tracked_id(m: Map<u64, TrackedProject>, id: i64)
    ensures
        tracked_ids(m).contains(id) <==> m.contains_key(id as u64),
{
    let f = |row: (u64, TrackedProject)| key_id(row.0);
    let rows = rows_of(m);
    let ids = rows.map_values(f);
    crate::order::lemma_sorted_contains(ids, id);
    crate::db::law_every_map_is_listed(m);
    crate::search::law_key_roundtrip(id, 0);
    if ids.contains(id) {
        let i = choose|i: int| 0 <= i < ids.len() && ids[i] == id;
        crate::search::law_key_roundtrip(id, rows[i].0);
        crate::db::lemma_row_in_map(rows, i);
    }
    if m.contains_key(id as u64) {
        crate::db::lemma_entry_is_listed(m, id as u64);
        let i = choose|i: int|
            0 <= i < rows.len() && (#[trigger] rows[i]).0 == id as u64 && rows[i].1 == m[id as u64];
        assert(ids[i] == id);
    }
}

/// What a run goes on to fetch, once it knows the assigned merge requests: where
/// the population is everything, all at once; where it is the user's projects,
/// each of those; otherwise exactly the tracked projects, each by its id.
pub proof fn law_targets_of_a_run(
    h: Handlers,
    r: RunState,
    mrs: Seq<SearchMr>,
    projects: Seq<SearchProject>,
    now: u64,
    id: i64,
)
    ensures
        ({
            let (after, corpus) = after_assigned(h, r, mrs, now);
            &&& r.plan.population is All ==> after.targets.len() == 1 && after.targets[0] is None
            &&& r.plan.population is Member ==> after.targets == r.targets
            &&& r.plan.population is TrackedProjects ==> (after.targets.contains(Some(id))
                <==> corpus.tracked_set.contains_key(id as u64))
        }),
        targets_of(projects).len() == projects.len(),
        forall|i: int|
            0 <= i < projects.len() ==> #[trigger] targets_of(projects)[i] == Some(projects[i].id),
        h.config.search.population is All ==> resolved(h.config.search.population) is All,
        h.config.search.population is Member ==> resolved(h.config.search.population) is Member,
        h.config.search.population is Auto || h.config.search.population is TrackedProjects
            ==> resolved(h.config.search.population) is TrackedProjects,
{
    let (after, corpus) = after_assigned(h, r, mrs, now);
    if r.plan.population is TrackedProjects {
        let ids = tracked_ids(corpus.tracked_set);
        lemma_tracked_id(corpus.tracked_set, id);
        assert(after.targets =~= ids.map_values(|id: i64| Some(id)));
        if ids.contains(id) {
            let i = choose|i: int| 0 <= i < ids.len() && ids[i] == id;
            assert(after.targets[i] == Some(id));
        }
        if after.targets.contains(Some(id)) {
            let i = choose|i: int| 0 <= i < after.targets.len() && after.targets[i] == Some(id);
            assert(ids[i] == id);
        }
    }
}

/// Every project with recent evidence is tracked: each project of an assigned
/// merge request, of a cached assigned issue, and of a timelog inside the
/// retention, and each that was tracked on recent evidence before.
pub proof fn law_relevant_projects_are_tracked(
    h: Handlers,
    r: RunState,
    mrs: Seq<SearchMr>,
    now: u64,
    i: int,
    k: u64,
)
    requires
        r.plan.population is TrackedProjects,
        now > 0,
        h.config.spans_fit(),
    ensures
        ({
            let after = after_assigned(h, r, mrs, now).1.tracked_set;
            let retention = h.config.search.tracked_retention_hours * 3600;
            &&& 0 <= i < mrs.len() ==> after.contains_key(mrs[i].project_id as u64)
            &&& (h.cache@ matches Some(issues) && 0 <= i < issues.len()) ==> after.contains_key(
                h.cache@->0[i].project_id as u64,
            )
            &&& h.history@.contains_key(k) && h.history@[k].spent_at_secs + retention >= now
                ==> after.contains_key(h.history@[k].project_id as u64)
            &&& h.search@.tracked_set.contains_key(k)
                && h.search@.tracked_set[k].last_evidence_secs + retention >= now
                ==> after.contains_key(k)
            &&& r.plan.cursor is Some && h.search@.tracked_set.contains_key(k)
                ==> after.contains_key(k)
        }),
{
    let refs = refs_of(mrs);
    let cutoff = since(now, (h.config.search.tracked_retention_hours * 3600) as u64) as u64;
    let ids = evidence(h, refs, cutoff);
    let full = r.plan.cursor is None;
    let m = h.search@.tracked_set;
    let e1 = refs.map_values(|m: MrRef| m.project_id);
    let issues = cached(h.cache@);
    let e2 = issues.map_values(|i: crate::api::Issue| i.project_id);
    let logs = sorted(values_where(rows_of(h.history@), spent_since(cutoff)));
    let e3 = logs.map_values(|t: &StoredTimelog| t.project_id);
    assert(ids == e1 + e2 + e3);
    if 0 <= i < mrs.len() {
        assert(ids[i] == mrs[i].project_id);
        law_evidence_keeps_a_project(m, ids, cutoff, now, full, i);
    }
    if 0 <= i < issues.len() {
        assert(ids[e1.len() + i] == issues[i].project_id);
        law_evidence_keeps_a_project(m, ids, cutoff, now, full, e1.len() + i);
    }
    if h.history@.contains_key(k) && h.history@[k].spent_at_secs
        + h.config.search.tracked_retention_hours * 3600 >= now {
        let t = h.history@[k];
        let p = spent_since(cutoff);
        assert(p(k, t));
        crate::db::lemma_listed_where(h.history@, p, t);
        crate::order::lemma_sorted_contains(values_where(rows_of(h.history@), p), &t);
        let n = choose|n: int| 0 <= n < logs.len() && logs[n] == &t;
        assert(ids[e1.len() + e2.len() + n] == t.project_id);
        law_evidence_keeps_a_project(m, ids, cutoff, now, full, e1.len() + e2.len() + n);
    }
    crate::search::law_noting_never_ages(m, ids, now, k);
}

/// The merge requests that are assigned to the user reach the corpus in every run,
/// whatever else it fetches or removes.
pub proof fn law_assigned_mrs_reach_the_corpus(
    h: Handlers,
    r: RunState,
    mrs: Seq<SearchMr>,
    now: u64,
    i: int,
)
    requires
        now > 0,
        h.config.spans_fit(),
        r.mrs.len() == 0,
        r.at == 0,
        0 <= i < mrs.len(),
    ensures
        holds_one_of(after_assigned(h, r, mrs, now).1.mrs, mrs, mrs[i].id as u64),
        after_assigned(h, r, mrs, now).0.assigned.len() == mrs.len(),
        after_assigned(h, r, mrs, now).0.assigned[i].id == mrs[i].id,
        after_assigned(h, r, mrs, now).0.assigned[i].project_id == mrs[i].project_id,
{
    let k = mrs[i].id as u64;
    let u = upserted(h.search@.mrs, mrs);
    assert(id_key(mrs[i].spec_id()) == k);
    crate::search::lemma_upserted_value(h.search@.mrs, mrs, k);
    let n = choose|n: int|
        0 <= n < mrs.len() && id_key((#[trigger] mrs[n]).spec_id()) == k && u[k] == mrs[n];
    assert(mrs[n].spec_id() as u64 == k);
    let refs = refs_of(mrs);
    match r.plan.population {
        Population::TrackedProjects => {
            law_relevant_projects_are_tracked(h, r, mrs, now, n, k);
            let c = Corpus { mrs: u, ..h.search@ };
            let p = tracked_prepared(h, c, refs, now, r.plan.cursor is None);
            lemma_tracked_id(p.tracked_set, mrs[n].project_id);
            assert(p.mrs.contains_key(k));
        },
        _ => {
            assert(refs[i].id == mrs[i].id);
            lemma_assigned_key(refs, any_mr(), i);
            lemma_upserted_value_none(u);
        },
    }
}

proof fn lemma_upserted_value_none<T: HasId>(m: Map<u64, T>)
    ensures
        upserted(m, Seq::empty()) == m,
        forall|s: Seq<T>| s.len() == 0 ==> #[trigger] upserted(m, s) == m,
{
}

/// A full sync leaves exactly what GitLab lists: the projects and groups of the
/// user in every sync, every issue in one of everything, and of the merge requests
/// those listed or assigned. Of a tracked project that was fetched, no issue and no
/// merge request is left that GitLab does not list; other projects keep theirs.
pub proof fn law_full_sync_mirrors_gitlab(
    c: Corpus,
    projects: Seq<SearchProject>,
    groups: Seq<SearchGroup>,
    issues: Seq<SearchIssue>,
    mrs: Seq<SearchMr>,
    assigned: Seq<MrRef>,
    project_id: i64,
    k: u64,
)
    ensures
        projects_replaced(c, projects).projects.contains_key(k) <==> exists|i: int|
            0 <= i < projects.len() && (#[trigger] projects[i]).id as u64 == k,
        groups_replaced(c, groups).groups.contains_key(k) <==> exists|i: int|
            0 <= i < groups.len() && (#[trigger] groups[i]).id as u64 == k,
        issues_settled(c, issues, true).issues.contains_key(k) <==> exists|i: int|
            0 <= i < issues.len() && (#[trigger] issues[i]).id as u64 == k,
        mrs_settled(c, mrs, assigned, true).mrs.contains_key(k) ==> (exists|i: int|
            0 <= i < mrs.len() && (#[trigger] mrs[i]).id as u64 == k) || exists|i: int|
            0 <= i < assigned.len() && (#[trigger] assigned[i]).id as u64 == k,
        (exists|i: int| 0 <= i < mrs.len() && (#[trigger] mrs[i]).id as u64 == k) ==> mrs_settled(
            c,
            mrs,
            assigned,
            true,
        ).mrs.contains_key(k),
        ({
            let after = project_issues_settled(c, project_id, issues, true).issues;
            &&& after.contains_key(k) && after[k].project_id == project_id ==> exists|i: int|
                0 <= i < issues.len() && (#[trigger] issues[i]).id as u64 == k
            &&& (exists|i: int| 0 <= i < issues.len() && (#[trigger] issues[i]).id as u64 == k)
                ==> after.contains_key(k)
            &&& c.issues.contains_key(k) && c.issues[k].project_id != project_id
                ==> after.contains_key(k)
        }),
        ({
            let after = project_mrs_settled(c, project_id, mrs, assigned, true).mrs;
            &&& after.contains_key(k) && after[k].project_id == project_id ==> (exists|i: int|
                0 <= i < mrs.len() && (#[trigger] mrs[i]).id as u64 == k) || exists|i: int|
                0 <= i < assigned.len() && (#[trigger] assigned[i]).id as u64 == k
            &&& (exists|i: int| 0 <= i < mrs.len() && (#[trigger] mrs[i]).id as u64 == k)
                ==> after.contains_key(k)
            &&& c.mrs.contains_key(k) && c.mrs[k].project_id != project_id ==> after.contains_key(k)
        }),
{
    lemma_key_in(projects, k);
    lemma_key_in(groups, k);
    lemma_key_in(issues, k);
    lemma_key_in(mrs, k);
    lemma_same_keys(projects, groups, issues, mrs, k);
    crate::search::lemma_upserted_value(c.projects, projects, k);
    crate::search::lemma_upserted_value(c.groups, groups, k);
    crate::search::lemma_upserted_value(c.issues, issues, k);
    crate::search::lemma_upserted_value(c.mrs, mrs, k);
    lemma_assigned_from(assigned, any_mr(), k);
    lemma_assigned_from(assigned, mr_of(project_id), k);
}

proof fn lemma_same_keys(
    projects: Seq<SearchProject>,
    groups: Seq<SearchGroup>,
    issues: Seq<SearchIssue>,
    mrs: Seq<SearchMr>,
    k: u64,
)
    ensures
        (exists|i: int| 0 <= i < projects.len() && (#[trigger] projects[i]).id as u64 == k)
            <==> exists|i: int|
            0 <= i < projects.len() && id_key((#[trigger] projects[i]).spec_id()) == k,
        (exists|i: int| 0 <= i < groups.len() && (#[trigger] groups[i]).id as u64 == k)
            <==> exists|i: int|
            0 <= i < groups.len() && id_key((#[trigger] groups[i]).spec_id()) == k,
        (exists|i: int| 0 <= i < issues.len() && (#[trigger] issues[i]).id as u64 == k)
            <==> exists|i: int|
            0 <= i < issues.len() && id_key((#[trigger] issues[i]).spec_id()) == k,
        (exists|i: int| 0 <= i < mrs.len() && (#[trigger] mrs[i]).id as u64 == k) <==> exists|
            i: int,
        |
            0 <= i < mrs.len() && id_key((#[trigger] mrs[i]).spec_id()) == k,
{
    assert forall|i: int| 0 <= i < projects.len() implies (#[trigger] projects[i]).id as u64
        == id_key(projects[i].spec_id()) by {
    }
    assert forall|i: int| 0 <= i < groups.len() implies (#[trigger] groups[i]).id as u64 == id_key(
        groups[i].spec_id(),
    ) by {
    }
    assert forall|i: int| 0 <= i < issues.len() implies (#[trigger] issues[i]).id as u64 == id_key(
        issues[i].spec_id(),
    ) by {
    }
    assert forall|i: int| 0 <= i < mrs.len() implies (#[trigger] mrs[i]).id as u64 == id_key(
        mrs[i].spec_id(),
    ) by {
    }
}

proof fn lemma_assigned_from(assigned: Seq<MrRef>, p: spec_fn(MrRef) -> bool, k: u64)
    ensures
        assigned_keys(assigned, p).contains(k) ==> exists|i: int| 0 <= i < assigned.len() && (#[trigger] assigned[i]).id as u64 == k,
    decreases assigned.len(),
{
    reveal(Seq::filter);
    let f = |m: MrRef| id_key(m.id);
    let keys = assigned.filter(p).map_values(f);
    if assigned_keys(assigned, p).contains(k) {
        let j = choose|j: int| 0 <= j < keys.len() && keys[j] == k;
        let init = assigned.drop_last();
        let inner = init.filter(p).map_values(f);
        if j < inner.len() {
            assert(inner[j] == k);
            assert(assigned_keys(init, p).contains(k));
            lemma_assigned_from(init, p, k);
            let i = choose|i: int| 0 <= i < init.len() && (#[trigger] init[i]).id as u64 == k;
            assert(assigned[i].id as u64 == k);
        } else {
            assert(assigned[assigned.len() - 1].id as u64 == k);
        }
    }
}

/// A run fetches through the session's client, for its user, what the configured
/// population says, and dates from the time at which it began.
pub proof fn law_plan_of_a_run(h: Handlers, client: u64, user_id: i64, now: u64)
    ensures
        ({
            let p = plan_of(h, client, user_id, now);
            &&& p.client == client
            &&& p.user_id == user_id
            &&& p.started == now
            &&& p.population is All <==> h.config.search.population is All
            &&& p.population is Member <==> h.config.search.population is Member
            &&& p.cursor is None <==> full_due(h.search@.stamps, h.config.search, now)
        }),
{
}

/// The projects and groups of the user are cached as they were fetched.
pub proof fn law_fetched_places_reach_the_corpus(
    c: Corpus,
    projects: Seq<SearchProject>,
    groups: Seq<SearchGroup>,
    i: int,
)
    ensures
        0 <= i < projects.len() ==> holds_one_of(
            projects_replaced(c, projects).projects,
            projects,
            projects[i].id as u64,
        ),
        0 <= i < groups.len() ==> holds_one_of(
            groups_replaced(c, groups).groups,
            groups,
            groups[i].id as u64,
        ),
        projects_replaced(c, projects).issues == c.issues,
        projects_replaced(c, projects).mrs == c.mrs,
        projects_replaced(c, projects).groups == c.groups,
        projects_replaced(c, projects).tracked_set == c.tracked_set,
        groups_replaced(c, groups).issues == c.issues,
        groups_replaced(c, groups).mrs == c.mrs,
        groups_replaced(c, groups).projects == c.projects,
        groups_replaced(c, groups).tracked_set == c.tracked_set,
{
    if 0 <= i < projects.len() {
        let k = projects[i].id as u64;
        assert(id_key(projects[i].spec_id()) == k);
        crate::search::lemma_upserted_value(c.projects, projects, k);
        lemma_key_in(projects, k);
        let n = choose|n: int|
            0 <= n < projects.len() && id_key((#[trigger] projects[n]).spec_id()) == k && upserted(
                c.projects,
                projects,
            )[k] == projects[n];
        assert(projects[n].spec_id() as u64 == k);
    }
    if 0 <= i < groups.len() {
        let k = groups[i].id as u64;
        assert(id_key(groups[i].spec_id()) == k);
        crate::search::lemma_upserted_value(c.groups, groups, k);
        lemma_key_in(groups, k);
        let n = choose|n: int|
            0 <= n < groups.len() && id_key((#[trigger] groups[n]).spec_id()) == k && upserted(
                c.groups,
                groups,
            )[k] == groups[n];
        assert(groups[n].spec_id() as u64 == k);
    }
}

/// A step of a run touches the search cache and nothing else, and keeps the lock.
pub proof fn law_steps_touch_only_the_corpus(before: Handlers, after: Handlers, c: Corpus)
    requires
        only_corpus(before, after, c),
    ensures
        after.search@ == c,
        after.search.syncing() == before.search.syncing(),
        after.search.saved() == before.search.saved(),
        after.session == before.session,
        after.cache == before.cache,
        after.boards == before.boards,
        after.history == before.history,
        after.refresh_meta == before.refresh_meta,
        after.queue == before.queue,
        after.config == before.config,
{
}

/// The issues and the merge requests of a run are kept apart, and a step for one
/// leaves what the run has collected of the other.
pub proof fn law_kinds_are_kept_apart(
    r: RunState,
    c: Corpus,
    issues: Seq<SearchIssue>,
    mrs: Seq<SearchMr>,
)
    requires
        on_target(r),
        r.at < r.targets.len(),
    ensures
        after_issues(r, c, issues).0.mrs == r.mrs,
        after_issues(r, c, issues).1.mrs == c.mrs,
        after_issues(r, c, issues).0.assigned == r.assigned,
        after_issues(r, c, issues).1.projects == c.projects,
        after_issues(r, c, issues).1.groups == c.groups,
        after_issues(r, c, issues).1.tracked_set == c.tracked_set,
        after_mrs(r, c, mrs).1.issues == c.issues,
        after_mrs(r, c, mrs).0.assigned == r.assigned,
        after_mrs(r, c, mrs).1.projects == c.projects,
        after_mrs(r, c, mrs).1.groups == c.groups,
        after_mrs(r, c, mrs).1.tracked_set == c.tracked_set,
{
}

/// Preparing a sync over tracked projects drops nothing of a project that stays
/// tracked, changes no entry, and drops nothing at all in an incremental sync.
pub proof fn law_tracked_projects_keep_their_entries(
    h: Handlers,
    c: Corpus,
    assigned: Seq<MrRef>,
    now: u64,
    full: bool,
    k: u64,
)
    ensures
        ({
            let after = tracked_prepared(h, c, assigned, now, full);
            &&& after.projects == c.projects
            &&& after.groups == c.groups
            &&& after.stamps == c.stamps
            &&& c.issues.contains_key(k) && (!full || after.tracked_set.contains_key(
                c.issues[k].project_id as u64,
            )) ==> after.issues.contains_key(k) && after.issues[k] == c.issues[k]
            &&& c.mrs.contains_key(k) && (!full || after.tracked_set.contains_key(
                c.mrs[k].project_id as u64,
            )) ==> after.mrs.contains_key(k) && after.mrs[k] == c.mrs[k]
            &&& after.issues.contains_key(k) ==> c.issues.contains_key(k)
            &&& after.mrs.contains_key(k) ==> c.mrs.contains_key(k)
        }),
{
    let after = tracked_prepared(h, c, assigned, now, full);
    if c.issues.contains_key(k) {
        lemma_tracked_id(after.tracked_set, c.issues[k].project_id);
    }
    if c.mrs.contains_key(k) {
        lemma_tracked_id(after.tracked_set, c.mrs[k].project_id);
    }
}

} // verus!
