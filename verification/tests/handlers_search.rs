use std::collections::HashMap;

use gitlab_trackrd::api::{IssuableKind, Issue, MergeRequest};
use gitlab_trackrd::boards::BoardCache;
use gitlab_trackrd::cache::IssueCache;
use gitlab_trackrd::config::{defaults, SearchPopulation};
use gitlab_trackrd::error::{DormancyReason, Error};
use gitlab_trackrd::gitlab::Issuable;
use gitlab_trackrd::handlers::search::{
    check_args, fetch_live_hits, LiveHits, Reply, SearchReply, SearchStep,
};
use gitlab_trackrd::handlers::search_sync::{Fetch, Outcome};
use gitlab_trackrd::handlers::varlink::{
    internal_kind, wire_kind, LetterStep, Letters, Refill, WriteStep,
};
use gitlab_trackrd::handlers::{ConnState, Handlers, Session};
use gitlab_trackrd::history::{HistoryCache, StoredTimelog};
use gitlab_trackrd::queue::{RetryQueue, WriteCall};
use gitlab_trackrd::refresh_meta::RefreshMeta;
use gitlab_trackrd::search::{
    MrAssignee, SearchCache, SearchGroup, SearchIssue, SearchMr, SearchProject, SyncStamps,
    SEARCH_SCHEMA_VERSION,
};
use gitlab_trackrd::time::Duration;

const NOW: u64 = 1_700_000_000;

fn search_issue(id: i64, title: &str) -> SearchIssue {
    SearchIssue {
        id,
        iid: id * 10,
        project_id: 1,
        title: title.to_string(),
        web_url: format!("https://gl/team/api/-/issues/{}", id * 10),
        state: "opened".to_string(),
        labels: vec![],
        parent: String::new(),
        total_time: String::new(),
        updated_at_secs: 100,
    }
}

fn search_mr(id: i64, title: &str) -> SearchMr {
    SearchMr {
        id,
        iid: id * 10,
        project_id: 1,
        title: title.to_string(),
        web_url: format!("https://gl/team/api/-/merge_requests/{}", id * 10),
        state: "opened".to_string(),
        labels: vec![],
        assignees: vec![],
        updated_at_secs: 100,
    }
}

fn search_project(id: i64, path: &str) -> SearchProject {
    SearchProject {
        id,
        name: path.rsplit('/').next().unwrap().to_string(),
        path: path.to_string(),
        web_url: format!("https://gl/{path}"),
    }
}

fn search_group(id: i64, path: &str) -> SearchGroup {
    SearchGroup {
        id,
        name: path.to_string(),
        path: path.to_string(),
        web_url: format!("https://gl/{path}"),
    }
}

#[derive(Debug, Clone, Copy, PartialEq)]
enum FetchErr {
    Transient,
    Permanent,
}

fn error_of(err: FetchErr) -> Error {
    match err {
        FetchErr::Transient => Error::Transient("offline".into()),
        FetchErr::Permanent => Error::Gitlab("500 Server Error".into()),
    }
}

/// Serves canned entries and takes note of what was asked.
#[derive(Default)]
struct FakeGitlab {
    fetch_err: Option<FetchErr>,
    global_search_err: Option<FetchErr>,
    assigned_mr_err: Option<FetchErr>,
    project_search_err: Option<(i64, FetchErr)>,
    live_err: Option<FetchErr>,
    /// The live lookup does not come back in time.
    live_late: bool,
    search_issues: Vec<SearchIssue>,
    search_mrs: Vec<SearchMr>,
    search_projects: Vec<SearchProject>,
    search_groups: Vec<SearchGroup>,
    assigned_mrs: Vec<SearchMr>,
    live_issues: Vec<SearchIssue>,
    live_mrs: Vec<SearchMr>,
    search_issue_calls: Vec<(Option<i64>, Option<u64>)>,
    search_mr_calls: Vec<(Option<i64>, Option<u64>)>,
    project_list_calls: usize,
    group_list_calls: usize,
    assigned_mr_calls: usize,
    live_issue_calls: usize,
    live_calls: usize,
}

impl FakeGitlab {
    fn failing(err: FetchErr) -> Self {
        FakeGitlab { fetch_err: Some(err), ..Self::default() }
    }

    fn search_err(&self, project: Option<i64>) -> Option<FetchErr> {
        if self.fetch_err.is_some() {
            return self.fetch_err;
        }
        if project.is_none() && self.global_search_err.is_some() {
            return self.global_search_err;
        }
        match self.project_search_err {
            Some((pid, err)) if project == Some(pid) => Some(err),
            _ => None,
        }
    }
}

fn canned_search_fake() -> FakeGitlab {
    FakeGitlab {
        search_issues: vec![search_issue(1, "canned issue")],
        search_mrs: vec![search_mr(1, "canned mr")],
        search_projects: vec![search_project(1, "team/api")],
        search_groups: vec![search_group(1, "team")],
        ..FakeGitlab::default()
    }
}

fn served<T: Clone>(err: Option<FetchErr>, items: &Vec<T>) -> Result<Vec<T>, Error> {
    match err {
        Some(e) => Err(error_of(e)),
        None => Ok(items.clone()),
    }
}

fn handlers_with(session: ConnState) -> Handlers {
    Handlers {
        session,
        cache: IssueCache::open(None),
        boards: BoardCache::open(vec![]),
        history: HistoryCache::open(vec![]),
        search: SearchCache::open(vec![], vec![], vec![], vec![], vec![], None),
        refresh_meta: RefreshMeta::open(None),
        queue: RetryQueue::new(vec![], vec![]),
        config: defaults(),
        reconnect_signal: false,
        drain_wake: false,
        live_search_recent: vec![],
    }
}

fn dormant_handlers() -> Handlers {
    handlers_with(ConnState::Dormant(DormancyReason::NoCredentials))
}

fn connected_handlers() -> Handlers {
    connected_to("gitlab.example.com")
}

fn connected_to(host: &str) -> Handlers {
    handlers_with(ConnState::Connected(Session {
        client: 1,
        host: host.into(),
        user_id: 1,
    }))
}

/// Searches, with the live lookup served by the fake.
fn search_reply(
    h: &mut Handlers,
    fake: &mut FakeGitlab,
    query: &str,
    kinds: Option<Vec<String>>,
    limit: Option<i64>,
) -> Reply<SearchReply> {
    let clock = Duration::from_secs(1000);
    match h.search(query.to_string(), kinds, limit, clock) {
        SearchStep::Answered(reply) => reply,
        SearchStep::Lookup { args, key, .. } => {
            let err = fake.live_err;
            let issues = if args.want("issues") {
                fake.live_calls += 1;
                fake.live_issue_calls += 1;
                Some(served(err, &fake.live_issues))
            } else {
                None
            };
            let mrs = if args.want("merge_requests") {
                fake.live_calls += 1;
                Some(served(err, &fake.live_mrs))
            } else {
                None
            };
            let projects = if args.want("projects") { Some(served(err, &vec![])) } else { None };
            let groups = if args.want("groups") { Some(served(err, &vec![])) } else { None };
            let hits = if fake.live_late {
                None
            } else {
                Some(fetch_live_hits(issues, mrs, projects, groups))
            };
            h.search_done(&args, key, hits, clock, NOW)
        }
    }
}

fn run_search(
    h: &mut Handlers,
    fake: &mut FakeGitlab,
    query: &str,
    kinds: Option<Vec<String>>,
    limit: Option<i64>,
) -> SearchReply {
    match search_reply(h, fake, query, kinds, limit) {
        Reply::Success(s) => s,
        other => panic!("expected success, got {other:?}"),
    }
}

/// Seeds all four kinds and stamps the cache as synced.
fn seed_search_cache(h: &mut Handlers) {
    let g = h.search.try_begin_sync().unwrap();
    let mut labeled = search_issue(2, "unrelated title");
    labeled.labels = vec!["Backend".to_string()];
    g.upsert_issues(&mut h.search, vec![search_issue(1, "OAuth token refresh"), labeled]);
    g.upsert_mrs(&mut h.search, vec![search_mr(3, "Fix oauth flow")]);
    g.upsert_projects(&mut h.search, vec![search_project(4, "team/auth-service")]);
    g.upsert_groups(&mut h.search, vec![search_group(5, "team")]);
    g.set_stamps(
        &mut h.search,
        &SyncStamps {
            last_partial_sync_secs: 1,
            last_full_sync_secs: 1,
            ..Default::default()
        },
    );
    g.end(&mut h.search);
}

fn issue(project_id: i64, iid: i64, title: &str, web_url: &str) -> Issue {
    Issue {
        id: 0,
        iid,
        project_id,
        title: title.to_string(),
        web_url: web_url.to_string(),
        state: "opened".to_string(),
        parent: String::new(),
        total_time: String::new(),
        graph_status: String::new(),
    }
}

fn stored(timelog_id: u64, spent_at_secs: u64) -> StoredTimelog {
    StoredTimelog {
        timelog_id,
        spent_at_secs,
        kind: Issuable::Issue,
        project_id: 1,
        iid: 1,
        title: "t".into(),
        web_url: "u".into(),
        duration: "1h".into(),
        summary: String::new(),
    }
}

fn set_stamps(h: &mut Handlers, stamps: SyncStamps) {
    let g = h.search.try_begin_sync().unwrap();
    g.set_stamps(&mut h.search, &stamps);
    g.end(&mut h.search);
}

fn put_issues(h: &mut Handlers, items: Vec<SearchIssue>) {
    let g = h.search.try_begin_sync().unwrap();
    g.upsert_issues(&mut h.search, items);
    g.end(&mut h.search);
}

fn issue_ids(h: &Handlers) -> Vec<i64> {
    h.search.all_issues().iter().map(|i| i.id).collect()
}

fn mr_ids(h: &Handlers) -> Vec<i64> {
    h.search.all_mrs().iter().map(|m| m.id).collect()
}

/// Runs a sync to its end against the fake; how it ended.
fn sync_search_cache(h: &mut Handlers, fake: &mut FakeGitlab, now: u64) -> Option<Outcome> {
    let mut run = h.sync_search_cache(now)?;
    assert_eq!(run.client(), 1);
    while let Some(fetch) = run.next_fetch() {
        match fetch {
            Fetch::MemberProjects => {
                fake.project_list_calls += 1;
                run.projects_fetched(h, served(fake.fetch_err, &fake.search_projects));
            }
            Fetch::MemberGroups => {
                fake.group_list_calls += 1;
                run.groups_fetched(h, served(fake.fetch_err, &fake.search_groups));
            }
            Fetch::AssignedMergeRequests => {
                fake.assigned_mr_calls += 1;
                let err = fake.fetch_err.or(fake.assigned_mr_err);
                run.assigned_fetched(h, served(err, &fake.assigned_mrs), now);
            }
            Fetch::Issues { project, updated_after } => {
                fake.search_issue_calls.push((project, updated_after));
                run.issues_fetched(h, served(fake.search_err(project), &fake.search_issues));
            }
            Fetch::MergeRequests { project, updated_after } => {
                fake.search_mr_calls.push((project, updated_after));
                run.mrs_fetched(h, served(fake.search_err(project), &fake.search_mrs));
            }
        }
    }
    let outcome = run.outcome();
    run.finish(h);
    outcome
}

// ── the background sync ─────────────────────────────────────────────────

#[test]
fn search_sync_throttled_while_stamps_fresh() {
    let mut fake = canned_search_fake();
    let mut h = connected_handlers();
    set_stamps(
        &mut h,
        SyncStamps {
            last_partial_sync_secs: NOW,
            last_full_sync_secs: NOW,
            schema_version: SEARCH_SCHEMA_VERSION,
            ..Default::default()
        },
    );
    sync_search_cache(&mut h, &mut fake, NOW);
    assert_eq!(
        fake.project_list_calls, 0,
        "fresh stamps → no GitLab traffic (the restart-storm guard)"
    );
    assert!(fake.search_issue_calls.is_empty());
}

#[test]
fn search_sync_cold_cache_runs_full_and_stamps_both() {
    let mut fake = canned_search_fake();
    let mut h = connected_handlers();
    h.config.search.population = SearchPopulation::All;

    let outcome = sync_search_cache(&mut h, &mut fake, NOW);

    assert_eq!(outcome, Some(Outcome::Done));
    assert_eq!(h.search.all_issues().len(), 1);
    assert_eq!(h.search.all_mrs().len(), 1);
    assert_eq!(h.search.all_projects().len(), 1);
    assert_eq!(h.search.all_groups().len(), 1);

    let stamps = h.search.stamps();
    assert!(stamps.last_partial_sync_secs > 0, "partial stamp set");
    assert_eq!(
        stamps.last_partial_sync_secs, stamps.last_full_sync_secs,
        "a full sync advances both stamps together"
    );
    assert_eq!(
        fake.search_issue_calls.as_slice(),
        &[(None, None)],
        "population=all + full sync → one global fetch, no cursor"
    );
    assert_eq!(fake.group_list_calls, 1);
}

#[test]
fn search_sync_full_drops_entries_gitlab_no_longer_returns() {
    let mut fake = canned_search_fake();
    let mut h = connected_handlers();
    h.config.search.population = SearchPopulation::All;
    let g = h.search.try_begin_sync().unwrap();
    g.upsert_issues(&mut h.search, vec![search_issue(99, "deleted upstream")]);
    g.upsert_mrs(&mut h.search, vec![search_mr(99, "deleted upstream")]);
    g.end(&mut h.search);

    sync_search_cache(&mut h, &mut fake, NOW); // zero stamps → full sync

    assert_eq!(issue_ids(&h), vec![1], "issue 99 reconciled away by the full sync");
    assert_eq!(mr_ids(&h), vec![1], "mr 99 reconciled away by the full sync");
}

#[test]
fn search_sync_incremental_uses_overlap_cursor_and_keeps_full_stamp() {
    let mut fake = canned_search_fake();
    let mut h = connected_handlers();
    h.config.search.population = SearchPopulation::All;
    // Partial overdue (default interval 1800s), full still fresh.
    let stamps = SyncStamps {
        last_partial_sync_secs: NOW - 10_000,
        last_full_sync_secs: NOW - 100,
        schema_version: SEARCH_SCHEMA_VERSION,
        ..Default::default()
    };
    set_stamps(&mut h, stamps);
    // An entry GitLab no longer returns: an incremental sync must keep it.
    put_issues(&mut h, vec![search_issue(99, "stale but kept")]);

    sync_search_cache(&mut h, &mut fake, NOW);

    assert_eq!(fake.search_issue_calls.len(), 1);
    let (project, cursor) = fake.search_issue_calls[0];
    assert_eq!(project, None);
    assert_eq!(
        cursor.expect("incremental sync passes a cursor"),
        stamps.last_partial_sync_secs - 300,
        "cursor is the last partial sync minus the overlap margin"
    );

    let fresh = h.search.stamps();
    assert!(fresh.last_partial_sync_secs >= NOW, "partial stamp advanced");
    assert_eq!(
        fresh.last_full_sync_secs, stamps.last_full_sync_secs,
        "incremental sync leaves the full stamp alone"
    );
    let mut ids = issue_ids(&h);
    ids.sort_unstable();
    assert_eq!(ids, vec![1, 99], "incremental sync upserts without pruning");
}

#[test]
fn search_sync_transient_failure_leaves_stamps_and_demotes() {
    let mut fake = FakeGitlab::failing(FetchErr::Transient);
    let mut h = connected_handlers();
    sync_search_cache(&mut h, &mut fake, NOW);
    let stamps = h.search.stamps();
    assert_eq!(
        (stamps.last_partial_sync_secs, stamps.last_full_sync_secs),
        (0, 0),
        "failed sync must not advance the stamps — next tick retries"
    );
    assert!(
        matches!(&h.session, ConnState::Dormant(_)),
        "transient fetch failure demotes the session"
    );
    assert!(h.reconnect_signal, "demotion wakes the reconnect supervisor");
    assert!(!h.search.is_syncing(), "the guard is given back");
}

#[test]
fn search_sync_permanent_failure_does_not_demote() {
    let mut fake = FakeGitlab::failing(FetchErr::Permanent);
    let mut h = connected_handlers();
    let outcome = sync_search_cache(&mut h, &mut fake, NOW);
    assert_eq!(outcome, Some(Outcome::Failed));
    assert_eq!(h.search.stamps().last_partial_sync_secs, 0);
    assert!(
        matches!(&h.session, ConnState::Connected(_)),
        "a permanent GitLab error is logged, not a connectivity problem"
    );
    assert!(!h.reconnect_signal, "no reconnect signal for a permanent error");
}

#[test]
fn search_sync_assigned_mrs_feed_corpus_and_assigned_view() {
    let mut fake = canned_search_fake();
    // The population fetch sees nothing; only the direct assigned fetch
    // carries the MR (session user is id 1).
    fake.search_mrs = vec![];
    let mut mine = search_mr(50, "assigned but unpopulated");
    mine.assignees = vec![MrAssignee { id: 1, username: "me".into() }];
    fake.assigned_mrs = vec![mine];
    let mut h = connected_handlers();

    sync_search_cache(&mut h, &mut fake, NOW);

    assert_eq!(fake.assigned_mr_calls, 1);
    assert_eq!(mr_ids(&h), vec![50], "assigned MR reached the corpus directly");
    let mrs = reply_mrs(h.get_assigned_merge_requests(None));
    assert_eq!(
        mrs.len(),
        1,
        "assigned view must not depend on population coverage"
    );
    assert_eq!(mrs[0].iid, 500);
}

#[test]
fn search_sync_full_retain_keeps_assigned_mrs() {
    let mut fake = canned_search_fake(); // population serves MR id 1
    fake.assigned_mrs = vec![search_mr(50, "assigned only")];
    let mut h = connected_handlers();
    sync_search_cache(&mut h, &mut fake, NOW); // zero stamps → full sync with retain
    let mut ids = mr_ids(&h);
    ids.sort_unstable();
    assert_eq!(
        ids,
        vec![1, 50],
        "full-sync retain must not prune an assigned MR the population fetch missed"
    );
}

#[test]
fn search_sync_assigned_mr_transient_failure_leaves_stamps_and_demotes() {
    let mut fake = FakeGitlab {
        assigned_mr_err: Some(FetchErr::Transient),
        ..canned_search_fake()
    };
    let mut h = connected_handlers();
    sync_search_cache(&mut h, &mut fake, NOW);
    let stamps = h.search.stamps();
    assert_eq!(
        (stamps.last_partial_sync_secs, stamps.last_full_sync_secs),
        (0, 0),
        "a failed assigned-MR fetch must not advance the stamps"
    );
    assert!(
        matches!(&h.session, ConnState::Dormant(_)),
        "transient assigned-MR fetch failure demotes the session"
    );
}

#[test]
fn search_sync_auto_resolves_to_tracked_on_every_host() {
    for host in ["gitlab.com", "gitlab.example.com"] {
        let mut fake = canned_search_fake();
        let mut h = connected_to(host);
        sync_search_cache(&mut h, &mut fake, NOW);
        assert!(
            fake.search_issue_calls.is_empty(),
            "auto → tracked with no evidence fetches no issues on {host}"
        );
        assert!(
            fake.search_mr_calls.is_empty(),
            "auto → tracked with no evidence fetches no MRs on {host}"
        );
        assert_eq!(
            fake.assigned_mr_calls, 1,
            "the direct assigned-MR fetch still runs on {host}"
        );
        let stamps = h.search.stamps();
        assert!(
            stamps.last_full_sync_secs > 0,
            "an evidence-less tracked sync still completes and stamps"
        );
        assert!(!stamps.degraded_to_member, "vestigial flag stays false");
    }
}

fn assigned_in_project_9() -> Vec<SearchMr> {
    let mut mine = search_mr(90, "assigned");
    mine.project_id = 9;
    vec![mine]
}

#[test]
fn search_sync_tracked_derives_from_all_evidence_sources() {
    let mut fake = canned_search_fake();
    // Evidence: assigned MR in project 9; the direct fetch delivers it.
    fake.assigned_mrs = assigned_in_project_9();
    let mut h = connected_handlers();
    // Evidence: assigned issue in project 7 (issue cache) and a recent
    // history entry in project 5.
    h.cache
        .put(vec![issue(7, 70, "assigned", "https://gl/team/api/-/issues/70")]);
    let mut event = stored(1, NOW);
    event.project_id = 5;
    h.history.upsert(vec![event]);

    sync_search_cache(&mut h, &mut fake, NOW);

    let fetched: Vec<Option<i64>> = fake.search_issue_calls.iter().map(|(p, _)| *p).collect();
    assert_eq!(
        fetched,
        vec![Some(5), Some(7), Some(9)],
        "exactly the evidenced projects are refreshed, in order"
    );
    assert!(
        fake.search_issue_calls.iter().all(|(_, cursor)| cursor.is_none()),
        "cold sync is a full sync — no cursor"
    );
    let mut noted: Vec<i64> = h.search.tracked_projects().into_iter().map(|(id, _)| id).collect();
    noted.sort_unstable();
    assert_eq!(noted, vec![5, 7, 9]);
}

#[test]
fn search_sync_tracked_partial_uses_cursor_per_project() {
    let mut fake = canned_search_fake();
    fake.assigned_mrs = assigned_in_project_9();
    let mut h = connected_handlers();
    let stamps = SyncStamps {
        last_partial_sync_secs: NOW - 10_000,
        last_full_sync_secs: NOW - 100,
        schema_version: SEARCH_SCHEMA_VERSION,
        synced_user_id: 1,
        ..Default::default()
    };
    set_stamps(&mut h, stamps);

    sync_search_cache(&mut h, &mut fake, NOW);

    assert_eq!(fake.search_issue_calls.len(), 1);
    let (project, cursor) = fake.search_issue_calls[0];
    assert_eq!(project, Some(9), "partial refreshes the tracked project");
    assert_eq!(
        cursor.expect("partial sync passes a cursor"),
        stamps.last_partial_sync_secs - 300,
        "cursor is the last partial sync minus the overlap margin"
    );
}

#[test]
fn search_sync_tracked_full_retains_per_project() {
    let mut fake = canned_search_fake();
    // Tracked evidence for project 9; the per-project fetch serves the
    // canned issue 1 (project 1), i.e. nothing that vouches for issue 99.
    fake.assigned_mrs = assigned_in_project_9();
    let mut h = connected_handlers();
    let mut stale = search_issue(99, "deleted upstream");
    stale.project_id = 9;
    put_issues(&mut h, vec![stale]);

    sync_search_cache(&mut h, &mut fake, NOW); // zero stamps → full sync

    assert_eq!(
        issue_ids(&h),
        vec![1],
        "issue 99 reconciled away by the per-project retain; the fetched issue survives"
    );
}

#[test]
fn search_sync_tracked_evicts_stale_projects_and_prunes_their_corpus() {
    let mut fake = canned_search_fake();
    let mut h = connected_handlers();
    // Project 3 was tracked long ago (evidence far outside the 90-day
    // retention) and left corpus entries behind; no current evidence.
    let g = h.search.try_begin_sync().unwrap();
    g.note_tracked(&mut h.search, &vec![3], NOW - 400 * 24 * 3600);
    let mut old = search_issue(30, "from the evicted project");
    old.project_id = 3;
    g.upsert_issues(&mut h.search, vec![old]);
    g.end(&mut h.search);

    sync_search_cache(&mut h, &mut fake, NOW); // zero stamps → full sync

    assert!(
        h.search.tracked_projects().is_empty(),
        "stale evidence evicts the tracked project"
    );
    assert!(
        h.search.all_issues().is_empty(),
        "the evicted project's corpus entries are pruned"
    );
    assert!(
        fake.search_issue_calls.is_empty(),
        "evicted projects are not refreshed"
    );
}

#[test]
fn search_sync_tracked_migration_prunes_eager_leftovers_only_on_full() {
    let mut fake = canned_search_fake();
    let mut h = connected_handlers();
    // A corpus inherited from an eager population: entries in a project with
    // no evidence, under valid current-schema stamps.
    let mut leftover = search_issue(42, "from the all-population era");
    leftover.project_id = 3;
    put_issues(&mut h, vec![leftover]);
    set_stamps(
        &mut h,
        SyncStamps {
            last_partial_sync_secs: NOW - 10_000,
            last_full_sync_secs: NOW - 100,
            schema_version: SEARCH_SCHEMA_VERSION,
            synced_user_id: 1,
            ..Default::default()
        },
    );

    sync_search_cache(&mut h, &mut fake, NOW); // partial: upsert-only, no sweep

    assert_eq!(
        h.search.all_issues().len(),
        1,
        "a partial sync keeps unevidenced leftovers"
    );

    // Force the full cadence: the sweep drops what nothing vouches for.
    set_stamps(
        &mut h,
        SyncStamps {
            last_partial_sync_secs: NOW - 10_000,
            last_full_sync_secs: 1,
            schema_version: SEARCH_SCHEMA_VERSION,
            synced_user_id: 1,
            ..Default::default()
        },
    );

    sync_search_cache(&mut h, &mut fake, NOW);

    assert!(
        h.search.all_issues().is_empty(),
        "the full-tier sweep prunes corpus entries of never-tracked projects"
    );
}

#[test]
fn search_sync_tracked_skips_permanently_rejected_projects() {
    let mut fake = FakeGitlab {
        // Project 5 (history evidence) 403s its per-project fetches; the
        // sync must skip it and still refresh project 9 and stamp.
        project_search_err: Some((5, FetchErr::Permanent)),
        ..canned_search_fake()
    };
    fake.assigned_mrs = assigned_in_project_9();
    let mut h = connected_handlers();
    let mut event = stored(1, NOW);
    event.project_id = 5;
    h.history.upsert(vec![event]);

    sync_search_cache(&mut h, &mut fake, NOW);

    assert!(
        h.search.stamps().last_full_sync_secs > 0,
        "one inaccessible project must not wedge the sync"
    );
    let fetched: Vec<Option<i64>> = fake.search_issue_calls.iter().map(|(p, _)| *p).collect();
    assert_eq!(
        fetched,
        vec![Some(5), Some(9)],
        "the rejected project is attempted, the healthy one still refreshed"
    );
    assert!(
        matches!(&h.session, ConnState::Connected(_)),
        "a per-project rejection is not a connectivity problem"
    );
}

#[test]
fn search_sync_tracked_transient_project_failure_still_aborts() {
    let mut fake = FakeGitlab {
        project_search_err: Some((9, FetchErr::Transient)),
        ..canned_search_fake()
    };
    fake.assigned_mrs = assigned_in_project_9();
    let mut h = connected_handlers();

    sync_search_cache(&mut h, &mut fake, NOW);

    assert_eq!(
        h.search.stamps().last_partial_sync_secs,
        0,
        "a network failure aborts the run so the next tick retries"
    );
    assert!(
        matches!(&h.session, ConnState::Dormant(_)),
        "transient per-project failure demotes as usual"
    );
}

#[test]
fn search_sync_stale_schema_version_forces_full_resync() {
    let mut fake = canned_search_fake();
    let mut h = connected_handlers();
    h.config.search.population = SearchPopulation::All;
    // Perfectly fresh stamps, but written under entry-schema version 0 (rows
    // predate assignee capture). Without the version check this sync would be
    // throttled outright.
    set_stamps(
        &mut h,
        SyncStamps {
            last_partial_sync_secs: NOW - 1,
            last_full_sync_secs: NOW - 1,
            degraded_to_member: false,
            schema_version: 0,
            synced_user_id: 0,
        },
    );

    sync_search_cache(&mut h, &mut fake, NOW);

    assert_eq!(
        fake.search_issue_calls.as_slice(),
        &[(None, None)],
        "stale schema → treated as never synced → one full global fetch"
    );
    let stamps = h.search.stamps();
    assert_eq!(stamps.schema_version, SEARCH_SCHEMA_VERSION);
    assert_eq!(
        stamps.synced_user_id, 1,
        "session user id persisted for the assigned-MR filter"
    );
}

#[test]
fn search_sync_explicit_all_is_never_degraded() {
    let mut fake = canned_search_fake();
    fake.global_search_err = Some(FetchErr::Permanent);
    let mut h = connected_handlers();
    h.config.search.population = SearchPopulation::All;

    let outcome = sync_search_cache(&mut h, &mut fake, NOW);

    assert_eq!(outcome, Some(Outcome::GlobalRejected));
    assert_eq!(
        fake.search_issue_calls.as_slice(),
        &[(None, None)],
        "an explicit all is respected — no member fallback"
    );
    let stamps = h.search.stamps();
    assert_eq!(
        stamps.last_partial_sync_secs, 0,
        "rejected sync does not stamp"
    );
    assert!(!stamps.degraded_to_member);
}

#[test]
fn search_sync_member_population_fetches_per_project() {
    let mut fake = canned_search_fake();
    fake.search_projects = vec![search_project(1, "team/api"), search_project(2, "team/web")];
    let mut h = connected_handlers();
    h.config.search.population = SearchPopulation::Member;

    sync_search_cache(&mut h, &mut fake, NOW);

    let projects: Vec<Option<i64>> = fake.search_issue_calls.iter().map(|(p, _)| *p).collect();
    assert_eq!(
        projects,
        vec![Some(1), Some(2)],
        "member population → one issues fetch per member project"
    );
    let projects: Vec<Option<i64>> = fake.search_mr_calls.iter().map(|(p, _)| *p).collect();
    assert_eq!(projects, vec![Some(1), Some(2)]);
}

#[test]
fn a_second_sync_waits_for_the_first() {
    let mut h = connected_handlers();
    let run = h.sync_search_cache(NOW).expect("never synced");
    assert!(h.sync_search_cache(NOW).is_none());
    run.finish(&mut h);
    assert_eq!(h.search.stamps().last_full_sync_secs, 0, "nothing was fetched");
    assert!(h.sync_search_cache(NOW).is_some());
    assert!(dormant_handlers().sync_search_cache(NOW).is_none());
}

// ── search: the cache read ──────────────────────────────────────────────

#[test]
fn search_matches_title_labels_and_paths_case_insensitively() {
    let mut fake = FakeGitlab::default();
    let mut h = dormant_handlers();
    seed_search_cache(&mut h);

    let r = run_search(&mut h, &mut fake, "OAUTH", None, None);
    assert_eq!(r.issues.len(), 1, "title substring match");
    assert_eq!(r.issues[0].id, 1);
    assert_eq!(r.merge_requests.len(), 1, "MR title match");
    assert!(r.projects.is_empty());
    assert!(r.groups.is_empty());

    let r = run_search(&mut h, &mut fake, "backend", None, None);
    assert_eq!(r.issues.len(), 1, "label match");
    assert_eq!(r.issues[0].id, 2);

    let r = run_search(&mut h, &mut fake, "team", None, None);
    assert_eq!(r.projects.len(), 1, "project path match");
    assert_eq!(r.groups.len(), 1, "group path match");
}

#[test]
fn search_iid_reference_matches_issues_and_mrs() {
    let mut fake = FakeGitlab::default();
    let mut h = dormant_handlers();
    seed_search_cache(&mut h);

    // search_issue(1, ..) has iid 10; search_mr(3, ..) has iid 30.
    let r = run_search(&mut h, &mut fake, "#10", None, None);
    assert_eq!(r.issues.len(), 1, "issue found by #iid");
    assert!(r.merge_requests.is_empty(), "no MR has iid 10");

    let r = run_search(&mut h, &mut fake, "#30", None, None);
    assert!(r.issues.is_empty());
    assert_eq!(r.merge_requests.len(), 1, "MR found by #iid");
}

#[test]
fn search_kinds_filter_restricts_the_reply() {
    let mut h = dormant_handlers();
    seed_search_cache(&mut h);
    let r = run_search(
        &mut h,
        &mut FakeGitlab::default(),
        "team",
        Some(vec!["projects".to_string()]),
        None,
    );
    assert_eq!(r.projects.len(), 1);
    assert!(
        r.groups.is_empty(),
        "matching group suppressed by the kinds filter"
    );
}

#[test]
fn search_orders_by_recency_and_applies_per_kind_limit() {
    let mut h = dormant_handlers();
    let mut old = search_issue(1, "match old");
    old.updated_at_secs = 100;
    let mut new = search_issue(2, "match new");
    new.updated_at_secs = 200;
    put_issues(&mut h, vec![old, new]);
    set_stamps(
        &mut h,
        SyncStamps {
            last_partial_sync_secs: 1,
            last_full_sync_secs: 1,
            ..Default::default()
        },
    );

    let r = run_search(&mut h, &mut FakeGitlab::default(), "match", None, Some(1));
    assert_eq!(r.issues.len(), 1, "per-kind limit applied");
    assert_eq!(r.issues[0].id, 2, "most recently updated wins");
}

#[test]
fn search_cold_cache_connected_is_empty() {
    let mut fake = canned_search_fake();
    let mut h = connected_handlers();
    let r = run_search(&mut h, &mut fake, "canned", None, None);
    assert!(
        r.issues.is_empty() && r.merge_requests.is_empty(),
        "first sync still pending → empty reply, no fetch from the read path"
    );
    assert_eq!(
        fake.project_list_calls, 0,
        "the read handler must never touch GitLab"
    );
}

#[test]
fn search_graph_status_comes_from_cached_boards_only() {
    let mut h = dormant_handlers();
    h.boards.put(1, vec!["Doing".to_string()]);

    let mut on_board = search_issue(1, "match on-board");
    on_board.labels = vec!["random".to_string(), "Doing".to_string()];
    let mut off_board = search_issue(2, "match off-board");
    off_board.labels = vec!["random".to_string()];
    let mut foreign = search_issue(3, "match foreign project");
    foreign.project_id = 99;
    put_issues(&mut h, vec![on_board, off_board, foreign]);
    set_stamps(
        &mut h,
        SyncStamps {
            last_partial_sync_secs: 1,
            last_full_sync_secs: 1,
            ..Default::default()
        },
    );

    let r = run_search(&mut h, &mut FakeGitlab::default(), "match", None, None);
    let by_id: HashMap<i64, &Issue> = r.issues.iter().map(|i| (i.id, i)).collect();
    assert_eq!(by_id[&1].graph_status, "Doing", "board label matched");
    assert_eq!(
        by_id[&2].graph_status, "opened",
        "no matching label → state fallback"
    );
    assert_eq!(
        by_id[&3].graph_status, "",
        "project without cached board → empty, no fetch"
    );
}

#[test]
fn clear_cache_search_scope_empties_and_resets_stamps() {
    let mut h = dormant_handlers();
    seed_search_cache(&mut h);
    h.clear_cache(Some(vec!["search".to_string()]), NOW);
    assert!(h.search.all_issues().is_empty());
    assert!(h.search.all_projects().is_empty());
    assert_eq!(
        h.search.stamps().last_partial_sync_secs,
        0,
        "stamps reset so the next sync runs full"
    );
}

#[test]
fn clear_cache_search_scope_waits_out_an_in_flight_sync() {
    let mut h = dormant_handlers();
    seed_search_cache(&mut h);
    let scope = vec!["search".to_string()];

    // While a sync holds the guard, the clear must wait instead of wiping the
    // corpus under the sync's feet.
    let guard = h.search.try_begin_sync().unwrap();
    assert!(!h.clear_search(&scope), "clear waits while a sync runs");
    assert_eq!(h.search.all_issues().len(), 2, "nothing is cleared meanwhile");

    guard.end(&mut h.search);
    assert!(h.clear_search(&scope));
    assert!(h.search.all_issues().is_empty());
    assert_eq!(h.search.stamps().last_partial_sync_secs, 0);
}

#[test]
fn clear_cache_search_scope_triggers_full_resync_when_connected() {
    let mut fake = canned_search_fake();
    let mut h = connected_handlers();
    h.config.search.population = SearchPopulation::All;
    seed_search_cache(&mut h);

    match h.clear_cache(Some(vec!["search".to_string()]), NOW) {
        Refill::Parts { search: true, .. } => {
            sync_search_cache(&mut h, &mut fake, NOW);
        }
        other => panic!("connected clear re-syncs, got {other:?}"),
    }

    assert!(
        fake.project_list_calls > 0,
        "connected clear re-syncs immediately"
    );
    assert_eq!(
        h.search.all_issues().len(),
        1,
        "cache repopulated from the canned full sync"
    );
    assert!(h.search.stamps().last_full_sync_secs > 0);
}

// ── search: the live lookup ─────────────────────────────────────────────

#[test]
fn search_live_hits_merge_persist_and_track_member_projects_only() {
    let mut fake = canned_search_fake();
    // Two live hits whose titles do NOT contain the needle: they matched in
    // descriptions, which the corpus doesn't store. One is in the member
    // project the seeded corpus knows (4), one in a foreign project (7).
    let mut member_hit = search_issue(60, "unrelated words");
    member_hit.project_id = 4;
    let mut foreign_hit = search_issue(70, "other unrelated words");
    foreign_hit.project_id = 7;
    fake.live_issues = vec![member_hit, foreign_hit];
    let mut h = connected_handlers();
    seed_search_cache(&mut h);

    let reply = run_search(&mut h, &mut fake, "oauth", None, None);

    let ids: Vec<i64> = reply.issues.iter().map(|i| i.id).collect();
    assert!(ids.contains(&1), "the local title match is served");
    assert!(
        ids.contains(&60) && ids.contains(&70),
        "description-only live hits pass through"
    );
    let cached = issue_ids(&h);
    assert!(
        cached.contains(&60) && cached.contains(&70),
        "both live hits land in the corpus"
    );
    let noted: Vec<i64> = h.search.tracked_projects().into_iter().map(|(id, _)| id).collect();
    assert!(
        noted.contains(&4),
        "the member project's live hit earns a tracked slot"
    );
    assert!(
        !noted.contains(&7),
        "a foreign project's live hit must not enroll it in the background refresh"
    );
}

#[test]
fn search_live_hit_updates_and_dedupes_with_cached_row() {
    let mut fake = canned_search_fake();
    let mut fresher = search_issue(1, "OAuth token refresh (edited)");
    fresher.updated_at_secs = 999;
    fake.live_issues = vec![fresher];
    let mut h = connected_handlers();
    seed_search_cache(&mut h);

    let reply = run_search(&mut h, &mut fake, "oauth", Some(vec!["issues".into()]), None);

    let matching: Vec<&Issue> = reply.issues.iter().filter(|i| i.id == 1).collect();
    assert_eq!(matching.len(), 1, "one reply row per global id");
    assert_eq!(
        matching[0].title, "OAuth token refresh (edited)",
        "the fresher live copy wins"
    );
}

#[test]
fn search_live_deadline_falls_back_to_cache() {
    let mut fake = FakeGitlab { live_late: true, ..canned_search_fake() };
    fake.live_issues = vec![search_issue(70, "oauth live")];
    let mut h = connected_handlers();
    h.config.search.live_deadline_ms = 50;
    seed_search_cache(&mut h);
    match h.search("oauth".into(), None, None, Duration::from_secs(1)) {
        SearchStep::Lookup { deadline, .. } => {
            assert_eq!(deadline, Duration::from_millis(50), "the deadline bounds the wait")
        }
        other => panic!("{other:?}"),
    }

    let reply = run_search(&mut h, &mut fake, "oauth", Some(vec!["issues".into()]), None);

    let ids: Vec<i64> = reply.issues.iter().map(|i| i.id).collect();
    assert_eq!(ids, vec![1], "cache-only reply after the deadline");
    assert!(
        !issue_ids(&h).contains(&70),
        "a timed-out lookup caches nothing"
    );
    assert!(
        matches!(&h.session, ConnState::Connected(_)),
        "a slow instance is not a dead session"
    );
}

#[test]
fn search_first_ever_query_works_lazily() {
    let mut fake = canned_search_fake();
    fake.live_issues = vec![search_issue(70, "oauth live")];
    let mut h = connected_handlers();
    let reply = run_search(&mut h, &mut fake, "oauth", Some(vec!["issues".into()]), None);
    let ids: Vec<i64> = reply.issues.iter().map(|i| i.id).collect();
    assert_eq!(ids, vec![70], "cold cache + live hit → results");
    assert!(
        issue_ids(&h).contains(&70),
        "the first search seeds the corpus"
    );
}

#[test]
fn search_cold_cache_dormant_is_not_authenticated() {
    let mut h = dormant_handlers();
    let reply = search_reply(&mut h, &mut FakeGitlab::default(), "anything", None, None);
    assert_eq!(
        reply.error(),
        Some("org.thehoster.gitlab.trackrd.NotAuthenticated"),
        "never-synced while dormant → honest auth error"
    );
}

#[test]
fn search_dormant_serves_cache_without_live_lookup() {
    let mut fake = FakeGitlab::default();
    let mut h = dormant_handlers();
    seed_search_cache(&mut h);
    let reply = run_search(&mut h, &mut fake, "oauth", None, None);
    assert_eq!(
        reply.issues.len(),
        1,
        "dormant search stays a pure cache read"
    );
    assert_eq!(fake.live_calls, 0);
}

#[test]
fn search_live_failure_never_demotes() {
    for err in [FetchErr::Transient, FetchErr::Permanent] {
        let mut fake = FakeGitlab { live_err: Some(err), ..canned_search_fake() };
        let mut h = connected_handlers();
        seed_search_cache(&mut h);
        let reply = run_search(&mut h, &mut fake, "oauth", None, None);
        assert_eq!(reply.issues.len(), 1, "the cache is still served");
        assert!(
            matches!(&h.session, ConnState::Connected(_)),
            "the read path has no demotion authority ({err:?})"
        );
        assert!(!h.reconnect_signal, "no reconnect signal from the live path");
    }
}

#[test]
fn search_live_debounce_skips_identical_queries() {
    let mut fake = canned_search_fake();
    let mut h = connected_handlers();
    seed_search_cache(&mut h);

    run_search(&mut h, &mut fake, "oauth", None, None);
    run_search(&mut h, &mut fake, "oauth", None, None);
    assert_eq!(
        fake.live_issue_calls, 1,
        "an identical repeat within the window is debounced"
    );

    run_search(&mut h, &mut fake, "other", None, None);
    assert_eq!(
        fake.live_issue_calls, 2,
        "a different query is not debounced"
    );
}

#[test]
fn search_live_debounce_disabled_by_zero() {
    let mut fake = canned_search_fake();
    let mut h = connected_handlers();
    h.config.search.live_debounce_secs = 0;
    seed_search_cache(&mut h);
    run_search(&mut h, &mut fake, "oauth", None, None);
    run_search(&mut h, &mut fake, "oauth", None, None);
    assert_eq!(fake.live_issue_calls, 2);
}

#[test]
fn a_partly_failed_lookup_does_not_hold_off_the_next() {
    let mut fake = FakeGitlab { live_err: Some(FetchErr::Permanent), ..canned_search_fake() };
    let mut h = connected_handlers();
    seed_search_cache(&mut h);
    run_search(&mut h, &mut fake, "oauth", None, None);
    run_search(&mut h, &mut fake, "oauth", None, None);
    assert_eq!(fake.live_issue_calls, 2);
}

#[test]
fn search_eager_population_stays_a_pure_cache_read() {
    let mut fake = canned_search_fake();
    let mut h = connected_handlers();
    h.config.search.population = SearchPopulation::Member;
    seed_search_cache(&mut h);
    let reply = run_search(&mut h, &mut fake, "oauth", None, None);
    assert_eq!(reply.issues.len(), 1);
    assert_eq!(
        fake.live_calls, 0,
        "eager populations keep Search fully offline"
    );
}

#[test]
fn search_iid_query_filters_live_noise() {
    let mut fake = canned_search_fake();
    // Both live hits matched "#10" only in their descriptions: one is the real
    // reference (iid 10), one is unrelated noise (iid 999).
    let mut noise = search_mr(80, "unrelated words");
    noise.iid = 999;
    let mut real = search_mr(81, "also unrelated");
    real.iid = 10;
    fake.live_mrs = vec![noise, real];
    let mut h = connected_handlers();
    seed_search_cache(&mut h);

    let reply = run_search(&mut h, &mut fake, "#10", Some(vec!["merge_requests".into()]), None);

    let iids: Vec<i64> = reply.merge_requests.iter().map(|m| m.iid).collect();
    assert!(iids.contains(&10), "the exact reference passes");
    assert!(
        !iids.contains(&999),
        "reference queries stay exact — description noise is filtered"
    );
}

#[test]
fn search_serves_live_hits_without_caching_while_sync_holds_the_gate() {
    let mut fake = canned_search_fake();
    fake.live_issues = vec![search_issue(70, "oauth live")];
    let mut h = connected_handlers();
    seed_search_cache(&mut h);
    let guard = h.search.try_begin_sync().unwrap(); // a background sync in flight

    let reply = run_search(&mut h, &mut fake, "oauth", Some(vec!["issues".into()]), None);

    let ids: Vec<i64> = reply.issues.iter().map(|i| i.id).collect();
    assert!(ids.contains(&70), "live hits are served via pass-through");
    guard.end(&mut h.search);
    assert!(
        !issue_ids(&h).contains(&70),
        "nothing was cached while the sync ran"
    );
}

#[test]
fn search_rejects_bad_arguments_before_anything_else() {
    let mut fake = canned_search_fake();
    let mut h = connected_handlers();
    let cases: Vec<(&str, Option<Vec<String>>, Option<i64>, &str)> = vec![
        ("", None, None, "empty search query"),
        ("  \t", None, None, "empty search query"),
        ("x", None, Some(0), "invalid limit: 0"),
        ("x", None, Some(-3), "invalid limit: -3"),
        (
            "x",
            Some(vec!["issues".into(), "iss\"ues".into()]),
            None,
            "unknown kind \"iss\\\"ues\" (expected one of: issues, merge_requests, projects, groups)",
        ),
    ];
    for (query, kinds, limit, message) in cases {
        match search_reply(&mut h, &mut fake, query, kinds, limit) {
            Reply::GitlabError(m) => assert_eq!(m, message),
            other => panic!("{query:?} gave {other:?}"),
        }
    }
    assert_eq!(fake.live_calls, 0);
    let a = check_args(" OAuth ".into(), None, None).unwrap();
    assert_eq!((a.needle.as_str(), a.limit), ("oauth", 50));
}

#[test]
fn a_live_issue_keeps_the_epic_and_time_that_are_cached() {
    let mut fake = canned_search_fake();
    fake.live_issues = vec![search_issue(1, "OAuth again")];
    let mut h = connected_handlers();
    seed_search_cache(&mut h);
    let mut known = search_issue(1, "OAuth token refresh");
    known.parent = "epic".into();
    known.total_time = "2h".into();
    put_issues(&mut h, vec![known]);
    run_search(&mut h, &mut fake, "oauth", None, None);
    let row = h.search.issue_by_id(1).unwrap();
    assert_eq!(row.title, "OAuth again");
    assert_eq!((row.parent.as_str(), row.total_time.as_str()), ("epic", "2h"));
}

// ── assigned issues and merge requests ──────────────────────────────────

/// Three issues: two under `team` (one in a subgroup) and one under `other`.
fn seed_grouped_cache(h: &mut Handlers) {
    h.cache.put(vec![
        issue(1, 1, "api", "https://gl/team/api/-/issues/1"),
        issue(1, 2, "web", "https://gl/team/sub/web/-/issues/2"),
        issue(2, 3, "other", "https://gl/other/x/-/issues/3"),
    ]);
}

fn sorted_iids(reply: Reply<Vec<Issue>>) -> Vec<i64> {
    match reply {
        Reply::Success(v) => {
            let mut iids: Vec<i64> = v.iter().map(|i| i.iid).collect();
            iids.sort_unstable();
            iids
        }
        other => panic!("expected success, got {other:?}"),
    }
}

#[test]
fn get_assigned_issues_serves_all_from_cache_while_dormant() {
    let mut h = dormant_handlers();
    seed_grouped_cache(&mut h);
    assert_eq!(sorted_iids(h.get_assigned_issues(None)), vec![1, 2, 3]);
}

#[test]
fn get_assigned_issues_filters_by_group_from_cache() {
    let mut h = dormant_handlers();
    seed_grouped_cache(&mut h);
    assert_eq!(
        sorted_iids(h.get_assigned_issues(Some(vec!["team".to_string()]))),
        vec![1, 2],
        "team includes its subgroup, excludes other"
    );
}

#[test]
fn get_assigned_issues_dedups_overlapping_groups() {
    let mut h = dormant_handlers();
    seed_grouped_cache(&mut h);
    let groups = Some(vec!["team".to_string(), "team/sub".to_string()]);
    assert_eq!(
        sorted_iids(h.get_assigned_issues(groups)),
        vec![1, 2],
        "issue 2 (in both) not double-counted"
    );
}

#[test]
fn get_assigned_issues_empty_cache_dormant_is_not_authenticated() {
    let h = dormant_handlers();
    assert_eq!(
        h.get_assigned_issues(None).error(),
        Some("org.thehoster.gitlab.trackrd.NotAuthenticated"),
        "cold cache + no session → honest auth error"
    );
}

/// Merge requests and stamps as one completed sync (user 1, current schema)
/// would have left them.
fn seed_assigned_mrs(h: &mut Handlers) {
    let me = || vec![MrAssignee { id: 1, username: "me".into() }];
    let mut mine = search_mr(1, "mine"); // project 1, iid 10
    mine.assignees = me();
    let mut mine_closed = search_mr(2, "mine but closed"); // iid 20
    mine_closed.assignees = me();
    mine_closed.state = "closed".into();
    let mut someone_elses = search_mr(3, "someone else's"); // iid 30
    someone_elses.assignees = vec![MrAssignee { id: 9, username: "them".into() }];
    let g = h.search.try_begin_sync().unwrap();
    g.upsert_mrs(&mut h.search, vec![mine, mine_closed, someone_elses]);
    g.end(&mut h.search);
    set_stamps(
        h,
        SyncStamps {
            last_partial_sync_secs: 100,
            last_full_sync_secs: 100,
            degraded_to_member: false,
            schema_version: SEARCH_SCHEMA_VERSION,
            synced_user_id: 1,
        },
    );
}

fn reply_mrs(reply: Reply<Vec<MergeRequest>>) -> Vec<MergeRequest> {
    match reply {
        Reply::Success(v) => v,
        other => panic!("expected success, got {other:?}"),
    }
}

#[test]
fn get_assigned_merge_requests_serves_open_assigned_from_cache_while_dormant() {
    let mut h = dormant_handlers();
    seed_assigned_mrs(&mut h);
    let mrs = reply_mrs(h.get_assigned_merge_requests(None));
    assert_eq!(mrs.len(), 1, "assigned-to-me AND opened only");
    assert_eq!(mrs[0].iid, 10);
    assert_eq!(mrs[0].assignees, vec!["me".to_string()]);
}

#[test]
fn get_assigned_merge_requests_cold_cache_dormant_is_not_authenticated() {
    let h = dormant_handlers();
    assert_eq!(
        h.get_assigned_merge_requests(None).error(),
        Some("org.thehoster.gitlab.trackrd.NotAuthenticated"),
        "never-synced while dormant → honest auth error, not fake-empty"
    );
}

#[test]
fn get_assigned_merge_requests_cold_cache_connected_is_empty() {
    let h = connected_handlers();
    assert!(
        reply_mrs(h.get_assigned_merge_requests(None)).is_empty(),
        "connected + first sync pending → empty reply"
    );
}

#[test]
fn get_assigned_merge_requests_stale_schema_reads_as_cold() {
    let mut h = dormant_handlers();
    seed_assigned_mrs(&mut h);
    // Rows exist but their assignee data can't be trusted yet.
    set_stamps(
        &mut h,
        SyncStamps {
            last_partial_sync_secs: 100,
            last_full_sync_secs: 100,
            degraded_to_member: false,
            schema_version: 0,
            synced_user_id: 0,
        },
    );
    assert_eq!(
        h.get_assigned_merge_requests(None).error(),
        Some("org.thehoster.gitlab.trackrd.NotAuthenticated"),
        "stale schema while dormant → cold-cache behavior"
    );
}

#[test]
fn get_assigned_merge_requests_group_filter_matches_namespace() {
    let mut h = dormant_handlers();
    seed_assigned_mrs(&mut h); // web_urls live under gl/team/api/-/…
    let team = h.get_assigned_merge_requests(Some(vec!["team".into()]));
    assert_eq!(reply_mrs(team).len(), 1, "subgroup-inclusive match");
    let other = h.get_assigned_merge_requests(Some(vec!["other".into()]));
    assert!(reply_mrs(other).is_empty(), "non-matching group filter");
}

// ── writes ──────────────────────────────────────────────────────────────

fn unreachable_handlers() -> Handlers {
    handlers_with(ConnState::Dormant(DormancyReason::Unreachable {
        host: "gitlab.example.com".into(),
        detail: "connection refused".into(),
    }))
}

fn answered(step: WriteStep) -> Reply<()> {
    match step {
        WriteStep::Answered(r) => r,
        other => panic!("no call is made, got {other:?}"),
    }
}

fn cached_mr(h: &Handlers, iid: i64) -> SearchMr {
    h.search.all_mrs().into_iter().find(|m| m.iid == iid).unwrap().clone()
}

#[test]
fn post_time_queues_through_an_unreachable_outage() {
    let mut h = unreachable_handlers();
    let step = h.post_time(7, 42, IssuableKind::issue, "30m".to_string(), None, NOW);
    assert!(
        answered(step).error().is_none(),
        "unreachable → queued and reported success, not rejected"
    );
    assert_eq!(
        h.queue.pending_post_time().len(),
        1,
        "the write is queued to drain on reconnect"
    );
}

#[test]
fn post_time_rejects_when_dormant_but_not_unreachable() {
    let mut h = dormant_handlers(); // NoCredentials
    let step = h.post_time(7, 42, IssuableKind::issue, "30m".to_string(), None, NOW);
    assert!(
        answered(step).error().is_some(),
        "no credentials → reject; queuing wouldn't help"
    );
    assert!(
        h.queue.pending_post_time().is_empty(),
        "nothing queued for a non-unreachable dormancy"
    );
}

#[test]
fn post_time_transient_queues_without_demoting() {
    let mut h = connected_handlers();
    let step = h.post_time(7, 42, IssuableKind::issue, "30m".to_string(), None, NOW);
    assert!(matches!(
        step,
        WriteStep::Call { client: 1, call: WriteCall::AddSpentTime { project_id: 7, iid: 42, .. } }
    ));
    let reply = h.post_time_done(
        Issuable::Issue,
        7,
        42,
        "30m".to_string(),
        None,
        Err(error_of(FetchErr::Transient)),
        NOW,
    );
    assert!(
        reply.error().is_none(),
        "transient write → queued and reported success"
    );
    assert_eq!(
        h.queue.pending_post_time().len(),
        1,
        "the write is queued to drain on reconnect"
    );
    assert!(
        matches!(&h.session, ConnState::Connected(_)),
        "a single transient write blip must not demote the live session"
    );
    assert!(!h.reconnect_signal, "no reconnect signal from a write blip");
}

#[test]
fn a_rejected_write_is_reported_and_not_queued() {
    let mut h = connected_handlers();
    let reply = h.post_time_done(
        Issuable::Issue,
        7,
        42,
        "30m".to_string(),
        None,
        Err(Error::Gitlab("400 Bad Request".into())),
        NOW,
    );
    assert!(matches!(reply, Reply::GitlabError(m) if m == "GitLab error: 400 Bad Request"));
    assert!(h.queue.pending_post_time().is_empty());
    let reply = h.assign_self_done(Issuable::Issue, 7, 42, Ok(()), NOW);
    assert!(reply.error().is_none());
}

#[test]
fn close_mr_while_unreachable_queues_and_updates_search_row() {
    let mut h = unreachable_handlers();
    seed_assigned_mrs(&mut h);
    seed_grouped_cache(&mut h); // issue cache must stay untouched by an MR close
    let step = h.close(1, 10, IssuableKind::merge_request, NOW);
    assert!(
        answered(step).error().is_none(),
        "unreachable → queued, success reply"
    );
    assert_eq!(
        cached_mr(&h, 10).state,
        "closed",
        "cached MR state flipped immediately"
    );
    assert_eq!(
        h.cache.get().unwrap().len(),
        3,
        "issue cache untouched by an MR close"
    );
}

#[test]
fn close_issue_leaves_the_list_at_once() {
    let mut h = connected_handlers();
    seed_grouped_cache(&mut h);
    assert!(matches!(
        h.close(1, 2, IssuableKind::issue, NOW),
        WriteStep::Call { call: WriteCall::Close { kind: Issuable::Issue, .. }, .. }
    ));
    assert_eq!(h.cache.get().unwrap().len(), 3, "not before the call went through");
    let reply = h.close_done(Issuable::Issue, 1, 2, Ok(()), NOW);
    assert!(reply.error().is_none());
    assert_eq!(h.cache.get().unwrap().len(), 2);
}

#[test]
fn unassign_mr_removes_synced_user_from_cached_assignees() {
    let mut h = unreachable_handlers();
    seed_assigned_mrs(&mut h);
    let step = h.unassign_self(1, 10, IssuableKind::merge_request, NOW);
    assert!(answered(step).error().is_none());
    assert!(
        cached_mr(&h, 10).assignees.is_empty(),
        "synced user removed from the cached row"
    );
}

#[test]
fn mr_cache_update_skips_when_sync_gate_is_held() {
    let mut h = unreachable_handlers();
    seed_assigned_mrs(&mut h);
    // A sync in flight: the write must not wait for it.
    let _guard = h.search.try_begin_sync().unwrap();
    let step = h.close(1, 10, IssuableKind::merge_request, NOW);
    assert!(answered(step).error().is_none());
    assert_eq!(
        cached_mr(&h, 10).state,
        "opened",
        "sync in flight → cache update skipped, sync reconciles later"
    );
}

#[test]
fn post_time_on_mr_defers_with_the_global_mr_id() {
    let mut h = unreachable_handlers();
    seed_assigned_mrs(&mut h);
    let step = h.post_time(1, 10, IssuableKind::merge_request, "30m".to_string(), None, NOW);
    assert!(answered(step).error().is_none());
    let pending = h.queue.pending_post_time();
    assert_eq!(pending.len(), 1);
    assert_eq!(pending[0].kind, Issuable::MergeRequest);
    assert_eq!(h.resolve_issuable_id(Issuable::MergeRequest, 1, 10), Some(1));
}

#[test]
fn get_history_joins_queued_mr_titles_from_search_corpus() {
    let mut h = unreachable_handlers();
    seed_assigned_mrs(&mut h);
    h.post_time(1, 10, IssuableKind::merge_request, "30m".to_string(), None, NOW);
    let events = h.get_history(None, NOW);
    assert_eq!(events.len(), 1);
    let e = &events[0];
    assert_eq!(e.kind, IssuableKind::merge_request);
    assert_eq!(e.iid, 10);
    assert_eq!(e.title, "mine", "queued MR title joined from search corpus");
    assert_eq!(e.source, "queued");
}

#[test]
fn history_reaches_back_a_week_unless_asked_otherwise() {
    let mut h = dormant_handlers();
    h.history.upsert(vec![
        stored(1, NOW - 6 * 86_400),
        stored(2, NOW - 8 * 86_400),
        stored(3, NOW),
    ]);
    assert_eq!(h.get_history(None, NOW).len(), 2);
    assert_eq!(h.get_history(Some(30), NOW).len(), 3);
    assert_eq!(h.get_history(Some(i64::MAX), NOW).len(), 3);
}

#[test]
fn post_time_never_queues_from_a_no_credentials_session() {
    for (project_id, iid, duration) in
        [(1i64, 1i64, "1h"), (0, 1, "1h"), (1, -2, "1h"), (1, 1, "abc"), (5, 5, "12x")]
    {
        let mut h = dormant_handlers();
        let step = h.post_time(project_id, iid, IssuableKind::issue, duration.into(), None, NOW);
        let valid = project_id > 0 && iid > 0 && duration == "1h";
        assert_eq!(
            answered(step).error(),
            Some(if valid {
                "org.thehoster.gitlab.trackrd.NotAuthenticated"
            } else {
                "org.thehoster.gitlab.trackrd.GitlabError"
            })
        );
        assert!(h.queue.pending_post_time().is_empty());
    }
}

#[test]
fn failures_are_shown_retried_and_dismissed() {
    let mut h = unreachable_handlers();
    h.close(1, 2, IssuableKind::issue, NOW);
    let cfg = h.config.queue;
    let task = h.queue.next_task(&cfg).unwrap();
    h.queue
        .attempted(&task, Err(Error::Gitlab("403".into())), NOW + 5, &cfg);
    let shown = h.get_failures();
    assert_eq!(shown.len(), 1);
    assert_eq!(shown[0].error, "GitLab error: 403");
    let id = shown[0].id;
    let unknown = format!("no failed task with id {}", id + 1);
    for step in [h.dismiss_failure(id + 1), h.retry_failure(id + 1)] {
        assert!(matches!(step, LetterStep::Answered(Reply::GitlabError(m)) if m == unknown));
    }
    assert!(matches!(h.dismiss_failure(id), LetterStep::Delete(Letters::One(i)) if i == id));
    assert!(matches!(h.retry_failure(id), LetterStep::Delete(Letters::One(i)) if i == id));
    assert!(h.queue.next_task(&cfg).is_some(), "queued again");
    assert_eq!(h.get_failures().len(), 1, "until it is deleted");
    assert!(h.letters_deleted(Letters::One(id), Ok(())).error().is_none());
    assert!(h.get_failures().is_empty());
    assert!(matches!(h.clear_failures(), LetterStep::Delete(Letters::All)));
    assert!(h.letters_deleted(Letters::All, Ok(())).error().is_none());
}

#[test]
fn a_storage_failure_is_answered_and_keeps_the_dead_letters() {
    let mut h = unreachable_handlers();
    h.close(1, 2, IssuableKind::issue, NOW);
    let cfg = h.config.queue;
    let task = h.queue.next_task(&cfg).unwrap();
    h.queue
        .attempted(&task, Err(Error::Gitlab("403".into())), NOW + 5, &cfg);
    let id = h.get_failures()[0].id;
    for which in [Letters::One(id), Letters::All] {
        let e = Error::Storage("disk full".into());
        let said = e.message();
        let reply = h.letters_deleted(which, Err(e));
        assert!(matches!(reply, Reply::GitlabError(m) if m == said));
        assert_eq!(h.get_failures().len(), 1);
    }
    assert!(h.letters_deleted(Letters::All, Ok(())).error().is_none());
    assert!(h.get_failures().is_empty());
}

#[test]
fn steps_leave_unsaved_changes_marked() {
    let mut h = unreachable_handlers();
    h.close(1, 2, IssuableKind::issue, NOW);
    let queued = h.queue.dirty_keys().0.clone();
    assert_eq!(queued.len(), 1);
    h.close(3, 4, IssuableKind::issue, NOW);
    h.clear_issues(&vec![]);
    assert!(h.queue.dirty_keys().0.contains(&queued[0]));
    assert_eq!(h.queue.dirty_keys().0.len(), 2);
    assert!(h.cache.is_dirty() && h.refresh_meta.is_dirty());
    h.mark_saved();
    assert!(h.queue.dirty_keys().0.is_empty());
    assert!(!h.cache.is_dirty() && !h.refresh_meta.is_dirty());
    assert_eq!(h.queue.pending_post_time().len(), 0);
    assert!(h.queue.task(queued[0]).is_some(), "what was saved is still there");
}

#[test]
fn login_and_logout_change_the_session() {
    let mut h = dormant_handlers();
    assert!(h.who_am_i().error().is_some());
    let s = || Session { client: 8, host: "h".into(), user_id: 3 };
    let refused = h.login(s(), Err(Error::Secrets("locked".into())));
    assert!(matches!(
        refused,
        Reply::GitlabError(m) if m == "keychain write failed: secret store: locked"
    ));
    assert!(h.who_am_i().error().is_some(), "nothing changed");
    assert!(h.login(s(), Ok(())).error().is_none());
    assert!(h.drain_wake, "queued writes drain");
    assert!(matches!(h.who_am_i(), Reply::Success((host, 3)) if host == "h"));
    h.logout();
    assert!(matches!(&h.session, ConnState::Dormant(DormancyReason::LoggedOut)));
    assert!(matches!(
        Handlers::logout_done(Err(Error::Secrets("x".into()))),
        Reply::GitlabError(m) if m == "keychain delete failed: secret store: x"
    ));
    assert!(matches!(
        Handlers::login_failed(&Error::Gitlab("401".into())),
        Reply::GitlabError(m) if m == "GitLab error: 401"
    ));
}

#[test]
fn kinds_survive_the_way_to_the_wire_and_back() {
    for kind in [Issuable::Issue, Issuable::MergeRequest] {
        assert_eq!(internal_kind(&wire_kind(kind)), kind);
    }
    let none = LiveHits::default();
    assert!(!none.complete && none.issues.is_empty());
}

// ── fixed cases of general properties ───────────────────────────────────

#[test]
fn search_replies_or_rejects_any_arguments_and_gates_the_live_lookup() {
    let queries = ["", " ", "\u{3000}\t", "oauth", "#10", "\u{130}", "\u{1F980} \"x", "a\nb"];
    let kinds: [Option<Vec<&str>>; 6] = [
        None,
        Some(vec![]),
        Some(vec!["issues"]),
        Some(vec!["groups", "projects"]),
        Some(vec!["merge_requests", "epics"]),
        Some(vec!["Issues"]),
    ];
    let limits = [None, Some(1), Some(0), Some(-1), Some(i64::MIN), Some(i64::MAX)];
    for query in queries {
        for kinds in &kinds {
            for limit in limits {
                let mut fake = canned_search_fake();
                let mut h = connected_handlers();
                seed_search_cache(&mut h);
                let asked: Option<Vec<String>> =
                    kinds.as_ref().map(|v| v.iter().map(|k| k.to_string()).collect());
                let reply = search_reply(&mut h, &mut fake, query, asked, limit);
                let invalid = query.trim().is_empty()
                    || matches!(limit, Some(n) if n <= 0)
                    || kinds.iter().flatten().any(|k| {
                        !["issues", "merge_requests", "projects", "groups"].contains(k)
                    });
                if invalid {
                    assert_eq!(
                        reply.error(),
                        Some("org.thehoster.gitlab.trackrd.GitlabError"),
                        "bad args must be rejected eagerly"
                    );
                    assert_eq!(
                        fake.live_calls, 0,
                        "bad args must be rejected before the live lookup runs"
                    );
                } else {
                    assert_eq!(reply.error(), None, "valid args must succeed: {query:?}");
                }
                assert_eq!(
                    fake.project_list_calls + fake.group_list_calls,
                    0,
                    "the read handler must never touch the eager fetch surface"
                );
                assert!(
                    fake.search_issue_calls.is_empty() && fake.search_mr_calls.is_empty(),
                    "the read handler must never fetch issues or MRs"
                );
            }
        }
    }
}

#[test]
fn search_cold_cache_dormant_is_not_authenticated_for_any_query() {
    for query in ["a", "Z9", "#", "#7", "aB#9", "0123456789"] {
        for limit in [None, Some(1), Some(99)] {
            let mut h = dormant_handlers();
            let reply = search_reply(&mut h, &mut FakeGitlab::default(), query, None, limit);
            assert_eq!(
                reply.error(),
                Some("org.thehoster.gitlab.trackrd.NotAuthenticated"),
                "never-synced cache + no session → honest auth error"
            );
        }
    }
}

#[test]
fn search_reader_filters_orders_and_limits_against_the_model() {
    let lists: [&[&str]; 4] = [
        &["ab"],
        &["abc", "bcd", "cde", "abe", "eab"],
        &["aa", "aa", "ba", "ab", "aab", "bb", "cc"],
        &["edcba", "dcb", "cb", "bd"],
    ];
    for titles in lists {
        for needle in ["a", "b", "ab", "cb", "eee"] {
            for limit in 1i64..4 {
                let mut h = dormant_handlers();
                let issues: Vec<SearchIssue> = titles
                    .iter()
                    .enumerate()
                    .map(|(i, t)| {
                        let mut s = search_issue(i as i64 + 1, t);
                        s.updated_at_secs = 1_000 - i as u64; // distinct, newest first
                        s
                    })
                    .collect();
                put_issues(&mut h, issues.clone());
                set_stamps(
                    &mut h,
                    SyncStamps {
                        last_partial_sync_secs: 1,
                        last_full_sync_secs: 1,
                        ..Default::default()
                    },
                );
                let r = run_search(
                    &mut h,
                    &mut FakeGitlab::default(),
                    needle,
                    Some(vec!["issues".to_string()]),
                    Some(limit),
                );
                let expected: Vec<i64> = issues
                    .iter()
                    .filter(|i| i.title.contains(needle))
                    .map(|i| i.id)
                    .take(limit as usize)
                    .collect();
                let got: Vec<i64> = r.issues.iter().map(|i| i.id).collect();
                assert_eq!(
                    got, expected,
                    "matches only, from the seeded set, newest first, limited"
                );
            }
        }
    }
}
