use std::collections::HashMap;

use gitlab_trackrd::api::{IssuableKind, Issue};
use gitlab_trackrd::boards::BoardCache;
use gitlab_trackrd::cache::IssueCache;
use gitlab_trackrd::config::defaults;
use gitlab_trackrd::error::{DormancyReason, Error};
use gitlab_trackrd::gitlab::{FetchedTimelog, Issuable, IssueWithLabels};
use gitlab_trackrd::handlers::refresh::{
    enrich_graph_status, enrich_timelog, graph_status_from, history_cutoff, missing_boards,
};
use gitlab_trackrd::handlers::varlink::{Refill, RefillWindow, WriteStep};
use gitlab_trackrd::handlers::{
    dormant_args, issue_ref_error, looks_like_duration, ConnState, Handlers, Session,
};
use gitlab_trackrd::history::{HistoryCache, StoredTimelog};
use gitlab_trackrd::queue::RetryQueue;
use gitlab_trackrd::refresh_meta::{RefreshMeta, RefreshStamps, HISTORY_SCHEMA_VERSION};
use gitlab_trackrd::search::{SearchCache, SearchMr};

const NOW: u64 = 1_700_000_000;

fn issue(project_id: i64, iid: i64, title: &str, web_url: &str) -> Issue {
    Issue {
        id: 0,
        iid,
        project_id,
        title: title.to_string(),
        web_url: web_url.to_string(),
        state: "opened".to_string(),
        parent: String::new(),
        total_time: String::new(),
        graph_status: String::new(),
    }
}

fn search_mr(id: i64, title: &str) -> SearchMr {
    SearchMr {
        id,
        iid: id * 10,
        project_id: 1,
        title: title.to_string(),
        web_url: format!("https://gl/p/-/merge_requests/{}", id * 10),
        state: "opened".to_string(),
        labels: vec![],
        assignees: vec![],
        updated_at_secs: 100,
    }
}

fn timelog(iid: i64, title: &str, web_url: &str) -> FetchedTimelog {
    FetchedTimelog {
        timelog_id: 1,
        spent_at_secs: 100,
        kind: Issuable::Issue,
        project_id: 0,
        iid,
        title: title.to_string(),
        web_url: web_url.to_string(),
        duration: "1h".to_string(),
        summary: "s".to_string(),
    }
}

// ── enrich_timelog ──────────────────────────────────────────────────────

fn check_matches_by_web_url() {
    let issues = vec![issue(7, 42, "Title", "https://gl/-/issues/42")];
    let t = timelog(42, "fresh", "https://gl/-/issues/42");
    let r = enrich_timelog(t, &issues, &vec![]);
    assert_eq!(r.project_id, 7);
    assert_eq!(r.title, "fresh", "fresh title preserved");
    assert_eq!(r.web_url, "https://gl/-/issues/42");
}

#[test]
fn handlers_enrich_timelog_matches_by_web_url() {
    check_matches_by_web_url();
}

#[test]
fn tests_enrich_timelog_matches_by_web_url() {
    check_matches_by_web_url();
}

fn check_falls_back_to_iid() {
    let issues = vec![issue(7, 42, "Cached", "https://gl/-/issues/42")];
    let t = timelog(42, "fresh", "");
    let r = enrich_timelog(t, &issues, &vec![]);
    assert_eq!(r.project_id, 7);
    assert_eq!(
        r.web_url, "https://gl/-/issues/42",
        "empty url filled from cache"
    );
}

#[test]
fn handlers_enrich_timelog_falls_back_to_iid_when_url_misses() {
    check_falls_back_to_iid();
}

#[test]
fn tests_enrich_timelog_falls_back_to_iid_when_url_misses() {
    check_falls_back_to_iid();
}

fn check_no_match() {
    let mut t = timelog(99, "fresh", "https://gl/-/issues/99");
    t.duration = "30m".to_string();
    let r = enrich_timelog(t, &vec![], &vec![]);
    assert_eq!(r.project_id, 0);
    assert_eq!(r.title, "fresh");
    assert_eq!(r.web_url, "https://gl/-/issues/99");
}

#[test]
fn handlers_enrich_timelog_no_match_leaves_project_id_zero() {
    check_no_match();
}

#[test]
fn tests_enrich_timelog_no_match_leaves_project_id_zero() {
    check_no_match();
}

fn check_empty_title() {
    let issues = vec![issue(7, 42, "From cache", "https://gl/-/issues/42")];
    let t = timelog(42, "", "https://gl/-/issues/42");
    let r = enrich_timelog(t, &issues, &vec![]);
    assert_eq!(r.title, "From cache");
}

#[test]
fn handlers_enrich_timelog_empty_title_filled_from_cache() {
    check_empty_title();
}

#[test]
fn tests_enrich_timelog_empty_title_filled_from_cache() {
    check_empty_title();
}

#[test]
fn enrich_timelog_mr_falls_back_to_search_corpus() {
    let m = search_mr(3, "MR title");
    let t = FetchedTimelog {
        timelog_id: 1,
        spent_at_secs: 100,
        kind: Issuable::MergeRequest,
        project_id: 0, // no project given → fall back to the corpus
        iid: 30,
        title: String::new(),
        web_url: m.web_url.clone(),
        duration: "1h".to_string(),
        summary: String::new(),
    };
    let r = enrich_timelog(t, &vec![], &vec![&m]);
    assert_eq!(r.kind, Issuable::MergeRequest);
    assert_eq!(r.project_id, 1, "project filled from the search corpus");
    assert_eq!(r.title, "MR title", "empty title filled from the corpus");

    // A project id that was given always wins.
    let t = FetchedTimelog {
        timelog_id: 2,
        spent_at_secs: 100,
        kind: Issuable::MergeRequest,
        project_id: 9,
        iid: 30,
        title: "fresh".to_string(),
        web_url: "https://gl/unknown".to_string(),
        duration: "1h".to_string(),
        summary: String::new(),
    };
    let r = enrich_timelog(t, &vec![], &vec![&m]);
    assert_eq!(r.project_id, 9);
    assert_eq!(r.title, "fresh");
}

// ── board status ────────────────────────────────────────────────────────

/// Serves board labels, issues and timelogs, and counts the requests.
#[derive(Default)]
struct FakeGitlab {
    board_labels: HashMap<i64, Result<Vec<String>, Error>>,
    board_calls: usize,
    transient: bool,
    permanent: bool,
    assigned_calls: usize,
    timelog_calls: usize,
}

fn failure(transient: bool) -> Error {
    if transient {
        Error::Transient("offline".to_string())
    } else {
        Error::Gitlab("500 Server Error".to_string())
    }
}

impl FakeGitlab {
    fn with_board_labels(project_id: i64, labels: &[&str]) -> Self {
        let mut me = Self::default();
        me.board_labels.insert(project_id, Ok(names(labels)));
        me
    }

    fn with_board_error(project_id: i64) -> Self {
        let mut me = Self::default();
        me.board_labels.insert(project_id, Err(failure(true)));
        me
    }

    fn failing(transient: bool) -> Self {
        FakeGitlab { transient, permanent: !transient, ..Self::default() }
    }

    fn fetch_board_list_labels(&mut self, project_id: i64) -> Result<Vec<String>, Error> {
        self.board_calls += 1;
        self.board_labels.remove(&project_id).unwrap_or(Ok(vec![]))
    }

    fn fetch_assigned_issues(&mut self) -> Result<Vec<IssueWithLabels>, Error> {
        self.assigned_calls += 1;
        if self.transient || self.permanent {
            return Err(failure(self.transient));
        }
        Ok(vec![iwl(7, "opened", &["bug"])])
    }

    fn fetch_my_timelogs(&mut self) -> Result<Vec<FetchedTimelog>, Error> {
        self.timelog_calls += 1;
        if self.transient || self.permanent {
            return Err(failure(self.transient));
        }
        let mut t = timelog(1, "t", "u");
        t.spent_at_secs = NOW;
        Ok(vec![t])
    }
}

fn names(v: &[&str]) -> Vec<String> {
    v.iter().map(|s| s.to_string()).collect()
}

fn iwl(project_id: i64, state: &str, labels: &[&str]) -> IssueWithLabels {
    IssueWithLabels {
        issue: Issue {
            id: 1,
            iid: 1,
            project_id,
            title: "t".into(),
            web_url: "u".into(),
            state: state.into(),
            parent: String::new(),
            total_time: String::new(),
            graph_status: String::new(),
        },
        labels: names(labels),
    }
}

/// Fetches the boards that are missing, then fills in the status.
fn enrich(
    gitlab: &mut FakeGitlab,
    boards: &mut BoardCache,
    raw: Vec<IssueWithLabels>,
) -> Vec<Issue> {
    for p in missing_boards(&raw, boards) {
        if let Ok(labels) = gitlab.fetch_board_list_labels(p) {
            boards.put(p, labels);
        }
    }
    enrich_graph_status(raw, boards)
}

fn check_uses_cached_board_labels() {
    let mut boards = BoardCache::open(vec![]);
    boards.put(7, names(&["Doing", "Done"]));
    let mut gitlab = FakeGitlab::default();
    let out = enrich(&mut gitlab, &mut boards, vec![iwl(7, "opened", &["bug", "Doing"])]);
    assert_eq!(out[0].graph_status, "Doing");
    assert_eq!(gitlab.board_calls, 0, "cache hit must skip the API call");
}

#[test]
fn handlers_enrich_graph_status_uses_cached_board_labels() {
    check_uses_cached_board_labels();
}

#[test]
fn tests_enrich_graph_status_uses_cached_board_labels() {
    check_uses_cached_board_labels();
}

fn check_fetches_and_persists() {
    let mut boards = BoardCache::open(vec![]);
    let mut gitlab = FakeGitlab::with_board_labels(7, &["Review"]);
    let out = enrich(&mut gitlab, &mut boards, vec![iwl(7, "opened", &["Review"])]);
    assert_eq!(out[0].graph_status, "Review");
    assert_eq!(gitlab.board_calls, 1);
    assert_eq!(
        boards.get(7),
        Some(&names(&["Review"])),
        "freshly fetched labels are persisted"
    );
}

#[test]
fn handlers_enrich_graph_status_fetches_and_persists_on_cache_miss() {
    check_fetches_and_persists();
}

#[test]
fn tests_enrich_graph_status_fetches_and_persists_on_cache_miss() {
    check_fetches_and_persists();
}

fn check_empty_when_fetch_fails() {
    let mut boards = BoardCache::open(vec![]);
    let mut gitlab = FakeGitlab::with_board_error(7);
    let out = enrich(&mut gitlab, &mut boards, vec![iwl(7, "opened", &["bug"])]);
    assert!(out[0].graph_status.is_empty());
    assert_eq!(boards.get(7), None, "errored fetch is not cached");
}

#[test]
fn handlers_enrich_graph_status_empty_when_fetch_fails() {
    check_empty_when_fetch_fails();
}

#[test]
fn tests_enrich_graph_status_empty_when_fetch_fails() {
    check_empty_when_fetch_fails();
}

fn check_falls_back_to_state() {
    let mut boards = BoardCache::open(vec![]);
    boards.put(7, names(&["Doing"]));
    let mut gitlab = FakeGitlab::default();
    let out = enrich(&mut gitlab, &mut boards, vec![iwl(7, "opened", &["bug", "high"])]);
    assert_eq!(out[0].graph_status, "opened");
}

#[test]
fn handlers_enrich_graph_status_falls_back_to_state_when_no_label_matches() {
    check_falls_back_to_state();
}

#[test]
fn tests_enrich_graph_status_falls_back_to_state_when_no_label_matches() {
    check_falls_back_to_state();
}

fn check_picks_first_matching_label() {
    let mut boards = BoardCache::open(vec![]);
    boards.put(7, names(&["Backlog", "Doing", "Review"]));
    let mut gitlab = FakeGitlab::default();
    // The first label of the issue that also appears on the board is "Review".
    let out = enrich(
        &mut gitlab,
        &mut boards,
        vec![iwl(7, "opened", &["random", "Review", "Doing"])],
    );
    assert_eq!(out[0].graph_status, "Review");
}

#[test]
fn handlers_enrich_graph_status_picks_first_matching_label() {
    check_picks_first_matching_label();
}

#[test]
fn tests_enrich_graph_status_picks_first_matching_label() {
    check_picks_first_matching_label();
}

fn check_caches_per_project() {
    let mut boards = BoardCache::open(vec![]);
    let mut gitlab = FakeGitlab::with_board_labels(7, &["Doing"]);
    let out = enrich(
        &mut gitlab,
        &mut boards,
        vec![
            iwl(7, "opened", &["Doing"]),
            iwl(7, "opened", &["Doing"]),
            iwl(7, "opened", &["nope"]),
        ],
    );
    assert_eq!(out.len(), 3);
    assert_eq!(gitlab.board_calls, 1, "single fetch per project");
}

#[test]
fn handlers_enrich_graph_status_caches_per_project_within_one_call() {
    check_caches_per_project();
}

#[test]
fn tests_enrich_graph_status_caches_per_project_within_one_call() {
    check_caches_per_project();
}

#[test]
fn graph_status_is_empty_only_without_a_board() {
    let labels = names(&["a", "b"]);
    assert_eq!(graph_status_from(None, &labels, "opened"), "");
    assert_eq!(graph_status_from(Some(&vec![]), &labels, "opened"), "opened");
    assert_eq!(graph_status_from(Some(&names(&["b"])), &labels, "opened"), "b");
}

// ── handlers ────────────────────────────────────────────────────────────

fn handlers_with(session: ConnState) -> Handlers {
    Handlers {
        session,
        cache: IssueCache::open(None),
        boards: BoardCache::open(vec![]),
        history: HistoryCache::open(vec![]),
        search: SearchCache::open(vec![], vec![], vec![], vec![], vec![], None),
        refresh_meta: RefreshMeta::open(None),
        queue: RetryQueue::new(vec![], vec![]),
        config: defaults(),
        reconnect_signal: false,
        drain_wake: false,
        live_search_recent: vec![],
    }
}

fn dormant_handlers() -> Handlers {
    handlers_with(ConnState::Dormant(DormancyReason::NoCredentials))
}

fn connected_handlers() -> Handlers {
    handlers_with(ConnState::Connected(Session {
        client: 1,
        host: "gitlab.example.com".into(),
        user_id: 1,
    }))
}

fn pull_timelogs(h: &mut Handlers, fake: &mut FakeGitlab, client: u64) -> bool {
    let fetched = fake.fetch_my_timelogs();
    h.timelogs_fetched(client, fetched)
}

fn refresh_cache(h: &mut Handlers, fake: &mut FakeGitlab, now: u64) {
    let Some(client) = h.refresh_cache(now) else {
        return;
    };
    let fetched = fake.fetch_assigned_issues();
    let ok = match h.assigned_fetched(client, fetched) {
        Some((raw, boards)) => {
            for p in boards {
                let labels = fake.fetch_board_list_labels(p);
                h.board_fetched(p, labels);
            }
            h.issues_ready(raw);
            pull_timelogs(h, fake, client)
        }
        None => false,
    };
    h.quick_refreshed(now, ok, &Ok(()));
}

fn refresh_history_daily(h: &mut Handlers, fake: &mut FakeGitlab, now: u64) {
    if let Some(client) = h.refresh_history_daily(now) {
        let ok = pull_timelogs(h, fake, client);
        h.daily_refreshed(now, ok, &Ok(()), now);
    }
}

fn backfill_history(h: &mut Handlers, fake: &mut FakeGitlab, now: u64) {
    if let Some(client) = h.backfill_history(now) {
        let hours = h.config.history.retention_hours;
        let ok = pull_timelogs(h, fake, client);
        h.backfilled(now, hours, ok, &Ok(()), now);
    }
}

#[test]
fn a_refresh_that_could_not_be_saved_is_not_stamped() {
    let mut h = connected_handlers();
    let full = || Err(Error::Storage("disk full".into()));
    h.quick_refreshed(500, true, &full());
    h.daily_refreshed(500, true, &full(), 600);
    h.backfilled(500, 24, true, &full(), 600);
    assert_eq!(h.refresh_meta.stamps(), Default::default());
    assert!(!h.refresh_meta.is_dirty());
    h.quick_refreshed(500, true, &Ok(()));
    h.backfilled(510, 24, true, &Ok(()), 600);
    let s = h.refresh_meta.stamps();
    assert_eq!((s.last_quick_sync_secs, s.last_slow_sync_secs), (500, 510));
    assert_eq!(s.backfilled_retention_hours, 24);
}

fn stored(timelog_id: u64, spent_at_secs: u64) -> StoredTimelog {
    StoredTimelog {
        timelog_id,
        spent_at_secs,
        kind: Issuable::Issue,
        project_id: 1,
        iid: 1,
        title: "t".into(),
        web_url: "u".into(),
        duration: "1h".into(),
        summary: String::new(),
    }
}

fn remaining(h: &Handlers) -> Vec<u64> {
    h.history.all_since(0).iter().map(|e| e.timelog_id).collect()
}

#[test]
fn clear_cache_quick_scope_only_clears_last_24h() {
    let mut h = dormant_handlers();
    h.history.upsert(vec![
        stored(1, NOW - 3_600),       // within 24h → quick
        stored(2, NOW - 3 * 86_400),  // 3 days → slow
        stored(3, NOW - 45 * 86_400), // 45 days → stale
    ]);
    let refill = h.clear_cache(Some(names(&["quick"])), NOW);
    assert!(matches!(refill, Refill::Nothing), "no session to refetch with");
    assert_eq!(
        remaining(&h),
        vec![2, 3],
        "only the quick-band entry is removed"
    );
}

#[test]
fn clear_cache_slow_and_stale_scopes_clear_their_bands() {
    for (scope, left) in [("slow", vec![1, 3]), ("stale", vec![1, 2])] {
        let mut h = dormant_handlers();
        h.history.upsert(vec![
            stored(1, NOW - 3_600),
            stored(2, NOW - 3 * 86_400),
            stored(3, NOW - 45 * 86_400),
        ]);
        h.clear_cache(Some(names(&[scope])), NOW);
        assert_eq!(remaining(&h), left);
    }
}

fn check_no_scope_clears_all_history() {
    let mut h = dormant_handlers();
    h.history
        .upsert(vec![stored(1, NOW - 3_600), stored(2, NOW - 45 * 86_400)]);
    h.clear_cache(None, NOW);
    assert!(h.history.all_since(0).is_empty());
}

#[test]
fn handlers_clear_cache_no_scope_clears_all_history() {
    check_no_scope_clears_all_history();
}

#[test]
fn tests_clear_cache_no_scope_clears_all_history() {
    check_no_scope_clears_all_history();
}

fn check_looks_like_duration() {
    for ok in ["1h", "30m", "1h30m", "1.5h", "2d", "1w", " 45m "] {
        assert!(looks_like_duration(ok), "should accept {ok:?}");
    }
    for bad in ["", "   ", "abc", "1x", "30 min"] {
        assert!(!looks_like_duration(bad), "should reject {bad:?}");
    }
}

#[test]
fn handlers_looks_like_duration_accepts_valid_and_rejects_typos() {
    check_looks_like_duration();
}

#[test]
fn tests_looks_like_duration_accepts_valid_and_rejects_typos() {
    check_looks_like_duration();
}

#[test]
fn post_time_rejects_bad_duration_without_queueing() {
    let mut h = dormant_handlers();
    let step = h.post_time(7, 42, IssuableKind::issue, "abc".to_string(), None, NOW);
    match step {
        WriteStep::Answered(reply) => {
            assert!(reply.error().is_some(), "bad duration → error reply")
        }
        WriteStep::Call { .. } => panic!("nothing is tried"),
    }
    assert!(h.queue.pending_post_time().is_empty(), "nothing enqueued");
}

fn check_close_rejects_bad_ref() {
    let mut h = dormant_handlers();
    match h.close(0, 42, IssuableKind::issue, NOW) {
        WriteStep::Answered(reply) => {
            assert!(reply.error().is_some(), "project_id 0 → error reply")
        }
        WriteStep::Call { .. } => panic!("nothing is tried"),
    }
}

#[test]
fn close_issue_rejects_bad_issue_ref() {
    check_close_rejects_bad_ref();
}

#[test]
fn close_rejects_bad_issuable_ref() {
    check_close_rejects_bad_ref();
}

#[test]
fn bad_references_are_named_in_the_message() {
    assert_eq!(issue_ref_error(7, 42), None);
    assert_eq!(
        issue_ref_error(0, 42).as_deref(),
        Some("invalid issue reference (project 0, iid 42)")
    );
    assert_eq!(
        issue_ref_error(7, -1).as_deref(),
        Some("invalid issue reference (project 7, iid -1)")
    );
    let (code, detail) = dormant_args(&DormancyReason::KeychainError("k".into()));
    assert!(code.is_some());
    assert_eq!(detail.as_deref(), Some("k"));
}

// ── losing the session ──────────────────────────────────────────────────

#[test]
fn refresh_cache_demotes_to_unreachable_on_transient_error() {
    let mut h = connected_handlers();
    refresh_cache(&mut h, &mut FakeGitlab::failing(true), NOW);
    assert!(
        matches!(
            &h.session,
            ConnState::Dormant(DormancyReason::Unreachable { .. })
        ),
        "a transient background failure demotes the live session"
    );
    assert!(h.reconnect_signal, "the reconnect supervisor was signalled");
}

#[test]
fn refresh_cache_stays_connected_on_permanent_error() {
    let mut h = connected_handlers();
    refresh_cache(&mut h, &mut FakeGitlab::failing(false), NOW);
    assert!(
        matches!(&h.session, ConnState::Connected(_)),
        "a non-transient error must not demote (it is not auto-retryable)"
    );
}

// ── refresh stamps ──────────────────────────────────────────────────────

#[test]
fn quick_refresh_throttled_while_stamp_fresh() {
    let mut fake = FakeGitlab::default();
    let mut h = connected_handlers();
    h.refresh_meta
        .update(|s| RefreshStamps { last_quick_sync_secs: NOW, ..s });
    refresh_cache(&mut h, &mut fake, NOW);
    assert_eq!(
        fake.assigned_calls, 0,
        "fresh stamp → no GitLab traffic (the restart-storm guard)"
    );
    assert_eq!(fake.timelog_calls, 0);
}

#[test]
fn quick_refresh_runs_when_stale_and_stamps() {
    let mut fake = FakeGitlab::default();
    let mut h = connected_handlers();
    // Past the default quick interval (300s).
    let stale = NOW - 10_000;
    h.refresh_meta
        .update(|s| RefreshStamps { last_quick_sync_secs: stale, ..s });
    refresh_cache(&mut h, &mut fake, NOW);
    assert_eq!(fake.assigned_calls, 1);
    assert_eq!(fake.timelog_calls, 1);
    assert_eq!(
        h.cache.get().map(|v| v.len()),
        Some(1),
        "issue cache populated"
    );
    assert!(
        h.refresh_meta.stamps().last_quick_sync_secs > stale,
        "successful refresh advances the quick stamp"
    );
}

#[test]
fn quick_refresh_failure_leaves_stamp_unwritten() {
    let mut h = connected_handlers();
    refresh_cache(&mut h, &mut FakeGitlab::failing(true), NOW);
    assert_eq!(
        h.refresh_meta.stamps().last_quick_sync_secs,
        0,
        "a failed refresh must not stamp, so the next tick retries"
    );
}

#[test]
fn daily_refresh_throttled_while_slow_stamp_fresh() {
    let mut fake = FakeGitlab::default();
    let mut h = connected_handlers();
    h.refresh_meta
        .update(|s| RefreshStamps { last_slow_sync_secs: NOW, ..s });
    refresh_history_daily(&mut h, &mut fake, NOW);
    assert_eq!(fake.timelog_calls, 0);
}

#[test]
fn daily_refresh_runs_when_stale_and_stamps() {
    let mut fake = FakeGitlab::default();
    let mut h = connected_handlers();
    // Past the default slow interval (86400s).
    let stale = NOW - 100_000;
    h.refresh_meta
        .update(|s| RefreshStamps { last_slow_sync_secs: stale, ..s });
    refresh_history_daily(&mut h, &mut fake, NOW);
    assert_eq!(fake.timelog_calls, 1);
    assert!(
        h.refresh_meta.stamps().last_slow_sync_secs > stale,
        "successful daily refresh advances the slow stamp"
    );
}

#[test]
fn backfill_skips_when_slow_stamp_fresh_and_retention_covered() {
    let mut fake = FakeGitlab::default();
    let mut h = connected_handlers();
    let retention_hours = h.config.history.retention_hours;
    h.refresh_meta.update(|s| RefreshStamps {
        last_slow_sync_secs: NOW,
        backfilled_retention_hours: retention_hours,
        schema_version: HISTORY_SCHEMA_VERSION,
        ..s
    });
    backfill_history(&mut h, &mut fake, NOW);
    assert_eq!(fake.timelog_calls, 0);
}

#[test]
fn backfill_runs_when_history_schema_is_stale() {
    let mut fake = FakeGitlab::default();
    let mut h = connected_handlers();
    let retention_hours = h.config.history.retention_hours;
    h.refresh_meta.update(|s| RefreshStamps {
        last_slow_sync_secs: NOW,
        backfilled_retention_hours: retention_hours,
        schema_version: 0,
        ..s
    });
    backfill_history(&mut h, &mut fake, NOW);
    assert_eq!(fake.timelog_calls, 1);
    assert_eq!(
        h.refresh_meta.stamps().schema_version,
        HISTORY_SCHEMA_VERSION,
        "successful backfill stamps the current schema version"
    );
}

#[test]
fn backfill_reruns_when_retention_grew() {
    let mut fake = FakeGitlab::default();
    let mut h = connected_handlers();
    let retention_hours = h.config.history.retention_hours;
    h.refresh_meta.update(|s| RefreshStamps {
        last_slow_sync_secs: NOW,
        backfilled_retention_hours: retention_hours - 1,
        ..s
    });
    backfill_history(&mut h, &mut fake, NOW);
    assert_eq!(fake.timelog_calls, 1);
    assert_eq!(
        h.refresh_meta.stamps().backfilled_retention_hours,
        retention_hours,
        "the widened backfill is recorded"
    );
}

#[test]
fn dormant_refresh_writes_no_stamp() {
    let mut fake = FakeGitlab::default();
    let mut h = dormant_handlers();
    refresh_cache(&mut h, &mut fake, NOW);
    refresh_history_daily(&mut h, &mut fake, NOW);
    backfill_history(&mut h, &mut fake, NOW);
    let s = h.refresh_meta.stamps();
    assert_eq!(
        s.last_quick_sync_secs, 0,
        "a dormant skip must not stamp — the post-reconnect warm-up must run"
    );
    assert_eq!(s.last_slow_sync_secs, 0);
}

#[test]
fn clear_cache_zeroes_refresh_stamps() {
    let mut h = dormant_handlers();
    h.refresh_meta.update(|s| RefreshStamps {
        last_quick_sync_secs: 5,
        last_slow_sync_secs: 5,
        backfilled_retention_hours: 5,
        ..s
    });
    h.clear_cache(None, NOW);
    let s = h.refresh_meta.stamps();
    assert_eq!(s.last_quick_sync_secs, 0);
    assert_eq!(s.last_slow_sync_secs, 0);
    assert_eq!(s.backfilled_retention_hours, 0);
}

#[test]
fn clear_cache_issues_scope_zeroes_only_quick_stamp() {
    let mut h = dormant_handlers();
    h.refresh_meta.update(|s| RefreshStamps {
        last_quick_sync_secs: 5,
        last_slow_sync_secs: 5,
        ..s
    });
    h.clear_cache(Some(names(&["issues"])), NOW);
    let s = h.refresh_meta.stamps();
    assert_eq!(s.last_quick_sync_secs, 0, "issues scope zeroes quick");
    assert_eq!(s.last_slow_sync_secs, 5, "history stamps untouched");
}

#[test]
fn a_clear_with_a_session_is_refilled() {
    let mut h = connected_handlers();
    assert!(matches!(h.clear_cache(None, NOW), Refill::WarmUp { client: 1 }));
    assert!(matches!(
        h.clear_cache(Some(names(&["stale", "quick"])), NOW),
        Refill::Parts { client: 1, search: false, window: Some(RefillWindow::Retention) }
    ));
    assert!(matches!(
        h.clear_cache(Some(names(&["slow", "search"])), NOW),
        Refill::Parts { client: 1, search: true, window: Some(RefillWindow::Slow) }
    ));
    assert!(matches!(
        h.clear_cache(Some(names(&["quick"])), NOW),
        Refill::Parts { client: 1, search: false, window: Some(RefillWindow::Quick) }
    ));
}

#[test]
fn a_slow_refresh_drops_what_aged_past_the_retention() {
    let mut h = connected_handlers();
    let retention = h.config.history.retention_hours * 3600;
    h.history.upsert(vec![
        stored(5, NOW - retention - 1),
        stored(6, NOW - retention),
    ]);
    refresh_history_daily(&mut h, &mut FakeGitlab::failing(false), NOW);
    assert_eq!(remaining(&h), vec![6], "pruned although the fetch failed");
    assert_eq!(history_cutoff(NOW, retention), NOW - retention);
    assert_eq!(history_cutoff(5, 10), 0);
}
