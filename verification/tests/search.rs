use std::collections::HashSet;

use gitlab_trackrd::search::{
    key_of, parse_iid_query, text_matches, MrAssignee, SearchCache, SearchGroup, SearchIssue,
    SearchMr, SearchProject, SyncStamps, TrackedProject, SEARCH_SCHEMA_VERSION,
};

fn issue(id: i64, title: &str) -> SearchIssue {
    SearchIssue {
        id,
        iid: id * 10,
        project_id: 1,
        title: title.to_string(),
        web_url: format!("https://gl/p/-/issues/{id}"),
        state: "opened".to_string(),
        labels: vec!["bug".to_string()],
        parent: String::new(),
        total_time: String::new(),
        updated_at_secs: 100,
    }
}

fn mr(id: i64, title: &str) -> SearchMr {
    SearchMr {
        id,
        iid: id * 10,
        project_id: 1,
        title: title.to_string(),
        web_url: format!("https://gl/p/-/merge_requests/{id}"),
        state: "opened".to_string(),
        labels: vec![],
        assignees: vec![],
        updated_at_secs: 100,
    }
}

fn project(id: i64, path: &str) -> SearchProject {
    SearchProject {
        id,
        name: path.rsplit('/').next().unwrap().to_string(),
        path: path.to_string(),
        web_url: format!("https://gl/{path}"),
    }
}

fn group(id: i64, path: &str) -> SearchGroup {
    SearchGroup {
        id,
        name: path.rsplit('/').next().unwrap().to_string(),
        path: path.to_string(),
        web_url: format!("https://gl/{path}"),
    }
}

fn cache() -> SearchCache {
    SearchCache::open(vec![], vec![], vec![], vec![], vec![], None)
}

fn keep(ids: &[i64]) -> HashSet<u64> {
    ids.iter().map(|i| key_of(*i)).collect()
}

#[test]
fn upsert_dedupes_by_id() {
    let mut c = cache();
    let g = c.try_begin_sync().unwrap();
    g.upsert_issues(&mut c, vec![issue(1, "old")]);
    g.upsert_issues(&mut c, vec![issue(1, "new")]);
    let all = c.all_issues();
    assert_eq!(all.len(), 1);
    assert_eq!(all[0].title, "new");
}

#[test]
fn each_kind_roundtrips_independently() {
    let mut c = cache();
    let g = c.try_begin_sync().unwrap();
    g.upsert_issues(&mut c, vec![issue(1, "i")]);
    g.upsert_mrs(&mut c, vec![mr(1, "m")]);
    g.upsert_projects(&mut c, vec![project(1, "team/p")]);
    g.upsert_groups(&mut c, vec![group(1, "team")]);

    assert_eq!(c.all_issues()[0].title, "i");
    assert_eq!(c.all_mrs()[0].title, "m");
    assert_eq!(c.all_projects()[0].path, "team/p");
    assert_eq!(c.all_groups()[0].path, "team");
}

#[test]
fn retain_removes_exactly_the_missing_keys() {
    let mut c = cache();
    let g = c.try_begin_sync().unwrap();
    g.upsert_issues(&mut c, vec![issue(1, "keep"), issue(2, "drop"), issue(3, "keep")]);

    let removed = g.retain_issues(&mut c, &HashSet::from([1, 3]));
    assert_eq!(removed, 1);

    let mut ids: Vec<i64> = c.all_issues().iter().map(|i| i.id).collect();
    ids.sort();
    assert_eq!(ids, vec![1, 3]);
}

#[test]
fn retain_with_empty_keep_empties_the_kind() {
    let mut c = cache();
    let g = c.try_begin_sync().unwrap();
    g.upsert_mrs(&mut c, vec![mr(1, "a"), mr(2, "b")]);
    assert_eq!(g.retain_mrs(&mut c, &HashSet::new()), 2);
    assert!(c.all_mrs().is_empty());
}

#[test]
fn retain_works_per_kind() {
    let mut c = cache();
    let g = c.try_begin_sync().unwrap();
    g.upsert_projects(&mut c, vec![project(1, "a"), project(-2, "b")]);
    g.upsert_groups(&mut c, vec![group(1, "a"), group(2, "b")]);
    assert_eq!(g.retain_projects(&mut c, &keep(&[-2])), 1);
    assert_eq!(g.retain_groups(&mut c, &keep(&[1, 2])), 0);
    assert_eq!(c.all_projects()[0].id, -2);
    assert!(c.has_project(-2));
    assert!(!c.has_project(1));
    assert_eq!(c.all_groups().len(), 2);
}

#[test]
fn sync_gate_is_exclusive_until_dropped() {
    let mut c = cache();
    let g = c.try_begin_sync().unwrap();
    assert!(c.is_syncing());
    assert!(c.try_begin_sync().is_none());
    g.end(&mut c);
    assert!(!c.is_syncing());
    assert!(c.try_begin_sync().is_some());
}

#[test]
fn search_stamps_default_to_never_synced() {
    let c = cache();
    let s = c.stamps();
    assert_eq!(s.last_partial_sync_secs, 0);
    assert_eq!(s.last_full_sync_secs, 0);
}

#[test]
fn stamps_roundtrip() {
    let mut c = cache();
    let g = c.try_begin_sync().unwrap();
    g.set_stamps(
        &mut c,
        &SyncStamps {
            last_partial_sync_secs: 123,
            last_full_sync_secs: 45,
            degraded_to_member: true,
            schema_version: SEARCH_SCHEMA_VERSION,
            synced_user_id: 42,
        },
    );
    let s = c.stamps();
    assert_eq!(s.last_partial_sync_secs, 123);
    assert_eq!(s.last_full_sync_secs, 45);
    assert!(s.degraded_to_member);
    assert_eq!(s.schema_version, SEARCH_SCHEMA_VERSION);
    assert_eq!(s.synced_user_id, 42);
}

#[test]
fn mr_id_resolves_cached_project_iid_pairs() {
    let mut c = cache();
    let g = c.try_begin_sync().unwrap();
    g.upsert_mrs(&mut c, vec![mr(3, "a"), mr(4, "b")]);
    g.end(&mut c);

    assert_eq!(c.mr_id(1, 30), Some(3));
    assert_eq!(c.mr_id(1, 40), Some(4));
    assert_eq!(c.mr_id(1, 99), None, "unknown iid");
    assert_eq!(c.mr_id(2, 30), None, "wrong project");
}

#[test]
fn update_mr_mutates_exactly_the_matching_row() {
    let mut c = cache();
    let g = c.try_begin_sync().unwrap();
    let mut assigned = mr(3, "mine");
    assigned.assignees = vec![MrAssignee {
        id: 42,
        username: "me".into(),
    }];
    g.upsert_mrs(&mut c, vec![assigned, mr(4, "other")]);

    assert!(g.update_mr(&mut c, 1, 30, |mut m: SearchMr| {
        m.state = "closed".into();
        m.assignees.retain(|a| a.id != 42);
        m
    }));
    assert!(
        !g.update_mr(&mut c, 1, 99, |m: SearchMr| m),
        "missing row → false"
    );
    g.end(&mut c);

    let mrs = c.all_mrs();
    let updated = mrs.iter().find(|m| m.id == 3).unwrap();
    assert_eq!(updated.state, "closed");
    assert!(updated.assignees.is_empty());
    let untouched = mrs.iter().find(|m| m.id == 4).unwrap();
    assert_eq!(untouched.state, "opened");
}

#[test]
fn update_mr_writes_under_the_id_and_removes_nothing() {
    let mut c = SearchCache::open(vec![], vec![(7, mr(3, "stray"))], vec![], vec![], vec![], None);
    let g = c.try_begin_sync().unwrap();
    assert!(g.update_mr(&mut c, 1, 30, |mut m: SearchMr| {
        m.state = "closed".into();
        m
    }));
    assert_eq!(c.entry(3).mr.unwrap().state, "closed");
    assert_eq!(c.entry(7).mr.unwrap().state, "opened", "the row under another key stays");
    assert_eq!(c.dirty_keys().mrs, &vec![3]);

    assert!(g.update_mr(&mut c, 1, 30, |mut m: SearchMr| {
        m.id = 9;
        m.iid = 90;
        m
    }));
    assert_eq!(c.entry(9).mr.unwrap().iid, 90);
    assert_eq!(c.entry(3).mr.unwrap().id, 3, "as does the one under the former id");
    assert_eq!(c.all_mrs().len(), 3);
    g.end(&mut c);
}

#[test]
fn clear_wipes_all_kinds_and_resets_stamps() {
    let mut c = cache();
    let g = c.try_begin_sync().unwrap();
    g.upsert_issues(&mut c, vec![issue(1, "i")]);
    g.upsert_mrs(&mut c, vec![mr(1, "m")]);
    g.upsert_projects(&mut c, vec![project(1, "team/p")]);
    g.upsert_groups(&mut c, vec![group(1, "team")]);
    g.note_tracked(&mut c, &vec![1], 100);
    g.set_stamps(
        &mut c,
        &SyncStamps {
            last_partial_sync_secs: 1,
            last_full_sync_secs: 1,
            ..Default::default()
        },
    );

    g.clear(&mut c);

    assert!(c.all_issues().is_empty());
    assert!(c.all_mrs().is_empty());
    assert!(c.all_projects().is_empty());
    assert!(c.all_groups().is_empty());
    assert!(c.tracked_projects().is_empty());
    assert_eq!(c.stamps().last_partial_sync_secs, 0);
    assert_eq!(c.stamps().last_full_sync_secs, 0);
}

#[test]
fn note_tracked_max_merges_evidence() {
    let mut c = cache();
    let g = c.try_begin_sync().unwrap();
    g.note_tracked(&mut c, &vec![1, 2], 100);
    g.note_tracked(&mut c, &vec![1], 50); // older evidence must not age it
    g.note_tracked(&mut c, &vec![2], 200);

    let mut all = c.tracked_projects();
    all.sort_by_key(|(id, _)| *id);
    assert_eq!(
        all.iter()
            .map(|(id, t)| (*id, t.last_evidence_secs))
            .collect::<Vec<_>>(),
        vec![(1, 100), (2, 200)]
    );
}

#[test]
fn evict_tracked_drops_only_stale_entries() {
    let mut c = cache();
    let g = c.try_begin_sync().unwrap();
    g.note_tracked(&mut c, &vec![1], 100);
    g.note_tracked(&mut c, &vec![2], 500);

    let evicted = g.evict_tracked(&mut c, 300);
    assert_eq!(evicted, vec![1]);

    let all = c.tracked_projects();
    assert_eq!(all.len(), 1);
    assert_eq!(all[0].0, 2);
}

#[test]
fn retain_in_project_touches_only_that_project() {
    let mut c = cache();
    let g = c.try_begin_sync().unwrap();
    let mut foreign = issue(3, "other project");
    foreign.project_id = 2;
    g.upsert_issues(&mut c, vec![issue(1, "keep"), issue(2, "drop"), foreign]);
    let mut foreign_mr = mr(30, "other project");
    foreign_mr.project_id = 2;
    g.upsert_mrs(&mut c, vec![mr(10, "drop"), foreign_mr]);

    assert_eq!(
        g.retain_issues_in_project(&mut c, 1, &HashSet::from([1])),
        1,
        "only issue 2 (project 1, not kept) goes"
    );
    assert_eq!(
        g.retain_mrs_in_project(&mut c, 1, &HashSet::new()),
        1,
        "only MR 10 (project 1) goes"
    );

    let mut ids: Vec<i64> = c.all_issues().iter().map(|i| i.id).collect();
    ids.sort_unstable();
    assert_eq!(ids, vec![1, 3], "the other project's issue is untouched");
    let ids: Vec<i64> = c.all_mrs().iter().map(|m| m.id).collect();
    assert_eq!(ids, vec![30], "the other project's MR is untouched");
}

#[test]
fn prune_untracked_drops_foreign_projects() {
    let mut c = cache();
    let g = c.try_begin_sync().unwrap();
    let mut foreign = issue(2, "untracked");
    foreign.project_id = 9;
    g.upsert_issues(&mut c, vec![issue(1, "tracked"), foreign]);
    let mut foreign_mr = mr(20, "untracked");
    foreign_mr.project_id = 9;
    g.upsert_mrs(&mut c, vec![mr(10, "tracked"), foreign_mr]);

    let (issues, mrs) = g.prune_untracked(&mut c, &HashSet::from([1]));
    assert_eq!((issues, mrs), (1, 1));
    assert_eq!(c.all_issues()[0].id, 1);
    assert_eq!(c.all_mrs()[0].id, 10);
}

#[test]
fn search_survives_reopen() {
    let mut c = cache();
    let g = c.try_begin_sync().unwrap();
    g.upsert_issues(&mut c, vec![issue(1, "persisted")]);
    g.note_tracked(&mut c, &vec![5], 7);
    g.set_stamps(
        &mut c,
        &SyncStamps {
            last_partial_sync_secs: 7,
            last_full_sync_secs: 7,
            ..Default::default()
        },
    );
    let keys = c.dirty_keys();
    assert!(keys.stamps);
    assert!(keys.mrs.is_empty() && keys.projects.is_empty() && keys.groups.is_empty());
    let issues: Vec<(u64, SearchIssue)> = keys
        .issues
        .iter()
        .map(|k| (*k, c.entry(*k).issue.unwrap().clone()))
        .collect();
    let evidence: Vec<(u64, TrackedProject)> = keys
        .tracked_set
        .iter()
        .map(|k| (*k, *c.entry(*k).evidence.unwrap()))
        .collect();
    c.mark_saved();
    let keys = c.dirty_keys();
    assert!(!keys.stamps && keys.issues.is_empty(), "nothing is saved twice");

    let c = SearchCache::open(issues, vec![], vec![], vec![], evidence, Some(c.stamps()));
    assert!(!c.is_syncing(), "a guard does not outlive the process");
    assert_eq!(c.all_issues()[0].title, "persisted");
    assert_eq!(c.stamps().last_full_sync_secs, 7);
    assert_eq!(
        c.tracked_projects(),
        vec![(
            5,
            TrackedProject {
                last_evidence_secs: 7
            }
        )]
    );
}

#[test]
fn parse_iid_query_rejects_a_bare_hash() {
    assert_eq!(parse_iid_query("#"), None);
}

#[test]
fn parse_iid_query_roundtrips_any_padded_reference() {
    for n in [0i64, 1, 42, i64::MAX] {
        for (l, r) in [("", ""), (" ", "   "), ("\t\u{a0}", "\n"), ("\u{3000}", "")] {
            assert_eq!(parse_iid_query(&format!("{l}#{n}{r}")), Some(n));
        }
    }
    assert_eq!(parse_iid_query("#9223372036854775808"), None);
    assert_eq!(parse_iid_query("#007"), Some(7));
}

#[test]
fn parse_iid_query_rejects_anything_without_a_leading_hash() {
    for s in ["", "12", "a#12", "!12", " 12 "] {
        assert_eq!(parse_iid_query(s), None);
    }
}

#[test]
fn parse_iid_query_rejects_non_digit_tails() {
    for s in ["#1a", "#a1", "##1", "#-1", "#+1", "#1 2"] {
        assert_eq!(parse_iid_query(s), None);
    }
}

#[test]
fn text_matches_finds_an_inserted_needle_in_any_case() {
    for hay in ["the OAuth flow", "OAUTH", "oauth", "xoAuThx"] {
        assert!(text_matches("oauth", hay));
        assert!(text_matches("oauth", &hay.to_uppercase()));
        assert!(text_matches("oauth", &hay.to_lowercase()));
    }
    assert!(text_matches("größe", "GRÖßE"));
    assert!(text_matches("", ""));
}

#[test]
fn text_matches_rejects_a_needle_absent_from_the_haystack() {
    assert!(!text_matches("ab", "1 2 3"));
    assert!(!text_matches("ab", "a b"));
    assert!(!text_matches("ab", ""));
}
