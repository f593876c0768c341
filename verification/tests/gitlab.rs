use gitlab_trackrd::error::Error;
use gitlab_trackrd::gitlab::{
    board_ids, classify, compute_new_assignees, create_timelog, fetch_my_timelogs, format_duration,
    issue_with_labels, issues_from, mutate_self_assignment, parse_gid, push_list_labels,
    search_group_from_json, search_issue_from_json, search_mr_from_json, search_project_from_json,
    secs_kept, AddSpentTime, CloseEndpoint, CurrentUserEndpoint, FailureKind, GetIssuableEndpoint,
    GitlabClient, Issuable, ListBoardLists, ListProjectBoards, Method, MyTimelogs, RetryPlan,
    TimelogCreate, UpdateAssigneesEndpoint, MY_TIMELOGS, TIMELOG_CREATE,
};
use gitlab_trackrd::json::Json;
use gitlab_trackrd::search::MrAssignee;
use gitlab_trackrd::time::Duration;
use serde_json::Value;

fn convert(v: &Value) -> Json {
    match v {
        Value::Null => Json::Null,
        Value::Bool(b) => Json::Bool(*b),
        Value::Number(n) => match (n.as_i64(), n.as_u64()) {
            (Some(i), _) => Json::Int(i),
            (None, Some(u)) => Json::Uint(u),
            (None, None) => Json::Real,
        },
        Value::String(s) => Json::Str(s.clone()),
        Value::Array(a) => Json::Array(a.iter().map(convert).collect()),
        Value::Object(m) => Json::Object(m.iter().map(|(k, v)| (k.clone(), convert(v))).collect()),
    }
}

fn js(text: &str) -> Json {
    convert(&serde_json::from_str(text).unwrap())
}

fn items(text: &str) -> Vec<Json> {
    match js(text) {
        Json::Array(a) => a,
        _ => panic!("no array"),
    }
}

/// The value back as text, with the members of objects in order.
fn shown(v: &Json) -> String {
    match v {
        Json::Null => "null".to_string(),
        Json::Bool(b) => b.to_string(),
        Json::Int(i) => i.to_string(),
        Json::Uint(u) => u.to_string(),
        Json::Real => "real".to_string(),
        Json::Str(s) => format!("{s:?}"),
        Json::Array(a) => {
            let parts: Vec<String> = a.iter().map(shown).collect();
            format!("[{}]", parts.join(","))
        }
        Json::Object(m) => {
            let parts: Vec<String> = m.iter().map(|(k, v)| format!("{k:?}:{}", shown(v))).collect();
            format!("{{{}}}", parts.join(","))
        }
    }
}

#[test]
fn format_duration_pins_the_gitlab_style_grammar() {
    assert_eq!(format_duration(5400), "1h 30m");
    assert_eq!(format_duration(45), "45s");
    assert_eq!(format_duration(0), "0m");
}

/// Split a `"2h 5m"`-style rendering back into (hours, minutes).
fn parse_h_m(s: &str) -> (u64, u64) {
    let (mut hours, mut mins) = (0, 0);
    for part in s.split(' ') {
        if let Some(h) = part.strip_suffix('h') {
            hours = h.parse().unwrap();
        } else if let Some(m) = part.strip_suffix('m') {
            mins = m.parse().unwrap();
        } else {
            panic!("unexpected part {part:?} in {s:?}");
        }
    }
    (hours, mins)
}

#[test]
fn format_duration_renders_whole_minutes_of_any_input() {
    for secs in [0u64, 1, 59, 60, 61, 3599, 3600, 3659, 3660, 86399, 360000, u64::MAX] {
        let out = format_duration(secs);
        assert!(!out.is_empty());
        if secs == 0 {
            assert_eq!(out, "0m");
        } else if secs < 60 {
            assert_eq!(out, format!("{secs}s"));
        } else {
            let (hours, mins) = parse_h_m(&out);
            assert!(mins < 60);
            assert_eq!(hours * 3600 + mins * 60, secs - secs % 60);
        }
    }
}

#[test]
fn parse_gid_roundtrips_any_id() {
    for n in [0u64, 7, 10, 4294967296, u64::MAX] {
        assert_eq!(parse_gid(&format!("gid://gitlab/Timelog/{n}")), Some(n));
        assert_eq!(parse_gid(&n.to_string()), Some(n));
    }
    assert_eq!(parse_gid("18446744073709551616"), None);
}

#[test]
fn parse_gid_rejects_non_numeric_tails() {
    for tail in ["", "a", "Z ", "abc", " "] {
        assert_eq!(parse_gid(&format!("gid://gitlab/Timelog/{tail}")), None);
        assert_eq!(parse_gid(tail), None);
    }
}

#[test]
fn issuable_maps_to_rest_segment_and_gid_type() {
    assert_eq!(Issuable::Issue.path_segment(), "issues");
    assert_eq!(Issuable::MergeRequest.path_segment(), "merge_requests");
    assert_eq!(Issuable::Issue.gid_type(), "Issue");
    assert_eq!(Issuable::MergeRequest.gid_type(), "MergeRequest");
}

#[test]
fn write_endpoints_render_kind_specific_paths() {
    for (kind, seg) in [
        (Issuable::Issue, "issues"),
        (Issuable::MergeRequest, "merge_requests"),
    ] {
        let close = CloseEndpoint {
            kind,
            project_id: 7,
            iid: 42,
        };
        assert_eq!(close.endpoint(), format!("projects/7/{seg}/42"));

        let spend = AddSpentTime {
            kind,
            project_id: 7,
            iid: 42,
            duration: "1h",
            summary: None,
        };
        assert_eq!(
            spend.endpoint(),
            format!("projects/7/{seg}/42/add_spent_time")
        );

        let get = GetIssuableEndpoint {
            kind,
            project_id: 7,
            iid: 42,
        };
        assert_eq!(get.endpoint(), format!("projects/7/{seg}/42"));

        let update = UpdateAssigneesEndpoint {
            kind,
            project_id: 7,
            iid: 42,
            assignee_ids: vec![1],
        };
        assert_eq!(update.endpoint(), format!("projects/7/{seg}/42"));
    }
}

#[test]
fn endpoints_send_their_method_and_body() {
    let close = CloseEndpoint { kind: Issuable::Issue, project_id: -7, iid: 42 };
    assert_eq!(close.endpoint(), "projects/-7/issues/42");
    assert_eq!(close.method(), Method::Put);
    assert_eq!(shown(&close.body()), r#"{"state_event":"close"}"#);

    let mut spend = AddSpentTime {
        kind: Issuable::Issue,
        project_id: 7,
        iid: 42,
        duration: "1h",
        summary: None,
    };
    assert_eq!(spend.method(), Method::Post);
    assert_eq!(shown(&spend.body()), r#"{"duration":"1h"}"#);
    spend.summary = Some("did it");
    assert_eq!(shown(&spend.body()), r#"{"duration":"1h","summary":"did it"}"#);

    let update = UpdateAssigneesEndpoint {
        kind: Issuable::MergeRequest,
        project_id: 7,
        iid: 42,
        assignee_ids: vec![3, 1],
    };
    assert_eq!(update.method(), Method::Put);
    assert_eq!(shown(&update.body()), r#"{"assignee_ids":[3,1]}"#);

    assert_eq!(CurrentUserEndpoint {}.method(), Method::Get);
    assert_eq!(CurrentUserEndpoint {}.endpoint(), "user");
    assert_eq!(ListProjectBoards { project_id: 5 }.endpoint(), "projects/5/boards");
    assert_eq!(
        ListBoardLists { project_id: 5, board_id: 6 }.endpoint(),
        "projects/5/boards/6/lists"
    );
}

#[test]
fn timelog_create_carries_the_time_that_was_spent() {
    let t = TimelogCreate {
        kind: Issuable::MergeRequest,
        issuable_id: 99,
        time_spent: "1h",
        summary: "s",
        spent_at_secs: 1_700_000_000,
        now: "now",
    };
    assert_eq!(t.method(), Method::Post);
    assert_eq!(t.endpoint(), "api/graphql");
    assert_eq!(
        shown(&t.variables()),
        r#"{"id":"gid://gitlab/MergeRequest/99","time":"1h","summary":"s","spent":"2023-11-14T22:13:20+00:00"}"#
    );
    match t.body() {
        Json::Object(m) => {
            assert_eq!(m[0].0, "query");
            assert!(matches!(&m[0].1, Json::Str(q) if q == TIMELOG_CREATE));
            assert_eq!(shown(&m[1].1), shown(&t.variables()));
        }
        _ => panic!("no object"),
    }
    let far = TimelogCreate { spent_at_secs: i64::MAX, ..t };
    assert!(shown(&far.variables()).contains(r#""spent":"now""#));
}

#[test]
fn my_timelogs_start_where_asked() {
    let q = MyTimelogs { start_secs: 0, now: "now" };
    assert_eq!(q.endpoint(), "api/graphql");
    assert_eq!(q.method(), Method::Post);
    match q.body() {
        Json::Object(m) => {
            assert!(matches!(&m[0].1, Json::Str(s) if s == MY_TIMELOGS));
            assert_eq!(shown(&m[1].1), r#"{"start":"1970-01-01T00:00:00+00:00"}"#);
        }
        _ => panic!("no object"),
    }
}

#[test]
fn issue_with_labels_complete() {
    let v = js(r#"{
        "id": 123,
        "iid": 7,
        "project_id": 9,
        "title": "Fix it",
        "web_url": "https://example.com/issues/7",
        "state": "opened",
        "epic": { "url": "https://example.com/epics/1" },
        "time_stats": { "human_total_time_spent": "2h" },
        "labels": ["bug", "high"]
    }"#);
    let r = issue_with_labels(&v);
    assert_eq!(r.issue.id, 123);
    assert_eq!(r.issue.iid, 7);
    assert_eq!(r.issue.project_id, 9);
    assert_eq!(r.issue.title, "Fix it");
    assert_eq!(r.issue.web_url, "https://example.com/issues/7");
    assert_eq!(r.issue.state, "opened");
    assert_eq!(r.issue.parent, "https://example.com/epics/1");
    assert_eq!(r.issue.total_time, "2h");
    assert!(
        r.issue.graph_status.is_empty(),
        "graph_status is filled later"
    );
    assert_eq!(r.labels, vec!["bug".to_string(), "high".to_string()]);
}

#[test]
fn issue_with_labels_missing_fields_default() {
    let v = js("{}");
    let r = issue_with_labels(&v);
    assert_eq!(r.issue.id, 0);
    assert_eq!(r.issue.iid, 0);
    assert_eq!(r.issue.project_id, 0);
    assert!(r.issue.title.is_empty());
    assert!(r.issue.web_url.is_empty());
    assert!(r.issue.state.is_empty());
    assert!(r.issue.parent.is_empty());
    assert!(r.issue.total_time.is_empty());
    assert!(r.labels.is_empty());
}

#[test]
fn compute_new_assignees_add_appends_exactly_when_absent() {
    assert_eq!(compute_new_assignees(&vec![1, 2], 3, true), Some(vec![1, 2, 3]));
    assert_eq!(compute_new_assignees(&vec![], 3, true), Some(vec![3]));
    assert_eq!(compute_new_assignees(&vec![1, 3], 3, true), None);
}

#[test]
fn compute_new_assignees_remove_drops_exactly_the_self_id() {
    assert_eq!(
        compute_new_assignees(&vec![3, 1, 3, 2], 3, false),
        Some(vec![1, 2])
    );
    assert_eq!(compute_new_assignees(&vec![1, 2], 3, false), None);
}

#[test]
fn compute_new_assignees_add_then_remove_restores_the_original() {
    let current = vec![5, 5, 1];
    let added = compute_new_assignees(&current, 20, true).expect("absent");
    let removed = compute_new_assignees(&added, 20, false).expect("present");
    assert_eq!(removed, current);
}

#[test]
fn self_assignment_is_computed_from_the_reply() {
    let v = js(r#"{"assignees": [{"id": 1}, {"username": "ghost"}, {"id": 2, "username": "b"}]}"#);
    assert_eq!(mutate_self_assignment(&v, 7, true), Some(vec![1, 2, 7]));
    assert_eq!(mutate_self_assignment(&v, 2, true), None);
    assert_eq!(mutate_self_assignment(&v, 2, false), Some(vec![1]));
    assert_eq!(mutate_self_assignment(&js("{}"), 7, true), Some(vec![7]));
}

#[test]
fn search_mr_from_json_captures_assignees() {
    let v = js(r#"{
        "id": 5, "iid": 2, "project_id": 9,
        "title": "t", "web_url": "u", "state": "opened",
        "assignees": [
            { "id": 42, "username": "me" },
            { "id": 43 },
            { "username": "ghost" }
        ]
    }"#);
    let m = search_mr_from_json(&v);
    assert_eq!(
        m.assignees,
        vec![
            MrAssignee {
                id: 42,
                username: "me".into()
            },
            MrAssignee {
                id: 43,
                username: String::new()
            },
        ]
    );

    let bare = search_mr_from_json(&js(r#"{"id": 1}"#));
    assert!(bare.assignees.is_empty(), "missing assignees array → empty");
}

#[test]
fn issue_with_labels_filters_non_string_labels() {
    let v = js(r#"{"labels": ["ok", 42, null, "good"]}"#);
    let r = issue_with_labels(&v);
    assert_eq!(r.labels, vec!["ok".to_string(), "good".to_string()]);
}

#[test]
fn search_entries_take_their_timestamp_and_paths() {
    let i = search_issue_from_json(&js(
        r#"{"id": 1, "iid": 2, "project_id": 3, "updated_at": "2023-11-14T23:13:20+01:00"}"#,
    ));
    assert_eq!((i.id, i.iid, i.project_id), (1, 2, 3));
    assert_eq!(i.updated_at_secs, 1_700_000_000);
    let i = search_issue_from_json(&js(r#"{"updated_at": "yesterday"}"#));
    assert_eq!(i.updated_at_secs, 0, "malformed sorts oldest");
    let i = search_issue_from_json(&js(r#"{"updated_at": "1969-12-31T23:59:59Z"}"#));
    assert_eq!(i.updated_at_secs, 0, "nothing before the epoch");

    let p = search_project_from_json(&js(
        r#"{"id": 4, "name": "n", "path_with_namespace": "g/n", "web_url": "u"}"#,
    ));
    assert_eq!((p.id, p.name.as_str(), p.path.as_str()), (4, "n", "g/n"));
    let g = search_group_from_json(&js(
        r#"{"id": 5, "name": "n", "full_path": "g/h", "web_url": "u"}"#,
    ));
    assert_eq!((g.id, g.path.as_str()), (5, "g/h"));
    assert_eq!(issues_from(&items(r#"[{"id": 8}, {"id": 9}]"#))[1].issue.id, 9);
}

#[test]
fn kept_seconds_never_lie_before_the_epoch() {
    assert_eq!(secs_kept(Some(5)), 5);
    assert_eq!(secs_kept(Some(0)), 0);
    assert_eq!(secs_kept(Some(-5)), 0);
    assert_eq!(secs_kept(None), 0);
}

#[test]
fn timelogs_come_newest_first_and_without_unnumbered_nodes() {
    let raw = r#"{"data": {"currentUser": {"timelogs": {"nodes": [
        {"id": "gid://gitlab/Timelog/1", "timeSpent": 5400, "spentAt": "1970-01-01T00:00:10Z",
         "summary": "a", "issue": {"iid": "12", "title": "T", "webUrl": "u"}},
        {"id": "gid://gitlab/Timelog/x", "timeSpent": 1},
        {"id": "gid://gitlab/Timelog/3", "timeSpent": -60, "spentAt": "1970-01-01T00:00:20Z",
         "summary": null, "issue": null}
    ]}}}}"#;
    let list = fetch_my_timelogs(&js(raw), raw).unwrap();
    let ids: Vec<u64> = list.iter().map(|t| t.timelog_id).collect();
    assert_eq!(ids, vec![3, 1]);
    assert_eq!(list[0].duration, "0m");
    assert_eq!(list[0].iid, 0);
    assert_eq!(list[1].duration, "1h 30m");
    assert_eq!(list[1].iid, 12);
    assert_eq!(list[1].title, "T");
    assert_eq!(list[1].spent_at_secs, 10);
    assert_eq!(list[1].project_id, 0);
    assert_eq!(list[1].kind, Issuable::Issue);
}

#[test]
fn graphql_errors_are_reported_with_what_was_asked() {
    let bad = js(r#"{"errors": [{"message": "a"}, {"message": "b"}]}"#);
    assert!(matches!(
        fetch_my_timelogs(&bad, "raw"),
        Err(Error::Gitlab(m)) if m == "currentUser.timelogs: a; b"
    ));
    assert!(matches!(
        fetch_my_timelogs(&js("{}"), "{}"),
        Err(Error::Gitlab(m)) if m == "currentUser.timelogs returned unexpected shape: {}"
    ));
    assert!(matches!(
        create_timelog(&bad),
        Err(Error::Gitlab(m)) if m == "timelogCreate: a; b"
    ));
    assert!(matches!(
        create_timelog(&js(r#"{"data": {"timelogCreate": {"errors": ["no", "way"]}}}"#)),
        Err(Error::Gitlab(m)) if m == "timelogCreate: no; way"
    ));
    assert!(create_timelog(&js(r#"{"data": {"timelogCreate": {"errors": []}}}"#)).is_ok());
}

#[test]
fn board_replies_yield_ids_and_label_names() {
    assert_eq!(board_ids(&items(r#"[{"id": 1}, {}, {"id": 3}]"#)), vec![1, 3]);
    let mut labels = vec!["Old".to_string()];
    push_list_labels(
        &mut labels,
        &items(r#"[{"label": {"name": "Doing"}}, {"label": null}, {"label": {"name": "Done"}}]"#),
    );
    assert_eq!(labels, vec!["Old", "Doing", "Done"]);
}

#[test]
fn connect_needs_a_numeric_user_id() {
    let c = GitlabClient::connect("gl.example.com", &js(r#"{"id": 42}"#), "").unwrap();
    assert_eq!(c.host(), "gl.example.com");
    assert_eq!(c.current_user_id(), 42);
    let raw = r#"{"id":"x"}"#;
    assert!(matches!(
        GitlabClient::connect("h", &js(raw), raw),
        Err(Error::Gitlab(m)) if m == "GET /user response missing numeric id: {\"id\":\"x\"}"
    ));
}

#[test]
fn only_answers_from_gitlab_are_final() {
    let m = || "m".to_string();
    assert!(matches!(classify(FailureKind::Client, m()), Error::Transient(s) if s == "m"));
    assert!(matches!(classify(FailureKind::Communication, m()), Error::Transient(_)));
    assert!(matches!(classify(FailureKind::NoResponse, m()), Error::Transient(_)));
    assert!(matches!(classify(FailureKind::Rejected, m()), Error::Gitlab(s) if s == "m"));
}

#[test]
fn retries_are_one_two_and_four_seconds_apart() {
    let e = Error::Transient("x".to_string());
    let mut plan = RetryPlan::new();
    assert_eq!(plan.failed(&e), Some(Duration::from_secs(1)));
    assert_eq!(plan.failed(&e), Some(Duration::from_secs(2)));
    assert_eq!(plan.failed(&e), Some(Duration::from_secs(4)));
    assert_eq!(plan.failed(&e), None);
    let mut plan = RetryPlan::new();
    assert_eq!(plan.failed(&Error::Gitlab("403".to_string())), None);
}
