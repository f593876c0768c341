use gitlab_trackrd::api::IssuableKind;
use gitlab_trackrd::boards::BoardCache;
use gitlab_trackrd::cache::IssueCache;
use gitlab_trackrd::config::defaults;
use gitlab_trackrd::error::{DormancyReason, Error};
use gitlab_trackrd::handlers::search::{fetch_live_hits, Reply, SearchReply, SearchStep};
use gitlab_trackrd::handlers::varlink::{LetterStep, Letters, WriteStep};
use gitlab_trackrd::handlers::{ConnState, Handlers, Session};
use gitlab_trackrd::history::HistoryCache;
use gitlab_trackrd::json::Json;
use gitlab_trackrd::gitlab::Issuable;
use gitlab_trackrd::queue::{QueueOp, RetryQueue, StoredFailure};
use gitlab_trackrd::refresh_meta::RefreshMeta;
use gitlab_trackrd::search::{SearchCache, SearchIssue, SyncStamps};
use gitlab_trackrd::service::{
    describe, dispatch, handle_trackrd, refusal, service_info, Call, Described, Frame, Next,
    Request, ServiceHandler,
};
use gitlab_trackrd::time::Duration;

const TRACKRD: &str = "org.thehoster.gitlab.trackrd.";

fn search_issue(id: i64, title: &str) -> SearchIssue {
    SearchIssue {
        id,
        iid: id * 10,
        project_id: 1,
        title: title.to_string(),
        web_url: format!("https://gl/team/api/-/issues/{}", id * 10),
        state: "opened".to_string(),
        labels: vec![],
        parent: String::new(),
        total_time: String::new(),
        updated_at_secs: 100,
    }
}

fn handlers_with(session: ConnState) -> Handlers {
    let mut h = Handlers {
        session,
        cache: IssueCache::open(None),
        boards: BoardCache::open(vec![]),
        history: HistoryCache::open(vec![]),
        search: SearchCache::open(vec![], vec![], vec![], vec![], vec![], None),
        refresh_meta: RefreshMeta::open(None),
        queue: RetryQueue::new(vec![], vec![]),
        config: defaults(),
        reconnect_signal: false,
        drain_wake: false,
        live_search_recent: vec![],
    };
    let g = h.search.try_begin_sync().unwrap();
    g.upsert_issues(
        &mut h.search,
        vec![search_issue(1, "OAuth token refresh"), search_issue(2, "unrelated title")],
    );
    g.set_stamps(
        &mut h.search,
        &SyncStamps { last_partial_sync_secs: 1, last_full_sync_secs: 1, ..Default::default() },
    );
    g.end(&mut h.search);
    h
}

/// Connected over a seeded corpus; the live lookup finds issue 70.
fn connected() -> Handlers {
    handlers_with(ConnState::Connected(Session {
        client: 1,
        host: "gitlab.example.com".into(),
        user_id: 1,
    }))
}

fn dormant() -> Handlers {
    handlers_with(ConnState::Dormant(DormancyReason::NoCredentials))
}

fn object(members: Vec<(&str, Json)>) -> Json {
    Json::Object(members.into_iter().map(|(k, v)| (k.to_string(), v)).collect())
}

fn text(s: &str) -> Json {
    Json::Str(s.to_string())
}

fn request(method: &str, parameters: Option<Json>, more: bool) -> Request {
    Request { method: format!("{TRACKRD}{method}"), parameters, more }
}

fn search_request(query: &str, more: bool) -> Request {
    request(
        "Search",
        Some(object(vec![
            ("query", text(query)),
            ("kinds", Json::Array(vec![text("issues")])),
        ])),
        more,
    )
}

/// The full search, with the lookup served at once; `live` counts the lookups.
fn full_search(
    h: &mut Handlers,
    query: String,
    kinds: Option<Vec<String>>,
    limit: Option<i64>,
    live: &mut usize,
) -> Reply<SearchReply> {
    let clock = Duration::from_secs(5);
    match h.search(query, kinds, limit, clock) {
        SearchStep::Answered(r) => r,
        SearchStep::Lookup { args, key, .. } => {
            *live += 1;
            let hits = fetch_live_hits(
                Some(Ok(vec![search_issue(70, "oauth live")])),
                None,
                None,
                None,
            );
            h.search_done(&args, key, Some(hits), clock, 100)
        }
    }
}

/// The frames that answer one request. Each frame is on the wire before the
/// next is computed.
fn drive_frames(h: &mut Handlers, request: &Request) -> Vec<Frame<SearchReply>> {
    let mut live = 0;
    match dispatch(request) {
        Call::Search { query, kinds, limit, streamed: true } => {
            let first = h.handle_search_streamed(query.clone(), kinds.clone(), limit);
            assert_eq!(live, 0, "the first frame needs no lookup");
            if !first.continues {
                return vec![first];
            }
            let second = full_search(h, query, kinds, limit, &mut live);
            vec![first, Frame { reply: second, continues: false }]
        }
        Call::Search { query, kinds, limit, streamed: false } => {
            let reply = full_search(h, query, kinds, limit, &mut live);
            vec![Frame { reply, continues: false }]
        }
        other => panic!("no search: {other:?}"),
    }
}

fn issue_ids(f: &Frame<SearchReply>) -> Vec<i64> {
    match &f.reply {
        Reply::Success(s) => s.issues.iter().map(|i| i.id).collect(),
        other => panic!("issues array: {other:?}"),
    }
}

#[test]
fn search_with_more_streams_cached_then_live_merged() {
    let mut h = connected();
    let frames = drive_frames(&mut h, &search_request("oauth", true));
    assert_eq!(frames.len(), 2, "streamed search replies twice: {frames:?}");
    assert!(frames[0].continues, "the cached frame carries continues");
    assert_eq!(issue_ids(&frames[0]), vec![1], "phase 1 is the local corpus only");
    assert!(!frames[1].continues, "the merged frame ends the exchange");
    assert!(
        issue_ids(&frames[1]).contains(&70),
        "phase 2 folds in the live hit"
    );
}

#[test]
fn search_with_more_while_dormant_still_sends_two_frames() {
    let mut h = dormant();
    let frames = drive_frames(&mut h, &search_request("oauth", true));
    assert_eq!(frames.len(), 2, "deterministic frame count: {frames:?}");
    assert!(frames[0].continues);
    assert_eq!(issue_ids(&frames[0]), vec![1]);
    assert!(!frames[1].continues);
    assert_eq!(issue_ids(&frames[1]), vec![1]);
}

#[test]
fn search_with_more_rejects_bad_args_with_one_error_frame() {
    let mut h = connected();
    let frames = drive_frames(&mut h, &search_request("", true));
    assert_eq!(frames.len(), 1, "errors always end the exchange");
    assert!(!frames[0].continues);
    assert_eq!(
        frames[0].reply.error(),
        Some("org.thehoster.gitlab.trackrd.GitlabError")
    );
}

#[test]
fn search_without_more_replies_once_with_the_live_merge() {
    let mut h = connected();
    let frames = drive_frames(&mut h, &search_request("oauth", false));
    assert_eq!(frames.len(), 1, "no more flag → the single bounded reply");
    assert!(!frames[0].continues);
    assert!(
        issue_ids(&frames[0]).contains(&70),
        "the single reply already carries the live merge"
    );
}

#[test]
fn search_with_more_flushes_the_cached_frame_before_the_live_fetch() {
    let h = connected();
    // The first frame is complete while no lookup was asked for yet.
    let first = h.handle_search_streamed("oauth".into(), Some(vec!["issues".into()]), None);
    assert!(first.continues);
    assert_eq!(issue_ids(&first), vec![1]);
}

#[test]
fn dispatch_has_an_arm_for_search() {
    let params = object(vec![("query", text("x"))]);
    let method = format!("{TRACKRD}Search");
    match handle_trackrd(&method, Some(&params), false) {
        Call::Search { query, kinds: None, limit: None, streamed: false } => {
            assert_eq!(query, "x")
        }
        other => panic!("Search is missing its dispatch arm: {other:?}"),
    }
}

#[test]
fn every_method_has_an_arm() {
    let target = || {
        object(vec![
            ("project_id", Json::Int(7)),
            ("iid", Json::Int(8)),
            ("kind", text("merge_request")),
            ("duration", text("1h")),
            ("id", Json::Int(9)),
            ("query", text("q")),
            ("host", text("h")),
            ("token", text("t")),
        ])
    };
    for method in [
        "ClearCache",
        "GetHistory",
        "GetFailures",
        "RetryFailure",
        "DismissFailure",
        "ClearFailures",
        "GetAssignedIssues",
        "GetAssignedMergeRequests",
        "Search",
        "PostTime",
        "Close",
        "AssignSelf",
        "UnassignSelf",
        "Login",
        "Logout",
        "WhoAmI",
    ] {
        let call = dispatch(&request(method, Some(target()), false));
        assert!(refusal(&call, method).is_none(), "{method} is refused");
        assert!(!matches!(call, Call::BadParameters), "{method} misreads its parameters");
        let name = format!("{call:?}");
        assert!(name.starts_with(method), "{method} became {name}");
    }
}

#[test]
fn arguments_are_read_by_name_and_type() {
    let p = object(vec![
        ("project_id", Json::Int(7)),
        ("iid", Json::Int(8)),
        ("kind", text("issue")),
        ("duration", text("1h")),
        ("summary", Json::Null),
        ("extra", Json::Bool(true)),
    ]);
    match dispatch(&request("PostTime", Some(p), false)) {
        Call::PostTime { project_id, iid, kind, duration, summary } => {
            assert_eq!((project_id, iid, kind), (7, 8, IssuableKind::issue));
            assert_eq!((duration.as_str(), summary), ("1h", None));
        }
        other => panic!("{other:?}"),
    }
    let p = object(vec![("scope", Json::Array(vec![text("quick"), text("search")]))]);
    match dispatch(&request("ClearCache", Some(p), false)) {
        Call::ClearCache { scope } => {
            assert_eq!(scope, Some(vec!["quick".to_string(), "search".to_string()]))
        }
        other => panic!("{other:?}"),
    }
    assert!(matches!(
        dispatch(&request("GetHistory", Some(object(vec![("days", Json::Int(3))])), false)),
        Call::GetHistory { days: Some(3) }
    ));
    for (method, p) in [
        ("ClearCache", object(vec![("scope", Json::Array(vec![text("a"), Json::Int(1)]))])),
        ("GetHistory", object(vec![("days", text("3"))])),
        ("RetryFailure", object(vec![])),
        ("Close", object(vec![("project_id", Json::Int(1)), ("iid", Json::Int(2)), ("kind", text("epic"))])),
        ("Search", object(vec![("query", text("q")), ("limit", Json::Real)])),
        ("GetAssignedIssues", Json::Int(3)),
        ("RetryFailure", Json::Array(vec![])),
        ("RetryFailure", Json::Array(vec![Json::Int(7), Json::Int(8)])),
        ("ClearCache", Json::Array(vec![])),
        ("PostTime", Json::Array(vec![Json::Int(7), Json::Int(8), text("issue"), text("1h")])),
        (
            "Close",
            Json::Array(vec![Json::Int(7), Json::Int(8), object(vec![("issue", Json::Int(1))])]),
        ),
    ] {
        assert!(
            matches!(dispatch(&request(method, Some(p), false)), Call::BadParameters),
            "{method}"
        );
    }
}

#[test]
fn a_missing_parameter_block_is_an_error_only_where_it_is_needed() {
    assert!(matches!(
        dispatch(&request("ClearCache", None, false)),
        Call::ClearCache { scope: None }
    ));
    assert!(matches!(
        dispatch(&request("GetHistory", None, false)),
        Call::GetHistory { days: None }
    ));
    assert!(matches!(
        dispatch(&request("GetAssignedIssues", None, false)),
        Call::GetAssignedIssues { groups: None }
    ));
    assert!(matches!(
        dispatch(&request("GetAssignedMergeRequests", None, false)),
        Call::GetAssignedMergeRequests { groups: None }
    ));
    for method in [
        "RetryFailure",
        "DismissFailure",
        "Search",
        "PostTime",
        "Close",
        "AssignSelf",
        "UnassignSelf",
        "Login",
    ] {
        for more in [false, true] {
            let call = dispatch(&request(method, None, more));
            let r = refusal(&call, method).expect("refused");
            assert_eq!(r.error, "org.varlink.service.InvalidParameter");
            assert_eq!((r.key, r.value.as_str()), ("parameter", "parameters"));
        }
    }
}

#[test]
fn unknown_methods_are_named_in_the_error() {
    for method in ["org.thehoster.gitlab.trackrd.Nope", "org.other.Search", ""] {
        let r = Request { method: method.to_string(), parameters: None, more: true };
        let refused = refusal(&dispatch(&r), method).expect("refused");
        assert_eq!(refused.error, "org.varlink.service.MethodNotFound");
        assert_eq!((refused.key, refused.value.as_str()), ("method", method));
    }
}

#[test]
fn the_service_interface_describes_both_interfaces() {
    let ask = |interface: Option<Json>| {
        let r = Request {
            method: "org.varlink.service.GetInterfaceDescription".to_string(),
            parameters: interface.map(|i| object(vec![("interface", i)])),
            more: false,
        };
        dispatch(&r)
    };
    let described = |call: &Call| match call {
        Call::GetInterfaceDescription { interface } => describe(interface),
        other => panic!("{other:?}"),
    };
    assert_eq!(
        described(&ask(Some(text("org.varlink.service")))),
        Some(Described::Service)
    );
    assert_eq!(
        described(&ask(Some(text("org.thehoster.gitlab.trackrd")))),
        Some(Described::Trackrd)
    );
    for bad in [None, Some(text("org.nope")), Some(Json::Int(1))] {
        let call = ask(bad);
        assert_eq!(described(&call), None);
        let r = refusal(&call, "m").expect("refused");
        assert_eq!(r.error, "org.varlink.service.InvalidParameter");
        assert_eq!((r.key, r.value.as_str()), ("parameter", "interface"));
    }
    let info = Request {
        method: "org.varlink.service.GetInfo".to_string(),
        parameters: None,
        more: false,
    };
    assert!(matches!(dispatch(&info), Call::GetInfo));
    let i = service_info("1.2.3".to_string());
    assert_eq!((i.vendor, i.product, i.version.as_str()), ("org.thehoster", "gitlab-trackrd", "1.2.3"));
    assert_eq!(i.interfaces, vec!["org.varlink.service", "org.thehoster.gitlab.trackrd"]);
}

#[test]
fn a_request_is_carried_out_as_far_as_it_goes_alone() {
    let clock = Duration::from_secs(5);
    let mut h = ServiceHandler::new(dormant());
    let mut ask = |method: &str, p: Option<Json>| h.handle(&request(method, p, false), 100, clock);
    assert!(matches!(ask("WhoAmI", None), Next::User(r) if r.error().is_some()));
    assert!(matches!(ask("GetFailures", None), Next::Failures(v) if v.is_empty()));
    assert!(matches!(ask("GetHistory", None), Next::History(v) if v.is_empty()));
    assert!(matches!(ask("ClearFailures", None), Next::Letters(LetterStep::Delete(Letters::All))));
    assert!(matches!(ask("Nope", None), Next::Refused(r) if r.key == "method"));
    assert!(matches!(ask("Search", None), Next::Refused(r) if r.value == "parameters"));
    assert!(matches!(ask("GetHistory", Some(Json::Int(1))), Next::Hangup));
    assert!(matches!(ask("ClearCache", None), Next::Clear(s) if s.is_empty()));
    let p = object(vec![("host", text("h")), ("token", text("t"))]);
    assert!(matches!(
        ask("Login", Some(p)),
        Next::Connect { host, token } if host == "h" && token == "t"
    ));
    let p = object(vec![("query", text("oauth"))]);
    assert!(matches!(ask("Search", Some(p)), Next::Search(SearchStep::Answered(Reply::Success(_)))));
    assert!(matches!(ask("Logout", None), Next::Forget));
    assert!(matches!(&h.handlers.session, ConnState::Dormant(DormancyReason::LoggedOut)));
}

#[test]
fn a_write_is_tried_and_ended() {
    let mut h = ServiceHandler::new(connected());
    let p = || {
        object(vec![
            ("project_id", Json::Int(7)),
            ("iid", Json::Int(8)),
            ("kind", text("issue")),
            ("duration", text("1h")),
        ])
    };
    for method in ["PostTime", "Close", "AssignSelf", "UnassignSelf"] {
        let next = h.handle(&request(method, Some(p()), false), 100, Duration::from_secs(5));
        let call = match next {
            Next::Write(WriteStep::Call { client: 1, call }) => call,
            other => panic!("{method}: {other:?}"),
        };
        let reply = h.handlers.write_done(call, Err(Error::Transient("down".into())), 100);
        assert!(reply.error().is_none(), "{method} is queued");
    }
    let cfg = h.handlers.config.queue;
    let mut queued = 0;
    while h.handlers.queue.next_task(&cfg).is_some() {
        queued += 1;
    }
    assert_eq!(queued, 4);
}

#[test]
fn arguments_may_come_in_order() {
    let ask = |method: &str, items: Vec<Json>| {
        dispatch(&request(method, Some(Json::Array(items)), false))
    };
    assert!(matches!(ask("RetryFailure", vec![Json::Int(7)]), Call::RetryFailure { id: 7 }));
    assert!(matches!(ask("GetHistory", vec![Json::Null]), Call::GetHistory { days: None }));
    match ask("Search", vec![text("q"), Json::Array(vec![text("issues")]), Json::Int(3)]) {
        Call::Search { query, kinds, limit, .. } => {
            assert_eq!((query.as_str(), limit), ("q", Some(3)));
            assert_eq!(kinds, Some(vec!["issues".to_string()]));
        }
        other => panic!("{other:?}"),
    }
    let kind = object(vec![("merge_request", Json::Null)]);
    match ask("PostTime", vec![Json::Int(7), Json::Int(8), kind, text("1h"), text("s")]) {
        Call::PostTime { project_id, iid, kind, duration, summary } => {
            assert_eq!((project_id, iid, kind), (7, 8, IssuableKind::merge_request));
            assert_eq!((duration.as_str(), summary.as_deref()), ("1h", Some("s")));
        }
        other => panic!("{other:?}"),
    }
    assert!(matches!(
        ask("Login", vec![text("h"), text("t")]),
        Call::Login { host, token } if host == "h" && token == "t"
    ));
}

#[test]
fn only_what_may_queue_needs_room_in_the_queue() {
    let mut h = dormant();
    h.queue = RetryQueue::new(
        vec![],
        vec![(
            u64::MAX - 1,
            StoredFailure {
                project_id: 1,
                iid: 1,
                kind: Issuable::Issue,
                op: QueueOp::Close,
                queued_at_secs: 1,
                failed_at_secs: 2,
                error: "e".into(),
            },
        )],
    );
    assert!(!h.queue.has_room());
    let mut h = ServiceHandler::new(h);
    let clock = Duration::from_secs(5);
    let p = object(vec![("id", Json::Int(-2))]);
    let retry = request("RetryFailure", Some(p), false);
    assert!(matches!(h.handle(&retry, 100, clock), Next::NoRoom));
    let list = request("GetFailures", None, false);
    assert!(matches!(h.handle(&list, 100, clock), Next::Failures(v) if v.len() == 1));
}
