use gitlab_trackrd::daemon::{
    cache_ttl, dispatch, host_or_default, issue_from_value, service_info, socket_address, Daemon,
    DaemonCall,
};
use gitlab_trackrd::handlers::search::Reply;
use gitlab_trackrd::json::Json;
use gitlab_trackrd::service::{Call, Request};

fn text(s: &str) -> Json {
    Json::Str(s.to_string())
}

fn object(members: Vec<(&str, Json)>) -> Json {
    Json::Object(members.into_iter().map(|(k, v)| (k.to_string(), v)).collect())
}

fn request(method: &str, parameters: Option<Json>) -> Request {
    Request { method: method.to_string(), parameters, more: false }
}

#[test]
fn malformed_fields_fall_back_to_defaults() {
    let i = issue_from_value(&object(vec![("id", Json::Int(3)), ("title", text("t"))]));
    assert_eq!((i.id, i.iid, i.project_id), (3, 0, 0));
    assert_eq!((i.title.as_str(), i.web_url.as_str(), i.state.as_str()), ("t", "", ""));
    assert_eq!(issue_from_value(&Json::Null).id, 0);
}

#[test]
fn the_list_is_served_until_it_reaches_the_age_limit() {
    let mut d = Daemon { cache: None, cache_ttl: 300 };
    assert!(d.get_assigned_issues(1000).is_none(), "nothing cached yet");
    let raw = vec![object(vec![("id", Json::Int(7))])];
    match d.issues_fetched(Ok(raw), 1000) {
        Reply::Success(v) => assert_eq!(v[0].id, 7),
        _ => panic!("fetched"),
    }
    assert!(matches!(d.get_assigned_issues(1299), Some(Reply::Success(v)) if v[0].id == 7));
    assert!(d.get_assigned_issues(1300).is_none(), "stale");
    assert!(d.get_assigned_issues(5).is_some(), "a clock that went back is no age");
    assert!(matches!(
        d.issues_fetched(Err("502".to_string()), 1400),
        Reply::GitlabError(m) if m == "GitLab error: 502"
    ));
    assert!(d.get_assigned_issues(1200).is_some(), "a failure keeps the list");
    d.clear_cache();
    assert!(d.get_assigned_issues(1200).is_none());
    d.cache_ttl = 0;
    d.write_cache(vec![], 10);
    assert!(d.read_cache(10).is_none(), "no list is younger than zero");
}

#[test]
fn time_is_posted_straight_through() {
    let d = Daemon { cache: None, cache_ttl: 300 };
    let call = d.post_time(7, 42, "1h30m", Some("s"));
    assert_eq!(call.endpoint(), "projects/7/issues/42/add_spent_time");
    assert!(matches!(d.post_time_done(Ok(())), Reply::Success(())));
    assert!(matches!(
        d.post_time_done(Err("403".to_string())),
        Reply::GitlabError(m) if m == "GitLab error: 403"
    ));
}

#[test]
fn settings_have_their_defaults() {
    let v = |s: &str| Some(s.to_string());
    assert_eq!(cache_ttl(None), 300);
    assert_eq!(cache_ttl(v("60")), 60);
    assert_eq!(cache_ttl(v("+60")), 60);
    assert_eq!(cache_ttl(v("1m")), 300);
    assert_eq!(cache_ttl(v("")), 300);
    assert_eq!(host_or_default(None), "gitlab.com");
    assert_eq!(host_or_default(v("h")), "h");
    assert_eq!(socket_address(v("unix:/a"), v("/r")), "unix:/a");
    assert_eq!(socket_address(None, v("/r")), "unix:/r/gitlab_trackrd.socket");
    assert_eq!(socket_address(None, None), "unix:/tmp/gitlab_trackrd.socket");
}

#[test]
fn requests_reach_their_method() {
    let m = |s: &str| format!("org.thehoster.gitlab.trackrd.{s}");
    assert!(matches!(
        dispatch(&request("org.varlink.service.GetInfo", None)),
        DaemonCall::Service(Call::GetInfo)
    ));
    assert!(matches!(dispatch(&request(&m("ClearCache"), None)), DaemonCall::ClearCache));
    assert!(matches!(
        dispatch(&request(&m("GetAssignedIssues"), None)),
        DaemonCall::GetAssignedIssues
    ));
    assert!(matches!(
        dispatch(&request(&m("PostTime"), None)),
        DaemonCall::Service(Call::MissingParameters)
    ));
    assert!(matches!(
        dispatch(&request(&m("Search"), None)),
        DaemonCall::Service(Call::MethodNotFound)
    ));
    let p = object(vec![
        ("project_id", Json::Int(7)),
        ("issue_iid", Json::Int(8)),
        ("duration", text("1h")),
    ]);
    match dispatch(&request(&m("PostTime"), Some(p))) {
        DaemonCall::PostTime { project_id, issue_iid, duration, summary } => {
            assert_eq!((project_id, issue_iid), (7, 8));
            assert_eq!((duration.as_str(), summary), ("1h", None));
        }
        other => panic!("{other:?}"),
    }
    let p = Json::Array(vec![Json::Int(7), Json::Int(8), text("1h"), Json::Null]);
    assert!(matches!(
        dispatch(&request(&m("PostTime"), Some(p))),
        DaemonCall::PostTime { project_id: 7, issue_iid: 8, summary: None, .. }
    ));
    let p = object(vec![("project_id", text("7"))]);
    assert!(matches!(
        dispatch(&request(&m("PostTime"), Some(p))),
        DaemonCall::BadParameters
    ));
}

#[test]
fn the_small_daemon_names_itself() {
    let i = service_info("0.3.0".to_string());
    assert_eq!((i.vendor, i.product, i.version.as_str()), ("org.thehoster", "gitlab_trackrd", "0.3.0"));
    assert_eq!(i.url, "https://github.com/lordi/gitlab_trackrd");
    assert_eq!(i.interfaces, vec!["org.varlink.service", "org.thehoster.gitlab.trackrd"]);
}
