use gitlab_trackrd::api::Issue;
use gitlab_trackrd::cache::{in_group, namespace_of, IssueCache};

fn issue_at(web_url: &str, iid: i64, title: &str) -> Issue {
    Issue {
        id: iid * 10,
        iid,
        project_id: 1,
        title: title.to_string(),
        web_url: web_url.to_string(),
        state: "opened".to_string(),
        parent: String::new(),
        total_time: String::new(),
        graph_status: String::new(),
    }
}

/// Every issue lives in the same project `grp/proj`.
fn make_issue(iid: i64, title: &str) -> Issue {
    issue_at(&format!("https://gl/grp/proj/-/issues/{iid}"), iid, title)
}

fn cache() -> IssueCache {
    IssueCache::open(None)
}

#[test]
fn namespace_of_parses_group_path() {
    assert_eq!(namespace_of("https://gl/team/proj/-/issues/5"), "team/proj");
    assert_eq!(
        namespace_of("https://gl/team/sub/proj/-/issues/5"),
        "team/sub/proj"
    );
}

#[test]
fn namespace_of_empty_without_path() {
    assert_eq!(namespace_of("https://gl"), "");
    assert_eq!(namespace_of(""), "");
}

#[test]
fn namespace_of_empty_where_the_path_starts_with_a_dash() {
    assert_eq!(namespace_of("https://gl/-/issues/42"), "");
    assert_eq!(namespace_of("https://gl//-/issues/42"), "");
    assert_eq!(namespace_of("https://gl/"), "");
    assert_eq!(namespace_of("gl/team/proj/-/issues/5"), "team/proj");
    assert_eq!(namespace_of("https://gl/team/proj"), "team/proj");
    assert!(!in_group(&namespace_of("https://gl/-/issues/42"), "-"));
    let mut c = cache();
    c.put(vec![issue_at("https://gl/-/issues/42", 42, "no group")]);
    assert!(c.get_group("-").is_empty(), "matches no group filter");
    assert_eq!(c.get().unwrap().len(), 1, "and is still listed");
}

#[test]
fn in_group_matches_exact_and_descendants_only() {
    assert!(in_group("team/proj", "team"));
    assert!(in_group("team/sub/proj", "team/sub"));
    assert!(in_group("team", "team"));
    assert!(!in_group("teamfoo/proj", "team"), "not a prefix boundary");
    assert!(!in_group("other/proj", "team"));
    assert!(!in_group("team/proj", ""), "empty filter matches nothing");
}

#[test]
fn cache_fresh_cache_returns_none() {
    let c = cache();
    assert!(c.get().is_none());
}

#[test]
fn put_then_get_roundtrips_issues() {
    let mut c = cache();
    c.put(vec![make_issue(1, "a"), make_issue(2, "b")]);
    let got = c.get().expect("cache should have an entry");
    assert_eq!(got.len(), 2);
    assert_eq!(got[0].iid, 1);
    assert_eq!(got[1].title, "b");
}

#[test]
fn put_overwrites_previous_entry() {
    let mut c = cache();
    c.put(vec![make_issue(1, "old")]);
    c.put(vec![make_issue(2, "new")]);
    let got = c.get().unwrap();
    assert_eq!(got.len(), 1);
    assert_eq!(got[0].title, "new");
}

#[test]
fn get_group_matches_group_and_subgroups() {
    let mut c = cache();
    c.put(vec![
        issue_at("https://gl/team/api/-/issues/1", 1, "api"),
        issue_at("https://gl/team/sub/web/-/issues/2", 2, "web"),
        issue_at("https://gl/other/x/-/issues/3", 3, "other"),
    ]);

    let team: Vec<i64> = c.get_group("team").iter().map(|i| i.iid).collect();
    assert_eq!(team, vec![1, 2], "team includes its subgroup");

    let sub: Vec<i64> = c.get_group("team/sub").iter().map(|i| i.iid).collect();
    assert_eq!(sub, vec![2]);

    assert!(c.get_group("missing").is_empty());
}

#[test]
fn get_group_empty_on_cold_cache() {
    let c = cache();
    assert!(c.get_group("team").is_empty());
}

#[test]
fn clear_removes_entry() {
    let mut c = cache();
    c.put(vec![make_issue(1, "a")]);
    c.clear();
    assert!(c.get().is_none());
}

#[test]
fn remove_issue_drops_only_the_match() {
    let mut c = cache();
    c.put(vec![make_issue(1, "a"), make_issue(2, "b"), make_issue(3, "c")]);

    assert!(c.remove_issue(1, 2), "iid 2 was present");
    let iids: Vec<i64> = c.get().unwrap().iter().map(|i| i.iid).collect();
    assert_eq!(iids, vec![1, 3], "only iid 2 removed");
}

#[test]
fn remove_issue_across_buckets_drops_emptied_bucket() {
    let mut c = cache();
    c.put(vec![
        issue_at("https://gl/a/p/-/issues/1", 1, "a"),
        issue_at("https://gl/b/p/-/issues/2", 2, "b"),
    ]);

    assert!(c.remove_issue(1, 1));
    let got: Vec<i64> = c.get().unwrap().iter().map(|i| i.iid).collect();
    assert_eq!(got, vec![2], "bucket a emptied");
    assert!(c.get_group("a").is_empty(), "emptied bucket dropped");
}

#[test]
fn remove_issue_is_noop_when_absent() {
    let mut c = cache();
    c.put(vec![make_issue(1, "a")]);
    assert!(!c.remove_issue(1, 99), "no matching iid");
    assert!(!c.remove_issue(7, 1), "iid matches but project_id does not");
    assert_eq!(c.get().unwrap().len(), 1, "list unchanged");
}

#[test]
fn remove_issue_on_empty_cache_returns_false() {
    let mut c = cache();
    assert!(!c.remove_issue(1, 1));
}

#[test]
fn issue_id_resolves_by_project_and_iid() {
    let mut c = cache();
    c.put(vec![make_issue(1, "a"), make_issue(2, "b")]);

    assert_eq!(c.issue_id(1, 2), Some(20), "matched issue's global id");
    assert_eq!(c.issue_id(1, 99), None, "no such iid");
    assert_eq!(c.issue_id(7, 1), None, "iid matches but project_id does not");
}

#[test]
fn issue_id_on_empty_cache_is_none() {
    let c = cache();
    assert_eq!(c.issue_id(1, 1), None);
}

#[test]
fn cache_survives_reopen() {
    let mut c = cache();
    c.put(vec![make_issue(1, "persisted")]);
    assert!(c.is_dirty(), "a put has to be saved");
    assert!(c.is_dirty(), "until it is");
    c.mark_saved();
    assert!(!c.is_dirty(), "and is saved once");
    assert!(!c.remove_issue(1, 999) && !c.is_dirty(), "nothing changed");
    let saved: Option<Vec<Issue>> = c.get().cloned();
    let d = IssueCache::open(saved);
    assert_eq!(d.get().unwrap()[0].title, "persisted");
}

#[test]
fn issues_come_back_in_the_order_of_their_groups() {
    let mut c = cache();
    c.put(vec![
        issue_at("https://gl/b/p/-/issues/1", 1, "b1"),
        issue_at("https://gl/a/p/-/issues/2", 2, "a2"),
        issue_at("https://gl/b/p/-/issues/3", 3, "b3"),
        issue_at("https://gl/a/p/-/issues/4", 4, "a4"),
    ]);
    let got: Vec<i64> = c.get().unwrap().iter().map(|i| i.iid).collect();
    assert_eq!(got, vec![2, 4, 1, 3]);
}
