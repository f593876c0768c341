use gitlab_trackrd::gitlab::Issuable;
use gitlab_trackrd::history::{HistoryCache, StoredTimelog};

fn entry(timelog_id: u64, spent_at: u64, title: &str) -> StoredTimelog {
    StoredTimelog {
        timelog_id,
        spent_at_secs: spent_at,
        kind: Issuable::Issue,
        project_id: 1,
        iid: 1,
        title: title.to_string(),
        web_url: "https://gl/-/issues/1".to_string(),
        duration: "1h".to_string(),
        summary: String::new(),
    }
}

fn cache() -> HistoryCache {
    HistoryCache::open(vec![])
}

#[test]
fn upsert_dedupes_by_timelog_id() {
    let mut h = cache();
    h.upsert(vec![entry(1, 100, "old")]);
    h.upsert(vec![entry(1, 100, "new")]);
    let all = h.all_since(0);
    assert_eq!(all.len(), 1);
    assert_eq!(all[0].title, "new");
}

#[test]
fn all_since_filters_and_sorts() {
    let mut h = cache();
    h.upsert(vec![
        entry(1, 100, "old"),
        entry(2, 200, "mid"),
        entry(3, 300, "new"),
        entry(4, 50, "stale"),
    ]);

    let recent = h.all_since(100);
    let ids: Vec<u64> = recent.iter().map(|e| e.timelog_id).collect();
    assert_eq!(ids, vec![3, 2, 1], "newest first, below-cutoff removed");
}

#[test]
fn prune_removes_only_stale_entries() {
    let mut h = cache();
    h.upsert(vec![
        entry(1, 50, "stale"),
        entry(2, 200, "fresh"),
        entry(3, 99, "barely-stale"),
    ]);

    let removed = h.prune(100);
    assert_eq!(removed, 2, "two entries below cutoff");

    let remaining = h.all_since(0);
    assert_eq!(remaining.len(), 1);
    assert_eq!(remaining[0].timelog_id, 2);
}

#[test]
fn clear_between_removes_exactly_the_half_open_window() {
    for (min, max, left) in [
        (10u64, 30u64, vec![3u64, 1]),
        (0, 0, vec![3, 2, 1, 0]),
        (5, u64::MAX, vec![]),
        (30, u64::MAX, vec![2, 1, 0]),
    ] {
        let mut h = cache();
        h.upsert(vec![entry(0, 10, "a"), entry(1, 9, "b"), entry(2, 29, "c"), entry(3, 30, "d")]);
        let removed = h.clear_between(min, max);
        let mut ids: Vec<u64> = h.all_since(0).iter().map(|e| e.timelog_id).collect();
        ids.sort();
        let mut want = left.clone();
        want.sort();
        assert_eq!(ids, want);
        assert_eq!(removed, 4 - left.len());
    }
    assert_eq!(cache().clear_between(0, u64::MAX), 0);
}

#[test]
fn clear_empties_every_tier() {
    let mut h = cache();
    h.upsert(vec![entry(1, 100, "a"), entry(2, 999_999, "b")]);
    h.clear();
    assert!(h.all_since(0).is_empty());
}

#[test]
fn entries_of_one_second_stay_in_the_order_of_their_ids() {
    let mut h = cache();
    h.upsert(vec![entry(9, 100, "x"), entry(3, 100, "y"), entry(5, 200, "z")]);
    let ids: Vec<u64> = h.all_since(0).iter().map(|e| e.timelog_id).collect();
    assert_eq!(ids, vec![5, 3, 9]);
}

#[test]
fn history_survives_reopen() {
    let mut h = cache();
    h.upsert(vec![entry(1, 100, "persisted")]);
    let mut rows: Vec<(u64, StoredTimelog)> = Vec::new();
    for &k in h.dirty_keys() {
        let e = h.entry(k).expect("nothing was removed");
        rows.push((k, entry(e.timelog_id, e.spent_at_secs, &e.title)));
    }
    h.mark_saved();
    assert!(h.dirty_keys().is_empty());
    let h = HistoryCache::open(rows);
    let all = h.all_since(0);
    assert_eq!(all.len(), 1);
    assert_eq!(all[0].title, "persisted");
}
