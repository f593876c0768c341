use gitlab_trackrd::boards::BoardCache;

fn cache() -> BoardCache {
    BoardCache::open(vec![])
}

fn names(v: &[&str]) -> Vec<String> {
    v.iter().map(|s| s.to_string()).collect()
}

#[test]
fn boards_fresh_cache_returns_none() {
    let c = cache();
    assert!(c.get(42).is_none());
}

#[test]
fn put_then_get_roundtrips_per_project() {
    let mut c = cache();
    c.put(1, names(&["Doing", "Done"]));
    c.put(2, names(&["Review"]));
    assert_eq!(c.get(1), Some(&names(&["Doing", "Done"])));
    assert_eq!(c.get(2), Some(&names(&["Review"])));
    assert!(c.get(3).is_none());
}

#[test]
fn put_overwrites_same_project() {
    let mut c = cache();
    c.put(1, names(&["old"]));
    c.put(1, names(&["new"]));
    assert_eq!(c.get(1), Some(&names(&["new"])));
}

#[test]
fn clear_empties_all_projects() {
    let mut c = cache();
    c.put(1, names(&["a"]));
    c.put(2, names(&["b"]));
    c.clear();
    assert!(c.get(1).is_none());
    assert!(c.get(2).is_none());
}

#[test]
fn boards_written_through_survive_a_reopen() {
    let mut c = cache();
    c.put(3, names(&["Doing"]));
    c.put(-4, names(&["Done"]));
    let mut rows: Vec<(u64, Vec<String>)> = Vec::new();
    for &k in c.dirty_keys() {
        if let Some(v) = c.entry(k) {
            rows.push((k, v.clone()));
        }
    }
    c.mark_saved();
    assert!(c.dirty_keys().is_empty(), "nothing changed since");
    let d = BoardCache::open(rows);
    assert_eq!(d.get(3), Some(&names(&["Doing"])));
    assert_eq!(d.get(-4), Some(&names(&["Done"])));
}
