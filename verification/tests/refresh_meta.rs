use gitlab_trackrd::refresh_meta::{RefreshMeta, RefreshStamps};

fn meta() -> RefreshMeta {
    RefreshMeta::open(None)
}

#[test]
fn refresh_meta_stamps_default_to_never_synced() {
    let m = meta();
    let s = m.stamps();
    assert_eq!(s.last_quick_sync_secs, 0);
    assert_eq!(s.last_slow_sync_secs, 0);
    assert_eq!(s.backfilled_retention_hours, 0);
}

#[test]
fn update_roundtrips_and_preserves_other_fields() {
    let mut m = meta();
    m.update(|s| RefreshStamps { last_quick_sync_secs: 123, ..s });
    m.update(|s| RefreshStamps {
        last_slow_sync_secs: 45,
        backfilled_retention_hours: 2160,
        ..s
    });
    let s = m.stamps();
    assert_eq!(s.last_quick_sync_secs, 123, "untouched by second update");
    assert_eq!(s.last_slow_sync_secs, 45);
    assert_eq!(s.backfilled_retention_hours, 2160);
}

#[test]
fn clear_resets_to_never_synced() {
    let mut m = meta();
    m.update(|s| RefreshStamps {
        last_quick_sync_secs: 1,
        last_slow_sync_secs: 1,
        ..s
    });
    m.clear();
    let s = m.stamps();
    assert_eq!(s.last_quick_sync_secs, 0);
    assert_eq!(s.last_slow_sync_secs, 0);
}

#[test]
fn refresh_meta_survives_reopen() {
    let mut m = meta();
    assert!(!m.is_dirty(), "nothing to save yet");
    m.update(|s| RefreshStamps { last_quick_sync_secs: 7, ..s });
    assert!(m.is_dirty());
    m.mark_saved();
    assert!(!m.is_dirty());
    let m = RefreshMeta::open(Some(m.stamps()));
    assert_eq!(m.stamps().last_quick_sync_secs, 7);
}
