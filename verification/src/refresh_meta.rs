//! When the refresh tiers last ran.
//!
//! A stamp advances only after a successful run, so that a restart inside the
//! interval of a tier serves the caches instead of asking GitLab again, and a
//! failed run is retried at the next tick.

use vstd::prelude::*;

verus! {

/// The schema version of stored timelogs. Stamps of an older version make one
/// backfill of the whole window due, which rewrites every entry.
pub const HISTORY_SCHEMA_VERSION: u32 = 1;

/// Bookkeeping of the refresh tiers. Zero means "never".
#[derive(Clone, Copy, PartialEq, Eq, Structural, Debug)]
pub struct RefreshStamps {
    /// Last successful quick refresh.
    pub last_quick_sync_secs: u64,
    /// Last successful slow history pull, by the daily refresh or the backfill.
    pub last_slow_sync_secs: u64,
    /// Widest history window, in hours, that was ever backfilled.
    pub backfilled_retention_hours: u64,
    /// The schema version that the stored timelogs were backfilled under.
    pub schema_version: u32,
}

/// The stamps of a daemon that never refreshed.
pub open spec fn never_refreshed() -> RefreshStamps {
    RefreshStamps {
        last_quick_sync_secs: 0,
        last_slow_sync_secs: 0,
        backfilled_retention_hours: 0,
        schema_version: 0,
    }
}

impl Default for RefreshStamps {
    fn default() -> (r: Self)
        ensures
            r == never_refreshed(),
    {
        RefreshStamps {
            last_quick_sync_secs: 0,
            last_slow_sync_secs: 0,
            backfilled_retention_hours: 0,
            schema_version: 0,
        }
    }
}

pub struct RefreshMeta {
    stamps: RefreshStamps,
    dirty: bool,
}

impl View for RefreshMeta {
    type V = RefreshStamps;

    closed spec fn view(&self) -> RefreshStamps {
        self.stamps
    }
}

impl RefreshMeta {
    /// Whether there are changes that have not been saved.
    pub closed spec fn dirty(&self) -> bool {
        self.dirty
    }

    /// The stamps that were saved, if any were.
    pub fn open(saved: Option<RefreshStamps>) -> (r: Self)
        ensures
            !r.dirty(),
            r@ == match saved {
                Some(s) => s,
                None => never_refreshed(),
            },
    {
        match saved {
            Some(s) => RefreshMeta { stamps: s, dirty: false },
            None => RefreshMeta { stamps: RefreshStamps::default(), dirty: false },
        }
    }

    pub fn stamps(&self) -> (r: RefreshStamps)
        ensures
            r == self@,
    {
        self.stamps
    }

    /// Replaces the stamps by what `f` makes of them.
    pub fn update<F: FnOnce(RefreshStamps) -> RefreshStamps>(&mut self, f: F)
        requires
            f.requires((old(self)@,)),
        ensures
            f.ensures((old(self)@,), final(self)@),
            final(self).dirty(),
    {
        let s = self.stamps;
        self.stamps = f(s);
        self.dirty = true;
    }

    /// Drops the stamps, so that every tier is due.
    pub fn clear(&mut self)
        ensures
            final(self)@ == never_refreshed(),
            final(self).dirty(),
    {
        self.stamps = RefreshStamps::default();
        self.dirty = true;
    }

    /// Whether there are changes that have not been saved.
    pub fn is_dirty(&self) -> (r: bool)
        ensures
            r == self.dirty(),
    {
        self.dirty
    }

    /// Takes note that everything has been saved.
    pub fn mark_saved(&mut self)
        ensures
            final(self)@ == old(self)@,
            !final(self).dirty(),
    {
        self.dirty = false;
    }
}

} // verus!
