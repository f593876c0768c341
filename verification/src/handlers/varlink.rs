//! The varlink methods beside `Search`.

use vstd::prelude::*;
use vstd::string::*;

use crate::api::{FailedTask, HistoryEvent, IssuableKind, Issue, MergeRequest};
use crate::cache::{all_but, cached, first_issue, in_group, namespace, namespace_of, of_group,
    under_group};
use crate::db::{
    agree_at, first_where, law_survives_reopen, rows_of, values_where, without, written_through,
};
use crate::error::{error_text, DormancyReason, Error};
use crate::gitlab::Issuable;
use crate::handlers::refresh::client_of;
use crate::handlers::search::{are_wire_mrs, not_authenticated, wire_mrs, Reply};
use crate::handlers::search_sync::since;
use crate::handlers::{
    duration_like, issue_ref_error, looks_like_duration, marks_kept, ref_error_text, valid_ref,
    ConnState, Handlers, Session,
};
use crate::history::{spent_between, spent_since, StoredTimelog};
use crate::order::{sort, sorted, Ranked};
use crate::queue::{
    enqueued, letters, pendings, shows_letter, DeadLetter, PendingPostTime,
    QueueOp, QueueState, StoredTask, WriteCall,
};
use crate::refresh_meta::{never_refreshed, RefreshStamps};
use crate::search::{
    everything, id_key, key_of, mr_at, same_mr, Corpus, MrAssignee, SearchMr, SEARCH_SCHEMA_VERSION,
};
use crate::text::{
    contains_text, debug_quoted, has_text, i64_text, int_text, joined, quote_debug, str_eq,
};

verus! {

// ── kinds ────────────────────────────────────────────────────────────────────

/// The kind that a caller means.
pub open spec fn kind_meant(kind: IssuableKind) -> Issuable {
    match kind {
        IssuableKind::issue => Issuable::Issue,
        IssuableKind::merge_request => Issuable::MergeRequest,
    }
}

/// The kind that a caller sees.
pub open spec fn kind_shown(kind: Issuable) -> IssuableKind {
    match kind {
        Issuable::Issue => IssuableKind::issue,
        Issuable::MergeRequest => IssuableKind::merge_request,
    }
}

/// The kind that a caller means.
pub fn internal_kind(kind: &IssuableKind) -> (r: Issuable)
    ensures
        r == kind_meant(*kind),
{
    match kind {
        IssuableKind::issue => Issuable::Issue,
        IssuableKind::merge_request => Issuable::MergeRequest,
    }
}

/// The kind that a caller sees.
pub fn wire_kind(kind: Issuable) -> (r: IssuableKind)
    ensures
        r == kind_shown(kind),
{
    match kind {
        Issuable::Issue => IssuableKind::issue,
        Issuable::MergeRequest => IssuableKind::merge_request,
    }
}

/// What a caller means and what a caller sees are the same kinds.
pub proof fn law_kinds_roundtrip(kind: Issuable, wire: IssuableKind)
    ensures
        kind_meant(kind_shown(kind)) == kind,
        kind_shown(kind_meant(wire)) == wire,
        wire is issue <==> kind_meant(wire) is Issue,
        wire is merge_request <==> kind_meant(wire) is MergeRequest,
{
}

// ── writes ───────────────────────────────────────────────────────────────────

/// What a write does first.
#[derive(Debug)]
pub enum WriteStep {
    /// It is answered already.
    Answered(Reply<()>),
    /// Make the call through this client and report how it went.
    Call { client: u64, call: WriteCall },
}

impl WriteStep {
    /// Whether the write is answered with this error.
    pub open spec fn is_error(self, message: Seq<char>) -> bool {
        self matches WriteStep::Answered(r) && r.is_error(message)
    }

    /// Whether the write is answered that there is no session, for this reason.
    pub open spec fn is_dormant(self, d: DormancyReason) -> bool {
        self matches WriteStep::Answered(r) && r.is_dormant(d)
    }

    /// Whether the write is answered with success.
    pub open spec fn is_success(self) -> bool {
        self matches WriteStep::Answered(r) && r is Success
    }
}

/// Whether one merge request is another with nothing but its state changed, to
/// closed.
pub open spec fn is_closed_from(m: SearchMr, n: SearchMr) -> bool {
    &&& n == (SearchMr { state: n.state, labels: n.labels, assignees: n.assignees, ..m })
    &&& n.labels@ == m.labels@
    &&& n.assignees@ == m.assignees@
    &&& n.state@ == "closed"@
}

/// Accepts the assignees but one.
pub open spec fn assignee_but(user: i64) -> spec_fn(MrAssignee) -> bool {
    |a: MrAssignee| a.id != user
}

/// Whether one merge request is another without a user among its assignees.
pub open spec fn is_unassigned_from(m: SearchMr, n: SearchMr, user: i64) -> bool {
    &&& n == (SearchMr { labels: n.labels, assignees: n.assignees, ..m })
    &&& n.labels@ == m.labels@
    &&& n.assignees@ == m.assignees@.filter(assignee_but(user))
}

/// Whether one that `change` relates to the cached merge request `iid` of a project
/// was stored under its id, or nothing changed where there is none.
pub open spec fn mr_replaced(
    before: Corpus,
    after: Corpus,
    project_id: i64,
    iid: i64,
    change: spec_fn(SearchMr, SearchMr) -> bool,
) -> bool {
    match first_where(rows_of(before.mrs), mr_at(project_id, iid)) {
        Some((_, m)) => exists|n: SearchMr| #[trigger]
            change(m, n) && after == (Corpus {
                mrs: before.mrs.insert(id_key(m.id), n),
                ..before
            }),
        None => after == before,
    }
}

/// Whether the issue `iid` of a project left the cached issues, and nothing else
/// changed.
pub open spec fn issue_forgotten(
    before: Handlers,
    after: Handlers,
    project_id: i64,
    iid: i64,
) -> bool {
    &&& marks_kept(before, after)
    &&& after == (Handlers { cache: after.cache, ..before })
    &&& after.cache@ == match before.cache@ {
        Some(s) => Some(s.filter(all_but(project_id, iid))),
        None => None,
    }
}

/// Accepts closing.
pub open spec fn closing() -> spec_fn(SearchMr, SearchMr) -> bool {
    |m: SearchMr, n: SearchMr| is_closed_from(m, n)
}

/// Accepts taking a user off the assignees.
pub open spec fn unassigning(user: i64) -> spec_fn(SearchMr, SearchMr) -> bool {
    |m: SearchMr, n: SearchMr| is_unassigned_from(m, n, user)
}

/// Whether a close shows in the caches: the issue is gone from the assigned ones,
/// the merge request is closed, unless a sync is running.
pub open spec fn close_reflected(
    before: Handlers,
    after: Handlers,
    kind: Issuable,
    project_id: i64,
    iid: i64,
) -> bool {
    match kind {
        Issuable::Issue => issue_forgotten(before, after, project_id, iid),
        Issuable::MergeRequest => {
            &&& marks_kept(before, after)
            &&& after == (Handlers { search: after.search, ..before })
            &&& after.search.syncing() == before.search.syncing()
            &&& if before.search.syncing() {
                after.search@ == before.search@
            } else {
                mr_replaced(before.search@, after.search@, project_id, iid, closing())
            }
        },
    }
}

/// Whether an unassign shows in the caches: the issue is gone from the assigned
/// ones, the synced user from the merge request, unless a sync is running or
/// none ever ran.
pub open spec fn unassign_reflected(
    before: Handlers,
    after: Handlers,
    kind: Issuable,
    project_id: i64,
    iid: i64,
) -> bool {
    let user = before.search@.stamps.synced_user_id;
    match kind {
        Issuable::Issue => issue_forgotten(before, after, project_id, iid),
        Issuable::MergeRequest => {
            &&& marks_kept(before, after)
            &&& after == (Handlers { search: after.search, ..before })
            &&& after.search.syncing() == before.search.syncing()
            &&& if before.search.syncing() || user == 0 {
                after.search@ == before.search@
            } else {
                mr_replaced(before.search@, after.search@, project_id, iid, unassigning(user))
            }
        },
    }
}

/// The global id of an issuable that the caches know.
pub open spec fn known_id(h: Handlers, kind: Issuable, project_id: i64, iid: i64) -> Option<i64> {
    match kind {
        Issuable::Issue => match first_issue(cached(h.cache@), project_id, iid) {
            Some(i) => Some(i.id),
            None => None,
        },
        Issuable::MergeRequest => match first_where(
            rows_of(h.search@.mrs),
            mr_at(project_id, iid),
        ) {
            Some((_, m)) => Some(m.id),
            None => None,
        },
    }
}

/// Whether only the queue changed, by one task.
pub open spec fn only_queued(before: Handlers, after: Handlers, t: StoredTask) -> bool {
    &&& marks_kept(before, after)
    &&& after == (Handlers { queue: after.queue, ..before })
    &&& after.queue@ == enqueued(before.queue@, t)
}

fn without_user(v: Vec<MrAssignee>, user: i64) -> (r: Vec<MrAssignee>)
    ensures
        r@ == v@.filter(assignee_but(user)),
{
    let mut r: Vec<MrAssignee> = Vec::new();
    let mut i: usize = 0;
    proof {
        reveal(Seq::filter);
        assert(v@.take(0) =~= Seq::<MrAssignee>::empty());
    }
    while i < v.len()
        invariant
            i <= v@.len(),
            r@ == v@.take(i as int).filter(assignee_but(user)),
        decreases v@.len() - i,
    {
        proof {
            reveal(Seq::filter);
            assert(v@.take(i + 1).drop_last() =~= v@.take(i as int));
        }
        if v[i].id != user {
            r.push(v[i].clone());
        }
        i += 1;
    }
    proof {
        assert(v@.take(v@.len() as int) =~= v@);
    }
    r
}

impl Handlers {
    /// The global id of an issuable, where the caches know it, so that a queued
    /// time entry can be submitted for when it was queued.
    pub fn resolve_issuable_id(&self, kind: Issuable, project_id: i64, iid: i64) -> (r: Option<i64>)
        ensures
            r == known_id(*self, kind, project_id, iid),
    {
        match kind {
            Issuable::Issue => self.cache.issue_id(project_id, iid),
            Issuable::MergeRequest => self.search.mr_id(project_id, iid),
        }
    }

    /// Shows a close in the caches at once.
    pub fn reflect_close(&mut self, kind: Issuable, project_id: i64, iid: i64)
        ensures
            close_reflected(*old(self), *final(self), kind, project_id, iid),
    {
        match kind {
            Issuable::Issue => {
                let _ = self.cache.remove_issue(project_id, iid);
            },
            Issuable::MergeRequest => {
                if self.search.is_syncing() {
                    return;
                }
                let ghost before = self.search@;
                match self.search.try_begin_sync() {
                    Some(guard) => {
                        let close = |m: SearchMr| -> (n: SearchMr)
                            ensures
                                is_closed_from(m, n),
                            {
                                let mut n = m;
                                n.state = "closed".to_owned();
                                n
                            };
                        let _ = guard.update_mr(&mut self.search, project_id, iid, close);
                        proof {
                            match first_where(rows_of(before.mrs), mr_at(project_id, iid)) {
                                Some((_, m)) => {
                                    let (c, n) = choose|c: SearchMr, n: SearchMr| #[trigger]
                                        close.ensures((c,), n) && same_mr(c, m) && self.search@
                                            == (Corpus {
                                            mrs: before.mrs.insert(id_key(n.id), n),
                                            ..before
                                        });
                                    assert(closing()(m, n));
                                },
                                None => {},
                            }
                        }
                        guard.end(&mut self.search);
                    },
                    None => {},
                }
            },
        }
    }

    /// Shows an unassign in the caches at once.
    pub fn reflect_unassign(&mut self, kind: Issuable, project_id: i64, iid: i64)
        ensures
            unassign_reflected(*old(self), *final(self), kind, project_id, iid),
    {
        match kind {
            Issuable::Issue => {
                let _ = self.cache.remove_issue(project_id, iid);
            },
            Issuable::MergeRequest => {
                let user: i64 = self.search.stamps().synced_user_id;
                if user == 0 || self.search.is_syncing() {
                    return;
                }
                let ghost before = self.search@;
                match self.search.try_begin_sync() {
                    Some(guard) => {
                        let unassign = |m: SearchMr| -> (n: SearchMr)
                            ensures
                                is_unassigned_from(m, n, user),
                            {
                                let mut n = m;
                                let mut taken: Vec<MrAssignee> = Vec::new();
                                std::mem::swap(&mut taken, &mut n.assignees);
                                n.assignees = without_user(taken, user);
                                n
                            };
                        let _ = guard.update_mr(&mut self.search, project_id, iid, unassign);
                        proof {
                            match first_where(rows_of(before.mrs), mr_at(project_id, iid)) {
                                Some((_, m)) => {
                                    let (c, n) = choose|c: SearchMr, n: SearchMr| #[trigger]
                                        unassign.ensures((c,), n) && same_mr(c, m) && self.search@
                                            == (Corpus {
                                            mrs: before.mrs.insert(id_key(n.id), n),
                                            ..before
                                        });
                                    assert(unassigning(user)(m, n));
                                },
                                None => {},
                            }
                        }
                        guard.end(&mut self.search);
                    },
                    None => {},
                }
            },
        }
    }
}


/// The queued form of a time entry.
pub open spec fn time_task(
    h: Handlers,
    kind: Issuable,
    project_id: i64,
    iid: i64,
    duration: String,
    summary: Option<String>,
    now: u64,
) -> StoredTask {
    StoredTask {
        project_id,
        iid,
        kind,
        op: QueueOp::PostTime {
            duration,
            summary,
            issuable_id: known_id(h, kind, project_id, iid),
        },
        queued_at_secs: now,
    }
}

/// The queued form of a write without arguments.
pub open spec fn plain_task(
    kind: Issuable,
    project_id: i64,
    iid: i64,
    op: QueueOp,
    now: u64,
) -> StoredTask {
    StoredTask { project_id, iid, kind, op, queued_at_secs: now }
}

/// Whether a close was queued and shows in the caches.
pub open spec fn close_deferred(
    before: Handlers,
    after: Handlers,
    kind: Issuable,
    project_id: i64,
    iid: i64,
    now: u64,
) -> bool {
    &&& marks_kept(before, after)
    &&& after.queue@ == enqueued(
        before.queue@,
        plain_task(kind, project_id, iid, QueueOp::Close, now),
    )
    &&& close_reflected(
        (Handlers { queue: after.queue, ..before }),
        after,
        kind,
        project_id,
        iid,
    )
}

/// Whether an unassignment of oneself was queued and shows in the caches.
pub open spec fn unassign_deferred(
    before: Handlers,
    after: Handlers,
    kind: Issuable,
    project_id: i64,
    iid: i64,
    now: u64,
) -> bool {
    &&& marks_kept(before, after)
    &&& after.queue@ == enqueued(
        before.queue@,
        plain_task(kind, project_id, iid, QueueOp::UnassignSelf, now),
    )
    &&& unassign_reflected(
        (Handlers { queue: after.queue, ..before }),
        after,
        kind,
        project_id,
        iid,
    )
}

/// Whether a write whose arguments are in order goes on as the session demands:
/// with one the call is made; during an outage the write is `deferred` and
/// answered with success; otherwise it is refused and nothing changes.
pub open spec fn write_started(
    before: Handlers,
    after: Handlers,
    r: WriteStep,
    call: WriteCall,
    deferred: bool,
) -> bool {
    match before.session {
        ConnState::Connected(s) => {
            &&& r == (WriteStep::Call { client: s.client, call })
            &&& after == before
        },
        ConnState::Dormant(d) => if d is Unreachable {
            r.is_success() && deferred
        } else {
            r.is_dormant(d) && after == before
        },
    }
}

/// Whether a write on what cannot be a reference is refused, and any other has
/// `started`.
pub open spec fn ref_checked(
    before: Handlers,
    after: Handlers,
    r: WriteStep,
    project_id: i64,
    iid: i64,
    started: bool,
) -> bool {
    if valid_ref(project_id, iid) {
        started
    } else {
        r.is_error(ref_error_text(project_id, iid)) && after == before
    }
}

/// Whether a write that was tried ended as its outcome demands: a success is
/// `done`, a network failure `deferred` and answered with success, and a
/// rejection reported with nothing changed.
pub open spec fn write_ended(
    before: Handlers,
    after: Handlers,
    r: Reply<()>,
    outcome: Result<(), Error>,
    done: bool,
    deferred: bool,
) -> bool {
    match outcome {
        Ok(_) => r is Success && done,
        Err(Error::Transient(_)) => r is Success && deferred,
        Err(e) => r.is_error(error_text(e)) && after == before,
    }
}

/// Whether logging time started: what cannot be a duration is refused.
pub open spec fn post_time_started(
    before: Handlers,
    after: Handlers,
    r: WriteStep,
    project_id: i64,
    iid: i64,
    kind: IssuableKind,
    duration: String,
    summary: Option<String>,
    now: u64,
) -> bool {
    let k = kind_meant(kind);
    ref_checked(
        before,
        after,
        r,
        project_id,
        iid,
        if duration_like(duration@) {
            write_started(
                before,
                after,
                r,
                WriteCall::AddSpentTime { kind: k, project_id, iid, duration, summary },
                only_queued(
                    before,
                    after,
                    time_task(before, k, project_id, iid, duration, summary, now),
                ),
            )
        } else {
            r.is_error("invalid duration: "@ + debug_quoted(duration@)) && after == before
        },
    )
}

/// Whether a close started.
pub open spec fn close_started(
    before: Handlers,
    after: Handlers,
    r: WriteStep,
    project_id: i64,
    iid: i64,
    kind: IssuableKind,
    now: u64,
) -> bool {
    let k = kind_meant(kind);
    ref_checked(
        before,
        after,
        r,
        project_id,
        iid,
        write_started(
            before,
            after,
            r,
            WriteCall::Close { kind: k, project_id, iid },
            close_deferred(before, after, k, project_id, iid, now),
        ),
    )
}

/// Whether an assignment of oneself started.
pub open spec fn assign_started(
    before: Handlers,
    after: Handlers,
    r: WriteStep,
    project_id: i64,
    iid: i64,
    kind: IssuableKind,
    now: u64,
) -> bool {
    let k = kind_meant(kind);
    ref_checked(
        before,
        after,
        r,
        project_id,
        iid,
        write_started(
            before,
            after,
            r,
            WriteCall::AssignSelf { kind: k, project_id, iid },
            only_queued(
                before,
                after,
                plain_task(k, project_id, iid, QueueOp::AssignSelf, now),
            ),
        ),
    )
}

/// Whether an unassignment of oneself started.
pub open spec fn unassign_started(
    before: Handlers,
    after: Handlers,
    r: WriteStep,
    project_id: i64,
    iid: i64,
    kind: IssuableKind,
    now: u64,
) -> bool {
    let k = kind_meant(kind);
    ref_checked(
        before,
        after,
        r,
        project_id,
        iid,
        write_started(
            before,
            after,
            r,
            WriteCall::UnassignSelf { kind: k, project_id, iid },
            unassign_deferred(before, after, k, project_id, iid, now),
        ),
    )
}

/// Whether logging time ended.
pub open spec fn post_time_ended(
    before: Handlers,
    after: Handlers,
    r: Reply<()>,
    kind: Issuable,
    project_id: i64,
    iid: i64,
    duration: String,
    summary: Option<String>,
    outcome: Result<(), Error>,
    now: u64,
) -> bool {
    write_ended(
        before,
        after,
        r,
        outcome,
        after == before,
        only_queued(
            before,
            after,
            time_task(before, kind, project_id, iid, duration, summary, now),
        ),
    )
}

/// Whether a close ended.
pub open spec fn close_ended(
    before: Handlers,
    after: Handlers,
    r: Reply<()>,
    kind: Issuable,
    project_id: i64,
    iid: i64,
    outcome: Result<(), Error>,
    now: u64,
) -> bool {
    write_ended(
        before,
        after,
        r,
        outcome,
        close_reflected(before, after, kind, project_id, iid),
        close_deferred(before, after, kind, project_id, iid, now),
    )
}

/// Whether an assignment of oneself ended.
pub open spec fn assign_ended(
    before: Handlers,
    after: Handlers,
    r: Reply<()>,
    kind: Issuable,
    project_id: i64,
    iid: i64,
    outcome: Result<(), Error>,
    now: u64,
) -> bool {
    write_ended(
        before,
        after,
        r,
        outcome,
        after == before,
        only_queued(
            before,
            after,
            plain_task(kind, project_id, iid, QueueOp::AssignSelf, now),
        ),
    )
}

/// Whether an unassignment of oneself ended.
pub open spec fn unassign_ended(
    before: Handlers,
    after: Handlers,
    r: Reply<()>,
    kind: Issuable,
    project_id: i64,
    iid: i64,
    outcome: Result<(), Error>,
    now: u64,
) -> bool {
    write_ended(
        before,
        after,
        r,
        outcome,
        unassign_reflected(before, after, kind, project_id, iid),
        unassign_deferred(before, after, kind, project_id, iid, now),
    )
}

impl Handlers {
    /// Queues a time entry.
    pub fn defer_post_time(
        &mut self,
        kind: Issuable,
        project_id: i64,
        iid: i64,
        duration: String,
        summary: Option<String>,
        now: u64,
    )
        requires
            old(self).queue@.next_id < u64::MAX,
        ensures
            only_queued(
                *old(self),
                *final(self),
                time_task(*old(self), kind, project_id, iid, duration, summary, now),
            ),
    {
        let id = self.resolve_issuable_id(kind, project_id, iid);
        self.queue.post_time(kind, project_id, iid, duration, summary, id, now);
    }

    /// Starts to log time. What cannot be a reference or a duration is refused;
    /// during an outage the entry is queued and answered with success; without
    /// usable credentials it is refused, as queueing would not help.
    pub fn post_time(
        &mut self,
        project_id: i64,
        iid: i64,
        kind: IssuableKind,
        duration: String,
        summary: Option<String>,
        now: u64,
    ) -> (r: WriteStep)
        requires
            old(self).queue@.next_id < u64::MAX,
        ensures
            post_time_started(
                *old(self),
                *final(self),
                r,
                project_id,
                iid,
                kind,
                duration,
                summary,
                now,
            ),
    {
        match issue_ref_error(project_id, iid) {
            Some(m) => {
                return WriteStep::Answered(Reply::GitlabError(m));
            },
            None => {},
        }
        if !looks_like_duration(duration.as_str()) {
            let q = quote_debug(duration.as_str());
            return WriteStep::Answered(
                Reply::GitlabError(joined("invalid duration: ", q.as_str())),
            );
        }
        let kind = internal_kind(&kind);
        match self.gitlab() {
            Ok(client) => WriteStep::Call {
                client,
                call: WriteCall::AddSpentTime { kind, project_id, iid, duration, summary },
            },
            Err(d) => {
                if d.is_auto_retryable() {
                    self.defer_post_time(kind, project_id, iid, duration, summary, now);
                    WriteStep::Answered(Reply::Success(()))
                } else {
                    WriteStep::Answered(not_authenticated(&d))
                }
            },
        }
    }

    /// Ends logging time: a network failure queues the entry, and neither it nor
    /// a rejection ends the session.
    pub fn post_time_done(
        &mut self,
        kind: Issuable,
        project_id: i64,
        iid: i64,
        duration: String,
        summary: Option<String>,
        outcome: Result<(), Error>,
        now: u64,
    ) -> (r: Reply<()>)
        requires
            old(self).queue@.next_id < u64::MAX,
        ensures
            post_time_ended(
                *old(self),
                *final(self),
                r,
                kind,
                project_id,
                iid,
                duration,
                summary,
                outcome,
                now,
            ),
    {
        match outcome {
            Ok(_) => Reply::Success(()),
            Err(Error::Transient(_)) => {
                self.defer_post_time(kind, project_id, iid, duration, summary, now);
                Reply::Success(())
            },
            Err(e) => Reply::GitlabError(e.message()),
        }
    }

    /// Queues a close and shows it in the caches.
    pub fn defer_close(&mut self, kind: Issuable, project_id: i64, iid: i64, now: u64)
        requires
            old(self).queue@.next_id < u64::MAX,
        ensures
            close_deferred(*old(self), *final(self), kind, project_id, iid, now),
    {
        self.queue.close(kind, project_id, iid, now);
        self.reflect_close(kind, project_id, iid);
    }

    /// Starts a close: refused, tried, or queued as [`Self::post_time`] is.
    pub fn close(
        &mut self,
        project_id: i64,
        iid: i64,
        kind: IssuableKind,
        now: u64,
    ) -> (r: WriteStep)
        requires
            old(self).queue@.next_id < u64::MAX,
        ensures
            close_started(*old(self), *final(self), r, project_id, iid, kind, now),
    {
        match issue_ref_error(project_id, iid) {
            Some(m) => {
                return WriteStep::Answered(Reply::GitlabError(m));
            },
            None => {},
        }
        let kind = internal_kind(&kind);
        match self.gitlab() {
            Ok(client) => WriteStep::Call {
                client,
                call: WriteCall::Close { kind, project_id, iid },
            },
            Err(d) => {
                if d.is_auto_retryable() {
                    self.defer_close(kind, project_id, iid, now);
                    WriteStep::Answered(Reply::Success(()))
                } else {
                    WriteStep::Answered(not_authenticated(&d))
                }
            },
        }
    }

    /// Ends a close: a network failure queues it.
    pub fn close_done(
        &mut self,
        kind: Issuable,
        project_id: i64,
        iid: i64,
        outcome: Result<(), Error>,
        now: u64,
    ) -> (r: Reply<()>)
        requires
            old(self).queue@.next_id < u64::MAX,
        ensures
            close_ended(*old(self), *final(self), r, kind, project_id, iid, outcome, now),
    {
        match outcome {
            Ok(_) => {
                self.reflect_close(kind, project_id, iid);
                Reply::Success(())
            },
            Err(Error::Transient(_)) => {
                self.defer_close(kind, project_id, iid, now);
                Reply::Success(())
            },
            Err(e) => Reply::GitlabError(e.message()),
        }
    }

    /// Queues an assignment of oneself.
    pub fn defer_assign_self(&mut self, kind: Issuable, project_id: i64, iid: i64, now: u64)
        requires
            old(self).queue@.next_id < u64::MAX,
        ensures
            only_queued(
                *old(self),
                *final(self),
                plain_task(kind, project_id, iid, QueueOp::AssignSelf, now),
            ),
    {
        self.queue.assign_self(kind, project_id, iid, now);
    }

    /// Starts an assignment of oneself: refused, tried, or queued as [`Self::post_time`] is.
    pub fn assign_self(
        &mut self,
        project_id: i64,
        iid: i64,
        kind: IssuableKind,
        now: u64,
    ) -> (r: WriteStep)
        requires
            old(self).queue@.next_id < u64::MAX,
        ensures
            assign_started(*old(self), *final(self), r, project_id, iid, kind, now),
    {
        match issue_ref_error(project_id, iid) {
            Some(m) => {
                return WriteStep::Answered(Reply::GitlabError(m));
            },
            None => {},
        }
        let kind = internal_kind(&kind);
        match self.gitlab() {
            Ok(client) => WriteStep::Call {
                client,
                call: WriteCall::AssignSelf { kind, project_id, iid },
            },
            Err(d) => {
                if d.is_auto_retryable() {
                    self.defer_assign_self(kind, project_id, iid, now);
                    WriteStep::Answered(Reply::Success(()))
                } else {
                    WriteStep::Answered(not_authenticated(&d))
                }
            },
        }
    }

    /// Ends an assignment of oneself: a network failure queues it.
    pub fn assign_self_done(
        &mut self,
        kind: Issuable,
        project_id: i64,
        iid: i64,
        outcome: Result<(), Error>,
        now: u64,
    ) -> (r: Reply<()>)
        requires
            old(self).queue@.next_id < u64::MAX,
        ensures
            assign_ended(*old(self), *final(self), r, kind, project_id, iid, outcome, now),
    {
        match outcome {
            Ok(_) => Reply::Success(()),
            Err(Error::Transient(_)) => {
                self.defer_assign_self(kind, project_id, iid, now);
                Reply::Success(())
            },
            Err(e) => Reply::GitlabError(e.message()),
        }
    }

    /// Queues an unassignment of oneself and shows it in the caches.
    pub fn defer_unassign_self(&mut self, kind: Issuable, project_id: i64, iid: i64, now: u64)
        requires
            old(self).queue@.next_id < u64::MAX,
        ensures
            unassign_deferred(*old(self), *final(self), kind, project_id, iid, now),
    {
        self.queue.unassign_self(kind, project_id, iid, now);
        self.reflect_unassign(kind, project_id, iid);
    }

    /// Starts an unassignment of oneself: refused, tried, or queued as [`Self::post_time`] is.
    pub fn unassign_self(
        &mut self,
        project_id: i64,
        iid: i64,
        kind: IssuableKind,
        now: u64,
    ) -> (r: WriteStep)
        requires
            old(self).queue@.next_id < u64::MAX,
        ensures
            unassign_started(*old(self), *final(self), r, project_id, iid, kind, now),
    {
        match issue_ref_error(project_id, iid) {
            Some(m) => {
                return WriteStep::Answered(Reply::GitlabError(m));
            },
            None => {},
        }
        let kind = internal_kind(&kind);
        match self.gitlab() {
            Ok(client) => WriteStep::Call {
                client,
                call: WriteCall::UnassignSelf { kind, project_id, iid },
            },
            Err(d) => {
                if d.is_auto_retryable() {
                    self.defer_unassign_self(kind, project_id, iid, now);
                    WriteStep::Answered(Reply::Success(()))
                } else {
                    WriteStep::Answered(not_authenticated(&d))
                }
            },
        }
    }

    /// Ends an unassignment of oneself: a network failure queues it.
    pub fn unassign_self_done(
        &mut self,
        kind: Issuable,
        project_id: i64,
        iid: i64,
        outcome: Result<(), Error>,
        now: u64,
    ) -> (r: Reply<()>)
        requires
            old(self).queue@.next_id < u64::MAX,
        ensures
            unassign_ended(*old(self), *final(self), r, kind, project_id, iid, outcome, now),
    {
        match outcome {
            Ok(_) => {
                self.reflect_unassign(kind, project_id, iid);
                Reply::Success(())
            },
            Err(Error::Transient(_)) => {
                self.defer_unassign_self(kind, project_id, iid, now);
                Reply::Success(())
            },
            Err(e) => Reply::GitlabError(e.message()),
        }
    }
}

// ── assigned issues and merge requests ───────────────────────────────────────

/// Whether one of `issues` is `iid` of a project.
pub open spec fn has_issue(issues: Seq<Issue>, project_id: i64, iid: i64) -> bool {
    exists|i: int|
        0 <= i < issues.len() && (#[trigger] issues[i]).project_id == project_id && issues[i].iid
            == iid
}

/// `out` with those of `more` that are not in it yet, by project and number.
pub open spec fn added(out: Seq<Issue>, more: Seq<Issue>) -> Seq<Issue>
    decreases more.len(),
{
    if more.len() == 0 {
        out
    } else {
        let rest = added(out, more.drop_last());
        if has_issue(rest, more.last().project_id, more.last().iid) {
            rest
        } else {
            rest.push(more.last())
        }
    }
}

/// The issues of each of `groups` and its subgroups, group by group, each issue
/// once.
pub open spec fn issues_in_groups(issues: Seq<Issue>, groups: Seq<String>) -> Seq<Issue>
    decreases groups.len(),
{
    if groups.len() == 0 {
        Seq::empty()
    } else {
        added(
            issues_in_groups(issues, groups.drop_last()),
            issues.filter(of_group(groups.last()@)),
        )
    }
}

/// The groups of a call that may leave them out.
pub open spec fn groups_or_none(groups: Option<Vec<String>>) -> Seq<String> {
    match groups {
        Some(g) => g@,
        None => Seq::empty(),
    }
}

fn knows_issue(issues: &Vec<Issue>, project_id: i64, iid: i64) -> (r: bool)
    ensures
        r == has_issue(issues@, project_id, iid),
{
    let mut i: usize = 0;
    while i < issues.len()
        invariant
            i <= issues@.len(),
            forall|j: int|
                0 <= j < i ==> !((#[trigger] issues@[j]).project_id == project_id && issues@[j].iid
                    == iid),
        decreases issues@.len() - i,
    {
        if issues[i].project_id == project_id && issues[i].iid == iid {
            return true;
        }
        i += 1;
    }
    false
}

fn clone_issues(v: &Vec<Issue>) -> (r: Vec<Issue>)
    ensures
        r@ == v@,
{
    let mut r: Vec<Issue> = Vec::new();
    let mut i: usize = 0;
    while i < v.len()
        invariant
            i <= v@.len(),
            r@ == v@.take(i as int),
        decreases v@.len() - i,
    {
        r.push(v[i].clone());
        i += 1;
        proof {
            assert(r@ =~= v@.take(i as int));
        }
    }
    proof {
        assert(v@.take(v@.len() as int) =~= v@);
    }
    r
}

/// Accepts the open merge requests that are assigned to a user.
pub open spec fn open_and_assigned_to(user: i64) -> spec_fn(u64, SearchMr) -> bool {
    |k: u64, m: SearchMr| m.state@ == "opened"@ && is_assigned(m.assignees@, user)
}

/// Whether a user is among assignees.
pub open spec fn is_assigned(assignees: Seq<MrAssignee>, user: i64) -> bool {
    exists|i: int| 0 <= i < assignees.len() && (#[trigger] assignees[i]).id == user
}

/// Whether a namespace is under one of `groups`.
pub open spec fn under_any(ns: Seq<char>, groups: Seq<String>) -> bool {
    exists|i: int| 0 <= i < groups.len() && under_group(ns, (#[trigger] groups[i])@)
}

/// Accepts the merge requests under one of `groups`; all, where there are none.
pub open spec fn mr_in_groups<'a>(groups: Seq<String>) -> spec_fn(&'a SearchMr) -> bool {
    |m: &SearchMr| groups.len() == 0 || under_any(namespace(m.web_url@), groups)
}

/// The open merge requests assigned to a user, in given groups, most recently
/// updated first.
pub open spec fn assigned_mrs<'a>(c: Corpus, groups: Seq<String>) -> Seq<&'a SearchMr> {
    sorted(
        values_where(rows_of(c.mrs), open_and_assigned_to(c.stamps.synced_user_id)).filter(
            mr_in_groups(groups),
        ),
    )
}

/// Whether the assigned merge requests cannot be told: never synced, or under an
/// older schema, or by nobody.
pub open spec fn mrs_cold(c: Corpus) -> bool {
    c.stamps.last_partial_sync_secs == 0 || c.stamps.schema_version < SEARCH_SCHEMA_VERSION
        || c.stamps.synced_user_id == 0
}

fn has_assignee(assignees: &Vec<MrAssignee>, user: i64) -> (r: bool)
    ensures
        r == is_assigned(assignees@, user),
{
    let mut i: usize = 0;
    while i < assignees.len()
        invariant
            i <= assignees@.len(),
            forall|j: int| 0 <= j < i ==> (#[trigger] assignees@[j]).id != user,
        decreases assignees@.len() - i,
    {
        if assignees[i].id == user {
            return true;
        }
        i += 1;
    }
    false
}

fn in_any_group(ns: &str, groups: &Vec<String>) -> (r: bool)
    ensures
        r == under_any(ns@, groups@),
{
    let mut i: usize = 0;
    while i < groups.len()
        invariant
            i <= groups@.len(),
            forall|j: int| 0 <= j < i ==> !under_group(ns@, (#[trigger] groups@[j])@),
        decreases groups@.len() - i,
    {
        if in_group(ns, groups[i].as_str()) {
            return true;
        }
        i += 1;
    }
    false
}

/// Whether `r` lists the assigned issues, all or those of some groups.
pub open spec fn is_issue_listing(r: Reply<Vec<Issue>>, h: Handlers, groups: Seq<String>) -> bool {
    match (h.cache@, h.session) {
        (Some(all), _) => r matches Reply::Success(v) && v@ == if groups.len() > 0 {
            issues_in_groups(all, groups)
        } else {
            all
        },
        (None, ConnState::Connected(_)) => r matches Reply::Success(v) && v@.len() == 0,
        (None, ConnState::Dormant(d)) => r.is_dormant(d),
    }
}

/// Whether `r` lists the assigned merge requests, all or those of some groups.
pub open spec fn is_mr_listing(
    r: Reply<Vec<MergeRequest>>,
    h: Handlers,
    groups: Seq<String>,
) -> bool {
    if mrs_cold(h.search@) {
        match h.session {
            ConnState::Connected(_) => r matches Reply::Success(v) && v@.len() == 0,
            ConnState::Dormant(d) => r.is_dormant(d),
        }
    } else {
        r matches Reply::Success(v) && are_wire_mrs(v@, assigned_mrs(h.search@, groups))
    }
}

impl Handlers {
    /// The assigned issues from the cache, all or those of some groups. A cold
    /// cache is answered by the reason for having no session, or, while the
    /// first refresh is pending, by no issues.
    pub fn get_assigned_issues(&self, groups: Option<Vec<String>>) -> (r: Reply<Vec<Issue>>)
        ensures
            is_issue_listing(r, *self, groups_or_none(groups)),
    {
        let all = match self.cache.get() {
            Some(v) => v,
            None => {
                return match &self.session {
                    ConnState::Connected(_) => Reply::Success(Vec::new()),
                    ConnState::Dormant(d) => not_authenticated(d),
                };
            },
        };
        let groups = match groups {
            Some(g) => g,
            None => Vec::new(),
        };
        if groups.len() == 0 {
            return Reply::Success(clone_issues(all));
        }
        let mut out: Vec<Issue> = Vec::new();
        let mut i: usize = 0;
        proof {
            assert(groups@.take(0) =~= Seq::<String>::empty());
        }
        while i < groups.len()
            invariant
                i <= groups@.len(),
                self.cache@ == Some(all@),
                out@ == issues_in_groups(all@, groups@.take(i as int)),
            decreases groups@.len() - i,
        {
            let list = self.cache.get_group(groups[i].as_str());
            let ghost base = out@;
            let mut j: usize = 0;
            proof {
                assert(groups@.take(i + 1).drop_last() =~= groups@.take(i as int));
                assert(list@.take(0) =~= Seq::<Issue>::empty());
            }
            while j < list.len()
                invariant
                    j <= list@.len(),
                    out@ == added(base, list@.take(j as int)),
                decreases list@.len() - j,
            {
                proof {
                    assert(list@.take(j + 1).drop_last() =~= list@.take(j as int));
                }
                if !knows_issue(&out, list[j].project_id, list[j].iid) {
                    out.push(list[j].clone());
                }
                j += 1;
            }
            proof {
                assert(list@.take(list@.len() as int) =~= list@);
            }
            i += 1;
        }
        proof {
            assert(groups@.take(groups@.len() as int) =~= groups@);
        }
        Reply::Success(out)
    }

    /// The open merge requests assigned to the synced user, from the search
    /// cache. A cold cache is answered as that of [`Self::get_assigned_issues`].
    pub fn get_assigned_merge_requests(&self, groups: Option<Vec<String>>) -> (r: Reply<
        Vec<MergeRequest>,
    >)
        ensures
            is_mr_listing(r, *self, groups_or_none(groups)),
    {
        let stamps = self.search.stamps();
        if stamps.last_partial_sync_secs == 0 || stamps.schema_version < SEARCH_SCHEMA_VERSION
            || stamps.synced_user_id == 0 {
            return match &self.session {
                ConnState::Connected(_) => Reply::Success(Vec::new()),
                ConnState::Dormant(d) => not_authenticated(d),
            };
        }
        let groups = match groups {
            Some(g) => g,
            None => Vec::new(),
        };
        let user: i64 = stamps.synced_user_id;
        let wanted = |_k: u64, m: &SearchMr| -> (b: bool)
            ensures
                b == (m.state@ == "opened"@ && is_assigned(m.assignees@, user)),
            { str_eq(m.state.as_str(), "opened") && has_assignee(&m.assignees, user) };
        let all = self.search.select_mrs(wanted, Ghost(open_and_assigned_to(user)));
        let ghost p = mr_in_groups(groups@);
        let mut mine: Vec<&SearchMr> = Vec::new();
        let mut i: usize = 0;
        proof {
            reveal(Seq::filter);
            assert(all@.take(0) =~= Seq::<&SearchMr>::empty());
        }
        while i < all.len()
            invariant
                i <= all@.len(),
                p == mr_in_groups(groups@),
                mine@ == all@.take(i as int).filter(p),
            decreases all@.len() - i,
        {
            proof {
                reveal(Seq::filter);
                assert(all@.take(i + 1).drop_last() =~= all@.take(i as int));
            }
            let ns = namespace_of(all[i].web_url.as_str());
            if groups.len() == 0 || in_any_group(ns.as_str(), &groups) {
                mine.push(all[i]);
            }
            i += 1;
        }
        proof {
            assert(all@.take(all@.len() as int) =~= all@);
        }
        let ordered = sort(&mine);
        Reply::Success(wire_mrs(&ordered))
    }
}

// ── history ──────────────────────────────────────────────────────────────────

/// The start of a history of so many days; a week where none are given, and none
/// below zero.
pub open spec fn history_start(days: Option<i64>, now: u64) -> u64 {
    let d = match days {
        Some(n) => if n > 0 {
            n as int
        } else {
            0
        },
        None => 7,
    };
    let secs = if d * 86_400 > u64::MAX {
        u64::MAX as int
    } else {
        d * 86_400
    };
    since(now, secs as u64) as u64
}

/// The last of `issues` that is `iid` of a project.
pub open spec fn last_issue(issues: Seq<Issue>, project_id: i64, iid: i64) -> Option<Issue>
    decreases issues.len(),
{
    if issues.len() == 0 {
        None
    } else if issues.last().project_id == project_id && issues.last().iid == iid {
        Some(issues.last())
    } else {
        last_issue(issues.drop_last(), project_id, iid)
    }
}

/// The last of `mrs` that is `iid` of a project.
pub open spec fn last_mr<'a>(mrs: Seq<&'a SearchMr>, project_id: i64, iid: i64) -> Option<
    &'a SearchMr,
>
    decreases mrs.len(),
{
    if mrs.len() == 0 {
        None
    } else if mrs.last().project_id == project_id && mrs.last().iid == iid {
        Some(mrs.last())
    } else {
        last_mr(mrs.drop_last(), project_id, iid)
    }
}

/// The title and address that the caches know of a queued time entry's target.
pub open spec fn queued_target(h: Handlers, p: PendingPostTime) -> (Seq<char>, Seq<char>) {
    match p.kind {
        Issuable::Issue => match last_issue(cached(h.cache@), p.project_id, p.iid) {
            Some(i) => (i.title@, i.web_url@),
            None => (Seq::empty(), Seq::empty()),
        },
        Issuable::MergeRequest => match last_mr(
            values_where(rows_of(h.search@.mrs), everything()),
            p.project_id,
            p.iid,
        ) {
            Some(m) => (m.title@, m.web_url@),
            None => (Seq::empty(), Seq::empty()),
        },
    }
}

/// Whether `e` shows a queued time entry.
pub open spec fn shows_queued(e: HistoryEvent, h: Handlers, p: PendingPostTime) -> bool {
    &&& e.timestamp == p.queued_at_secs as i64
    &&& e.source@ == "queued"@
    &&& e.kind == kind_shown(p.kind)
    &&& e.project_id == p.project_id
    &&& e.iid == p.iid
    &&& e.title@ == queued_target(h, p).0
    &&& e.web_url@ == queued_target(h, p).1
    &&& e.duration == p.duration
    &&& e.summary@ == match p.summary {
        Some(s) => s@,
        None => Seq::empty(),
    }
}

/// Whether `e` shows a stored timelog.
pub open spec fn shows_logged(e: HistoryEvent, t: StoredTimelog) -> bool {
    &&& e.timestamp == t.spent_at_secs as i64
    &&& e.source@ == "gitlab"@
    &&& e.kind == kind_shown(t.kind)
    &&& e.project_id == t.project_id
    &&& e.iid == t.iid
    &&& e.title == t.title
    &&& e.web_url == t.web_url
    &&& e.duration == t.duration
    &&& e.summary == t.summary
}

fn find_issue<'a>(issues: &'a Vec<Issue>, project_id: i64, iid: i64) -> (r: Option<&'a Issue>)
    ensures
        match r {
            Some(i) => last_issue(issues@, project_id, iid) == Some(*i),
            None => last_issue(issues@, project_id, iid) is None,
        },
{
    let mut n: usize = issues.len();
    proof {
        assert(issues@.take(n as int) =~= issues@);
    }
    while n > 0
        invariant
            n <= issues@.len(),
            last_issue(issues@, project_id, iid) == last_issue(
                issues@.take(n as int),
                project_id,
                iid,
            ),
        decreases n,
    {
        proof {
            assert(issues@.take(n as int).drop_last() =~= issues@.take(n - 1));
        }
        if issues[n - 1].project_id == project_id && issues[n - 1].iid == iid {
            return Some(&issues[n - 1]);
        }
        n -= 1;
    }
    None
}

fn find_mr<'a>(mrs: &Vec<&'a SearchMr>, project_id: i64, iid: i64) -> (r: Option<&'a SearchMr>)
    ensures
        r == last_mr(mrs@, project_id, iid),
{
    let mut n: usize = mrs.len();
    proof {
        assert(mrs@.take(n as int) =~= mrs@);
    }
    while n > 0
        invariant
            n <= mrs@.len(),
            last_mr(mrs@, project_id, iid) == last_mr(mrs@.take(n as int), project_id, iid),
        decreases n,
    {
        proof {
            assert(mrs@.take(n as int).drop_last() =~= mrs@.take(n - 1));
        }
        if mrs[n - 1].project_id == project_id && mrs[n - 1].iid == iid {
            return Some(mrs[n - 1]);
        }
        n -= 1;
    }
    None
}

/// Whether `events` show the history of a time on: first the queued time entries,
/// most recently queued first, then the stored timelogs, most recent first.
pub open spec fn is_history(events: Seq<HistoryEvent>, h: Handlers, start: u64) -> bool {
    let queued = sorted(pendings(rows_of(h.queue@.tasks)));
    let logged = sorted(values_where(rows_of(h.history@), spent_since(start)));
    &&& events.len() == queued.len() + logged.len()
    &&& forall|i: int| 0 <= i < queued.len() ==> shows_queued(#[trigger] events[i], h, queued[i])
    &&& forall|i: int|
        queued.len() <= i < events.len() ==> shows_logged(
            #[trigger] events[i],
            *logged[i - queued.len()],
        )
}

impl Handlers {
    fn show_queued(&self, p: &PendingPostTime, mrs: &Vec<&SearchMr>) -> (e: HistoryEvent)
        requires
            mrs@ == values_where(rows_of(self.search@.mrs), everything()),
        ensures
            shows_queued(e, *self, *p),
    {
        let (title, web_url): (String, String) = match p.kind {
            Issuable::Issue => match self.cache.get() {
                Some(issues) => match find_issue(issues, p.project_id, p.iid) {
                    Some(i) => (i.title.clone(), i.web_url.clone()),
                    None => (String::new(), String::new()),
                },
                None => (String::new(), String::new()),
            },
            Issuable::MergeRequest => match find_mr(mrs, p.project_id, p.iid) {
                Some(m) => (m.title.clone(), m.web_url.clone()),
                None => (String::new(), String::new()),
            },
        };
        HistoryEvent {
            timestamp: p.queued_at_secs as i64,
            source: "queued".to_owned(),
            kind: wire_kind(p.kind),
            project_id: p.project_id,
            iid: p.iid,
            title,
            web_url,
            duration: p.duration.clone(),
            summary: match &p.summary {
                Some(s) => s.clone(),
                None => String::new(),
            },
        }
    }

    /// The time that was logged in the last days: what is still queued, so that a
    /// time entry shows at once, then what GitLab has.
    pub fn get_history(&self, days: Option<i64>, now: u64) -> (r: Vec<HistoryEvent>)
        ensures
            is_history(r@, *self, history_start(days, now)),
    {
        let d: u64 = match days {
            Some(n) => if n > 0 {
                n as u64
            } else {
                0
            },
            None => 7,
        };
        let secs: u64 = if d > u64::MAX / 86_400 {
            u64::MAX
        } else {
            d * 86_400
        };
        let start: u64 = now.saturating_sub(secs);
        let mut events: Vec<HistoryEvent> = Vec::new();
        let pending = self.queue.pending_post_time();
        let mrs = self.search.all_mrs();
        let mut i: usize = 0;
        while i < pending.len()
            invariant
                i <= pending@.len(),
                mrs@ == values_where(rows_of(self.search@.mrs), everything()),
                events@.len() == i,
                forall|j: int|
                    0 <= j < i ==> shows_queued(#[trigger] events@[j], *self, pending@[j]),
            decreases pending@.len() - i,
        {
            let e = self.show_queued(&pending[i], &mrs);
            events.push(e);
            i += 1;
        }
        let entries = self.history.all_since(start);
        let mut k: usize = 0;
        while k < entries.len()
            invariant
                k <= entries@.len(),
                events@.len() == pending@.len() + k,
                forall|j: int|
                    0 <= j < pending@.len() ==> shows_queued(
                        #[trigger] events@[j],
                        *self,
                        pending@[j],
                    ),
                forall|j: int|
                    pending@.len() <= j < events@.len() ==> shows_logged(
                        #[trigger] events@[j],
                        *entries@[j - pending@.len()],
                    ),
            decreases entries@.len() - k,
        {
            let t = entries[k];
            events.push(
                HistoryEvent {
                    timestamp: t.spent_at_secs as i64,
                    source: "gitlab".to_owned(),
                    kind: wire_kind(t.kind),
                    project_id: t.project_id,
                    iid: t.iid,
                    title: t.title.clone(),
                    web_url: t.web_url.clone(),
                    duration: t.duration.clone(),
                    summary: t.summary.clone(),
                },
            );
            k += 1;
        }
        events
    }
}

// ── dead letters ─────────────────────────────────────────────────────────────

/// Whether `t` is what a caller sees of a dead letter.
pub open spec fn is_failed_task(t: FailedTask, l: DeadLetter) -> bool {
    &&& t.id == l.id as i64
    &&& t.op@ == crate::queue::op_name(l.failure.op)
    &&& t.kind == kind_shown(l.failure.kind)
    &&& t.project_id == l.failure.project_id
    &&& t.iid == l.failure.iid
    &&& t.detail@ == crate::queue::op_detail(l.failure.op)
    &&& t.error == l.failure.error
    &&& t.queued_at == l.failure.queued_at_secs as i64
    &&& t.failed_at == l.failure.failed_at_secs as i64
}

/// The message about an id that no dead letter has.
pub open spec fn no_failed_task(id: i64) -> Seq<char> {
    "no failed task with id "@ + int_text(id as int)
}

fn unknown_task(id: i64) -> (r: Reply<()>)
    ensures
        r.is_error(no_failed_task(id)),
{
    let s = i64_text(id);
    Reply::GitlabError(joined("no failed task with id ", s.as_str()))
}

/// Whether `list` shows the dead letters, most recent failure first.
pub open spec fn is_failure_list(list: Seq<FailedTask>, q: QueueState) -> bool {
    let l = sorted(letters(rows_of(q.failures)));
    &&& list.len() == l.len()
    &&& forall|i: int| 0 <= i < list.len() ==> is_failed_task(#[trigger] list[i], l[i])
}

/// Dead letters to delete.
#[derive(Clone, Copy, PartialEq, Eq, Structural, Debug)]
pub enum Letters {
    One(i64),
    All,
}

/// How a call about dead letters goes on.
#[derive(Debug)]
pub enum LetterStep {
    /// It is answered already.
    Answered(Reply<()>),
    /// Delete these letters from the disk and report how that went.
    Delete(Letters),
}

impl LetterStep {
    /// Whether the call is answered with this error.
    pub open spec fn is_error(self, message: Seq<char>) -> bool {
        self matches LetterStep::Answered(r) && r.is_error(message)
    }
}

/// Whether a dead letter was queued again and is to be deleted, if there is one of
/// that id.
pub open spec fn failure_retried(
    before: Handlers,
    after: Handlers,
    r: LetterStep,
    id: i64,
) -> bool {
    let q = before.queue@;
    let k = id_key(id);
    &&& marks_kept(before, after)
    &&& after == (Handlers { queue: after.queue, ..before })
    &&& if q.failures.contains_key(k) {
        &&& r == LetterStep::Delete(Letters::One(id))
        &&& after.queue@ == enqueued(q, crate::queue::task_again(q.failures[k]))
    } else {
        r.is_error(no_failed_task(id)) && after.queue@ == q
    }
}

/// Whether a dead letter is to be deleted, if there is one of that id.
pub open spec fn failure_dismissed(h: Handlers, r: LetterStep, id: i64) -> bool {
    if h.queue@.failures.contains_key(id_key(id)) {
        r == LetterStep::Delete(Letters::One(id))
    } else {
        r.is_error(no_failed_task(id))
    }
}

/// The dead letters that are left without some of them.
pub open spec fn letters_without(q: QueueState, which: Letters) -> QueueState {
    QueueState {
        failures: match which {
            Letters::One(id) => q.failures.remove(id_key(id)),
            Letters::All => Map::empty(),
        },
        ..q
    }
}

impl Handlers {
    /// The dead letters, most recent failure first.
    pub fn get_failures(&self) -> (r: Vec<FailedTask>)
        ensures
            is_failure_list(r@, self.queue@),
    {
        let list = self.queue.failures();
        let ghost l = sorted(letters(rows_of(self.queue@.failures)));
        let mut r: Vec<FailedTask> = Vec::new();
        let mut i: usize = 0;
        while i < list.len()
            invariant
                i <= list@.len() == l.len(),
                forall|j: int| 0 <= j < list@.len() ==> shows_letter(#[trigger] list@[j], l[j]),
                r@.len() == i,
                forall|j: int| 0 <= j < i ==> is_failed_task(#[trigger] r@[j], l[j]),
            decreases list@.len() - i,
        {
            let f = &list[i];
            proof {
                assert(shows_letter(list@[i as int], l[i as int]));
            }
            r.push(
                FailedTask {
                    id: f.id as i64,
                    op: f.op_kind.to_owned(),
                    kind: wire_kind(f.kind),
                    project_id: f.project_id,
                    iid: f.iid,
                    detail: f.detail.clone(),
                    error: f.error.clone(),
                    queued_at: f.queued_at_secs as i64,
                    failed_at: f.failed_at_secs as i64,
                },
            );
            i += 1;
        }
        r
    }

    /// Queues a dead letter again, which is to be deleted then.
    pub fn retry_failure(&mut self, id: i64) -> (r: LetterStep)
        requires
            old(self).queue@.next_id < u64::MAX,
        ensures
            failure_retried(*old(self), *final(self), r, id),
    {
        if self.queue.requeue_failure(key_of(id)) {
            LetterStep::Delete(Letters::One(id))
        } else {
            LetterStep::Answered(unknown_task(id))
        }
    }

    /// Drops a dead letter, which is to be deleted.
    pub fn dismiss_failure(&self, id: i64) -> (r: LetterStep)
        ensures
            failure_dismissed(*self, r, id),
    {
        match self.queue.dead_letter(key_of(id)) {
            Some(_) => LetterStep::Delete(Letters::One(id)),
            None => LetterStep::Answered(unknown_task(id)),
        }
    }

    /// Drops every dead letter: all are to be deleted.
    pub fn clear_failures(&self) -> (r: LetterStep)
        ensures
            r == LetterStep::Delete(Letters::All),
    {
        LetterStep::Delete(Letters::All)
    }

    /// Ends a call about dead letters, once it was tried to delete them from the
    /// disk: they go if that worked; otherwise they stay and the error is answered.
    pub fn letters_deleted(&mut self, which: Letters, deleted: Result<(), Error>) -> (r: Reply<()>)
        ensures
            marks_kept(*old(self), *final(self)),
            *final(self) == (Handlers { queue: final(self).queue, ..*old(self) }),
            match deleted {
                Ok(()) => r is Success && final(self).queue@ == letters_without(
                    old(self).queue@,
                    which,
                ),
                Err(e) => r.is_error(error_text(e)) && final(self).queue@ == old(self).queue@,
            },
    {
        let gone = match which {
            Letters::One(id) => self.queue.failure_deleted(key_of(id), deleted),
            Letters::All => self.queue.clear_failures(deleted),
        };
        match gone {
            Ok(()) => Reply::Success(()),
            Err(e) => Reply::GitlabError(e.message()),
        }
    }
}

// ── clearing the caches ──────────────────────────────────────────────────────

/// Whether a part is to be cleared: with no scope given, every part is.
pub open spec fn clears(scopes: Seq<String>, part: Seq<char>) -> bool {
    scopes.len() == 0 || has_text(scopes, part)
}

fn wants(scopes: &Vec<String>, part: &str) -> (r: bool)
    ensures
        r == clears(scopes@, part@),
{
    scopes.len() == 0 || contains_text(scopes, part)
}

/// Which timelogs to fetch after a clear.
#[derive(Clone, Copy, PartialEq, Eq, Structural, Debug)]
pub enum RefillWindow {
    /// The whole retention window, followed by a prune.
    Retention,
    Slow,
    Quick,
}

/// What to fetch after a clear.
#[derive(Clone, Copy, PartialEq, Eq, Structural, Debug)]
pub enum Refill {
    /// Nothing: there is no session.
    Nothing,
    /// Everything: issues, then history, then the search cache.
    WarmUp { client: u64 },
    /// The search cache, the history of a window, or both.
    Parts { client: u64, search: bool, window: Option<RefillWindow> },
}

/// What to fetch after a clear of `scopes`.
pub open spec fn refill_of(s: ConnState, scopes: Seq<String>) -> Refill {
    match client_of(s) {
        None => Refill::Nothing,
        Some(client) => if scopes.len() == 0 {
            Refill::WarmUp { client }
        } else {
            Refill::Parts {
                client,
                search: clears(scopes, "search"@),
                window: if clears(scopes, "stale"@) {
                    Some(RefillWindow::Retention)
                } else if clears(scopes, "slow"@) {
                    Some(RefillWindow::Slow)
                } else if clears(scopes, "quick"@) {
                    Some(RefillWindow::Quick)
                } else {
                    None
                },
            }
        },
    }
}

/// The history after a clear of `scopes` at `now`: all of it goes without a
/// scope; otherwise the bands that are named, each a half-open span of time.
pub open spec fn history_cleared(h: Handlers, scopes: Seq<String>, now: u64) -> Map<
    u64,
    StoredTimelog,
> {
    let quick = since(now, (h.config.refresh.quick.window_hours * 3600) as u64) as u64;
    let slow = since(now, (h.config.refresh.slow.window_hours * 3600) as u64) as u64;
    if scopes.len() == 0 {
        Map::empty()
    } else {
        let a = if clears(scopes, "quick"@) {
            without(h.history@, spent_between(quick, u64::MAX))
        } else {
            h.history@
        };
        let b = if clears(scopes, "slow"@) {
            without(a, spent_between(slow, quick))
        } else {
            a
        };
        if clears(scopes, "stale"@) {
            without(b, spent_between(0, slow))
        } else {
            b
        }
    }
}

/// The refresh stamps after the history part of a clear: those of what was
/// cleared are reset, so that it is fetched again.
pub open spec fn stamps_cleared(s: RefreshStamps, scopes: Seq<String>) -> RefreshStamps {
    if scopes.len() == 0 {
        never_refreshed()
    } else if clears(scopes, "quick"@) || clears(scopes, "slow"@) || clears(scopes, "stale"@) {
        RefreshStamps {
            last_slow_sync_secs: 0,
            backfilled_retention_hours: if clears(scopes, "stale"@) {
                0
            } else {
                s.backfilled_retention_hours
            },
            ..s
        }
    } else {
        s
    }
}

/// Whether the issues and boards were cleared, if `scopes` ask for it, and the
/// quick refresh made due.
pub open spec fn issues_cleared(before: Handlers, after: Handlers, scopes: Seq<String>) -> bool {
    if clears(scopes, "issues"@) {
        &&& marks_kept(before, after)
        &&& after == (Handlers {
            cache: after.cache,
            boards: after.boards,
            refresh_meta: after.refresh_meta,
            ..before
        })
        &&& after.cache@ is None
        &&& after.boards@ == Map::<u64, Vec<String>>::empty()
        &&& after.refresh_meta@ == (RefreshStamps {
            last_quick_sync_secs: 0,
            ..before.refresh_meta@
        })
    } else {
        after == before
    }
}

impl Handlers {
    /// Clears the issues and boards, if asked to, and makes the quick refresh due.
    pub fn clear_issues(&mut self, scopes: &Vec<String>)
        ensures
            issues_cleared(*old(self), *final(self), scopes@),
    {
        if wants(scopes, "issues") {
            self.cache.clear();
            self.boards.clear();
            let reset = |s: RefreshStamps| -> (t: RefreshStamps)
                ensures
                    t == (RefreshStamps { last_quick_sync_secs: 0, ..s }),
                { RefreshStamps { last_quick_sync_secs: 0, ..s } };
            self.refresh_meta.update(reset);
        }
    }

    /// Clears the search cache, if asked to; `false` where a sync is running,
    /// which has to end first.
    pub fn clear_search(&mut self, scopes: &Vec<String>) -> (r: bool)
        ensures
            r == !(clears(scopes@, "search"@) && old(self).search.syncing()),
            if clears(scopes@, "search"@) && !old(self).search.syncing() {
                &&& marks_kept(*old(self), *final(self))
                &&& *final(self) == (Handlers { search: final(self).search, ..*old(self) })
                &&& final(self).search@ == crate::search::empty_corpus()
                &&& !final(self).search.syncing()
            } else {
                *final(self) == *old(self)
            },
    {
        if !wants(scopes, "search") {
            return true;
        }
        if self.search.is_syncing() {
            return false;
        }
        match self.search.try_begin_sync() {
            Some(guard) => {
                guard.clear(&mut self.search);
                guard.end(&mut self.search);
                true
            },
            None => false,
        }
    }

    /// Clears the history that is asked for; what to fetch after that.
    pub fn clear_history(&mut self, scopes: &Vec<String>, now: u64) -> (r: Refill)
        requires
            old(self).config.spans_fit(),
        ensures
            r == refill_of(old(self).session, scopes@),
            marks_kept(*old(self), *final(self)),
            *final(self) == (Handlers {
                history: final(self).history,
                refresh_meta: final(self).refresh_meta,
                ..*old(self)
            }),
            final(self).history@ == history_cleared(*old(self), scopes@, now),
            final(self).refresh_meta@ == stamps_cleared(old(self).refresh_meta@, scopes@),
    {
        let quick_start: u64 = now.saturating_sub(self.config.refresh.quick.window().as_secs());
        let slow_start: u64 = now.saturating_sub(self.config.refresh.slow.window().as_secs());
        let all = scopes.len() == 0;
        let quick = wants(scopes, "quick");
        let slow = wants(scopes, "slow");
        let stale = wants(scopes, "stale");
        if all {
            self.history.clear();
            self.refresh_meta.clear();
        } else {
            if quick {
                let _ = self.history.clear_between(quick_start, u64::MAX);
            }
            if slow {
                let _ = self.history.clear_between(slow_start, quick_start);
            }
            if stale {
                let _ = self.history.clear_between(0, slow_start);
            }
            if quick || slow || stale {
                let reset = |s: RefreshStamps| -> (t: RefreshStamps)
                    ensures
                        t == (RefreshStamps {
                            last_slow_sync_secs: 0,
                            backfilled_retention_hours: if stale {
                                0
                            } else {
                                s.backfilled_retention_hours
                            },
                            ..s
                        }),
                    {
                        RefreshStamps {
                            last_slow_sync_secs: 0,
                            backfilled_retention_hours: if stale {
                                0
                            } else {
                                s.backfilled_retention_hours
                            },
                            ..s
                        }
                    };
                self.refresh_meta.update(reset);
            }
        }
        match self.session.gitlab() {
            None => Refill::Nothing,
            Some(client) => {
                if all {
                    Refill::WarmUp { client }
                } else {
                    Refill::Parts {
                        client,
                        search: wants(scopes, "search"),
                        window: if stale {
                            Some(RefillWindow::Retention)
                        } else if slow {
                            Some(RefillWindow::Slow)
                        } else if quick {
                            Some(RefillWindow::Quick)
                        } else {
                            None
                        },
                    }
                }
            },
        }
    }

    /// Clears the caches of the given scopes, or all of them; what to fetch after
    /// that. For a clear of the search cache no sync may be running: the caller
    /// waits for that between [`Self::clear_issues`] and [`Self::clear_search`].
    pub fn clear_cache(&mut self, scope: Option<Vec<String>>, now: u64) -> (r: Refill)
        requires
            old(self).config.spans_fit(),
            !(clears(scopes_or_all(scope), "search"@) && old(self).search.syncing()),
        ensures
            ({
                let scopes = scopes_or_all(scope);
                &&& r == refill_of(old(self).session, scopes)
                &&& marks_kept(*old(self), *final(self))
                &&& *final(self) == (Handlers {
                    cache: final(self).cache,
                    boards: final(self).boards,
                    history: final(self).history,
                    search: final(self).search,
                    refresh_meta: final(self).refresh_meta,
                    ..*old(self)
                })
                &&& final(self).cache@ == if clears(scopes, "issues"@) {
                    None
                } else {
                    old(self).cache@
                }
                &&& final(self).boards@ == if clears(scopes, "issues"@) {
                    Map::empty()
                } else {
                    old(self).boards@
                }
                &&& final(self).search@ == if clears(scopes, "search"@) {
                    crate::search::empty_corpus()
                } else {
                    old(self).search@
                }
                &&& final(self).search.syncing() == old(self).search.syncing()
                &&& final(self).history@ == history_cleared(*old(self), scopes, now)
                &&& final(self).refresh_meta@ == stamps_cleared(
                    if clears(scopes, "issues"@) {
                        RefreshStamps { last_quick_sync_secs: 0, ..old(self).refresh_meta@ }
                    } else {
                        old(self).refresh_meta@
                    },
                    scopes,
                )
            }),
    {
        let scopes = match scope {
            Some(s) => s,
            None => Vec::new(),
        };
        self.clear_issues(&scopes);
        let _ = self.clear_search(&scopes);
        self.clear_history(&scopes, now)
    }
}

/// The scopes of a call that may leave them out.
pub open spec fn scopes_or_all(scope: Option<Vec<String>>) -> Seq<String> {
    match scope {
        Some(s) => s@,
        None => Seq::empty(),
    }
}

// ── logging in and out ───────────────────────────────────────────────────────

/// Whether `r` tells the host and the user of the session.
pub open spec fn is_user(r: Reply<(String, i64)>, s: ConnState) -> bool {
    match s {
        ConnState::Connected(s) => r == Reply::Success((s.host, s.user_id)),
        ConnState::Dormant(d) => r.is_dormant(d),
    }
}

impl Handlers {
    /// The answer to a login that GitLab did not accept.
    pub fn login_failed(e: &Error) -> (r: Reply<()>)
        ensures
            r.is_error(error_text(*e)),
    {
        Reply::GitlabError(e.message())
    }

    /// Ends a login that GitLab accepted: once the credentials are stored the
    /// session is taken up and the queue worker woken.
    pub fn login(&mut self, session: Session, stored: Result<(), Error>) -> (r: Reply<()>)
        ensures
            match stored {
                Ok(_) => r is Success && *final(self) == (Handlers {
                    session: ConnState::Connected(session),
                    drain_wake: true,
                    ..*old(self)
                }),
                Err(e) => r.is_error("keychain write failed: "@ + error_text(e)) && *final(self)
                    == *old(self),
            },
    {
        match stored {
            Ok(_) => {
                self.session = ConnState::Connected(session);
                self.drain_wake = true;
                Reply::Success(())
            },
            Err(e) => {
                let m = e.message();
                Reply::GitlabError(joined("keychain write failed: ", m.as_str()))
            },
        }
    }

    /// Ends the session before the credentials are deleted.
    pub fn logout(&mut self)
        ensures
            *final(self) == (Handlers {
                session: ConnState::Dormant(DormancyReason::LoggedOut),
                ..*old(self)
            }),
    {
        self.session = ConnState::Dormant(DormancyReason::LoggedOut);
    }

    /// The answer to a logout, once the credentials are deleted.
    pub fn logout_done(deleted: Result<(), Error>) -> (r: Reply<()>)
        ensures
            match deleted {
                Ok(_) => r is Success,
                Err(e) => r.is_error("keychain delete failed: "@ + error_text(e)),
            },
    {
        match deleted {
            Ok(_) => Reply::Success(()),
            Err(e) => {
                let m = e.message();
                Reply::GitlabError(joined("keychain delete failed: ", m.as_str()))
            },
        }
    }

    /// The host and the user of the session.
    pub fn who_am_i(&self) -> (r: Reply<(String, i64)>)
        ensures
            is_user(r, self.session),
    {
        match &self.session {
            ConnState::Connected(s) => Reply::Success((s.host.clone(), s.user_id)),
            ConnState::Dormant(d) => not_authenticated(d),
        }
    }
}

// ── laws ─────────────────────────────────────────────────────────────────────

/// Whether no two of `issues` have the same project and number.
pub open spec fn each_once(issues: Seq<Issue>) -> bool {
    forall|i: int, j: int|
        0 <= i < j < issues.len() ==> !((#[trigger] issues[i]).project_id == (
        #[trigger] issues[j]).project_id && issues[i].iid == issues[j].iid)
}

proof fn lemma_added(out: Seq<Issue>, more: Seq<Issue>, p: spec_fn(Issue) -> bool)
    requires
        each_once(out),
        forall|i: int| 0 <= i < out.len() ==> p(#[trigger] out[i]),
        forall|i: int| 0 <= i < more.len() ==> p(#[trigger] more[i]),
    ensures
        each_once(added(out, more)),
        forall|i: int| 0 <= i < added(out, more).len() ==> p(#[trigger] added(out, more)[i]),
    decreases more.len(),
{
    if more.len() > 0 {
        let init = more.drop_last();
        assert forall|i: int| 0 <= i < init.len() implies p(#[trigger] init[i]) by {
            assert(more[i] == init[i]);
        }
        lemma_added(out, init, p);
        assert(p(more[more.len() - 1]));
    }
}

/// A listing of several groups holds every issue once, however the groups
/// overlap, and only issues of those groups.
pub proof fn law_group_listing(issues: Seq<Issue>, groups: Seq<String>)
    ensures
        each_once(issues_in_groups(issues, groups)),
        forall|i: int|
            0 <= i < issues_in_groups(issues, groups).len() ==> under_any(
                namespace((#[trigger] issues_in_groups(issues, groups)[i]).web_url@),
                groups,
            ),
    decreases groups.len(),
{
    if groups.len() > 0 {
        let init = groups.drop_last();
        let out = issues_in_groups(issues, init);
        let more = issues.filter(of_group(groups.last()@));
        let p = |i: Issue| under_any(namespace(i.web_url@), groups);
        law_group_listing(issues, init);
        assert forall|i: int| 0 <= i < out.len() implies p(#[trigger] out[i]) by {
            let ns = namespace(out[i].web_url@);
            assert(under_any(ns, init));
            let j = choose|j: int| 0 <= j < init.len() && under_group(ns, (#[trigger] init[j])@);
            assert(under_group(ns, groups[j]@));
        }
        assert forall|i: int| 0 <= i < more.len() implies p(#[trigger] more[i]) by {
            lemma_filtered(issues, of_group(groups.last()@), i);
            assert(under_group(namespace(more[i].web_url@), groups[groups.len() - 1]@));
        }
        lemma_added(out, more, p);
        assert forall|i: int| 0 <= i < issues_in_groups(issues, groups).len() implies under_any(
            namespace((#[trigger] issues_in_groups(issues, groups)[i]).web_url@),
            groups,
        ) by {
            assert(p(issues_in_groups(issues, groups)[i]));
        }
    }
}

proof fn lemma_added_has(out: Seq<Issue>, more: Seq<Issue>, project_id: i64, iid: i64)
    ensures
        has_issue(added(out, more), project_id, iid) <==> has_issue(out, project_id, iid)
            || has_issue(more, project_id, iid),
    decreases more.len(),
{
    if more.len() > 0 {
        let init = more.drop_last();
        let rest = added(out, init);
        let all = added(out, more);
        lemma_added_has(out, init, project_id, iid);
        if has_issue(more, project_id, iid) {
            let i = choose|i: int|
                0 <= i < more.len() && (#[trigger] more[i]).project_id == project_id && more[i].iid
                    == iid;
            if i < init.len() {
                assert(init[i] == more[i]);
            }
        }
        if has_issue(init, project_id, iid) {
            let i = choose|i: int|
                0 <= i < init.len() && (#[trigger] init[i]).project_id == project_id && init[i].iid
                    == iid;
            assert(more[i] == init[i]);
        }
        assert(more[more.len() - 1] == more.last());
        if all.len() > rest.len() {
            assert(all =~= rest.push(more.last()));
            if has_issue(rest, project_id, iid) {
                let i = choose|i: int|
                    0 <= i < rest.len() && (#[trigger] rest[i]).project_id == project_id
                        && rest[i].iid == iid;
                assert(all[i] == rest[i]);
            }
            if has_issue(all, project_id, iid) {
                let i = choose|i: int|
                    0 <= i < all.len() && (#[trigger] all[i]).project_id == project_id && all[i].iid
                        == iid;
                if i < rest.len() {
                    assert(rest[i] == all[i]);
                }
            }
            assert(all[rest.len() as int] == more.last());
        }
    }
}

/// A listing of several groups leaves no issue of those groups out.
pub proof fn law_group_listing_is_complete(issues: Seq<Issue>, groups: Seq<String>, i: int)
    requires
        0 <= i < issues.len(),
        under_any(namespace(issues[i].web_url@), groups),
    ensures
        has_issue(issues_in_groups(issues, groups), issues[i].project_id, issues[i].iid),
    decreases groups.len(),
{
    let ns = namespace(issues[i].web_url@);
    let g = choose|g: int| 0 <= g < groups.len() && under_group(ns, (#[trigger] groups[g])@);
    let init = groups.drop_last();
    let more = issues.filter(of_group(groups.last()@));
    lemma_added_has(issues_in_groups(issues, init), more, issues[i].project_id, issues[i].iid);
    if g < init.len() {
        assert(under_group(ns, init[g]@));
        law_group_listing_is_complete(issues, init, i);
    } else {
        lemma_filter_keeps(issues, of_group(groups.last()@), i);
        let j = choose|j: int| 0 <= j < more.len() && more[j] == issues[i];
        assert(more[j].project_id == issues[i].project_id);
    }
}

proof fn lemma_filter_keeps<T>(s: Seq<T>, p: spec_fn(T) -> bool, i: int)
    requires
        0 <= i < s.len(),
        p(s[i]),
    ensures
        s.filter(p).contains(s[i]),
    decreases s.len(),
{
    reveal(Seq::filter);
    let init = s.drop_last();
    let rest = init.filter(p);
    if i < init.len() {
        lemma_filter_keeps(init, p, i);
        let j = choose|j: int| 0 <= j < rest.len() && rest[j] == init[i];
        assert(s.filter(p)[j] == s[i]);
    } else {
        assert(s.filter(p)[rest.len() as int] == s[i]);
    }
}

proof fn lemma_filtered<T>(s: Seq<T>, p: spec_fn(T) -> bool, i: int)
    requires
        0 <= i < s.filter(p).len(),
    ensures
        p(s.filter(p)[i]),
    decreases s.len(),
{
    reveal(Seq::filter);
    if s.len() > 0 {
        let rest = s.drop_last().filter(p);
        if i < rest.len() {
            lemma_filtered(s.drop_last(), p, i);
        }
    }
}

/// Without a session a write is queued only during an outage: in any other case
/// it is refused, and nothing changes.
pub proof fn law_writes_queue_only_in_an_outage(
    before: Handlers,
    after: Handlers,
    r: WriteStep,
    d: DormancyReason,
    project_id: i64,
    iid: i64,
    kind: IssuableKind,
    duration: String,
    summary: Option<String>,
    now: u64,
)
    requires
        before.session == ConnState::Dormant(d),
        !(d is Unreachable),
        post_time_started(before, after, r, project_id, iid, kind, duration, summary, now)
            || close_started(before, after, r, project_id, iid, kind, now) || assign_started(
            before,
            after,
            r,
            project_id,
            iid,
            kind,
            now,
        ) || unassign_started(before, after, r, project_id, iid, kind, now),
    ensures
        after == before,
        r matches WriteStep::Answered(reply) && !(reply is Success),
        project_id > 0 && iid > 0 && (duration_like(duration@) || close_started(
            before,
            after,
            r,
            project_id,
            iid,
            kind,
            now,
        ) || assign_started(before, after, r, project_id, iid, kind, now) || unassign_started(
            before,
            after,
            r,
            project_id,
            iid,
            kind,
            now,
        )) ==> (r matches WriteStep::Answered(reply) && reply.is_dormant(d)),
{
}

/// A write that is answered with success went through or is queued, once.
pub proof fn law_accepted_write_is_not_lost(
    before: Handlers,
    after: Handlers,
    r: Reply<()>,
    kind: Issuable,
    project_id: i64,
    iid: i64,
    duration: String,
    summary: Option<String>,
    outcome: Result<(), Error>,
    now: u64,
)
    requires
        r is Success,
        post_time_ended(
            before,
            after,
            r,
            kind,
            project_id,
            iid,
            duration,
            summary,
            outcome,
            now,
        ) || close_ended(before, after, r, kind, project_id, iid, outcome, now) || assign_ended(
            before,
            after,
            r,
            kind,
            project_id,
            iid,
            outcome,
            now,
        ) || unassign_ended(before, after, r, kind, project_id, iid, outcome, now),
    ensures
        outcome is Ok ==> after.queue@ == before.queue@,
        outcome is Err ==> exists|t: StoredTask| #[trigger]
            enqueued(before.queue@, t) == after.queue@ && t.kind == kind && t.project_id
                == project_id && t.iid == iid && t.queued_at_secs == now,
{
    if outcome is Err {
        let id = before.queue@.next_id;
        let t = after.queue@.tasks[id];
        assert(enqueued(before.queue@, t) == after.queue@);
    }
}

/// A write that was queued, or queued again, survives a restart: writing the
/// unsaved keys through to a disk with what was saved before leaves it there.
pub proof fn law_queued_write_survives_reopen(
    before: Handlers,
    after: Handlers,
    t: StoredTask,
    keys: Seq<u64>,
)
    requires
        marks_kept(before, after),
        after.queue@ == enqueued(before.queue@, t),
        forall|k: u64|
            !keys.contains(k) ==> #[trigger] agree_at(
                after.queue.saved().0,
                after.queue@.tasks,
                k,
            ),
    ensures
        ({
            let disk = written_through(before.queue.saved().0, keys, after.queue@.tasks);
            disk.contains_key(before.queue@.next_id) && disk[before.queue@.next_id] == t
        }),
{
    law_survives_reopen(before.queue.saved().0, after.queue@.tasks, keys);
}

/// A merge request that was closed, or that a user was taken off, is no longer
/// among the open ones assigned to that user.
pub proof fn law_reflected_writes_leave_the_view(
    m: SearchMr,
    closed: SearchMr,
    unassigned: SearchMr,
    user: i64,
    k: u64,
)
    requires
        is_closed_from(m, closed),
        is_unassigned_from(m, unassigned, user),
    ensures
        !open_and_assigned_to(user)(k, closed),
        !open_and_assigned_to(user)(k, unassigned),
{
    reveal_strlit("closed");
    reveal_strlit("opened");
    assert("closed"@[0] != "opened"@[0]);
    if is_assigned(unassigned.assignees@, user) {
        let i = choose|i: int|
            0 <= i < unassigned.assignees@.len() && (#[trigger] unassigned.assignees@[i]).id
                == user;
        lemma_filtered(m.assignees@, assignee_but(user), i);
    }
}

/// Whatever is cleared is fetched again: clearing everything makes every refresh
/// due, clearing the issues the quick one, clearing any band of the history the
/// slow one, and clearing the search cache a full sync, at any time.
pub proof fn law_cleared_is_due(
    s: RefreshStamps,
    scopes: Seq<String>,
    cfg: crate::config::Config,
    now: u64,
)
    ensures
        scopes.len() == 0 ==> crate::handlers::refresh::tier_due(
            stamps_cleared(s, scopes).last_quick_sync_secs,
            cfg.refresh.quick.interval_secs,
            now,
        ),
        clears(scopes, "quick"@) || clears(scopes, "slow"@) || clears(scopes, "stale"@)
            ==> crate::handlers::refresh::tier_due(
            stamps_cleared(s, scopes).last_slow_sync_secs,
            cfg.refresh.slow.interval_secs,
            now,
        ),
        crate::handlers::refresh::tier_due(0, cfg.refresh.quick.interval_secs, now),
        crate::handlers::search_sync::full_due(
            crate::search::empty_corpus().stamps,
            cfg.search,
            now,
        ),
{
}

/// Clearing one band leaves every entry outside its span of time as it was.
pub proof fn law_other_bands_untouched(h: Handlers, scopes: Seq<String>, now: u64, k: u64)
    requires
        scopes.len() > 0,
        !clears(scopes, "slow"@),
        !clears(scopes, "stale"@),
        h.history@.contains_key(k),
        h.history@[k].spent_at_secs < since(
            now,
            (h.config.refresh.quick.window_hours * 3600) as u64,
        ),
    ensures
        history_cleared(h, scopes, now).contains_key(k),
        history_cleared(h, scopes, now)[k] == h.history@[k],
{
}

/// A time entry that is accepted and not sent at once is queued with exactly the
/// duration and the summary that the caller gave, for the same target and under
/// the present time, so that the write the worker makes of it carries both.
pub proof fn law_deferred_time_is_queued_as_given(
    before: Handlers,
    after: Handlers,
    started: WriteStep,
    ended: Reply<()>,
    project_id: i64,
    iid: i64,
    kind: IssuableKind,
    duration: String,
    summary: Option<String>,
    outcome: Result<(), Error>,
    now: u64,
    call: WriteCall,
)
    requires
        post_time_started(
            before,
            after,
            started,
            project_id,
            iid,
            kind,
            duration,
            summary,
            now,
        ) && started.is_success() || post_time_ended(
            before,
            after,
            ended,
            kind_meant(kind),
            project_id,
            iid,
            duration,
            summary,
            outcome,
            now,
        ) && outcome is Err && ended is Success,
    ensures
        ({
            let id = before.queue@.next_id;
            let t = after.queue@.tasks[id];
            &&& after.queue@.tasks.contains_key(id)
            &&& after.queue@.inbox == before.queue@.inbox.push(id)
            &&& t.project_id == project_id
            &&& t.iid == iid
            &&& t.kind is Issue <==> kind is issue
            &&& t.queued_at_secs == now
            &&& t.op is PostTime
            &&& t.op->duration == duration
            &&& t.op->summary == summary
            &&& t.op->issuable_id == known_id(before, kind_meant(kind), project_id, iid)
            &&& crate::queue::is_call_of(call, t) ==> {
                ||| call is AddSpentTime && call->AddSpentTime_project_id == project_id
                    && call->AddSpentTime_iid == iid && call->AddSpentTime_duration == duration
                    && call->AddSpentTime_summary == summary
                ||| call is CreateTimelog && call->CreateTimelog_duration == duration
                    && call->CreateTimelog_spent_at_secs == now && (summary is Some
                    ==> call->CreateTimelog_summary@ == summary->0@) && (summary is None
                    ==> call->CreateTimelog_summary@.len() == 0)
            }
        }),
        after.session == before.session,
        after.cache == before.cache,
        after.history == before.history,
        after.search == before.search,
{
}

/// With a session every write that is in order is made at once, through the
/// session's client and exactly as the caller gave it; nothing changes before
/// GitLab has answered.
pub proof fn law_writes_are_made_as_given(
    before: Handlers,
    after: Handlers,
    r: WriteStep,
    project_id: i64,
    iid: i64,
    kind: IssuableKind,
    duration: String,
    summary: Option<String>,
    now: u64,
)
    requires
        before.session is Connected,
        project_id > 0,
        iid > 0,
    ensures
        ({
            let k = if kind is issue {
                Issuable::Issue
            } else {
                Issuable::MergeRequest
            };
            let client = before.session->Connected_0.client;
            &&& post_time_started(
                before,
                after,
                r,
                project_id,
                iid,
                kind,
                duration,
                summary,
                now,
            ) && duration_like(duration@) ==> after == before && r == (WriteStep::Call {
                client,
                call: WriteCall::AddSpentTime { kind: k, project_id, iid, duration, summary },
            })
            &&& close_started(before, after, r, project_id, iid, kind, now) ==> after == before
                && r == (WriteStep::Call {
                client,
                call: WriteCall::Close { kind: k, project_id, iid },
            })
            &&& assign_started(before, after, r, project_id, iid, kind, now) ==> after == before
                && r == (WriteStep::Call {
                client,
                call: WriteCall::AssignSelf { kind: k, project_id, iid },
            })
            &&& unassign_started(before, after, r, project_id, iid, kind, now) ==> after == before
                && r == (WriteStep::Call {
                client,
                call: WriteCall::UnassignSelf { kind: k, project_id, iid },
            })
        }),
{
}

/// A close, an assignment or an unassignment that is accepted and not made at once
/// is queued as what it is, for the same target and under the present time.
pub proof fn law_deferred_writes_are_queued_as_given(
    before: Handlers,
    after: Handlers,
    started: WriteStep,
    ended: Reply<()>,
    project_id: i64,
    iid: i64,
    kind: IssuableKind,
    outcome: Result<(), Error>,
    now: u64,
)
    requires
        started.is_success(),
        ended is Success,
        outcome is Err,
    ensures
        ({
            let id = before.queue@.next_id;
            let t = after.queue@.tasks[id];
            let k = kind_meant(kind);
            let queued = after.queue@.tasks.contains_key(id) && after.queue@.inbox
                == before.queue@.inbox.push(id) && t.project_id == project_id && t.iid == iid && (
            t.kind is Issue <==> kind is issue) && t.queued_at_secs == now;
            &&& close_started(before, after, started, project_id, iid, kind, now) || close_ended(
                before,
                after,
                ended,
                k,
                project_id,
                iid,
                outcome,
                now,
            ) ==> queued && t.op is Close
            &&& assign_started(before, after, started, project_id, iid, kind, now) || assign_ended(
                before,
                after,
                ended,
                k,
                project_id,
                iid,
                outcome,
                now,
            ) ==> queued && t.op is AssignSelf
            &&& unassign_started(before, after, started, project_id, iid, kind, now)
                || unassign_ended(
                before,
                after,
                ended,
                k,
                project_id,
                iid,
                outcome,
                now,
            ) ==> queued && t.op is UnassignSelf
        }),
{
}

/// A write is refused, and changes nothing, where its target cannot be one: both
/// numbers have to be positive.
pub proof fn law_impossible_targets_are_refused(
    before: Handlers,
    after: Handlers,
    r: WriteStep,
    project_id: i64,
    iid: i64,
    kind: IssuableKind,
    duration: String,
    summary: Option<String>,
    now: u64,
)
    requires
        project_id <= 0 || iid <= 0,
        post_time_started(before, after, r, project_id, iid, kind, duration, summary, now)
            || close_started(before, after, r, project_id, iid, kind, now) || assign_started(
            before,
            after,
            r,
            project_id,
            iid,
            kind,
            now,
        ) || unassign_started(before, after, r, project_id, iid, kind, now),
    ensures
        after == before,
        r is Answered && r->Answered_0 is GitlabError && r->Answered_0->GitlabError_0@
            == ref_error_text(project_id, iid),
{
}

/// A write that GitLab refuses is reported in the words of the error and changes
/// nothing; one that went through is never queued.
pub proof fn law_refused_writes_change_nothing(
    before: Handlers,
    after: Handlers,
    r: Reply<()>,
    kind: Issuable,
    project_id: i64,
    iid: i64,
    duration: String,
    summary: Option<String>,
    outcome: Result<(), Error>,
    now: u64,
)
    requires
        post_time_ended(
            before,
            after,
            r,
            kind,
            project_id,
            iid,
            duration,
            summary,
            outcome,
            now,
        ) || close_ended(before, after, r, kind, project_id, iid, outcome, now) || assign_ended(
            before,
            after,
            r,
            kind,
            project_id,
            iid,
            outcome,
            now,
        ) || unassign_ended(before, after, r, kind, project_id, iid, outcome, now),
    ensures
        outcome is Err && !(outcome->Err_0 is Transient) ==> after == before && r is GitlabError
            && r->GitlabError_0@ == error_text(outcome->Err_0),
        outcome is Ok ==> r is Success && after.queue == before.queue,
        outcome is Err && outcome->Err_0 is Transient ==> r is Success,
        after.session == before.session,
        after.history == before.history,
        after.boards == before.boards,
{
}

proof fn lemma_first_is_one(issues: Seq<Issue>, project_id: i64, iid: i64)
    ensures
        match first_issue(issues, project_id, iid) {
            Some(x) => issues.contains(x) && x.project_id == project_id && x.iid == iid,
            None => forall|i: int|
                0 <= i < issues.len() ==> !((#[trigger] issues[i]).project_id == project_id
                    && issues[i].iid == iid),
        },
    decreases issues.len(),
{
    if issues.len() > 0 && !(issues[0].project_id == project_id && issues[0].iid == iid) {
        let rest = issues.drop_first();
        lemma_first_is_one(rest, project_id, iid);
        match first_issue(rest, project_id, iid) {
            Some(x) => {
                let i = choose|i: int| 0 <= i < rest.len() && rest[i] == x;
                assert(issues[i + 1] == x);
            },
            None => {
                assert forall|i: int| 0 <= i < issues.len() implies !((
                #[trigger] issues[i]).project_id == project_id && issues[i].iid == iid) by {
                    if i > 0 {
                        assert(rest[i - 1] == issues[i]);
                    }
                }
            },
        }
    }
}

/// The global id of a target is known exactly where the caches hold it: an issue
/// among the assigned ones, a merge request in the search cache, of that project
/// and number.
pub proof fn law_known_ids(h: Handlers, project_id: i64, iid: i64, i: int, k: u64)
    ensures
        match known_id(h, Issuable::Issue, project_id, iid) {
            Some(id) => h.cache@ is Some && exists|n: int|
                0 <= n < h.cache@->0.len() && (#[trigger] h.cache@->0[n]).id == id
                    && h.cache@->0[n].project_id == project_id && h.cache@->0[n].iid == iid,
            None => h.cache@ is Some && 0 <= i < h.cache@->0.len() ==> !(h.cache@->0[i].project_id
                == project_id && h.cache@->0[i].iid == iid),
        },
        match known_id(h, Issuable::MergeRequest, project_id, iid) {
            Some(id) => exists|n: u64| #[trigger]
                h.search@.mrs.contains_key(n) && h.search@.mrs[n].id == id
                    && h.search@.mrs[n].project_id == project_id && h.search@.mrs[n].iid == iid,
            None => h.search@.mrs.contains_key(k) ==> !(h.search@.mrs[k].project_id == project_id
                && h.search@.mrs[k].iid == iid),
        },
{
    let issues = cached(h.cache@);
    lemma_first_is_one(issues, project_id, iid);
    match first_issue(issues, project_id, iid) {
        Some(x) => {
            let n = choose|n: int| 0 <= n < issues.len() && issues[n] == x;
            assert(h.cache@->0[n] == x);
        },
        None => {},
    }
    let rows = rows_of(h.search@.mrs);
    crate::db::law_every_map_is_listed(h.search@.mrs);
    crate::db::lemma_first_where(rows, mr_at(project_id, iid));
    match first_where(rows, mr_at(project_id, iid)) {
        Some(row) => {
            let n = choose|n: int| 0 <= n < rows.len() && #[trigger] rows[n] == row;
            crate::db::lemma_row_in_map(rows, n);
            assert(h.search@.mrs.contains_key(row.0));
        },
        None => {
            if h.search@.mrs.contains_key(k) {
                crate::db::lemma_entry_is_listed(h.search@.mrs, k);
                let n = choose|n: int|
                    0 <= n < rows.len() && (#[trigger] rows[n]).0 == k && rows[n].1
                        == h.search@.mrs[k];
                assert(!mr_at(project_id, iid)(rows[n].0, rows[n].1));
            }
        },
    }
}

/// A close or an unassignment of an issue that took effect or was queued takes
/// that issue out of the assigned ones, and no other.
pub proof fn law_finished_issue_is_not_listed(
    before: Handlers,
    after: Handlers,
    project_id: i64,
    iid: i64,
    i: int,
)
    requires
        close_reflected(before, after, Issuable::Issue, project_id, iid) || unassign_reflected(
            before,
            after,
            Issuable::Issue,
            project_id,
            iid,
        ),
    ensures
        before.cache@ is None <==> after.cache@ is None,
        after.cache@ is Some && 0 <= i < after.cache@->0.len() ==> {
            &&& !(after.cache@->0[i].project_id == project_id && after.cache@->0[i].iid == iid)
            &&& before.cache@->0.contains(after.cache@->0[i])
        },
        before.cache@ is Some && 0 <= i < before.cache@->0.len() && !(before.cache@->0[i].project_id
            == project_id && before.cache@->0[i].iid == iid) ==> after.cache@->0.contains(
            before.cache@->0[i],
        ),
        after.search == before.search,
        after.queue == before.queue,
        after.session == before.session,
{
    if before.cache@ is Some {
        let s = before.cache@->0;
        crate::cache::law_removed_issue_is_gone(s, project_id, iid);
        if 0 <= i < after.cache@->0.len() {
            crate::cache::law_removing_keeps_the_rest(s, project_id, iid, i);
        }
    }
}

/// A close of a merge request shows in the search cache unless a sync is running:
/// what stands under its id is closed, with everything else as it was; an
/// unassignment takes the synced user, and nobody else, off its assignees. Nothing
/// else in the cache changes.
pub proof fn law_finished_mr_shows_it(
    before: Handlers,
    after: Handlers,
    project_id: i64,
    iid: i64,
    id: i64,
    k: u64,
)
    requires
        !before.search.syncing(),
        known_id(before, Issuable::MergeRequest, project_id, iid) == Some(id),
    ensures
        close_reflected(before, after, Issuable::MergeRequest, project_id, iid) ==> {
            &&& after.search@.mrs.contains_key(id as u64)
            &&& after.search@.mrs[id as u64].id == id
            &&& after.search@.mrs[id as u64].project_id == project_id
            &&& after.search@.mrs[id as u64].iid == iid
            &&& after.search@.mrs[id as u64].state@ == "closed"@
            &&& exists|n: u64| #[trigger]
                before.search@.mrs.contains_key(n) && ({
                    let x = before.search@.mrs[n];
                    let y = after.search@.mrs[id as u64];
                    x.project_id == project_id && x.iid == iid && y.title@ == x.title@ && y.web_url@
                        == x.web_url@ && y.labels@ == x.labels@ && y.assignees@ == x.assignees@
                        && y.updated_at_secs == x.updated_at_secs
                })
        },
        unassign_reflected(before, after, Issuable::MergeRequest, project_id, iid)
            && before.search@.stamps.synced_user_id != 0 ==> {
            let m = after.search@.mrs[id as u64];
            &&& after.search@.mrs.contains_key(id as u64)
            &&& m.id == id
            &&& m.project_id == project_id
            &&& m.iid == iid
            &&& forall|i: int|
                0 <= i < m.assignees@.len() ==> (#[trigger] m.assignees@[i]).id
                    != before.search@.stamps.synced_user_id
            &&& exists|n: u64| #[trigger]
                before.search@.mrs.contains_key(n) && ({
                    let x = before.search@.mrs[n];
                    x.project_id == project_id && x.iid == iid && m.title@ == x.title@ && m.web_url@
                        == x.web_url@ && m.labels@ == x.labels@ && m.state@ == x.state@
                        && m.updated_at_secs == x.updated_at_secs && forall|i: int|
                        0 <= i < x.assignees@.len() && (#[trigger] x.assignees@[i]).id
                            != before.search@.stamps.synced_user_id ==> m.assignees@.contains(
                            x.assignees@[i],
                        )
                })
        },
        close_reflected(before, after, Issuable::MergeRequest, project_id, iid)
            || unassign_reflected(before, after, Issuable::MergeRequest, project_id, iid) ==> {
            &&& k != id as u64 && before.search@.mrs.contains_key(k)
                ==> after.search@.mrs.contains_key(k) && after.search@.mrs[k]
                == before.search@.mrs[k]
            &&& after.search@.issues == before.search@.issues
            &&& after.search@.projects == before.search@.projects
            &&& after.search@.groups == before.search@.groups
            &&& after.search@.stamps == before.search@.stamps
            &&& after.cache == before.cache
            &&& after.queue == before.queue
            &&& after.session == before.session
        },
{
    let rows = rows_of(before.search@.mrs);
    crate::db::lemma_first_where(rows, mr_at(project_id, iid));
    let row = first_where(rows, mr_at(project_id, iid))->0;
    let m = row.1;
    crate::db::law_every_map_is_listed(before.search@.mrs);
    let at = choose|at: int| 0 <= at < rows.len() && #[trigger] rows[at] == row;
    crate::db::lemma_row_in_map(rows, at);
    assert(before.search@.mrs.contains_key(row.0) && before.search@.mrs[row.0] == m);
    let user = before.search@.stamps.synced_user_id;
    if close_reflected(before, after, Issuable::MergeRequest, project_id, iid) {
        let n = choose|n: SearchMr| #[trigger]
            closing()(m, n) && after.search@ == (Corpus {
                mrs: before.search@.mrs.insert(id_key(m.id), n),
                ..before.search@
            });
        assert(is_closed_from(m, n));
    }
    if unassign_reflected(before, after, Issuable::MergeRequest, project_id, iid) && user != 0 {
        let n = choose|n: SearchMr| #[trigger]
            unassigning(user)(m, n) && after.search@ == (Corpus {
                mrs: before.search@.mrs.insert(id_key(m.id), n),
                ..before.search@
            });
        assert(is_unassigned_from(m, n, user));
        assert forall|i: int| 0 <= i < n.assignees@.len() implies (#[trigger] n.assignees@[i]).id
            != user by {
            lemma_filtered(m.assignees@, assignee_but(user), i);
        }
        assert forall|i: int| 0 <= i < m.assignees@.len() && (#[trigger] m.assignees@[i]).id
            != user implies n.assignees@.contains(m.assignees@[i]) by {
            lemma_filter_keeps(m.assignees@, assignee_but(user), i);
        }
    }
}

/// Whether a caller sees all of a merge request: what it is, where it is, its
/// state and the names of its assignees.
pub open spec fn shows_mr(w: MergeRequest, m: SearchMr) -> bool {
    &&& w.id == m.id
    &&& w.iid == m.iid
    &&& w.project_id == m.project_id
    &&& w.title@ == m.title@
    &&& w.web_url@ == m.web_url@
    &&& w.state@ == m.state@
    &&& w.assignees@.len() == m.assignees@.len()
    &&& forall|i: int|
        0 <= i < m.assignees@.len() ==> (#[trigger] w.assignees@[i])@ == m.assignees@[i].username@
}

/// Every open merge request that is assigned to the synced user, and whose
/// namespace is under any of the given groups where some are given, is listed.
pub proof fn law_assigned_mr_is_listed(
    r: Reply<Vec<MergeRequest>>,
    h: Handlers,
    groups: Seq<String>,
    k: u64,
    a: int,
    g: int,
)
    requires
        is_mr_listing(r, h, groups),
        h.search@.stamps.last_partial_sync_secs > 0,
        h.search@.stamps.schema_version >= 1,
        h.search@.stamps.synced_user_id != 0,
        h.search@.mrs.contains_key(k),
        h.search@.mrs[k].state@ == "opened"@,
        0 <= a < h.search@.mrs[k].assignees@.len(),
        h.search@.mrs[k].assignees@[a].id == h.search@.stamps.synced_user_id,
        groups.len() > 0 ==> 0 <= g < groups.len() && under_group(
            namespace(h.search@.mrs[k].web_url@),
            groups[g]@,
        ),
    ensures
        r is Success,
        exists|i: int|
            0 <= i < r->Success_0@.len() && shows_mr(
                #[trigger] r->Success_0@[i],
                h.search@.mrs[k],
            ),
{
    let c = h.search@;
    let m = c.mrs[k];
    let p = open_and_assigned_to(c.stamps.synced_user_id);
    let mine = values_where(rows_of(c.mrs), p);
    let kept = mine.filter(mr_in_groups(groups));
    assert(p(k, m));
    crate::db::lemma_listed_where(c.mrs, p, m);
    let n = choose|n: int| 0 <= n < mine.len() && mine[n] == &m;
    assert(mr_in_groups(groups)(mine[n]));
    lemma_filter_keeps(mine, mr_in_groups(groups), n);
    crate::order::lemma_sorted_contains(kept, &m);
    let list = assigned_mrs(c, groups);
    let i = choose|i: int| 0 <= i < list.len() && list[i] == &m;
    assert(crate::handlers::search::is_wire_mr(r->Success_0@[i], *list[i]));
    assert(shows_mr(r->Success_0@[i], m));
}

/// Every merge request that is listed is a cached one that is open, assigned to
/// the synced user, and under one of the given groups where some are given; the
/// most recently updated come first.
pub proof fn law_listed_mr_is_assigned(
    r: Reply<Vec<MergeRequest>>,
    h: Handlers,
    groups: Seq<String>,
    i: int,
    j: int,
)
    requires
        is_mr_listing(r, h, groups),
        r is Success,
        0 <= i < r->Success_0@.len(),
    ensures
        h.search@.stamps.last_partial_sync_secs > 0,
        exists|k: u64| #[trigger]
            h.search@.mrs.contains_key(k) && ({
                let m = h.search@.mrs[k];
                &&& shows_mr(r->Success_0@[i], m)
                &&& m.state@ == "opened"@
                &&& exists|a: int|
                    0 <= a < m.assignees@.len() && (#[trigger] m.assignees@[a]).id
                        == h.search@.stamps.synced_user_id
                &&& groups.len() > 0 ==> exists|g: int|
                    0 <= g < groups.len() && under_group(
                        namespace(m.web_url@),
                        (#[trigger] groups[g])@,
                    )
            }),
        i < j < r->Success_0@.len() ==> assigned_mrs(h.search@, groups)[i].updated_at_secs
            >= assigned_mrs(h.search@, groups)[j].updated_at_secs,
{
    let c = h.search@;
    let p = open_and_assigned_to(c.stamps.synced_user_id);
    let mine = values_where(rows_of(c.mrs), p);
    let kept = mine.filter(mr_in_groups(groups));
    let list = assigned_mrs(c, groups);
    let m = list[i];
    assert(crate::handlers::search::is_wire_mr(r->Success_0@[i], *m));
    crate::order::lemma_sorted_contains(kept, m);
    assert(list.contains(m));
    let n = choose|n: int| 0 <= n < kept.len() && kept[n] == m;
    lemma_filtered(mine, mr_in_groups(groups), n);
    lemma_filter_source(mine, mr_in_groups(groups), n);
    crate::db::lemma_listed_where(c.mrs, p, *m);
    assert(mine.contains(&*m));
    let k = choose|k: u64| #[trigger] c.mrs.contains_key(k) && c.mrs[k] == *m && p(k, *m);
    assert(shows_mr(r->Success_0@[i], c.mrs[k]));
    crate::order::law_sorted(kept, |t: &SearchMr| true);
    if i < j < r->Success_0@.len() {
        assert(!list[j].before(list[i]));
    }
}

proof fn lemma_filter_source<T>(s: Seq<T>, p: spec_fn(T) -> bool, i: int)
    requires
        0 <= i < s.filter(p).len(),
    ensures
        s.contains(s.filter(p)[i]),
    decreases s.len(),
{
    reveal(Seq::filter);
    if s.len() > 0 {
        let init = s.drop_last();
        let rest = init.filter(p);
        if i < rest.len() {
            lemma_filter_source(init, p, i);
            let j = choose|j: int| 0 <= j < init.len() && init[j] == rest[i];
            assert(s[j] == rest[i]);
        } else {
            assert(s[s.len() - 1] == s.filter(p)[i]);
        }
    }
}

/// What a listing says while nothing is cached: nothing yet with a session, and
/// why there is none without one.
pub proof fn law_cold_listings(
    issues: Reply<Vec<Issue>>,
    mrs: Reply<Vec<MergeRequest>>,
    h: Handlers,
    groups: Seq<String>,
)
    requires
        is_issue_listing(issues, h, groups),
        is_mr_listing(mrs, h, groups),
    ensures
        h.cache@ is Some ==> issues is Success,
        h.cache@ is None && h.session is Connected ==> issues is Success
            && issues->Success_0@.len() == 0,
        h.cache@ is None && h.session is Dormant ==> issues is NotAuthenticated,
        h.search@.stamps.last_partial_sync_secs == 0 && h.session is Connected ==> mrs is Success
            && mrs->Success_0@.len() == 0,
        h.search@.stamps.last_partial_sync_secs == 0 && h.session is Dormant ==> mrs
            is NotAuthenticated,
        (h.search@.stamps.schema_version < 1 || h.search@.stamps.synced_user_id == 0)
            && h.session is Connected ==> mrs is Success && mrs->Success_0@.len() == 0,
        (h.search@.stamps.schema_version < 1 || h.search@.stamps.synced_user_id == 0)
            && h.session is Dormant ==> mrs is NotAuthenticated,
        h.cache@ is None && h.session is Dormant ==> issues.is_dormant(h.session->Dormant_0),
{
}

proof fn lemma_added_from(out: Seq<Issue>, more: Seq<Issue>, i: int)
    requires
        0 <= i < added(out, more).len(),
    ensures
        out.contains(added(out, more)[i]) || more.contains(added(out, more)[i]),
    decreases more.len(),
{
    if more.len() > 0 {
        let init = more.drop_last();
        let rest = added(out, init);
        if i < rest.len() {
            lemma_added_from(out, init, i);
            if init.contains(rest[i]) {
                let j = choose|j: int| 0 <= j < init.len() && init[j] == rest[i];
                assert(more[j] == rest[i]);
            }
        } else {
            assert(more[more.len() - 1] == added(out, more)[i]);
        }
    } else {
        assert(out[i] == added(out, more)[i]);
    }
}

proof fn lemma_grouped_from(issues: Seq<Issue>, groups: Seq<String>, i: int)
    requires
        0 <= i < issues_in_groups(issues, groups).len(),
    ensures
        issues.contains(issues_in_groups(issues, groups)[i]),
    decreases groups.len(),
{
    let init = groups.drop_last();
    let out = issues_in_groups(issues, init);
    let p = of_group(groups.last()@);
    let more = issues.filter(p);
    let x = issues_in_groups(issues, groups)[i];
    lemma_added_from(out, more, i);
    if out.contains(x) {
        let j = choose|j: int| 0 <= j < out.len() && out[j] == x;
        lemma_grouped_from(issues, init, j);
    } else {
        let j = choose|j: int| 0 <= j < more.len() && more[j] == x;
        lemma_filter_source(issues, p, j);
    }
}

/// The assigned issues are listed as they are cached: all of them where no group
/// is given, and otherwise each whose namespace is under any of the given groups,
/// once, and none else.
pub proof fn law_assigned_issues_are_listed(
    r: Reply<Vec<Issue>>,
    h: Handlers,
    groups: Seq<String>,
    i: int,
    g: int,
)
    requires
        is_issue_listing(r, h, groups),
        h.cache@ is Some,
    ensures
        r is Success,
        groups.len() == 0 ==> r->Success_0@ == h.cache@->0,
        groups.len() > 0 && 0 <= i < h.cache@->0.len() && 0 <= g < groups.len() && under_group(
            namespace(h.cache@->0[i].web_url@),
            groups[g]@,
        ) ==> exists|j: int|
            0 <= j < r->Success_0@.len() && (#[trigger] r->Success_0@[j]).project_id
                == h.cache@->0[i].project_id && r->Success_0@[j].iid == h.cache@->0[i].iid,
        groups.len() > 0 && 0 <= i < r->Success_0@.len() ==> {
            &&& h.cache@->0.contains(r->Success_0@[i])
            &&& exists|x: int|
                0 <= x < groups.len() && under_group(
                    namespace(r->Success_0@[i].web_url@),
                    (#[trigger] groups[x])@,
                )
        },
        groups.len() > 0 && 0 <= i < g < r->Success_0@.len() ==> !(r->Success_0@[i].project_id
            == r->Success_0@[g].project_id && r->Success_0@[i].iid == r->Success_0@[g].iid),
{
    let all = h.cache@->0;
    if groups.len() > 0 {
        let list = issues_in_groups(all, groups);
        law_group_listing(all, groups);
        if 0 <= i < all.len() && 0 <= g < groups.len() && under_group(
            namespace(all[i].web_url@),
            groups[g]@,
        ) {
            assert(under_any(namespace(all[i].web_url@), groups));
            law_group_listing_is_complete(all, groups, i);
        }
        if 0 <= i < list.len() {
            lemma_grouped_from(all, groups, i);
            assert(under_any(namespace(list[i].web_url@), groups));
        }
    }
}

/// Every time entry that is still queued shows in the history at once, as queued,
/// with what the caller gave; every timelog of the last days shows as logged, with
/// what GitLab gave; and nothing else shows.
pub proof fn law_history_is_complete(
    events: Seq<HistoryEvent>,
    h: Handlers,
    start: u64,
    k: u64,
    i: int,
)
    requires
        is_history(events, h, start),
    ensures
        h.queue@.tasks.contains_key(k) && h.queue@.tasks[k].op is PostTime ==> exists|n: int|
            0 <= n < events.len() && ({
                let e = #[trigger] events[n];
                let t = h.queue@.tasks[k];
                &&& e.source@ == "queued"@
                &&& e.project_id == t.project_id
                &&& e.iid == t.iid
                &&& e.kind is issue <==> t.kind is Issue
                &&& e.duration@ == t.op->duration@
                &&& t.op->summary is Some ==> e.summary@ == t.op->summary->0@
                &&& t.op->summary is None ==> e.summary@.len() == 0
                &&& e.timestamp == t.queued_at_secs as i64
            }),
        h.history@.contains_key(k) && h.history@[k].spent_at_secs >= start ==> exists|n: int|
            0 <= n < events.len() && ({
                let e = #[trigger] events[n];
                let t = h.history@[k];
                &&& e.source@ == "gitlab"@
                &&& e.project_id == t.project_id
                &&& e.iid == t.iid
                &&& e.kind is issue <==> t.kind is Issue
                &&& e.title@ == t.title@
                &&& e.web_url@ == t.web_url@
                &&& e.duration@ == t.duration@
                &&& e.summary@ == t.summary@
                &&& e.timestamp == t.spent_at_secs as i64
            }),
        0 <= i < events.len() ==> (events[i].source@ == "queued"@ && exists|n: u64| #[trigger]
            h.queue@.tasks.contains_key(n) && h.queue@.tasks[n].op is PostTime
                && events[i].project_id == h.queue@.tasks[n].project_id && events[i].iid
                == h.queue@.tasks[n].iid) || (events[i].source@ == "gitlab"@ && exists|n: u64|
         #[trigger]
            h.history@.contains_key(n) && h.history@[n].spent_at_secs >= start
                && events[i].project_id == h.history@[n].project_id && events[i].iid
                == h.history@[n].iid && events[i].timestamp == h.history@[n].spent_at_secs as i64),
{
    let queued = sorted(pendings(rows_of(h.queue@.tasks)));
    let p = spent_since(start);
    let found = values_where(rows_of(h.history@), p);
    let logged = sorted(found);
    crate::queue::law_queued_time_is_listed(h.queue@.tasks, k, i, i);
    if h.queue@.tasks.contains_key(k) && h.queue@.tasks[k].op is PostTime {
        let t = h.queue@.tasks[k];
        let n = choose|n: int|
            0 <= n < queued.len() && ({
                let p = #[trigger] queued[n];
                p.project_id == t.project_id && p.iid == t.iid && p.kind == t.kind && p.duration
                    == t.op->duration && p.summary == t.op->summary && p.queued_at_secs
                    == t.queued_at_secs
            });
        assert(shows_queued(events[n], h, queued[n]));
    }
    if h.history@.contains_key(k) && h.history@[k].spent_at_secs >= start {
        let t = h.history@[k];
        assert(p(k, t));
        crate::db::lemma_listed_where(h.history@, p, t);
        crate::order::lemma_sorted_contains(found, &t);
        let n = choose|n: int| 0 <= n < logged.len() && logged[n] == &t;
        assert(shows_logged(events[queued.len() + n], *logged[n]));
    }
    if 0 <= i < queued.len() {
        assert(shows_queued(events[i], h, queued[i]));
    }
    if queued.len() <= i < events.len() {
        let t = logged[i - queued.len()];
        assert(shows_logged(events[i], *t));
        crate::order::lemma_sorted_contains(found, t);
        assert(logged.contains(t));
        crate::db::lemma_listed_where(h.history@, p, *t);
        assert(found.contains(&*t));
    }
}

/// The history goes back so many days, a week where none are given, and never
/// before the epoch; a number of days that is not positive reaches back to now.
pub proof fn law_history_reaches_back(days: Option<i64>, now: u64)
    ensures
        days is None && now >= 604_800 ==> history_start(days, now) == now - 604_800,
        (days is Some && days->0 > 0 && now >= days->0 * 86_400) ==> history_start(days, now) == now
            - days->0 * 86_400,
        days is Some && days->0 <= 0 ==> history_start(days, now) == now,
        history_start(days, now) <= now,
        days is None && now < 604_800 ==> history_start(days, now) == 0,
        (days is Some && days->0 > 0 && now < days->0 * 86_400) ==> history_start(days, now) == 0,
{
}

/// Every dead letter is shown, with its target, what it was to do and why it
/// failed; nothing else is, and the most recent failures come first.
pub proof fn law_every_dead_letter_is_shown(
    list: Seq<FailedTask>,
    q: QueueState,
    k: u64,
    i: int,
    j: int,
)
    requires
        is_failure_list(list, q),
    ensures
        q.failures.contains_key(k) ==> exists|n: int|
            0 <= n < list.len() && ({
                let t = #[trigger] list[n];
                let f = q.failures[k];
                &&& t.id == k as i64
                &&& t.project_id == f.project_id
                &&& t.iid == f.iid
                &&& t.kind is issue <==> f.kind is Issue
                &&& t.error@ == f.error@
                &&& t.queued_at == f.queued_at_secs as i64
                &&& t.failed_at == f.failed_at_secs as i64
                &&& f.op is PostTime ==> t.op@ == "PostTime"@
                &&& f.op is Close ==> t.op@ == "Close"@
                &&& f.op is AssignSelf ==> t.op@ == "AssignSelf"@
                &&& f.op is UnassignSelf ==> t.op@ == "UnassignSelf"@
                &&& f.op is PostTime && (f.op->summary is None || f.op->summary->0@.len() == 0)
                    ==> t.detail@ == f.op->duration@
                &&& f.op is PostTime && f.op->summary is Some && f.op->summary->0@.len() > 0
                    ==> t.detail@ == f.op->duration@ + " \u{2013} "@ + f.op->summary->0@
                &&& !(f.op is PostTime) ==> t.detail@.len() == 0
            }),
        0 <= i < list.len() ==> exists|n: u64| #[trigger]
            q.failures.contains_key(n) && list[i].id == n as i64 && list[i].failed_at
                == q.failures[n].failed_at_secs as i64,
        0 <= i < j < list.len() ==> exists|a: u64, b: u64|
            #![trigger q.failures.contains_key(a), q.failures.contains_key(b)]
            q.failures.contains_key(a) && q.failures.contains_key(b) && list[i].id == a as i64
                && list[j].id == b as i64 && q.failures[a].failed_at_secs
                >= q.failures[b].failed_at_secs,
{
    let l = sorted(letters(rows_of(q.failures)));
    crate::queue::law_dead_letters_are_listed(q.failures, k, i, j);
    crate::queue::law_dead_letters_are_listed(q.failures, k, j, j);
    if q.failures.contains_key(k) {
        let n = choose|n: int|
            0 <= n < l.len() && (#[trigger] l[n]).id == k && *l[n].failure == q.failures[k];
        assert(is_failed_task(list[n], l[n]));
    }
    if 0 <= i < list.len() {
        assert(is_failed_task(list[i], l[i]));
    }
    if 0 <= i < j < list.len() {
        assert(is_failed_task(list[i], l[i]));
        assert(is_failed_task(list[j], l[j]));
    }
}

/// Whether a clear covers a part: it names the part, or nothing at all.
pub open spec fn covers_part(scopes: Seq<String>, part: Seq<char>) -> bool {
    scopes.len() == 0 || exists|i: int| 0 <= i < scopes.len() && (#[trigger] scopes[i])@ == part
}

/// A clear that covers the issues drops all issues and boards and makes the quick
/// refresh due; one that does not changes nothing of them.
pub proof fn law_clearing_issues(before: Handlers, after: Handlers, scopes: Seq<String>)
    requires
        issues_cleared(before, after, scopes),
    ensures
        covers_part(scopes, "issues"@) ==> after.cache@ is None
            && after.refresh_meta@.last_quick_sync_secs == 0 && forall|k: u64|
            !#[trigger] after.boards@.contains_key(k),
        !covers_part(scopes, "issues"@) ==> after.cache == before.cache && after.boards
            == before.boards && after.refresh_meta == before.refresh_meta,
        after.history == before.history,
        after.search == before.search,
        after.queue == before.queue,
        after.session == before.session,
        after.refresh_meta@.last_slow_sync_secs == before.refresh_meta@.last_slow_sync_secs,
        after.refresh_meta@.backfilled_retention_hours
            == before.refresh_meta@.backfilled_retention_hours,
{
}

/// A clear drops from the history exactly the bands that it names: the quick one
/// is the time since the start of the quick window, the slow one the time from
/// the start of the slow window to there, the stale one everything before. Without
/// a scope everything goes; what stays is unchanged.
pub proof fn law_clearing_history(h: Handlers, scopes: Seq<String>, now: u64, k: u64)
    requires
        h.config.spans_fit(),
    ensures
        ({
            let after = history_cleared(h, scopes, now);
            let quick = h.config.refresh.quick.window_hours * 3600;
            let slow = h.config.refresh.slow.window_hours * 3600;
            let spent = h.history@[k].spent_at_secs;
            let in_quick = spent + quick >= now && spent < u64::MAX;
            let in_slow = spent + slow >= now && spent + quick < now;
            let in_stale = spent + slow < now;
            &&& scopes.len() == 0 ==> !after.contains_key(k)
            &&& after.contains_key(k) ==> h.history@.contains_key(k) && after[k] == h.history@[k]
            &&& scopes.len() > 0 && h.history@.contains_key(k) ==> (after.contains_key(k) <==> !(
            covers_part(scopes, "quick"@) && in_quick || covers_part(scopes, "slow"@) && in_slow
                || covers_part(scopes, "stale"@) && in_stale))
        }),
{
    let quick = since(now, (h.config.refresh.quick.window_hours * 3600) as u64);
    let slow = since(now, (h.config.refresh.slow.window_hours * 3600) as u64);
    assert(clears(scopes, "quick"@) == covers_part(scopes, "quick"@));
    assert(clears(scopes, "slow"@) == covers_part(scopes, "slow"@));
    assert(clears(scopes, "stale"@) == covers_part(scopes, "stale"@));
}

/// Clearing any band of the history makes the slow refresh due, clearing the stale
/// one the backfill as well, and clearing everything all of them; the time of the
/// last quick refresh stays unless everything is cleared.
pub proof fn law_cleared_bands_are_fetched_again(s: RefreshStamps, scopes: Seq<String>)
    ensures
        ({
            let after = stamps_cleared(s, scopes);
            let some = covers_part(scopes, "quick"@) || covers_part(scopes, "slow"@)
                || covers_part(scopes, "stale"@);
            &&& scopes.len() == 0 ==> after.last_quick_sync_secs == 0 && after.last_slow_sync_secs
                == 0 && after.backfilled_retention_hours == 0 && after.schema_version == 0
            &&& scopes.len() > 0 ==> after.schema_version == s.schema_version
            &&& scopes.len() > 0 && !covers_part(scopes, "stale"@)
                ==> after.backfilled_retention_hours == s.backfilled_retention_hours
            &&& some ==> after.last_slow_sync_secs == 0
            &&& covers_part(scopes, "stale"@) ==> after.backfilled_retention_hours == 0
            &&& scopes.len() > 0 ==> after.last_quick_sync_secs == s.last_quick_sync_secs
            &&& !some ==> after == s
        }),
{
    assert(clears(scopes, "quick"@) == covers_part(scopes, "quick"@));
    assert(clears(scopes, "slow"@) == covers_part(scopes, "slow"@));
    assert(clears(scopes, "stale"@) == covers_part(scopes, "stale"@));
}

/// After a clear nothing is fetched without a session, everything where everything
/// was cleared, and otherwise what was cleared: the search cache, and the history
/// over the widest window that covers the cleared bands.
pub proof fn law_refill_covers_the_clear(s: ConnState, scopes: Seq<String>)
    ensures
        s is Dormant ==> refill_of(s, scopes) is Nothing,
        s is Connected && scopes.len() == 0 ==> refill_of(s, scopes) == (Refill::WarmUp {
            client: s->Connected_0.client,
        }),
        s is Connected && scopes.len() > 0 ==> refill_of(s, scopes) is Parts && ({
            let r = refill_of(s, scopes);
            &&& r->Parts_client == s->Connected_0.client
            &&& r->search == covers_part(scopes, "search"@)
            &&& covers_part(scopes, "stale"@) ==> r->window == Some(RefillWindow::Retention)
            &&& covers_part(scopes, "slow"@) ==> r->window == Some(RefillWindow::Retention)
                || r->window == Some(RefillWindow::Slow)
            &&& covers_part(scopes, "quick"@) ==> r->window is Some
            &&& r->window == Some(RefillWindow::Retention) ==> covers_part(scopes, "stale"@)
            &&& r->window == Some(RefillWindow::Slow) ==> covers_part(scopes, "slow"@)
            &&& r->window == Some(RefillWindow::Quick) ==> covers_part(scopes, "quick"@)
        }),
{
    assert(clears(scopes, "search"@) == covers_part(scopes, "search"@));
    assert(clears(scopes, "quick"@) == covers_part(scopes, "quick"@));
    assert(clears(scopes, "slow"@) == covers_part(scopes, "slow"@));
    assert(clears(scopes, "stale"@) == covers_part(scopes, "stale"@));
}

/// A dead letter that is retried is queued once more just as it was, with the time
/// at which it was first queued, and stays until it is deleted; one of an unknown
/// id changes nothing.
pub proof fn law_retried_letter_is_queued_as_it_was(
    before: Handlers,
    after: Handlers,
    r: LetterStep,
    id: i64,
)
    requires
        failure_retried(before, after, r, id),
    ensures
        ({
            let k = id as u64;
            let f = before.queue@.failures[k];
            let n = before.queue@.next_id;
            let t = after.queue@.tasks[n];
            &&& before.queue@.failures.contains_key(k) ==> {
                &&& after.queue@.tasks.contains_key(n)
                &&& t.project_id == f.project_id
                &&& t.iid == f.iid
                &&& t.kind == f.kind
                &&& t.op == f.op
                &&& t.queued_at_secs == f.queued_at_secs
                &&& after.queue@.inbox == before.queue@.inbox.push(n)
                &&& r == LetterStep::Delete(Letters::One(id))
            }
            &&& !before.queue@.failures.contains_key(k) ==> after.queue@ == before.queue@ && r
                is Answered && r->Answered_0 is GitlabError
            &&& after.queue@.failures == before.queue@.failures
            &&& after.session == before.session
        }),
{
}

/// Deleting one dead letter leaves every other, deleting all leaves none, and the
/// tasks stay either way.
pub proof fn law_deleted_letters_are_gone(q: QueueState, id: i64, k: u64)
    ensures
        !letters_without(q, Letters::One(id)).failures.contains_key(id as u64),
        k != id as u64 && q.failures.contains_key(k) ==> letters_without(
            q,
            Letters::One(id),
        ).failures.contains_key(k) && letters_without(q, Letters::One(id)).failures[k]
            == q.failures[k],
        !letters_without(q, Letters::All).failures.contains_key(k),
        letters_without(q, Letters::One(id)).tasks == q.tasks,
        letters_without(q, Letters::All).tasks == q.tasks,
        letters_without(q, Letters::One(id)).inbox == q.inbox,
        letters_without(q, Letters::All).inbox == q.inbox,
{
}

/// A caller is told the host and the user of the session, or why there is none:
/// the reason, and where there is one the host and the cause.
pub proof fn law_who_am_i(r: Reply<(String, i64)>, s: ConnState)
    requires
        is_user(r, s),
    ensures
        s matches ConnState::Connected(c) ==> r matches Reply::Success(u) && u.0@ == c.host@ && u.1
            == c.user_id,
        s is Dormant ==> r is NotAuthenticated,
{
}

proof fn lemma_last_is_one(issues: Seq<Issue>, project_id: i64, iid: i64)
    ensures
        match last_issue(issues, project_id, iid) {
            Some(x) => issues.contains(x) && x.project_id == project_id && x.iid == iid,
            None => forall|i: int|
                0 <= i < issues.len() ==> !((#[trigger] issues[i]).project_id == project_id
                    && issues[i].iid == iid),
        },
    decreases issues.len(),
{
    if issues.len() > 0 {
        let init = issues.drop_last();
        lemma_last_is_one(init, project_id, iid);
        assert(issues[issues.len() - 1] == issues.last());
        if !(issues.last().project_id == project_id && issues.last().iid == iid) {
            match last_issue(init, project_id, iid) {
                Some(x) => {
                    let i = choose|i: int| 0 <= i < init.len() && init[i] == x;
                    assert(issues[i] == x);
                },
                None => {
                    assert forall|i: int| 0 <= i < issues.len() implies !((
                    #[trigger] issues[i]).project_id == project_id && issues[i].iid == iid) by {
                        if i < init.len() {
                            assert(init[i] == issues[i]);
                        }
                    }
                },
            }
        }
    }
}

/// A queued entry for an issue shows the title and the address of that issue,
/// where the cache holds one of that project and number.
pub proof fn law_queued_entry_names_its_issue(
    e: HistoryEvent,
    h: Handlers,
    p: PendingPostTime,
    i: int,
)
    requires
        shows_queued(e, h, p),
        p.kind is Issue,
        h.cache@ is Some,
        0 <= i < h.cache@->0.len(),
        h.cache@->0[i].project_id == p.project_id,
        h.cache@->0[i].iid == p.iid,
    ensures
        exists|n: int|
            0 <= n < h.cache@->0.len() && (#[trigger] h.cache@->0[n]).project_id == p.project_id
                && h.cache@->0[n].iid == p.iid && e.title@ == h.cache@->0[n].title@ && e.web_url@
                == h.cache@->0[n].web_url@,
{
    let issues = h.cache@->0;
    lemma_last_is_one(issues, p.project_id, p.iid);
    let x = last_issue(issues, p.project_id, p.iid)->0;
    let n = choose|n: int| 0 <= n < issues.len() && issues[n] == x;
    assert(h.cache@->0[n] == x);
}

/// A text that cannot be a duration is refused, with the text, and changes nothing.
pub proof fn law_impossible_durations_are_refused(
    before: Handlers,
    after: Handlers,
    r: WriteStep,
    project_id: i64,
    iid: i64,
    kind: IssuableKind,
    duration: String,
    summary: Option<String>,
    now: u64,
)
    requires
        post_time_started(before, after, r, project_id, iid, kind, duration, summary, now),
        project_id > 0,
        iid > 0,
        !duration_like(duration@),
    ensures
        after == before,
        r is Answered && r->Answered_0 is GitlabError && r->Answered_0->GitlabError_0@
            == "invalid duration: "@ + debug_quoted(duration@),
{
}

/// During an outage every write that is in order is accepted.
pub proof fn law_outages_defer_every_write(
    before: Handlers,
    after: Handlers,
    r: WriteStep,
    project_id: i64,
    iid: i64,
    kind: IssuableKind,
    duration: String,
    summary: Option<String>,
    now: u64,
)
    requires
        before.session is Dormant,
        before.session->Dormant_0 is Unreachable,
        project_id > 0,
        iid > 0,
        post_time_started(before, after, r, project_id, iid, kind, duration, summary, now)
            && duration_like(duration@) || close_started(
            before,
            after,
            r,
            project_id,
            iid,
            kind,
            now,
        ) || assign_started(before, after, r, project_id, iid, kind, now) || unassign_started(
            before,
            after,
            r,
            project_id,
            iid,
            kind,
            now,
        ),
    ensures
        r is Answered && r->Answered_0 is Success,
        after.queue@.tasks.contains_key(before.queue@.next_id),
        after.queue@.next_id == (before.queue@.next_id + 1) as u64,
{
}

/// An issue whose close or unassignment took effect, or was queued, is gone from
/// the assigned issues at once, and it alone.
pub proof fn law_finished_issue_leaves_the_list(
    before: Handlers,
    after: Handlers,
    started: WriteStep,
    ended: Reply<()>,
    project_id: i64,
    iid: i64,
    outcome: Result<(), Error>,
    now: u64,
    i: int,
)
    requires
        (close_started(before, after, started, project_id, iid, IssuableKind::issue, now)
            || unassign_started(before, after, started, project_id, iid, IssuableKind::issue, now))
            && started.is_success() || (close_ended(
            before,
            after,
            ended,
            Issuable::Issue,
            project_id,
            iid,
            outcome,
            now,
        ) || unassign_ended(
            before,
            after,
            ended,
            Issuable::Issue,
            project_id,
            iid,
            outcome,
            now,
        )) && ended is Success,
    ensures
        after.cache@ is Some && 0 <= i < after.cache@->0.len() ==> !(after.cache@->0[i].project_id
            == project_id && after.cache@->0[i].iid == iid),
        before.cache@ is Some && 0 <= i < before.cache@->0.len() && !(before.cache@->0[i].project_id
            == project_id && before.cache@->0[i].iid == iid) ==> after.cache@ is Some
            && after.cache@->0.contains(before.cache@->0[i]),
{
    let mid = Handlers { queue: after.queue, ..before };
    if close_reflected(mid, after, Issuable::Issue, project_id, iid) || unassign_reflected(
        mid,
        after,
        Issuable::Issue,
        project_id,
        iid,
    ) {
        law_finished_issue_is_not_listed(mid, after, project_id, iid, i);
    } else {
        law_finished_issue_is_not_listed(before, after, project_id, iid, i);
    }
}

/// An assignment of oneself changes no cache: what is assigned shows with the next
/// refresh.
pub proof fn law_assigning_changes_no_cache(
    before: Handlers,
    after: Handlers,
    started: WriteStep,
    ended: Reply<()>,
    project_id: i64,
    iid: i64,
    kind: IssuableKind,
    outcome: Result<(), Error>,
    now: u64,
)
    requires
        assign_started(before, after, started, project_id, iid, kind, now) || assign_ended(
            before,
            after,
            ended,
            kind_meant(kind),
            project_id,
            iid,
            outcome,
            now,
        ),
    ensures
        after.cache == before.cache,
        after.search == before.search,
        after.history == before.history,
        after.boards == before.boards,
{
}

/// While a sync runs, and where none ever ran for an unassignment, a merge request
/// in the search cache is left to the next sync.
pub proof fn law_running_sync_is_left_alone(
    before: Handlers,
    after: Handlers,
    project_id: i64,
    iid: i64,
)
    ensures
        before.search.syncing() && (close_reflected(
            before,
            after,
            Issuable::MergeRequest,
            project_id,
            iid,
        ) || unassign_reflected(before, after, Issuable::MergeRequest, project_id, iid))
            ==> after.search@ == before.search@ && after.search.syncing(),
        before.search@.stamps.synced_user_id == 0 && unassign_reflected(
            before,
            after,
            Issuable::MergeRequest,
            project_id,
            iid,
        ) ==> after.search@ == before.search@,
{
}

/// A dead letter that is dismissed is to be deleted, where there is one of that id;
/// otherwise the caller is told that there is none.
pub proof fn law_dismissing_a_letter(h: Handlers, r: LetterStep, id: i64)
    requires
        failure_dismissed(h, r, id),
    ensures
        h.queue@.failures.contains_key(id as u64) ==> r == LetterStep::Delete(Letters::One(id)),
        !h.queue@.failures.contains_key(id as u64) ==> r is Answered && r->Answered_0 is GitlabError
            && r->Answered_0->GitlabError_0@ == "no failed task with id "@ + int_text(id as int),
{
}

proof fn lemma_last_mr_is_one(mrs: Seq<&SearchMr>, project_id: i64, iid: i64)
    ensures
        match last_mr(mrs, project_id, iid) {
            Some(x) => mrs.contains(x) && x.project_id == project_id && x.iid == iid,
            None => forall|i: int|
                0 <= i < mrs.len() ==> !((#[trigger] mrs[i]).project_id == project_id && mrs[i].iid
                    == iid),
        },
    decreases mrs.len(),
{
    if mrs.len() > 0 {
        let init = mrs.drop_last();
        lemma_last_mr_is_one(init, project_id, iid);
        assert(mrs[mrs.len() - 1] == mrs.last());
        if !(mrs.last().project_id == project_id && mrs.last().iid == iid) {
            match last_mr(init, project_id, iid) {
                Some(x) => {
                    let i = choose|i: int| 0 <= i < init.len() && init[i] == x;
                    assert(mrs[i] == x);
                },
                None => {
                    assert forall|i: int| 0 <= i < mrs.len() implies !((
                    #[trigger] mrs[i]).project_id == project_id && mrs[i].iid == iid) by {
                        if i < init.len() {
                            assert(init[i] == mrs[i]);
                        }
                    }
                },
            }
        }
    }
}

/// A queued entry for a merge request shows the title and the address of that merge
/// request, where the search cache holds one of that project and number; an entry
/// whose target no cache holds shows neither.
pub proof fn law_queued_entry_names_its_mr(
    e: HistoryEvent,
    h: Handlers,
    p: PendingPostTime,
    k: u64,
)
    requires
        shows_queued(e, h, p),
        p.kind is MergeRequest,
    ensures
        h.search@.mrs.contains_key(k) && h.search@.mrs[k].project_id == p.project_id
            && h.search@.mrs[k].iid == p.iid ==> exists|n: u64| #[trigger]
            h.search@.mrs.contains_key(n) && h.search@.mrs[n].project_id == p.project_id
                && h.search@.mrs[n].iid == p.iid && e.title@ == h.search@.mrs[n].title@
                && e.web_url@ == h.search@.mrs[n].web_url@,
        (forall|n: u64| #[trigger]
            h.search@.mrs.contains_key(n) ==> !(h.search@.mrs[n].project_id == p.project_id
                && h.search@.mrs[n].iid == p.iid)) ==> e.title@.len() == 0 && e.web_url@.len() == 0,
{
    let all = values_where(rows_of(h.search@.mrs), everything());
    lemma_last_mr_is_one(all, p.project_id, p.iid);
    if h.search@.mrs.contains_key(k) {
        crate::db::lemma_listed_where(h.search@.mrs, everything(), h.search@.mrs[k]);
        let any = everything::<SearchMr>();
        assert(any(k, h.search@.mrs[k]));
        let i = choose|i: int| 0 <= i < all.len() && all[i] == &h.search@.mrs[k];
        assert(all[i].iid == h.search@.mrs[k].iid);
    }
    match last_mr(all, p.project_id, p.iid) {
        Some(x) => {
            crate::db::lemma_listed_where(h.search@.mrs, everything(), *x);
            assert(all.contains(&*x));
            let n = choose|n: u64| #[trigger]
                h.search@.mrs.contains_key(n) && h.search@.mrs[n] == *x && everything()(n, *x);
            assert(h.search@.mrs.contains_key(n));
        },
        None => {},
    }
}

/// A queued entry for an issue that is not cached shows no title and no address.
pub proof fn law_queued_entry_without_a_target(e: HistoryEvent, h: Handlers, p: PendingPostTime)
    requires
        shows_queued(e, h, p),
        p.kind is Issue,
        h.cache@ is None || forall|i: int|
            0 <= i < h.cache@->0.len() ==> !((#[trigger] h.cache@->0[i]).project_id == p.project_id
                && h.cache@->0[i].iid == p.iid),
    ensures
        e.title@.len() == 0,
        e.web_url@.len() == 0,
{
    let issues = cached(h.cache@);
    lemma_last_is_one(issues, p.project_id, p.iid);
    if last_issue(issues, p.project_id, p.iid) is Some {
        let x = last_issue(issues, p.project_id, p.iid)->0;
        let n = choose|n: int| 0 <= n < issues.len() && issues[n] == x;
        assert(h.cache@->0[n] == x);
    }
}

} // verus!
