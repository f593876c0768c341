//! Retry queue for outgoing writes.
//!
//! Tasks are stored before they are processed, so that they survive a restart.
//! The worker takes them one by one: it waits while there is no session, retries
//! network failures with exponential backoff for a configured lifetime, and
//! moves what GitLab rejects or what timed out to the dead letters.

use vstd::prelude::*;
use vstd::string::*;

use crate::config::{backoff_step, next_backoff, QueueConfig};
use crate::db::{
    agree_at, lemma_row_in_map, loaded, rows_map, rows_of, KvStore,
};
use crate::error::{error_text, Error};
use crate::gitlab::Issuable;
use crate::order::{insert, sort, sorted, Ranked};
use crate::text::{decimal, joined, push_u64};
use crate::time::{seconds, Duration};

verus! {

// ── tasks ────────────────────────────────────────────────────────────────────

#[derive(Debug)]
pub enum QueueOp {
    PostTime {
        duration: String,
        summary: Option<String>,
        /// Global id of the issuable, where the caches knew it. With it the time
        /// can be submitted for when it was queued.
        issuable_id: Option<i64>,
    },
    Close,
    AssignSelf,
    UnassignSelf,
}

fn clone_text(s: &Option<String>) -> (r: Option<String>)
    ensures
        r == *s,
{
    match s {
        Some(t) => Some(t.clone()),
        None => None,
    }
}

impl Clone for QueueOp {
    fn clone(&self) -> (r: Self)
        ensures
            r == *self,
    {
        match self {
            QueueOp::PostTime { duration, summary, issuable_id } => QueueOp::PostTime {
                duration: duration.clone(),
                summary: clone_text(summary),
                issuable_id: *issuable_id,
            },
            QueueOp::Close => QueueOp::Close,
            QueueOp::AssignSelf => QueueOp::AssignSelf,
            QueueOp::UnassignSelf => QueueOp::UnassignSelf,
        }
    }
}

/// The name of an operation.
pub open spec fn op_name(op: QueueOp) -> Seq<char> {
    match op {
        QueueOp::PostTime { .. } => "PostTime"@,
        QueueOp::Close => "Close"@,
        QueueOp::AssignSelf => "AssignSelf"@,
        QueueOp::UnassignSelf => "UnassignSelf"@,
    }
}

/// What is shown of an operation beside its name.
pub open spec fn op_detail(op: QueueOp) -> Seq<char> {
    match op {
        QueueOp::PostTime { duration, summary, .. } => match summary {
            Some(s) => if s@.len() > 0 {
                duration@ + " \u{2013} "@ + s@
            } else {
                duration@
            },
            None => duration@,
        },
        _ => Seq::empty(),
    }
}

impl QueueOp {
    /// The name of the operation.
    pub fn kind(&self) -> (r: &'static str)
        ensures
            r@ == op_name(*self),
    {
        match self {
            QueueOp::PostTime { .. } => "PostTime",
            QueueOp::Close => "Close",
            QueueOp::AssignSelf => "AssignSelf",
            QueueOp::UnassignSelf => "UnassignSelf",
        }
    }

    /// What is shown of the operation beside its name: the duration of a time
    /// entry, with its summary if it has one.
    pub fn detail(&self) -> (r: String)
        ensures
            r@ == op_detail(*self),
    {
        match self {
            QueueOp::PostTime { duration, summary, .. } => match summary {
                Some(s) => {
                    if s.as_str().is_empty() {
                        duration.clone()
                    } else {
                        let mut r = joined(duration.as_str(), " \u{2013} ");
                        r.append(s.as_str());
                        r
                    }
                },
                None => duration.clone(),
            },
            _ => String::new(),
        }
    }
}

#[derive(Debug)]
pub struct StoredTask {
    pub project_id: i64,
    pub iid: i64,
    pub kind: Issuable,
    pub op: QueueOp,
    /// UNIX seconds at which the task was first queued.
    pub queued_at_secs: u64,
}

/// A task that the worker gave up on.
#[derive(Debug)]
pub struct StoredFailure {
    pub project_id: i64,
    pub iid: i64,
    pub kind: Issuable,
    pub op: QueueOp,
    pub queued_at_secs: u64,
    /// UNIX seconds at which the worker gave up.
    pub failed_at_secs: u64,
    pub error: String,
}

/// A queued time entry, as the history shows it.
#[derive(Debug)]
pub struct PendingPostTime {
    pub project_id: i64,
    pub iid: i64,
    pub kind: Issuable,
    pub duration: String,
    pub summary: Option<String>,
    pub queued_at_secs: u64,
}

/// Most recently queued first.
impl Ranked for PendingPostTime {
    open spec fn before(self, other: Self) -> bool {
        self.queued_at_secs > other.queued_at_secs
    }

    fn precedes(&self, other: &Self) -> (r: bool) {
        self.queued_at_secs > other.queued_at_secs
    }

    proof fn weak_order(x: Self, y: Self, z: Self) {
    }
}

/// A dead-lettered task, as it is shown.
#[derive(Debug)]
pub struct FailedTaskView {
    pub id: u64,
    pub op_kind: &'static str,
    pub project_id: i64,
    pub iid: i64,
    pub kind: Issuable,
    pub detail: String,
    pub error: String,
    pub queued_at_secs: u64,
    pub failed_at_secs: u64,
}

/// A dead letter under its id.
#[derive(Clone, Copy)]
pub struct DeadLetter<'a> {
    pub id: u64,
    pub failure: &'a StoredFailure,
}

/// Most recent failure first.
impl<'a> Ranked for DeadLetter<'a> {
    open spec fn before(self, other: Self) -> bool {
        self.failure.failed_at_secs > other.failure.failed_at_secs
    }

    fn precedes(&self, other: &Self) -> (r: bool) {
        self.failure.failed_at_secs > other.failure.failed_at_secs
    }

    proof fn weak_order(x: Self, y: Self, z: Self) {
    }
}

/// How a task that is a time entry is shown in the history; other tasks are not.
pub open spec fn pending_of(t: StoredTask) -> Option<PendingPostTime> {
    match t.op {
        QueueOp::PostTime { duration, summary, .. } => Some(
            PendingPostTime {
                project_id: t.project_id,
                iid: t.iid,
                kind: t.kind,
                duration,
                summary,
                queued_at_secs: t.queued_at_secs,
            },
        ),
        _ => None,
    }
}

/// The time entries among `rows`, in order.
pub open spec fn pendings(rows: Seq<(u64, StoredTask)>) -> Seq<PendingPostTime>
    decreases rows.len(),
{
    if rows.len() == 0 {
        Seq::empty()
    } else {
        let rest = pendings(rows.drop_last());
        match pending_of(rows.last().1) {
            Some(p) => rest.push(p),
            None => rest,
        }
    }
}

/// The dead letters of `rows`, in order.
pub open spec fn letters<'a>(rows: Seq<(u64, StoredFailure)>) -> Seq<DeadLetter<'a>> {
    rows.map_values(|row: (u64, StoredFailure)| DeadLetter { id: row.0, failure: &row.1 })
}

/// Whether `v` shows the dead letter `l`.
pub open spec fn shows_letter(v: FailedTaskView, l: DeadLetter) -> bool {
    &&& v.id == l.id
    &&& v.op_kind@ == op_name(l.failure.op)
    &&& v.project_id == l.failure.project_id
    &&& v.iid == l.failure.iid
    &&& v.kind == l.failure.kind
    &&& v.detail@ == op_detail(l.failure.op)
    &&& v.error == l.failure.error
    &&& v.queued_at_secs == l.failure.queued_at_secs
    &&& v.failed_at_secs == l.failure.failed_at_secs
}

/// The task that a dead letter goes back to.
pub open spec fn task_again(f: StoredFailure) -> StoredTask {
    StoredTask {
        project_id: f.project_id,
        iid: f.iid,
        kind: f.kind,
        op: f.op,
        queued_at_secs: f.queued_at_secs,
    }
}

/// Whether `f` is the dead letter of `t`, given up on at `now` with `error`.
pub open spec fn is_failure_of(
    f: StoredFailure,
    t: StoredTask,
    now: u64,
    error: Seq<char>,
) -> bool {
    &&& task_again(f) == t
    &&& f.failed_at_secs == now
    &&& f.error@ == error
}

// ── the queue ────────────────────────────────────────────────────────────────

pub struct RetryQueue {
    store: KvStore<StoredTask>,
    dead_letter: KvStore<StoredFailure>,
    next_id: u64,
    inbox: Vec<u64>,
}

/// What a queue holds.
pub ghost struct QueueState {
    /// The tasks that are waiting or being worked on.
    pub tasks: Map<u64, StoredTask>,
    /// The dead letters.
    pub failures: Map<u64, StoredFailure>,
    /// The id of the next task.
    pub next_id: u64,
    /// The ids of the tasks that the worker has not taken yet, in order.
    pub inbox: Seq<u64>,
}

impl View for RetryQueue {
    type V = QueueState;

    closed spec fn view(&self) -> QueueState {
        QueueState {
            tasks: self.store@,
            failures: self.dead_letter@,
            next_id: self.next_id,
            inbox: self.inbox@,
        }
    }
}

/// The ids of `rows`, in order.
pub open spec fn ids_of<V>(rows: Seq<(u64, V)>) -> Seq<u64> {
    rows.map_values(|row: (u64, V)| row.0)
}

/// Whether every key of `m` lies below `n`.
pub open spec fn all_below<V>(m: Map<u64, V>, n: u64) -> bool {
    forall|k: u64| #[trigger] m.contains_key(k) ==> k < n
}

/// The least number above every key of both maps, if at least one.
pub open spec fn is_next_id(n: u64, a: Map<u64, StoredTask>, b: Map<u64, StoredFailure>) -> bool {
    &&& n >= 1
    &&& all_below(a, n)
    &&& all_below(b, n)
    &&& n > 1 ==> a.contains_key((n - 1) as u64) || b.contains_key((n - 1) as u64)
}

/// The largest key of a store, or zero.
fn largest_key<V>(store: &KvStore<V>) -> (r: u64)
    ensures
        forall|k: u64| #[trigger] store@.contains_key(k) ==> k <= r,
        r > 0 ==> store@.contains_key(r),
{
    let rows = store.scan();
    let ghost rows0 = rows_of(store@);
    proof {
        assert forall|k: u64| #[trigger] store@.contains_key(k) implies exists|i: int|
            0 <= i < rows0.len() && (#[trigger] rows0[i]).0 == k by {
            assert(rows_map(rows0).contains_key(k));
        }
    }
    if rows.len() == 0 {
        return 0;
    }
    let r: u64 = rows[rows.len() - 1].0;
    proof {
        lemma_row_in_map(rows0, rows0.len() - 1);
        assert forall|k: u64| #[trigger] store@.contains_key(k) implies k <= r by {
            let i = choose|i: int| 0 <= i < rows0.len() && (#[trigger] rows0[i]).0 == k;
            if i < rows0.len() - 1 {
                assert(rows0[i].0 < rows0[rows0.len() - 1].0);
            }
        }
    }
    r
}

impl RetryQueue {
    /// The tasks and dead letters as they were last saved.
    pub closed spec fn saved(&self) -> (Map<u64, StoredTask>, Map<u64, StoredFailure>) {
        (self.store.saved(), self.dead_letter.saved())
    }

    #[verifier::type_invariant]
    spec fn inv(self) -> bool {
        &&& all_below(self.store@, self.next_id)
        &&& all_below(self.dead_letter@, self.next_id)
    }

    /// A queue with what was saved. The tasks are handed to the worker in the
    /// order of their ids, and new ids start above those of both tables, so that
    /// ids stay unique across restarts.
    pub fn new(tasks: Vec<(u64, StoredTask)>, failures: Vec<(u64, StoredFailure)>) -> (r: Self)
        requires
            all_below(loaded(tasks@), u64::MAX),
            all_below(loaded(failures@), u64::MAX),
        ensures
            r@.tasks == loaded(tasks@),
            r@.failures == loaded(failures@),
            r@.inbox == ids_of(rows_of(loaded(tasks@))),
            is_next_id(r@.next_id, loaded(tasks@), loaded(failures@)),
            r.saved() == (r@.tasks, r@.failures),
    {
        let store = KvStore::load(tasks);
        let dead_letter = KvStore::load(failures);
        let queued_max: u64 = largest_key(&store);
        let dead_max: u64 = largest_key(&dead_letter);
        let max_id: u64 = if queued_max > dead_max {
            queued_max
        } else {
            dead_max
        };
        let rows = store.scan();
        let ghost rows0 = rows_of(store@);
        let mut inbox: Vec<u64> = Vec::new();
        let mut i: usize = 0;
        while i < rows.len()
            invariant
                i <= rows@.len() == rows0.len(),
                forall|j: int|
                    0 <= j < rows@.len() ==> (#[trigger] rows@[j]).0 == rows0[j].0,
                inbox@ == ids_of(rows0.take(i as int)),
            decreases rows@.len() - i,
        {
            inbox.push(rows[i].0);
            i += 1;
            proof {
                assert(inbox@ =~= ids_of(rows0.take(i as int)));
            }
        }
        proof {
            assert(rows0.take(rows0.len() as int) =~= rows0);
            assert(max_id < u64::MAX) by {
                if max_id > 0 {
                    assert(store@.contains_key(max_id) || dead_letter@.contains_key(max_id));
                }
            }
        }
        RetryQueue { store, dead_letter, next_id: max_id + 1, inbox }
    }

    /// Whether there is an id left for another task.
    pub fn has_room(&self) -> (r: bool)
        ensures
            r == (self@.next_id < u64::MAX),
    {
        self.next_id < u64::MAX
    }

    /// Stores a task under a fresh id, keeping the time at which it was queued,
    /// and hands it to the worker.
    pub fn enqueue_stored(&mut self, stored: StoredTask)
        requires
            old(self)@.next_id < u64::MAX,
        ensures
            final(self).saved() == old(self).saved(),
            final(self)@ == enqueued(old(self)@, stored),
            !old(self)@.tasks.contains_key(old(self)@.next_id),
            !old(self)@.failures.contains_key(old(self)@.next_id),
    {
        proof {
            use_type_invariant(&*self);
        }
        let RetryQueue { store: s0, dead_letter, next_id: id, inbox: i0 } = self.take_all();
        let mut store = s0;
        let mut inbox = i0;
        store.put(id, stored);
        inbox.push(id);
        *self = RetryQueue { store, dead_letter, next_id: id + 1, inbox };
    }

    /// Moves everything out, leaving an empty queue behind.
    fn take_all(&mut self) -> (r: Self)
        ensures
            r == *old(self),
    {
        let mut fresh = RetryQueue {
            store: KvStore::new(),
            dead_letter: KvStore::new(),
            next_id: 1,
            inbox: Vec::new(),
        };
        std::mem::swap(self, &mut fresh);
        fresh
    }

    /// Queues an operation at `now`.
    pub fn enqueue(&mut self, kind: Issuable, project_id: i64, iid: i64, op: QueueOp, now: u64)
        requires
            old(self)@.next_id < u64::MAX,
        ensures
            !old(self)@.tasks.contains_key(old(self)@.next_id),
            !old(self)@.failures.contains_key(old(self)@.next_id),
            final(self).saved() == old(self).saved(),
            final(self)@ == enqueued(
                old(self)@,
                StoredTask { project_id, iid, kind, op, queued_at_secs: now },
            ),
    {
        self.enqueue_stored(StoredTask { project_id, iid, kind, op, queued_at_secs: now });
    }

    /// Queues a time entry at `now`. With the global id of the issuable, it is
    /// submitted for that time however long it waits.
    pub fn post_time(
        &mut self,
        kind: Issuable,
        project_id: i64,
        iid: i64,
        duration: String,
        summary: Option<String>,
        issuable_id: Option<i64>,
        now: u64,
    )
        requires
            old(self)@.next_id < u64::MAX,
        ensures
            !old(self)@.tasks.contains_key(old(self)@.next_id),
            !old(self)@.failures.contains_key(old(self)@.next_id),
            final(self).saved() == old(self).saved(),
            final(self)@ == enqueued(
                old(self)@,
                StoredTask {
                    project_id,
                    iid,
                    kind,
                    op: QueueOp::PostTime { duration, summary, issuable_id },
                    queued_at_secs: now,
                },
            ),
    {
        self.enqueue(
            kind,
            project_id,
            iid,
            QueueOp::PostTime { duration, summary, issuable_id },
            now,
        );
    }

    /// Queues a close at `now`.
    pub fn close(&mut self, kind: Issuable, project_id: i64, iid: i64, now: u64)
        requires
            old(self)@.next_id < u64::MAX,
        ensures
            !old(self)@.tasks.contains_key(old(self)@.next_id),
            !old(self)@.failures.contains_key(old(self)@.next_id),
            final(self).saved() == old(self).saved(),
            final(self)@ == enqueued(
                old(self)@,
                StoredTask { project_id, iid, kind, op: QueueOp::Close, queued_at_secs: now },
            ),
    {
        self.enqueue(kind, project_id, iid, QueueOp::Close, now);
    }

    /// Queues an assignment of oneself at `now`.
    pub fn assign_self(&mut self, kind: Issuable, project_id: i64, iid: i64, now: u64)
        requires
            old(self)@.next_id < u64::MAX,
        ensures
            !old(self)@.tasks.contains_key(old(self)@.next_id),
            !old(self)@.failures.contains_key(old(self)@.next_id),
            final(self).saved() == old(self).saved(),
            final(self)@ == enqueued(
                old(self)@,
                StoredTask { project_id, iid, kind, op: QueueOp::AssignSelf, queued_at_secs: now },
            ),
    {
        self.enqueue(kind, project_id, iid, QueueOp::AssignSelf, now);
    }

    /// Queues an unassignment of oneself at `now`.
    pub fn unassign_self(&mut self, kind: Issuable, project_id: i64, iid: i64, now: u64)
        requires
            old(self)@.next_id < u64::MAX,
        ensures
            !old(self)@.tasks.contains_key(old(self)@.next_id),
            !old(self)@.failures.contains_key(old(self)@.next_id),
            final(self).saved() == old(self).saved(),
            final(self)@ == enqueued(
                old(self)@,
                StoredTask { project_id, iid, kind, op: QueueOp::UnassignSelf, queued_at_secs: now },
            ),
    {
        self.enqueue(kind, project_id, iid, QueueOp::UnassignSelf, now);
    }

    /// The queued time entries, most recently queued first.
    pub fn pending_post_time(&self) -> (r: Vec<PendingPostTime>)
        ensures
            r@ == sorted(pendings(rows_of(self@.tasks))),
    {
        let rows = self.store.scan();
        let ghost rows0 = rows_of(self.store@);
        let mut r: Vec<PendingPostTime> = Vec::new();
        let mut i: usize = 0;
        while i < rows.len()
            invariant
                i <= rows@.len() == rows0.len(),
                forall|j: int|
                    0 <= j < rows@.len() ==> (#[trigger] rows@[j]).0 == rows0[j].0 && *rows@[j].1
                        == rows0[j].1,
                r@ == sorted(pendings(rows0.take(i as int))),
            decreases rows@.len() - i,
        {
            let t: &StoredTask = rows[i].1;
            proof {
                assert(rows0.take(i + 1).drop_last() =~= rows0.take(i as int));
                assert(rows0.take(i + 1).last() == rows0[i as int]);
            }
            match &t.op {
                QueueOp::PostTime { duration, summary, .. } => {
                    let p = PendingPostTime {
                        project_id: t.project_id,
                        iid: t.iid,
                        kind: t.kind,
                        duration: duration.clone(),
                        summary: clone_text(summary),
                        queued_at_secs: t.queued_at_secs,
                    };
                    proof {
                        assert(pending_of(*t) == Some(p));
                        let all = pendings(rows0.take(i + 1));
                        assert(all.drop_last() =~= pendings(rows0.take(i as int)));
                        assert(all.last() == p);
                    }
                    insert(&mut r, p);
                },
                _ => {},
            }
            i += 1;
        }
        proof {
            assert(rows0.take(rows0.len() as int) =~= rows0);
        }
        r
    }

    /// The dead letters, most recent failure first.
    pub fn failures(&self) -> (r: Vec<FailedTaskView>)
        ensures
            r@.len() == sorted(letters(rows_of(self@.failures))).len(),
            forall|i: int|
                0 <= i < r@.len() ==> shows_letter(
                    #[trigger] r@[i],
                    sorted(letters(rows_of(self@.failures)))[i],
                ),
    {
        let rows = self.dead_letter.scan();
        let ghost rows0 = rows_of(self.dead_letter@);
        let mut list: Vec<DeadLetter> = Vec::new();
        let mut i: usize = 0;
        while i < rows.len()
            invariant
                i <= rows@.len() == rows0.len(),
                forall|j: int|
                    0 <= j < rows@.len() ==> (#[trigger] rows@[j]).0 == rows0[j].0 && *rows@[j].1
                        == rows0[j].1,
                list@ == letters(rows0.take(i as int)),
            decreases rows@.len() - i,
        {
            list.push(DeadLetter { id: rows[i].0, failure: rows[i].1 });
            i += 1;
            proof {
                assert(list@ =~= letters(rows0.take(i as int)));
            }
        }
        proof {
            assert(rows0.take(rows0.len() as int) =~= rows0);
        }
        let ordered = sort(&list);
        let mut r: Vec<FailedTaskView> = Vec::new();
        let mut i: usize = 0;
        while i < ordered.len()
            invariant
                i <= ordered@.len(),
                r@.len() == i,
                forall|j: int| 0 <= j < i ==> shows_letter(#[trigger] r@[j], ordered@[j]),
            decreases ordered@.len() - i,
        {
            let l = ordered[i];
            r.push(
                FailedTaskView {
                    id: l.id,
                    op_kind: l.failure.op.kind(),
                    project_id: l.failure.project_id,
                    iid: l.failure.iid,
                    kind: l.failure.kind,
                    detail: l.failure.op.detail(),
                    error: l.failure.error.clone(),
                    queued_at_secs: l.failure.queued_at_secs,
                    failed_at_secs: l.failure.failed_at_secs,
                },
            );
            i += 1;
        }
        r
    }

    /// Queues a dead letter again, with the time at which it was first queued;
    /// `false` where there is none. The letter stays until it is deleted.
    pub fn requeue_failure(&mut self, id: u64) -> (r: bool)
        requires
            old(self)@.next_id < u64::MAX,
        ensures
            !old(self)@.tasks.contains_key(old(self)@.next_id),
            !old(self)@.failures.contains_key(old(self)@.next_id),
            final(self).saved() == old(self).saved(),
            r == old(self)@.failures.contains_key(id),
            final(self)@ == if r {
                enqueued(old(self)@, task_again(old(self)@.failures[id]))
            } else {
                old(self)@
            },
    {
        proof {
            use_type_invariant(&*self);
        }
        let again = match self.dead_letter(id) {
            Some(f) => StoredTask {
                project_id: f.project_id,
                iid: f.iid,
                kind: f.kind,
                op: f.op.clone(),
                queued_at_secs: f.queued_at_secs,
            },
            None => {
                return false;
            },
        };
        self.enqueue_stored(again);
        true
    }

    /// Takes how deleting a dead letter from the disk went: it goes only if that
    /// worked.
    pub fn failure_deleted(&mut self, id: u64, deleted: Result<(), Error>) -> (r: Result<
        (),
        Error,
    >)
        ensures
            r == deleted,
            final(self).saved() == old(self).saved(),
            final(self)@ == if deleted is Ok {
                QueueState { failures: old(self)@.failures.remove(id), ..old(self)@ }
            } else {
                old(self)@
            },
    {
        if deleted.is_ok() {
            let _ = self.take_failure(id);
        }
        deleted
    }

    /// Queues a dead letter again, with the time at which it was first queued, and
    /// drops it from the dead letters if it could be deleted from the disk;
    /// `false` where there is none.
    pub fn retry_failure(&mut self, id: u64, deleted: Result<(), Error>) -> (r: Result<
        bool,
        Error,
    >)
        requires
            old(self)@.next_id < u64::MAX,
        ensures
            final(self).saved() == old(self).saved(),
            if old(self)@.failures.contains_key(id) {
                let s = enqueued(old(self)@, task_again(old(self)@.failures[id]));
                match deleted {
                    Ok(()) => r == Ok::<bool, Error>(true) && final(self)@ == (QueueState {
                        failures: s.failures.remove(id),
                        ..s
                    }),
                    Err(e) => r == Err::<bool, Error>(e) && final(self)@ == s,
                }
            } else {
                r == Ok::<bool, Error>(false) && final(self)@ == old(self)@
            },
    {
        if !self.requeue_failure(id) {
            return Ok(false);
        }
        match self.failure_deleted(id, deleted) {
            Ok(()) => Ok(true),
            Err(e) => Err(e),
        }
    }

    fn take_failure(&mut self, id: u64) -> (r: Option<StoredFailure>)
        ensures
            final(self).saved() == old(self).saved(),
            final(self)@ == (QueueState {
                failures: old(self)@.failures.remove(id),
                ..old(self)@
            }),
            match r {
                Some(f) => old(self)@.failures.contains_key(id) && old(self)@.failures[id] == f,
                None => !old(self)@.failures.contains_key(id) && final(self)@ == old(self)@,
            },
    {
        proof {
            use_type_invariant(&*self);
        }
        let RetryQueue { store, dead_letter: d0, next_id, inbox } = self.take_all();
        let mut dead_letter = d0;
        let r = dead_letter.take(id);
        *self = RetryQueue { store, dead_letter, next_id, inbox };
        proof {
            if r is None {
                assert(old(self)@.failures.remove(id) =~= old(self)@.failures);
            }
        }
        r
    }

    /// Drops one dead letter if it could be deleted from the disk; `false` where
    /// there is none.
    pub fn dismiss_failure(&mut self, id: u64, deleted: Result<(), Error>) -> (r: Result<
        bool,
        Error,
    >)
        ensures
            final(self).saved() == old(self).saved(),
            if old(self)@.failures.contains_key(id) {
                match deleted {
                    Ok(()) => r == Ok::<bool, Error>(true) && final(self)@ == (QueueState {
                        failures: old(self)@.failures.remove(id),
                        ..old(self)@
                    }),
                    Err(e) => r == Err::<bool, Error>(e) && final(self)@ == old(self)@,
                }
            } else {
                r == Ok::<bool, Error>(false) && final(self)@ == old(self)@
            },
    {
        if self.dead_letter(id).is_none() {
            return Ok(false);
        }
        match self.failure_deleted(id, deleted) {
            Ok(()) => Ok(true),
            Err(e) => Err(e),
        }
    }

    /// Drops every dead letter if they could be deleted from the disk.
    pub fn clear_failures(&mut self, deleted: Result<(), Error>) -> (r: Result<(), Error>)
        ensures
            r == deleted,
            final(self).saved() == old(self).saved(),
            final(self)@ == if deleted is Ok {
                QueueState { failures: Map::empty(), ..old(self)@ }
            } else {
                old(self)@
            },
    {
        if deleted.is_ok() {
            proof {
                use_type_invariant(&*self);
            }
            let RetryQueue { store, dead_letter: d0, next_id, inbox } = self.take_all();
            let mut dead_letter = d0;
            dead_letter.clear();
            *self = RetryQueue { store, dead_letter, next_id, inbox };
        }
        deleted
    }
}

/// A queue with one more task, under its next id.
pub open spec fn enqueued(q: QueueState, t: StoredTask) -> QueueState {
    QueueState {
        tasks: q.tasks.insert(q.next_id, t),
        failures: q.failures,
        next_id: (q.next_id + 1) as u64,
        inbox: q.inbox.push(q.next_id),
    }
}

// ── the worker ───────────────────────────────────────────────────────────────

/// The task that the worker is on.
pub struct ActiveTask {
    id: u64,
    delay: Duration,
}

/// A write to GitLab.
#[allow(inconsistent_fields)]
#[derive(Debug)]
pub enum WriteCall {
    /// Submits time for when it was spent.
    CreateTimelog {
        kind: Issuable,
        issuable_id: i64,
        duration: String,
        summary: String,
        spent_at_secs: u64,
    },
    /// Submits time for now.
    AddSpentTime {
        kind: Issuable,
        project_id: i64,
        iid: i64,
        duration: String,
        summary: Option<String>,
    },
    Close { kind: Issuable, project_id: i64, iid: i64 },
    AssignSelf { kind: Issuable, project_id: i64, iid: i64 },
    UnassignSelf { kind: Issuable, project_id: i64, iid: i64 },
}

/// Whether `c` is the write that the task `t` asks for: a time entry with a known
/// global id is submitted for the time at which it was queued.
pub open spec fn is_call_of(c: WriteCall, t: StoredTask) -> bool {
    match t.op {
        QueueOp::PostTime { duration: d, summary: s, issuable_id: Some(id) } => {
            c matches WriteCall::CreateTimelog {
                kind,
                issuable_id,
                duration,
                summary,
                spent_at_secs,
            } && kind == t.kind && issuable_id == id && duration == d && summary@ == match s {
                Some(x) => x@,
                None => Seq::<char>::empty(),
            } && spent_at_secs == t.queued_at_secs
        },
        QueueOp::PostTime { duration, summary, issuable_id: None } => c
            == (WriteCall::AddSpentTime {
            kind: t.kind,
            project_id: t.project_id,
            iid: t.iid,
            duration,
            summary,
        }),
        QueueOp::Close => c == (WriteCall::Close {
            kind: t.kind,
            project_id: t.project_id,
            iid: t.iid,
        }),
        QueueOp::AssignSelf => c == (WriteCall::AssignSelf {
            kind: t.kind,
            project_id: t.project_id,
            iid: t.iid,
        }),
        QueueOp::UnassignSelf => c == (WriteCall::UnassignSelf {
            kind: t.kind,
            project_id: t.project_id,
            iid: t.iid,
        }),
    }
}

/// What the worker does next about its task.
#[derive(Debug)]
pub enum WorkerAction {
    /// There is no session: wait this long, or until one is established.
    WaitForSession(Duration),
    /// Make the call and report how it went.
    Call(WriteCall),
    /// The task is no longer queued.
    Drop,
}

/// How an attempt at a task ended.
#[derive(Debug)]
pub enum WorkerStep {
    /// The task has left the queue.
    Done,
    /// Wait this long and try again.
    RetryAfter(Duration),
}

/// How long, in nanoseconds, a task that was queued at `queued_at` has waited.
pub open spec fn waited(queued_at: u64, now: u64) -> nat {
    seconds(
        if now >= queued_at {
            (now - queued_at) as nat
        } else {
            0
        },
    )
}

/// The error that a task is dead-lettered with when its lifetime is over.
pub open spec fn timeout_text(lifetime_secs: u64, e: Error) -> Seq<char> {
    "timed out after "@ + decimal(lifetime_secs as nat) + ", seconds retry window: "@ + error_text(e)
}

fn timeout_message(lifetime_secs: u64, e: &Error) -> (r: String)
    ensures
        r@ == timeout_text(lifetime_secs, *e),
{
    let mut r: String = "timed out after ".to_owned();
    push_u64(&mut r, lifetime_secs);
    r.append(", seconds retry window: ");
    let m = e.message();
    r.append(m.as_str());
    r
}

/// What becomes of an attempt that ended with `outcome`.
pub ghost enum Verdict {
    /// The task is done.
    Succeeded,
    /// The task goes to the dead letters with this error.
    GivenUp(Seq<char>),
    /// The task is tried again after so many nanoseconds.
    Retried(nat),
}

/// What becomes of an attempt at `t` that ended with `outcome` at `now`, where
/// the next delay is `delay`: success ends it, a rejection gives it up, and a
/// network failure is retried within the lifetime, no later than its end.
pub open spec fn verdict(
    t: StoredTask,
    delay: nat,
    outcome: Result<(), Error>,
    now: u64,
    cfg: QueueConfig,
) -> Verdict {
    match outcome {
        Ok(_) => Verdict::Succeeded,
        Err(Error::Transient(m)) => {
            let life = seconds(cfg.max_lifetime_secs as nat);
            let age = waited(t.queued_at_secs, now);
            if age >= life {
                Verdict::GivenUp(timeout_text(cfg.max_lifetime_secs, Error::Transient(m)))
            } else if delay <= life - age {
                Verdict::Retried(delay)
            } else {
                Verdict::Retried((life - age) as nat)
            }
        },
        Err(e) => Verdict::GivenUp(error_text(e)),
    }
}

/// Whether the queue went from `q` to `after` as the verdict on the task `id`
/// demands: a task that is done leaves the queue, one that is given up leaves it
/// for the dead letters, and one that is retried stays.
pub open spec fn attempt_ended(
    q: QueueState,
    after: QueueState,
    r: WorkerStep,
    id: u64,
    now: u64,
    v: Verdict,
) -> bool {
    match v {
        Verdict::Succeeded => r is Done && after == (QueueState { tasks: q.tasks.remove(id), ..q }),
        Verdict::GivenUp(m) => {
            &&& r is Done
            &&& after.tasks == q.tasks.remove(id)
            &&& after.next_id == q.next_id
            &&& after.inbox == q.inbox
            &&& after.failures.dom() == q.failures.dom().insert(id)
            &&& is_failure_of(after.failures[id], q.tasks[id], now, m)
            &&& forall|k: u64|
                k != id && q.failures.contains_key(k) ==> #[trigger] after.failures[k]
                    == q.failures[k]
        },
        Verdict::Retried(d) => r matches WorkerStep::RetryAfter(s) && s@ == d && after == q,
    }
}

impl ActiveTask {
    pub closed spec fn spec_id(&self) -> u64 {
        self.id
    }

    /// The delay before the next retry, in nanoseconds.
    pub closed spec fn next_delay(&self) -> nat {
        self.delay@
    }

    pub fn id(&self) -> (r: u64)
        ensures
            r == self.spec_id(),
    {
        self.id
    }

    /// Once the worker has slept: the next delay is twice as long, up to the cap.
    pub fn slept(&mut self, cfg: &QueueConfig)
        ensures
            final(self).spec_id() == old(self).spec_id(),
            final(self).next_delay() == backoff_step(
                old(self).next_delay(),
                seconds(cfg.max_delay_secs as nat),
            ),
    {
        self.delay = next_backoff(self.delay, cfg.max_delay());
    }
}

impl RetryQueue {
    /// Takes the next task for the worker, in the order in which the tasks were
    /// queued, with the initial delay.
    pub fn next_task(&mut self, cfg: &QueueConfig) -> (r: Option<ActiveTask>)
        ensures
            final(self).saved() == old(self).saved(),
            match r {
                Some(a) => old(self)@.inbox.len() > 0 && a.spec_id() == old(self)@.inbox[0]
                    && a.next_delay() == seconds(cfg.base_delay_secs as nat) && final(self)@
                    == (QueueState { inbox: old(self)@.inbox.drop_first(), ..old(self)@ }),
                None => old(self)@.inbox.len() == 0 && final(self)@ == old(self)@,
            },
    {
        proof {
            use_type_invariant(&*self);
        }
        if self.inbox.len() == 0 {
            return None;
        }
        let RetryQueue { store, dead_letter, next_id, inbox: i0 } = self.take_all();
        let mut inbox = i0;
        let id: u64 = inbox.remove(0);
        proof {
            assert(inbox@ =~= old(self)@.inbox.drop_first());
        }
        *self = RetryQueue { store, dead_letter, next_id, inbox };
        Some(ActiveTask { id, delay: cfg.base_delay() })
    }

    /// What to do about the active task, with or without a session.
    pub fn attempt(&self, active: &ActiveTask, connected: bool, cfg: &QueueConfig) -> (r:
        WorkerAction)
        ensures
            match r {
                WorkerAction::Drop => !self@.tasks.contains_key(active.spec_id()),
                WorkerAction::WaitForSession(d) => self@.tasks.contains_key(active.spec_id())
                    && !connected && d@ == seconds(cfg.session_wait_secs as nat),
                WorkerAction::Call(c) => self@.tasks.contains_key(active.spec_id()) && connected
                    && is_call_of(c, self@.tasks[active.spec_id()]),
            },
    {
        let t: &StoredTask = match self.store.get(active.id) {
            Some(t) => t,
            None => {
                return WorkerAction::Drop;
            },
        };
        if !connected {
            return WorkerAction::WaitForSession(cfg.session_wait());
        }
        let c = match &t.op {
            QueueOp::PostTime { duration, summary, issuable_id } => match issuable_id {
                Some(id) => WriteCall::CreateTimelog {
                    kind: t.kind,
                    issuable_id: *id,
                    duration: duration.clone(),
                    summary: match summary {
                        Some(s) => s.clone(),
                        None => String::new(),
                    },
                    spent_at_secs: t.queued_at_secs,
                },
                None => WriteCall::AddSpentTime {
                    kind: t.kind,
                    project_id: t.project_id,
                    iid: t.iid,
                    duration: duration.clone(),
                    summary: clone_text(summary),
                },
            },
            QueueOp::Close => WriteCall::Close {
                kind: t.kind,
                project_id: t.project_id,
                iid: t.iid,
            },
            QueueOp::AssignSelf => WriteCall::AssignSelf {
                kind: t.kind,
                project_id: t.project_id,
                iid: t.iid,
            },
            QueueOp::UnassignSelf => WriteCall::UnassignSelf {
                kind: t.kind,
                project_id: t.project_id,
                iid: t.iid,
            },
        };
        WorkerAction::Call(c)
    }

    /// Takes note of how an attempt at the active task ended. Unless it is to be
    /// retried, the task leaves the queue; where the worker gave up, it goes to
    /// the dead letters under its id.
    pub fn attempted(
        &mut self,
        active: &ActiveTask,
        outcome: Result<(), Error>,
        now: u64,
        cfg: &QueueConfig,
    ) -> (r: WorkerStep)
        requires
            old(self)@.tasks.contains_key(active.spec_id()),
        ensures
            final(self).saved() == old(self).saved(),
            attempt_ended(
                old(self)@,
                final(self)@,
                r,
                active.spec_id(),
                now,
                verdict(
                    old(self)@.tasks[active.spec_id()],
                    active.next_delay(),
                    outcome,
                    now,
                    *cfg,
                ),
            ),
    {
        let queued_at: u64 = match self.store.get(active.id) {
            Some(t) => t.queued_at_secs,
            None => 0,
        };
        match outcome {
            Ok(_) => {
                let _ = self.take_task(active.id);
                WorkerStep::Done
            },
            Err(e) => {
                let transient = match &e {
                    Error::Transient(_) => true,
                    _ => false,
                };
                if transient {
                    let age = Duration::from_secs(
                        if now >= queued_at {
                            now - queued_at
                        } else {
                            0
                        },
                    );
                    let life = cfg.max_lifetime();
                    if age.is_below(&life) {
                        return WorkerStep::RetryAfter(active.delay.min(life.saturating_sub(age)));
                    }
                    let m = timeout_message(cfg.max_lifetime_secs, &e);
                    self.give_up(active.id, m, now);
                } else {
                    let m = e.message();
                    self.give_up(active.id, m, now);
                }
                WorkerStep::Done
            },
        }
    }

    fn take_task(&mut self, id: u64) -> (r: Option<StoredTask>)
        ensures
            final(self).saved() == old(self).saved(),
            final(self)@ == (QueueState { tasks: old(self)@.tasks.remove(id), ..old(self)@ }),
            match r {
                Some(t) => old(self)@.tasks.contains_key(id) && old(self)@.tasks[id] == t,
                None => !old(self)@.tasks.contains_key(id),
            },
    {
        proof {
            use_type_invariant(&*self);
        }
        let RetryQueue { store: s0, dead_letter, next_id, inbox } = self.take_all();
        let mut store = s0;
        let r = store.take(id);
        *self = RetryQueue { store, dead_letter, next_id, inbox };
        r
    }

    /// Moves a task to the dead letters.
    fn give_up(&mut self, id: u64, error: String, now: u64)
        requires
            old(self)@.tasks.contains_key(id),
        ensures
            final(self).saved() == old(self).saved(),
            final(self)@.tasks == old(self)@.tasks.remove(id),
            final(self)@.next_id == old(self)@.next_id,
            final(self)@.inbox == old(self)@.inbox,
            exists|f: StoredFailure| #[trigger]
                is_failure_of(f, old(self)@.tasks[id], now, error@) && final(self)@.failures
                    == old(self)@.failures.insert(id, f),
    {
        proof {
            use_type_invariant(&*self);
        }
        let RetryQueue { store: s0, dead_letter: d0, next_id, inbox } = self.take_all();
        let mut store = s0;
        let mut dead_letter = d0;
        match store.take(id) {
            Some(t) => {
                let ghost t0 = t;
                let f = StoredFailure {
                    project_id: t.project_id,
                    iid: t.iid,
                    kind: t.kind,
                    op: t.op,
                    queued_at_secs: t.queued_at_secs,
                    failed_at_secs: now,
                    error,
                };
                proof {
                    assert(is_failure_of(f, t0, now, error@));
                }
                dead_letter.put(id, f);
            },
            None => {},
        }
        *self = RetryQueue { store, dead_letter, next_id, inbox };
    }

    /// The tasks and dead letters that changed since the queue was last saved: all
    /// others are as they were saved.
    pub fn dirty_keys(&self) -> (r: (&Vec<u64>, &Vec<u64>))
        ensures
            forall|k: u64|
                !r.0@.contains(k) ==> #[trigger] agree_at(self.saved().0, self@.tasks, k),
            forall|k: u64|
                !r.1@.contains(k) ==> #[trigger] agree_at(self.saved().1, self@.failures, k),
    {
        (self.store.dirty_keys(), self.dead_letter.dirty_keys())
    }

    /// Takes note that everything has been saved.
    pub fn mark_saved(&mut self)
        ensures
            final(self)@ == old(self)@,
            final(self).saved() == (old(self)@.tasks, old(self)@.failures),
    {
        proof {
            use_type_invariant(&*self);
        }
        let RetryQueue { store: s0, dead_letter: d0, next_id, inbox } = self.take_all();
        let mut store = s0;
        let mut dead_letter = d0;
        store.mark_saved();
        dead_letter.mark_saved();
        *self = RetryQueue { store, dead_letter, next_id, inbox };
    }

    /// The task under an id.
    pub fn task(&self, id: u64) -> (r: Option<&StoredTask>)
        ensures
            match r {
                Some(t) => self@.tasks.contains_key(id) && self@.tasks[id] == *t,
                None => !self@.tasks.contains_key(id),
            },
    {
        self.store.get(id)
    }

    /// The dead letter under an id.
    pub fn dead_letter(&self, id: u64) -> (r: Option<&StoredFailure>)
        ensures
            match r {
                Some(f) => self@.failures.contains_key(id) && self@.failures[id] == *f,
                None => !self@.failures.contains_key(id),
            },
    {
        self.dead_letter.get(id)
    }
}

// ── laws ─────────────────────────────────────────────────────────────────────

/// A retry never waits beyond the lifetime of the task, and a task that is
/// retried has some of it left.
pub proof fn law_retries_end_with_the_lifetime(
    t: StoredTask,
    delay: nat,
    outcome: Result<(), Error>,
    now: u64,
    cfg: QueueConfig,
)
    ensures
        verdict(t, delay, outcome, now, cfg) matches Verdict::Retried(d) ==> {
            &&& outcome matches Err(Error::Transient(_))
            &&& d <= delay
            &&& waited(t.queued_at_secs, now) + d <= seconds(cfg.max_lifetime_secs as nat)
            &&& waited(t.queued_at_secs, now) < seconds(cfg.max_lifetime_secs as nat)
        },
        outcome is Ok <==> verdict(t, delay, outcome, now, cfg) is Succeeded,
        (outcome matches Err(e) && !(e is Transient)) ==> verdict(t, delay, outcome, now, cfg)
            is GivenUp,
{
}

/// No task is lost: after an attempt it is done, or still queued, or among the
/// dead letters, with its operation and the time at which it was queued. No other
/// task is touched.
pub proof fn law_no_task_is_lost(
    q: QueueState,
    after: QueueState,
    r: WorkerStep,
    id: u64,
    delay: nat,
    outcome: Result<(), Error>,
    now: u64,
    cfg: QueueConfig,
    k: u64,
)
    requires
        q.tasks.contains_key(id),
        attempt_ended(q, after, r, id, now, verdict(q.tasks[id], delay, outcome, now, cfg)),
    ensures
        outcome is Ok || after.tasks.contains_key(id) && after.tasks[id] == q.tasks[id]
            || after.failures.contains_key(id) && after.failures[id].op == q.tasks[id].op
            && after.failures[id].queued_at_secs == q.tasks[id].queued_at_secs,
        k != id && q.tasks.contains_key(k) ==> after.tasks.contains_key(k) && after.tasks[k]
            == q.tasks[k],
        k != id && q.failures.contains_key(k) ==> after.failures.contains_key(k)
            && after.failures[k] == q.failures[k],
{
    assert(after.failures.dom().contains(id) ==> after.failures.contains_key(id));
    assert(q.failures.contains_key(k) ==> q.failures.dom().contains(k));
    assert(after.failures.dom().contains(k) ==> after.failures.contains_key(k));
}

/// Giving a task up and retrying it leaves the tasks as they were, but for a
/// fresh id, and the dead letters as they were: the task comes back with the
/// time at which it was first queued.
pub proof fn law_give_up_then_retry(
    q: QueueState,
    id: u64,
    f: StoredFailure,
    now: u64,
    e: Seq<char>,
)
    requires
        q.tasks.contains_key(id),
        !q.failures.contains_key(id),
        all_below(q.tasks, q.next_id),
        is_failure_of(f, q.tasks[id], now, e),
    ensures
        ({
            let given_up = QueueState {
                tasks: q.tasks.remove(id),
                failures: q.failures.insert(id, f),
                ..q
            };
            let s = enqueued(given_up, task_again(given_up.failures[id]));
            let again = QueueState { failures: s.failures.remove(id), ..s };
            &&& again.failures == q.failures
            &&& again.tasks == q.tasks.remove(id).insert(q.next_id, q.tasks[id])
            &&& q.next_id != id
        }),
{
    let given_up = QueueState { tasks: q.tasks.remove(id), failures: q.failures.insert(id, f), ..q };
    let s = enqueued(given_up, task_again(given_up.failures[id]));
    let again = QueueState { failures: s.failures.remove(id), ..s };
    assert(again.failures =~= q.failures);
    assert(q.tasks.contains_key(id));
}

/// How many seconds a task that was queued at one time has waited at another.
pub open spec fn secs_between(queued_at: u64, now: u64) -> int {
    if now >= queued_at {
        now - queued_at
    } else {
        0
    }
}

/// A network failure costs no task that still has lifetime left, whatever its
/// operation: it stays in the queue and is tried again, after the present delay or
/// when its lifetime ends, whichever comes first. Once the lifetime is over the
/// task becomes a dead letter that names the lifetime and the failure.
pub proof fn law_network_failures_are_retried(
    q: QueueState,
    after: QueueState,
    r: WorkerStep,
    id: u64,
    delay: nat,
    cause: String,
    now: u64,
    cfg: QueueConfig,
)
    requires
        q.tasks.contains_key(id),
        attempt_ended(
            q,
            after,
            r,
            id,
            now,
            verdict(q.tasks[id], delay, Err(Error::Transient(cause)), now, cfg),
        ),
    ensures
        ({
            let age = secs_between(q.tasks[id].queued_at_secs, now);
            let left = (cfg.max_lifetime_secs - age) * 1_000_000_000;
            &&& age < cfg.max_lifetime_secs ==> {
                &&& after == q
                &&& r is RetryAfter
                &&& delay <= left ==> r->RetryAfter_0@ == delay
                &&& delay > left ==> r->RetryAfter_0@ == left
            }
            &&& age >= cfg.max_lifetime_secs ==> {
                &&& r is Done
                &&& !after.tasks.contains_key(id)
                &&& after.failures.contains_key(id)
                &&& after.failures[id].project_id == q.tasks[id].project_id
                &&& after.failures[id].iid == q.tasks[id].iid
                &&& after.failures[id].kind == q.tasks[id].kind
                &&& after.failures[id].op == q.tasks[id].op
                &&& after.failures[id].queued_at_secs == q.tasks[id].queued_at_secs
                &&& after.failures[id].failed_at_secs == now
                &&& after.failures[id].error@ == "timed out after "@ + decimal(
                    cfg.max_lifetime_secs as nat,
                ) + ", seconds retry window: "@ + ("network error: "@ + cause@)
            }
        }),
{
    let age = secs_between(q.tasks[id].queued_at_secs, now);
    assert(after.failures.dom().contains(id) ==> after.failures.contains_key(id));
    if age < cfg.max_lifetime_secs {
        assert(age * 1_000_000_000 < cfg.max_lifetime_secs * 1_000_000_000);
    }
    assert((cfg.max_lifetime_secs - age) * 1_000_000_000 == cfg.max_lifetime_secs * 1_000_000_000
        - age * 1_000_000_000) by (nonlinear_arith);
}

/// What GitLab refuses is never tried again, whatever its operation: it becomes a
/// dead letter that holds all of the task, with the error in its own words. What
/// succeeds leaves the queue and no dead letter.
pub proof fn law_refused_and_accepted_writes(
    q: QueueState,
    after: QueueState,
    r: WorkerStep,
    id: u64,
    delay: nat,
    outcome: Result<(), Error>,
    now: u64,
    cfg: QueueConfig,
)
    requires
        q.tasks.contains_key(id),
        attempt_ended(q, after, r, id, now, verdict(q.tasks[id], delay, outcome, now, cfg)),
    ensures
        outcome is Ok ==> r is Done && !after.tasks.contains_key(id) && after.failures
            == q.failures,
        after.inbox == q.inbox,
        after.next_id == q.next_id,
        (outcome is Err && !(outcome->Err_0 is Transient)) ==> {
            &&& r is Done
            &&& !after.tasks.contains_key(id)
            &&& after.failures.contains_key(id)
            &&& after.failures[id].project_id == q.tasks[id].project_id
            &&& after.failures[id].iid == q.tasks[id].iid
            &&& after.failures[id].kind == q.tasks[id].kind
            &&& after.failures[id].op == q.tasks[id].op
            &&& after.failures[id].queued_at_secs == q.tasks[id].queued_at_secs
            &&& after.failures[id].failed_at_secs == now
            &&& after.failures[id].error@ == error_text(outcome->Err_0)
        },
{
    assert(after.failures.dom().contains(id) ==> after.failures.contains_key(id));
}

/// Tasks are worked on in the order in which they were queued: a new one goes to
/// the end of the line, under an id that none had, and every other stays as it is.
pub proof fn law_new_tasks_queue_up(q: QueueState, t: StoredTask, k: u64)
    requires
        q.next_id < u64::MAX,
        all_below(q.tasks, q.next_id),
        all_below(q.failures, q.next_id),
    ensures
        ({
            let after = enqueued(q, t);
            &&& after.inbox.len() == q.inbox.len() + 1
            &&& after.inbox.last() == q.next_id
            &&& after.inbox.drop_last() == q.inbox
            &&& after.tasks.contains_key(q.next_id) && after.tasks[q.next_id] == t
            &&& !q.tasks.contains_key(q.next_id) && !q.failures.contains_key(q.next_id)
            &&& after.next_id == q.next_id + 1
            &&& after.failures == q.failures
            &&& q.tasks.contains_key(k) ==> after.tasks.contains_key(k) && after.tasks[k]
                == q.tasks[k]
            &&& after.tasks.contains_key(k) ==> k == q.next_id || q.tasks.contains_key(k)
        }),
{
    assert(enqueued(q, t).inbox.drop_last() =~= q.inbox);
    assert(q.tasks.contains_key(k) ==> k < q.next_id);
    assert(!q.tasks.contains_key(q.next_id));
    assert(!q.failures.contains_key(q.next_id));
}

/// After a restart every saved task is in line for the worker, once, in the order
/// of the ids, and new ids lie above those of all tasks and dead letters.
pub proof fn law_saved_tasks_are_taken_up(
    tasks: Map<u64, StoredTask>,
    failures: Map<u64, StoredFailure>,
    next: u64,
    k: u64,
)
    requires
        is_next_id(next, tasks, failures),
    ensures
        ids_of(rows_of(tasks)).contains(k) <==> tasks.contains_key(k),
        forall|i: int, j: int|
            0 <= i < j < ids_of(rows_of(tasks)).len() ==> #[trigger] ids_of(rows_of(tasks))[i]
                < #[trigger] ids_of(rows_of(tasks))[j],
        next > 0,
        tasks.contains_key(k) || failures.contains_key(k) ==> k < next,
        next > 1 ==> tasks.contains_key((next - 1) as u64) || failures.contains_key(
            (next - 1) as u64,
        ),
{
    let rows = rows_of(tasks);
    let ids = ids_of(rows);
    crate::db::law_every_map_is_listed(tasks);
    if ids.contains(k) {
        let i = choose|i: int| 0 <= i < ids.len() && ids[i] == k;
        lemma_row_in_map(rows, i);
    }
    if tasks.contains_key(k) {
        crate::db::lemma_entry_is_listed(tasks, k);
        let i = choose|i: int|
            0 <= i < rows.len() && (#[trigger] rows[i]).0 == k && rows[i].1 == tasks[k];
        assert(ids[i] == k);
    }
    assert forall|i: int, j: int| 0 <= i < j < ids.len() implies #[trigger] ids[i]
        < #[trigger] ids[j] by {
        assert(rows[i].0 < rows[j].0);
    }
}

/// The write that the worker makes of a queued time entry carries the duration and
/// the summary that were queued, for the same target: by its global id, and for
/// when it was queued, where that id is known, and by project and number
/// otherwise.
pub proof fn law_queued_time_is_posted_as_given(c: WriteCall, t: StoredTask)
    requires
        is_call_of(c, t),
        t.op is PostTime,
    ensures
        t.op->issuable_id is Some ==> c is CreateTimelog && c->CreateTimelog_kind == t.kind
            && c->CreateTimelog_issuable_id == t.op->issuable_id->0 && c->CreateTimelog_duration
            == t.op->duration && c->CreateTimelog_spent_at_secs == t.queued_at_secs && (
        t.op->summary is Some ==> c->CreateTimelog_summary@ == t.op->summary->0@) && (t.op->summary
            is None ==> c->CreateTimelog_summary@.len() == 0),
        t.op->issuable_id is None ==> c is AddSpentTime && c->AddSpentTime_kind == t.kind
            && c->AddSpentTime_project_id == t.project_id && c->AddSpentTime_iid == t.iid
            && c->AddSpentTime_duration == t.op->duration && c->AddSpentTime_summary
            == t.op->summary,
{
}

/// The write that the worker makes of any other task is that operation, on the
/// same target.
pub proof fn law_queued_write_is_made_as_given(c: WriteCall, t: StoredTask)
    requires
        is_call_of(c, t),
    ensures
        t.op is Close <==> c == (WriteCall::Close {
            kind: t.kind,
            project_id: t.project_id,
            iid: t.iid,
        }),
        t.op is AssignSelf <==> c == (WriteCall::AssignSelf {
            kind: t.kind,
            project_id: t.project_id,
            iid: t.iid,
        }),
        t.op is UnassignSelf <==> c == (WriteCall::UnassignSelf {
            kind: t.kind,
            project_id: t.project_id,
            iid: t.iid,
        }),
{
}

proof fn lemma_pending(rows: Seq<(u64, StoredTask)>, p: PendingPostTime)
    ensures
        pendings(rows).contains(p) <==> exists|i: int|
            0 <= i < rows.len() && pending_of((#[trigger] rows[i]).1) == Some(p),
    decreases rows.len(),
{
    if rows.len() > 0 {
        let init = rows.drop_last();
        let rest = pendings(init);
        let all = pendings(rows);
        lemma_pending(init, p);
        if all.contains(p) {
            let j = choose|j: int| 0 <= j < all.len() && all[j] == p;
            if j < rest.len() {
                assert(rest[j] == p);
                let i = choose|i: int|
                    0 <= i < init.len() && pending_of((#[trigger] init[i]).1) == Some(p);
                assert(rows[i] == init[i]);
            } else {
                assert(pending_of(rows[rows.len() - 1].1) == Some(p));
            }
        }
        if exists|i: int| 0 <= i < rows.len() && pending_of((#[trigger] rows[i]).1) == Some(p) {
            let i = choose|i: int|
                0 <= i < rows.len() && pending_of((#[trigger] rows[i]).1) == Some(p);
            if i < init.len() {
                assert(init[i] == rows[i]);
                let j = choose|j: int| 0 <= j < rest.len() && rest[j] == p;
                assert(all[j] == p);
            } else {
                assert(all[rest.len() as int] == p);
            }
        }
    }
}

/// Every queued time entry is listed, with its target, duration, summary and the
/// time at which it was queued, and nothing else is; the most recent come first.
pub proof fn law_queued_time_is_listed(tasks: Map<u64, StoredTask>, k: u64, i: int, j: int)
    ensures
        tasks.contains_key(k) && tasks[k].op is PostTime ==> exists|n: int|
            0 <= n < sorted(pendings(rows_of(tasks))).len() && ({
                let p = #[trigger] sorted(pendings(rows_of(tasks)))[n];
                let t = tasks[k];
                p.project_id == t.project_id && p.iid == t.iid && p.kind == t.kind && p.duration
                    == t.op->duration && p.summary == t.op->summary && p.queued_at_secs
                    == t.queued_at_secs
            }),
        0 <= i < sorted(pendings(rows_of(tasks))).len() ==> exists|n: u64| #[trigger]
            tasks.contains_key(n) && ({
                let p = sorted(pendings(rows_of(tasks)))[i];
                let t = tasks[n];
                t.op is PostTime && p.project_id == t.project_id && p.iid == t.iid && p.kind
                    == t.kind && p.duration == t.op->duration && p.summary == t.op->summary
                    && p.queued_at_secs == t.queued_at_secs
            }),
        0 <= i < j < sorted(pendings(rows_of(tasks))).len() ==> sorted(
            pendings(rows_of(tasks)),
        )[i].queued_at_secs >= sorted(pendings(rows_of(tasks)))[j].queued_at_secs,
{
    let rows = rows_of(tasks);
    let all = pendings(rows);
    let list = sorted(all);
    crate::db::law_every_map_is_listed(tasks);
    crate::order::law_sorted(all, |p: PendingPostTime| true);
    if tasks.contains_key(k) && tasks[k].op is PostTime {
        crate::db::lemma_entry_is_listed(tasks, k);
        let n = choose|n: int|
            0 <= n < rows.len() && (#[trigger] rows[n]).0 == k && rows[n].1 == tasks[k];
        let p = pending_of(tasks[k])->0;
        assert(pending_of(rows[n].1) == Some(p));
        lemma_pending(rows, p);
        crate::order::lemma_sorted_contains(all, p);
        let x = choose|x: int| 0 <= x < list.len() && list[x] == p;
        assert(list[x] == p);
    }
    if 0 <= i < list.len() {
        let p = list[i];
        crate::order::lemma_sorted_contains(all, p);
        assert(list.contains(p));
        lemma_pending(rows, p);
        let n = choose|n: int| 0 <= n < rows.len() && pending_of((#[trigger] rows[n]).1) == Some(p);
        lemma_row_in_map(rows, n);
        assert(tasks.contains_key(rows[n].0));
    }
    if 0 <= i < j < list.len() {
        assert(!list[j].before(list[i]));
    }
}

/// Every dead letter is listed under its id, and nothing else is; the most recent
/// failures come first.
pub proof fn law_dead_letters_are_listed<'a>(failures: Map<u64, StoredFailure>, k: u64, i: int, j: int)
    ensures
        failures.contains_key(k) ==> exists|n: int|
            0 <= n < sorted(letters(rows_of(failures))).len() && (#[trigger] sorted(
                letters(rows_of(failures)),
            )[n]).id == k && *sorted(letters(rows_of(failures)))[n].failure == failures[k],
        0 <= i < sorted(letters(rows_of(failures))).len() ==> ({
            let l = sorted(letters(rows_of(failures)))[i];
            failures.contains_key(l.id) && failures[l.id] == *l.failure
        }),
        0 <= i < j < sorted(letters(rows_of(failures))).len() ==> sorted(
            letters(rows_of(failures)),
        )[i].failure.failed_at_secs >= sorted(
            letters(rows_of(failures)),
        )[j].failure.failed_at_secs,
{
    let rows = rows_of(failures);
    let all: Seq<DeadLetter<'a>> = letters(rows);
    let list = sorted(all);
    crate::db::law_every_map_is_listed(failures);
    crate::order::law_sorted(all, |l: DeadLetter<'a>| true);
    if failures.contains_key(k) {
        crate::db::lemma_entry_is_listed(failures, k);
        let n = choose|n: int|
            0 <= n < rows.len() && (#[trigger] rows[n]).0 == k && rows[n].1 == failures[k];
        let l = all[n];
        crate::order::lemma_sorted_contains(all, l);
        assert(all.contains(l));
        let x = choose|x: int| 0 <= x < list.len() && list[x] == l;
        assert(list[x].id == k);
    }
    if 0 <= i < list.len() {
        let l = list[i];
        crate::order::lemma_sorted_contains(all, l);
        assert(list.contains(l));
        let n = choose|n: int| 0 <= n < all.len() && all[n] == l;
        lemma_row_in_map(rows, n);
    }
    if 0 <= i < j < list.len() {
        assert(!list[j].before(list[i]));
    }
}

/// A dead letter is shown with its id, its target, what it was to do, when it was
/// queued, when it failed and why.
pub proof fn law_letter_is_shown_in_full(v: FailedTaskView, l: DeadLetter)
    requires
        shows_letter(v, l),
    ensures
        v.id == l.id,
        v.project_id == l.failure.project_id,
        v.iid == l.failure.iid,
        v.kind == l.failure.kind,
        v.error@ == l.failure.error@,
        v.queued_at_secs == l.failure.queued_at_secs,
        v.failed_at_secs == l.failure.failed_at_secs,
        l.failure.op is PostTime ==> v.op_kind@ == "PostTime"@,
        l.failure.op is Close ==> v.op_kind@ == "Close"@,
        l.failure.op is AssignSelf ==> v.op_kind@ == "AssignSelf"@,
        l.failure.op is UnassignSelf ==> v.op_kind@ == "UnassignSelf"@,
        l.failure.op is PostTime && l.failure.op->summary is None ==> v.detail@
            == l.failure.op->duration@,
        l.failure.op is PostTime && l.failure.op->summary is Some
            && l.failure.op->summary->0@.len() > 0 ==> v.detail@ == l.failure.op->duration@
            + " \u{2013} "@ + l.failure.op->summary->0@,
{
}

} // verus!
