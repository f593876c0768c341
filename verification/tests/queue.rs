use std::collections::VecDeque;

use gitlab_trackrd::config::{defaults, QueueConfig};
use gitlab_trackrd::error::Error;
use gitlab_trackrd::gitlab::Issuable;
use gitlab_trackrd::queue::{
    FailedTaskView, QueueOp, RetryQueue, StoredFailure, StoredTask, WorkerAction, WorkerStep,
    WriteCall,
};
use gitlab_trackrd::time::Duration;

fn cfg() -> QueueConfig {
    defaults().queue
}

fn post_op(issuable_id: Option<i64>) -> QueueOp {
    QueueOp::PostTime {
        duration: "1h".into(),
        summary: None,
        issuable_id,
    }
}

fn post_task(id: i64, queued_at: u64) -> StoredTask {
    StoredTask {
        project_id: id,
        iid: id,
        kind: Issuable::Issue,
        op: post_op(None),
        queued_at_secs: queued_at,
    }
}

fn close_task(id: i64, queued_at: u64) -> StoredTask {
    StoredTask {
        project_id: id,
        iid: id,
        kind: Issuable::Issue,
        op: QueueOp::Close,
        queued_at_secs: queued_at,
    }
}

fn fail_entry(id: i64) -> StoredFailure {
    StoredFailure {
        project_id: id,
        iid: id,
        kind: Issuable::Issue,
        op: QueueOp::Close,
        queued_at_secs: 100,
        failed_at_secs: 200,
        error: "boom".into(),
    }
}

/// Answers the writes of the worker and takes note of them.
#[derive(Default)]
struct FakeGitlab {
    replies: VecDeque<Result<(), Error>>,
    calls: Vec<(&'static str, Issuable)>,
}

impl FakeGitlab {
    fn with(replies: Vec<Result<(), Error>>) -> Self {
        FakeGitlab { replies: replies.into(), calls: vec![] }
    }

    fn run(&mut self, call: &WriteCall) -> Result<(), Error> {
        let seen = match call {
            WriteCall::CreateTimelog { kind, .. } => ("create_timelog", *kind),
            WriteCall::AddSpentTime { kind, .. } => ("add_spent_time", *kind),
            WriteCall::Close { kind, .. } => ("close", *kind),
            WriteCall::AssignSelf { kind, .. } => ("assign_self", *kind),
            WriteCall::UnassignSelf { kind, .. } => ("unassign_self", *kind),
        };
        self.calls.push(seen);
        self.replies.pop_front().expect("no canned reply")
    }

    fn count(&self, name: &str) -> usize {
        self.calls.iter().filter(|(n, _)| *n == name).count()
    }
}

/// Drains the queue while there is a session.
fn drain(q: &mut RetryQueue, gitlab: &mut FakeGitlab, now: u64) {
    let cfg = cfg();
    while let Some(mut active) = q.next_task(&cfg) {
        loop {
            match q.attempt(&active, true, &cfg) {
                WorkerAction::WaitForSession(_) => panic!("there is a session"),
                WorkerAction::Drop => break,
                WorkerAction::Call(call) => {
                    let outcome = gitlab.run(&call);
                    match q.attempted(&active, outcome, now, &cfg) {
                        WorkerStep::Done => break,
                        WorkerStep::RetryAfter(_) => active.slept(&cfg),
                    }
                }
            }
        }
    }
}

/// A queue with one task, run to the end; what it left in the dead letters.
fn run_one(task: StoredTask, gitlab: &mut FakeGitlab) -> (RetryQueue, Vec<FailedTaskView>) {
    let mut q = RetryQueue::new(vec![(1, task)], vec![]);
    drain(&mut q, gitlab, 100);
    let failures = q.failures();
    (q, failures)
}

#[test]
fn queue_op_kind() {
    assert_eq!(QueueOp::Close.kind(), "Close");
    assert_eq!(
        QueueOp::PostTime {
            duration: "1h".into(),
            summary: None,
            issuable_id: None,
        }
        .kind(),
        "PostTime"
    );
}

#[test]
fn queue_op_detail_shows_the_summary_if_any() {
    let op = |summary: Option<&str>| QueueOp::PostTime {
        duration: "1h".into(),
        summary: summary.map(|s| s.to_string()),
        issuable_id: None,
    };
    assert_eq!(op(None).detail(), "1h");
    assert_eq!(op(Some("")).detail(), "1h");
    assert_eq!(op(Some("fix")).detail(), "1h \u{2013} fix");
    assert_eq!(QueueOp::AssignSelf.detail(), "");
    assert_eq!(QueueOp::AssignSelf.kind(), "AssignSelf");
    assert_eq!(QueueOp::UnassignSelf.kind(), "UnassignSelf");
}

#[test]
fn snapshot_pending_filters_close_and_sorts_newest_first() {
    let q = RetryQueue::new(
        vec![
            (1, post_task(1, 100)),
            (2, close_task(2, 150)),
            (3, post_task(3, 200)),
            (4, post_task(4, 50)),
        ],
        vec![],
    );
    let snap = q.pending_post_time();
    let project_ids: Vec<i64> = snap.iter().map(|p| p.project_id).collect();
    assert_eq!(
        project_ids,
        vec![3, 1, 4],
        "PostTime only, sorted by queued_at desc"
    );
    assert!(
        snap.iter().all(|p| p.kind == Issuable::Issue),
        "kind carried into the projection"
    );
}

#[test]
fn snapshot_pending_empty_store() {
    let q = RetryQueue::new(vec![], vec![]);
    assert!(q.pending_post_time().is_empty());
}

#[test]
fn worker_removes_task_on_success() {
    let mut gitlab = FakeGitlab::with(vec![Ok(())]);
    let (q, _) = run_one(post_task(7, 100), &mut gitlab);
    assert_eq!(gitlab.count("add_spent_time"), 1);
    assert!(q.pending_post_time().is_empty(), "task removed after success");
}

#[test]
fn worker_defers_while_dormant_then_drains_on_reconnect_nudge() {
    let mut q = RetryQueue::new(vec![(1, post_task(7, 100))], vec![]);
    let mut cfg = cfg();
    cfg.session_wait_secs = 3600;
    let active = q.next_task(&cfg).unwrap();
    match q.attempt(&active, false, &cfg) {
        WorkerAction::WaitForSession(d) => assert_eq!(d, Duration::from_secs(3600)),
        other => panic!("dormant, yet {other:?}"),
    }
    assert_eq!(q.pending_post_time().len(), 1, "deferred, not lost");

    // The nudge: the same task is looked at again, now with a session.
    let mut gitlab = FakeGitlab::with(vec![Ok(())]);
    match q.attempt(&active, true, &cfg) {
        WorkerAction::Call(call) => {
            let outcome = gitlab.run(&call);
            assert!(matches!(q.attempted(&active, outcome, 100, &cfg), WorkerStep::Done));
        }
        other => panic!("connected, yet {other:?}"),
    }
    assert_eq!(gitlab.count("add_spent_time"), 1);
    assert!(
        q.pending_post_time().is_empty(),
        "deferred task drained after reconnect"
    );
}

#[test]
fn worker_routes_post_time_with_issue_id_to_create_timelog() {
    let task = StoredTask {
        project_id: 7,
        iid: 7,
        kind: Issuable::Issue,
        op: QueueOp::PostTime {
            duration: "1h".into(),
            summary: Some("note".into()),
            issuable_id: Some(999),
        },
        queued_at_secs: 100,
    };
    let mut gitlab = FakeGitlab::with(vec![Ok(())]);
    run_one(task, &mut gitlab);
    assert_eq!(
        gitlab.count("create_timelog"),
        1,
        "issue_id present → GraphQL timelogCreate"
    );
    assert_eq!(gitlab.count("add_spent_time"), 0);
}

#[test]
fn a_timelog_is_created_for_when_the_task_was_queued() {
    let mut q = RetryQueue::new(vec![], vec![]);
    q.post_time(Issuable::Issue, 7, 8, "1h".into(), None, Some(999), 1234);
    let active = q.next_task(&cfg()).unwrap();
    match q.attempt(&active, true, &cfg()) {
        WorkerAction::Call(WriteCall::CreateTimelog {
            issuable_id,
            duration,
            summary,
            spent_at_secs,
            ..
        }) => {
            assert_eq!((issuable_id, spent_at_secs), (999, 1234));
            assert_eq!((duration.as_str(), summary.as_str()), ("1h", ""));
        }
        other => panic!("{other:?}"),
    }
}

#[test]
fn worker_drops_task_on_permanent_error() {
    let mut gitlab = FakeGitlab::with(vec![Err(Error::Gitlab("403".into()))]);
    let (q, _) = run_one(post_task(7, 100), &mut gitlab);
    assert_eq!(
        gitlab.count("add_spent_time"),
        1,
        "no retry on permanent error"
    );
    assert!(
        q.pending_post_time().is_empty(),
        "task dropped after permanent rejection"
    );
}

#[test]
fn worker_close_success() {
    let mut gitlab = FakeGitlab::with(vec![Ok(())]);
    run_one(close_task(7, 100), &mut gitlab);
    assert_eq!(gitlab.count("close"), 1);
}

#[test]
fn worker_passes_mr_kind_through_to_gitlab_calls() {
    let mut gitlab = FakeGitlab::with(vec![Ok(()), Ok(()), Ok(())]);
    for op in [QueueOp::Close, post_op(None), post_op(Some(999))] {
        let task = StoredTask {
            project_id: 7,
            iid: 42,
            kind: Issuable::MergeRequest,
            op,
            queued_at_secs: 100,
        };
        run_one(task, &mut gitlab);
    }
    assert_eq!(
        gitlab.calls,
        vec![
            ("close", Issuable::MergeRequest),
            ("add_spent_time", Issuable::MergeRequest),
            ("create_timelog", Issuable::MergeRequest),
        ]
    );
}

#[test]
fn worker_assign_self_success() {
    let task = StoredTask {
        project_id: 7,
        iid: 7,
        kind: Issuable::Issue,
        op: QueueOp::AssignSelf,
        queued_at_secs: 100,
    };
    let mut gitlab = FakeGitlab::with(vec![Ok(())]);
    let (q, _) = run_one(task, &mut gitlab);
    assert_eq!(gitlab.count("assign_self"), 1);
    assert!(
        q.pending_post_time().is_empty(),
        "assign_self is not a PostTime; snapshot ignores it"
    );
}

#[test]
fn worker_dead_letters_on_permanent_error() {
    let mut gitlab = FakeGitlab::with(vec![Err(Error::Gitlab("403 Forbidden".into()))]);
    let (q, failures) = run_one(post_task(7, 100), &mut gitlab);
    assert!(
        q.pending_post_time().is_empty(),
        "task removed from the live queue"
    );
    assert_eq!(failures.len(), 1, "one dead-letter entry recorded");
    assert_eq!(failures[0].id, 1);
    assert_eq!(failures[0].op_kind, "PostTime");
    assert_eq!(failures[0].kind, Issuable::Issue);
    assert!(
        failures[0].error.contains("403"),
        "error preserved: {}",
        failures[0].error
    );
}

#[test]
fn retry_failure_reenqueues_with_original_time_and_clears() {
    let mut q = RetryQueue::new(
        vec![],
        vec![(
            5,
            StoredFailure {
                project_id: 7,
                iid: 9,
                kind: Issuable::Issue,
                op: QueueOp::Close,
                queued_at_secs: 1_000,
                failed_at_secs: 2_000,
                error: "403".into(),
            },
        )],
    );

    assert!(q.retry_failure(5, Ok(())).unwrap(), "known id retried");
    assert!(q.failures().is_empty(), "dead-letter entry cleared");

    let (tasks, letters) = q.dirty_keys();
    let live: Vec<(i64, i64, u64)> = tasks
        .iter()
        .filter_map(|k| q.task(*k))
        .map(|t| (t.project_id, t.iid, t.queued_at_secs))
        .collect();
    assert_eq!(
        live,
        vec![(7, 9, 1_000)],
        "re-enqueued, preserving original queued_at"
    );
    assert_eq!(letters, &vec![5], "the removal has to be saved");
    assert!(q.dead_letter(5).is_none());

    assert!(!q.retry_failure(999, Ok(())).unwrap(), "unknown id → false");
}

#[test]
fn dismiss_and_clear_failures() {
    let mut q = RetryQueue::new(vec![], vec![(1, fail_entry(1)), (2, fail_entry(2))]);

    assert!(q.dismiss_failure(1, Ok(())).unwrap(), "known id dismissed");
    assert!(!q.dismiss_failure(1, Ok(())).unwrap(), "already gone → false");
    assert_eq!(q.failures().len(), 1);

    q.clear_failures(Ok(())).unwrap();
    assert!(q.failures().is_empty(), "all cleared");
}

#[test]
fn dead_letters_that_cannot_be_deleted_stay() {
    let mut q = RetryQueue::new(vec![], vec![(1, fail_entry(1)), (2, fail_entry(2))]);
    let full = || Err(Error::Storage("disk full".into()));

    assert!(q.dismiss_failure(1, full()).is_err());
    assert!(!q.dismiss_failure(9, full()).unwrap(), "unknown id → false all the same");
    assert!(q.clear_failures(full()).is_err());
    assert_eq!(q.failures().len(), 2);
    assert!(q.next_task(&cfg()).is_none());

    assert!(q.retry_failure(1, full()).is_err());
    assert_eq!(q.failures().len(), 2, "the letter is still there");
    assert!(q.next_task(&cfg()).is_some(), "and its write is queued again");
}

#[test]
fn a_queue_stays_unsaved_until_told_otherwise() {
    let mut q = RetryQueue::new(vec![], vec![(1, fail_entry(1))]);
    q.close(Issuable::Issue, 1, 2, 300);
    q.dismiss_failure(1, Ok(())).unwrap();
    assert_eq!(q.dirty_keys(), (&vec![2], &vec![1]));
    assert_eq!(q.dirty_keys(), (&vec![2], &vec![1]), "looking saves nothing");
    q.mark_saved();
    assert_eq!(q.dirty_keys(), (&vec![], &vec![]));
    assert!(q.task(2).is_some());
}

#[test]
fn new_seeds_next_id_above_both_tables() {
    let mut q = RetryQueue::new(vec![(3, post_task(1, 100))], vec![(10, fail_entry(10))]);
    assert!(q.has_room());
    q.close(Issuable::Issue, 1, 2, 300);
    let first = q.next_task(&cfg()).unwrap();
    let second = q.next_task(&cfg()).unwrap();
    assert_eq!(first.id(), 3, "saved tasks come first");
    assert_eq!(second.id(), 11, "max(queue=3, dead-letter=10) + 1");
    assert!(q.next_task(&cfg()).is_none());
}

#[test]
fn network_failures_back_off_until_the_lifetime_ends() {
    let mut cfg = cfg();
    cfg.base_delay_secs = 1;
    cfg.max_delay_secs = 4;
    cfg.max_lifetime_secs = 10;
    let mut q = RetryQueue::new(vec![(1, post_task(7, 100))], vec![]);
    let mut active = q.next_task(&cfg).unwrap();
    let down = || Err(Error::Transient("down".into()));
    let mut now = 100;
    let mut waits = vec![];
    while let WorkerStep::RetryAfter(d) = q.attempted(&active, down(), now, &cfg) {
        waits.push(d.as_secs());
        now += d.as_secs();
        active.slept(&cfg);
        assert!(matches!(q.attempt(&active, true, &cfg), WorkerAction::Call(_)));
    }
    assert_eq!(waits, vec![1, 2, 4, 3], "the last wait ends with the lifetime");
    assert!(matches!(q.attempt(&active, true, &cfg), WorkerAction::Drop));
    let f = q.failures();
    assert_eq!(f.len(), 1);
    assert_eq!((f[0].queued_at_secs, f[0].failed_at_secs), (100, 110));
    assert_eq!(
        f[0].error,
        "timed out after 10, seconds retry window: network error: down"
    );
}

#[test]
fn failures_come_most_recent_first() {
    let at = |failed_at_secs: u64| StoredFailure { failed_at_secs, ..fail_entry(1) };
    let q = RetryQueue::new(vec![], vec![(1, at(5)), (2, at(9)), (3, at(7))]);
    let ids: Vec<u64> = q.failures().iter().map(|f| f.id).collect();
    assert_eq!(ids, vec![2, 3, 1]);
}

#[test]
fn every_write_is_queued_with_its_kind_and_time() {
    let mut q = RetryQueue::new(vec![], vec![]);
    q.assign_self(Issuable::Issue, 1, 2, 10);
    q.unassign_self(Issuable::MergeRequest, 3, 4, 11);
    q.enqueue(Issuable::Issue, 5, 6, QueueOp::Close, 12);
    let (tasks, letters) = q.dirty_keys();
    assert!(letters.is_empty());
    let seen: Vec<(&'static str, i64, i64, u64)> = tasks
        .iter()
        .filter_map(|k| q.task(*k))
        .map(|t| (t.op.kind(), t.project_id, t.iid, t.queued_at_secs))
        .collect();
    assert_eq!(
        seen,
        vec![("AssignSelf", 1, 2, 10), ("UnassignSelf", 3, 4, 11), ("Close", 5, 6, 12)]
    );
}
