//! The varlink methods and the background refreshes, as steps between which
//! the caller talks to GitLab.
//!
//! Every method that needs GitLab is split at the call: one step decides
//! whether the call is made and with what, the next takes what came back.

pub mod refresh;
pub mod search;
pub mod search_sync;
pub mod varlink;

use vstd::prelude::*;
use vstd::string::*;

use crate::api::NotAuthReason;
use crate::boards::BoardCache;
use crate::cache::IssueCache;
use crate::config::Config;
use crate::db::{agree_at, law_survives_reopen, written_through};
use crate::error::{opt_text, reason_code, reason_detail, DormancyReason, Error};
use crate::gitlab::GitlabClient;
use crate::history::HistoryCache;
use crate::queue::RetryQueue;
use crate::reconnect::{commit_unreachable, demoted};
use crate::refresh_meta::RefreshMeta;
use crate::search::{
    corpus_written_through, covers, law_corpus_survives_reopen, DirtyKeys, SearchCache,
};
use crate::text::{
    chars_of, i64_text, int_text, is_digit, is_white_space, trim, trimmed, Fringe,
};
use crate::time::Duration;

verus! {

/// A live connection. The number identifies the client that it uses.
#[derive(Debug)]
pub struct Session {
    pub client: u64,
    pub host: String,
    pub user_id: i64,
}

impl Clone for Session {
    fn clone(&self) -> (r: Self)
        ensures
            r == *self,
    {
        Session { client: self.client, host: self.host.clone(), user_id: self.user_id }
    }
}

impl Session {
    /// The session of a client that has just connected, identified by `id`.
    pub fn from_client(client: &GitlabClient, id: u64) -> (r: Self)
        ensures
            r.client == id,
            r.host@ == client.spec_host(),
            r.user_id == client.spec_user(),
    {
        Session {
            client: id,
            host: client.host().to_owned(),
            user_id: client.current_user_id(),
        }
    }
}

/// Whether there is a session, and if not, why.
#[derive(Debug)]
pub enum ConnState {
    Connected(Session),
    Dormant(DormancyReason),
}

impl ConnState {
    /// The live client, if there is one.
    pub fn gitlab(&self) -> (r: Option<u64>)
        ensures
            r == match *self {
                ConnState::Connected(s) => Some(s.client),
                ConnState::Dormant(_) => None,
            },
    {
        match self {
            ConnState::Connected(s) => Some(s.client),
            ConnState::Dormant(_) => None,
        }
    }
}

/// The state of the daemon.
pub struct Handlers {
    pub session: ConnState,
    pub cache: IssueCache,
    pub boards: BoardCache,
    pub history: HistoryCache,
    pub search: SearchCache,
    pub refresh_meta: RefreshMeta,
    pub queue: RetryQueue,
    pub config: Config,
    /// Whether the reconnect supervisor has been woken and has not looked yet.
    pub reconnect_signal: bool,
    /// Whether the queue worker has been woken and has not looked yet.
    pub drain_wake: bool,
    /// The live lookups that completed recently, and when.
    pub live_search_recent: Vec<(String, Duration)>,
}

impl Handlers {
    /// The live client, or why there is none.
    pub fn gitlab(&self) -> (r: Result<u64, DormancyReason>)
        ensures
            r == match self.session {
                ConnState::Connected(s) => Ok(s.client),
                ConnState::Dormant(d) => Err(d),
            },
    {
        match &self.session {
            ConnState::Connected(s) => Ok(s.client),
            ConnState::Dormant(d) => Err(d.clone()),
        }
    }

    /// The session, or why there is none.
    pub fn current_session(&self) -> (r: Result<Session, DormancyReason>)
        ensures
            r == match self.session {
                ConnState::Connected(s) => Ok(s),
                ConnState::Dormant(d) => Err(d),
            },
    {
        match &self.session {
            ConnState::Connected(s) => Ok(s.clone()),
            ConnState::Dormant(d) => Err(d.clone()),
        }
    }

    /// Takes note of an error that a background fetch through `client` met: a
    /// network failure ends the session, if it still uses that client, and wakes
    /// the reconnect supervisor. Other errors change nothing.
    pub fn note_gitlab_error(&mut self, client: u64, e: &Error)
        ensures
            noted_error(*old(self), *final(self), client, *e),
            marks_kept(*old(self), *final(self)),
    {
        match e {
            Error::Transient(detail) => {
                if commit_unreachable(&mut self.session, client, detail.clone()) {
                    self.reconnect_signal = true;
                }
            },
            _ => {},
        }
    }

    /// Takes note that every change has been saved.
    pub fn mark_saved(&mut self)
        ensures
            all_saved(*final(self)),
            *final(self) == (Handlers {
                cache: final(self).cache,
                boards: final(self).boards,
                history: final(self).history,
                search: final(self).search,
                refresh_meta: final(self).refresh_meta,
                queue: final(self).queue,
                ..*old(self)
            }),
            final(self).cache@ == old(self).cache@,
            final(self).boards@ == old(self).boards@,
            final(self).history@ == old(self).history@,
            final(self).search@ == old(self).search@,
            final(self).search.syncing() == old(self).search.syncing(),
            final(self).refresh_meta@ == old(self).refresh_meta@,
            final(self).queue@ == old(self).queue@,
    {
        self.cache.mark_saved();
        self.boards.mark_saved();
        self.history.mark_saved();
        self.search.mark_saved();
        self.refresh_meta.mark_saved();
        self.queue.mark_saved();
    }
}

/// Whether `after` is `before` once an error of `client` was taken note of.
pub open spec fn noted_error(before: Handlers, after: Handlers, client: u64, e: Error) -> bool {
    match e {
        Error::Transient(detail) => {
            &&& after == (Handlers {
                session: after.session,
                reconnect_signal: after.reconnect_signal,
                ..before
            })
            &&& demoted(before.session, after.session, client, detail@)
            &&& after.reconnect_signal == (before.reconnect_signal
                || crate::reconnect::uses_client(before.session, client))
        },
        _ => after == before,
    }
}

/// Whether a step from `before` to `after` leaves every unsaved change marked:
/// what counts as saved is the same, so that the keys that the step wrote or
/// removed are among the unsaved ones, and the two caches that are saved whole
/// stay marked, and are marked where the step changed them.
pub open spec fn marks_kept(before: Handlers, after: Handlers) -> bool {
    &&& after.queue.saved() == before.queue.saved()
    &&& after.search.saved() == before.search.saved()
    &&& after.history.saved() == before.history.saved()
    &&& after.boards.saved() == before.boards.saved()
    &&& before.cache.dirty() ==> after.cache.dirty()
    &&& after.cache@ != before.cache@ ==> after.cache.dirty()
    &&& before.refresh_meta.dirty() ==> after.refresh_meta.dirty()
    &&& after.refresh_meta@ != before.refresh_meta@ ==> after.refresh_meta.dirty()
}

/// Whether no change is unsaved.
pub open spec fn all_saved(h: Handlers) -> bool {
    &&& h.queue.saved() == (h.queue@.tasks, h.queue@.failures)
    &&& h.search.saved() == h.search@
    &&& h.history.saved() == h.history@
    &&& h.boards.saved() == h.boards@
    &&& !h.cache.dirty()
    &&& !h.refresh_meta.dirty()
}

/// Steps after one another leave every unsaved change marked, as each of them does.
pub proof fn law_marks_are_kept_across_steps(first: Handlers, second: Handlers, third: Handlers)
    requires
        marks_kept(first, second),
        marks_kept(second, third),
    ensures
        marks_kept(first, third),
{
}

/// What steps changed survives a restart: writing the unsaved keys through to a
/// disk with what was saved before the steps leaves on it what the daemon holds
/// after them.
pub proof fn law_steps_survive_reopen(
    before: Handlers,
    after: Handlers,
    tasks: Seq<u64>,
    failures: Seq<u64>,
    boards: Seq<u64>,
    history: Seq<u64>,
    search: DirtyKeys<'_>,
)
    requires
        marks_kept(before, after),
        forall|k: u64|
            !tasks.contains(k) ==> #[trigger] agree_at(
                after.queue.saved().0,
                after.queue@.tasks,
                k,
            ),
        forall|k: u64|
            !failures.contains(k) ==> #[trigger] agree_at(
                after.queue.saved().1,
                after.queue@.failures,
                k,
            ),
        forall|k: u64|
            !boards.contains(k) ==> #[trigger] agree_at(after.boards.saved(), after.boards@, k),
        forall|k: u64|
            !history.contains(k) ==> #[trigger] agree_at(after.history.saved(), after.history@, k),
        covers(search, after.search.saved(), after.search@),
    ensures
        written_through(before.queue.saved().0, tasks, after.queue@.tasks) == after.queue@.tasks,
        written_through(before.queue.saved().1, failures, after.queue@.failures)
            == after.queue@.failures,
        written_through(before.boards.saved(), boards, after.boards@) == after.boards@,
        written_through(before.history.saved(), history, after.history@) == after.history@,
        corpus_written_through(search, before.search.saved(), after.search@) == after.search@,
{
    law_survives_reopen(before.queue.saved().0, after.queue@.tasks, tasks);
    law_survives_reopen(before.queue.saved().1, after.queue@.failures, failures);
    law_survives_reopen(before.boards.saved(), after.boards@, boards);
    law_survives_reopen(before.history.saved(), after.history@, history);
    law_corpus_survives_reopen(search, before.search.saved(), after.search@);
}

/// What a caller is told about having no session.
pub fn dormant_args(reason: &DormancyReason) -> (r: (Option<NotAuthReason>, Option<String>))
    ensures
        r.0 == Some(reason_code(*reason)),
        opt_text(r.1) == reason_detail(*reason),
{
    (Some(reason.reason()), reason.detail())
}

/// Whether an issuable reference can be one at all.
pub open spec fn valid_ref(project_id: i64, iid: i64) -> bool {
    project_id > 0 && iid > 0
}

/// The message about an issuable reference that cannot be one.
pub open spec fn ref_error_text(project_id: i64, iid: i64) -> Seq<char> {
    "invalid issue reference (project "@ + int_text(project_id as int) + ", iid "@ + int_text(
        iid as int,
    ) + ")"@
}

/// The message about an issuable reference that cannot be one, so that it is
/// neither tried nor queued.
pub fn issue_ref_error(project_id: i64, issue_iid: i64) -> (r: Option<String>)
    ensures
        opt_text(r) == if valid_ref(project_id, issue_iid) {
            None
        } else {
            Some(ref_error_text(project_id, issue_iid))
        },
{
    if project_id <= 0 || issue_iid <= 0 {
        let mut r: String = "invalid issue reference (project ".to_owned();
        let p = i64_text(project_id);
        r.append(p.as_str());
        r.append(", iid ");
        let i = i64_text(issue_iid);
        r.append(i.as_str());
        r.append(")");
        Some(r)
    } else {
        None
    }
}

/// The characters that a duration may have beside digits: the decimal point,
/// white space, and the letters of the units in either case.
pub open spec fn is_unit_char(c: char) -> bool {
    ||| c == '.'
    ||| is_white_space(c)
    ||| c == 's' || c == 'm' || c == 'h' || c == 'd' || c == 'w' || c == 'o'
    ||| c == 'S' || c == 'M' || c == 'H' || c == 'D' || c == 'W' || c == 'O'
}

/// Whether a text could be a duration: nothing but digits and characters of
/// units once trimmed, and at least one digit.
pub open spec fn duration_like(s: Seq<char>) -> bool {
    let t = trimmed(s, Fringe::Space);
    &&& forall|i: int| 0 <= i < t.len() ==> is_digit(#[trigger] t[i]) || is_unit_char(t[i])
    &&& exists|i: int| 0 <= i < t.len() && is_digit(#[trigger] t[i])
}

/// Permissive check of a time-tracking duration such as `30m`, `1h30m`, `1.5h`:
/// it refuses what is empty or an obvious typo, and nothing that is valid.
pub fn looks_like_duration(s: &str) -> (r: bool)
    ensures
        r == duration_like(s@),
{
    let t = trim(s, Fringe::Space);
    let v = chars_of(t.as_str());
    let mut has_digit = false;
    let mut i: usize = 0;
    while i < v.len()
        invariant
            i <= v@.len(),
            v@ == trimmed(s@, Fringe::Space),
            forall|j: int| 0 <= j < i ==> is_digit(#[trigger] v@[j]) || is_unit_char(v@[j]),
            has_digit <==> exists|j: int| 0 <= j < i && is_digit(#[trigger] v@[j]),
        decreases v@.len() - i,
    {
        let c = v[i];
        if '0' <= c && c <= '9' {
            has_digit = true;
        } else if !(c == '.' || Fringe::Space.covers(c) || c == 's' || c == 'm' || c == 'h' || c
            == 'd' || c == 'w' || c == 'o' || c == 'S' || c == 'M' || c == 'H' || c == 'D' || c
            == 'W' || c == 'O') {
            return false;
        }
        i += 1;
    }
    has_digit
}

/// An error that a background fetch met ends the session only if it is a network
/// failure of the session's own client, and then wakes the reconnect supervisor;
/// no cache and no queued write is touched, whatever the error.
pub proof fn law_only_network_failures_end_the_session(
    before: Handlers,
    after: Handlers,
    client: u64,
    e: Error,
)
    requires
        noted_error(before, after, client, e),
    ensures
        before.session is Connected && before.session->Connected_0.client == client && e
            is Transient ==> after.session is Dormant && after.session->Dormant_0 is Unreachable
            && after.reconnect_signal,
        !(e is Transient) || before.session is Dormant || before.session->Connected_0.client
            != client ==> after.session == before.session && after.reconnect_signal
            == before.reconnect_signal,
        after.cache == before.cache,
        after.boards == before.boards,
        after.history == before.history,
        after.search == before.search,
        after.refresh_meta == before.refresh_meta,
        after.queue == before.queue,
        after.config == before.config,
{
}

proof fn lemma_trim_keeps(s: Seq<char>, i: int)
    requires
        0 <= i < s.len(),
        !is_white_space(s[i]),
    ensures
        trimmed(s, Fringe::Space).contains(s[i]),
{
    lemma_trim_left_keeps(s, i);
    let t = crate::text::trim_left(s, Fringe::Space);
    let j = choose|j: int| 0 <= j < t.len() && t[j] == s[i];
    lemma_trim_right_keeps(t, j);
}

proof fn lemma_trim_left_keeps(s: Seq<char>, i: int)
    requires
        0 <= i < s.len(),
        !is_white_space(s[i]),
    ensures
        crate::text::trim_left(s, Fringe::Space).contains(s[i]),
    decreases s.len(),
{
    if Fringe::Space.has(s[0]) {
        assert(i > 0);
        assert(s.drop_first()[i - 1] == s[i]);
        lemma_trim_left_keeps(s.drop_first(), i - 1);
    } else {
        assert(s.contains(s[i]));
    }
}

proof fn lemma_trim_right_keeps(s: Seq<char>, i: int)
    requires
        0 <= i < s.len(),
        !is_white_space(s[i]),
    ensures
        crate::text::trim_right(s, Fringe::Space).contains(s[i]),
    decreases s.len(),
{
    if Fringe::Space.has(s.last()) {
        assert(i < s.len() - 1);
        assert(s.drop_last()[i] == s[i]);
        lemma_trim_right_keeps(s.drop_last(), i);
    } else {
        assert(s.contains(s[i]));
    }
}

/// The characters that a duration may have: digits, the decimal point, blanks, and
/// the letters of the units in either case.
pub open spec fn may_be_in_duration(c: char) -> bool {
    ||| '0' <= c <= '9'
    ||| c == '.'
    ||| is_white_space(c)
    ||| c == 's' || c == 'm' || c == 'h' || c == 'd' || c == 'w' || c == 'o'
    ||| c == 'S' || c == 'M' || c == 'H' || c == 'D' || c == 'W' || c == 'O'
}

/// A text is taken for a duration exactly if it has a digit and nothing but digits,
/// decimal points, blanks and letters of the units, in whatever case.
pub proof fn law_what_looks_like_a_duration(s: Seq<char>)
    ensures
        duration_like(s) <==> (exists|i: int| 0 <= i < s.len() && '0' <= #[trigger] s[i] <= '9')
            && forall|i: int| 0 <= i < s.len() ==> may_be_in_duration(#[trigger] s[i]),
{
    let t = trimmed(s, Fringe::Space);
    crate::text::lemma_trimmed_within(s, Fringe::Space);
    let (a, b) = choose|a: int, b: int| 0 <= a <= b <= s.len() && #[trigger] s.subrange(a, b) == t;
    if duration_like(s) {
        let i = choose|i: int| 0 <= i < t.len() && is_digit(#[trigger] t[i]);
        assert(s[a + i] == t[i]);
        assert('0' <= s[a + i] <= '9');
        assert forall|i: int| 0 <= i < s.len() implies may_be_in_duration(#[trigger] s[i]) by {
            if !is_white_space(s[i]) {
                lemma_trim_keeps(s, i);
                let j = choose|j: int| 0 <= j < t.len() && t[j] == s[i];
                assert(is_digit(t[j]) || is_unit_char(t[j]));
            }
        }
    }
    if (exists|i: int| 0 <= i < s.len() && '0' <= #[trigger] s[i] <= '9') && forall|i: int|
        0 <= i < s.len() ==> may_be_in_duration(#[trigger] s[i]) {
        let i = choose|i: int| 0 <= i < s.len() && '0' <= #[trigger] s[i] <= '9';
        assert(!is_white_space(s[i]));
        lemma_trim_keeps(s, i);
        let j = choose|j: int| 0 <= j < t.len() && t[j] == s[i];
        assert(is_digit(t[j]));
        assert forall|i: int| 0 <= i < t.len() implies is_digit(#[trigger] t[i]) || is_unit_char(
            t[i],
        ) by {
            assert(may_be_in_duration(s[a + i]));
        }
    }
}

/// A reference names an issue or a merge request only if both of its numbers are
/// positive.
pub proof fn law_references_are_positive(project_id: i64, iid: i64)
    ensures
        project_id > 0 && iid > 0 <==> valid_ref(project_id, iid),
{
}

/// Whatever a step changes is marked as unsaved, and nothing that was marked loses
/// its mark.
pub proof fn law_changes_are_marked(before: Handlers, after: Handlers)
    requires
        marks_kept(before, after),
    ensures
        after.cache@ != before.cache@ || before.cache.dirty() ==> after.cache.dirty(),
        after.refresh_meta@ != before.refresh_meta@ || before.refresh_meta.dirty()
            ==> after.refresh_meta.dirty(),
        after.queue.saved() == before.queue.saved(),
        after.search.saved() == before.search.saved(),
        after.history.saved() == before.history.saved(),
        after.boards.saved() == before.boards.saved(),
{
}

/// Once everything is saved, what counts as saved is what the daemon holds.
pub proof fn law_all_saved(h: Handlers)
    requires
        all_saved(h),
    ensures
        h.queue.saved().0 == h.queue@.tasks,
        h.queue.saved().1 == h.queue@.failures,
        h.search.saved() == h.search@,
        h.history.saved() == h.history@,
        h.boards.saved() == h.boards@,
        !h.cache.dirty(),
        !h.refresh_meta.dirty(),
{
}

/// The message about an impossible reference names both of its numbers.
pub proof fn law_reference_message(project_id: i64, iid: i64)
    ensures
        ref_error_text(project_id, iid) == "invalid issue reference (project "@ + int_text(
            project_id as int,
        ) + ", iid "@ + int_text(iid as int) + ")"@,
{
}

} // verus!
