//! Background refresh of the issue cache, the boards and the history.
//!
//! Each tier decides by its saved stamp whether it is due. A stamp advances only
//! after a run that went well, so a run that failed or found no session is
//! repeated at the next tick.

use vstd::prelude::*;
use vstd::string::*;

use crate::api::Issue;
use crate::boards::BoardCache;
use crate::cache::cached;
use crate::db::{rows_of, values_where, without};
use crate::error::Error;
use crate::gitlab::{FetchedTimelog, Issuable, IssueWithLabels};
use crate::handlers::search_sync::since;
use crate::handlers::{marks_kept, noted_error, ConnState, Handlers};
use crate::history::{logged, spent_between, StoredTimelog};
use crate::order::sorted;
use crate::refresh_meta::{RefreshStamps, HISTORY_SCHEMA_VERSION};
use crate::search::{everything, id_key, SearchMr};
use crate::text::{contains_text, has_text, str_eq};

verus! {

// ── when a tier is due ───────────────────────────────────────────────────────

/// Whether a run is due that last went well at `last`, with zero for never.
pub open spec fn tier_due(last: u64, interval_secs: u64, now: u64) -> bool {
    last == 0 || since(now, last) >= interval_secs
}

/// Whether the backfill of the whole retention window is due: as the slow tier
/// is, and once more whenever the window grew or the schema changed.
pub open spec fn backfill_due(
    s: RefreshStamps,
    interval_secs: u64,
    retention_hours: u64,
    now: u64,
) -> bool {
    ||| tier_due(s.last_slow_sync_secs, interval_secs, now)
    ||| s.backfilled_retention_hours < retention_hours
    ||| s.schema_version < HISTORY_SCHEMA_VERSION
}

fn is_due(last: u64, interval_secs: u64, now: u64) -> (r: bool)
    ensures
        r == tier_due(last, interval_secs, now),
{
    last == 0 || now.saturating_sub(last) >= interval_secs
}

/// The client of a session, if there is one.
pub open spec fn client_of(s: ConnState) -> Option<u64> {
    match s {
        ConnState::Connected(c) => Some(c.client),
        ConnState::Dormant(_) => None,
    }
}

// ── board status ─────────────────────────────────────────────────────────────

/// The first of `labels` that is on the board.
pub open spec fn first_on_board(board: Seq<String>, labels: Seq<String>) -> Option<Seq<char>>
    decreases labels.len(),
{
    if labels.len() == 0 {
        None
    } else if has_text(board, labels[0]@) {
        Some(labels[0]@)
    } else {
        first_on_board(board, labels.drop_first())
    }
}

/// The board status of an issue: the first of its labels that is on the board of
/// its project, or its state; empty where the board is unknown.
pub open spec fn graph_status(
    board: Option<Seq<String>>,
    labels: Seq<String>,
    state: Seq<char>,
) -> Seq<char> {
    match board {
        Some(b) => match first_on_board(b, labels) {
            Some(l) => l,
            None => state,
        },
        None => Seq::empty(),
    }
}

/// The contents of labels that may be missing.
pub open spec fn board_labels(board: Option<&Vec<String>>) -> Option<Seq<String>> {
    match board {
        Some(b) => Some(b@),
        None => None,
    }
}

/// The board status of an issue.
pub fn graph_status_from(board: Option<&Vec<String>>, labels: &Vec<String>, state: &str) -> (r:
    String)
    ensures
        r@ == graph_status(board_labels(board), labels@, state@),
{
    match board {
        Some(b) => {
            let mut i: usize = 0;
            proof {
                assert(labels@.skip(0) =~= labels@);
            }
            while i < labels.len()
                invariant
                    i <= labels@.len(),
                    board_labels(board) == Some(b@),
                    first_on_board(b@, labels@) == first_on_board(b@, labels@.skip(i as int)),
                decreases labels@.len() - i,
            {
                proof {
                    assert(labels@.skip(i as int).drop_first() =~= labels@.skip(i + 1));
                }
                if contains_text(b, labels[i].as_str()) {
                    return labels[i].clone();
                }
                i += 1;
            }
            state.to_owned()
        },
        None => String::new(),
    }
}

/// What the boards say about a project.
pub open spec fn board_of(boards: Map<u64, Vec<String>>, project_id: i64) -> Option<Seq<String>> {
    if boards.contains_key(id_key(project_id)) {
        Some(boards[id_key(project_id)]@)
    } else {
        None
    }
}

/// The projects of issues whose boards are unknown, each once, in the order in
/// which they first occur.
pub open spec fn unknown_boards(
    raw: Seq<IssueWithLabels>,
    boards: Map<u64, Vec<String>>,
) -> Seq<i64>
    decreases raw.len(),
{
    if raw.len() == 0 {
        Seq::empty()
    } else {
        let rest = unknown_boards(raw.drop_last(), boards);
        let p = raw.last().issue.project_id;
        if board_of(boards, p) is None && !rest.contains(p) {
            rest.push(p)
        } else {
            rest
        }
    }
}

/// The projects whose boards have to be fetched before the status of `raw` can
/// be told, each once.
pub fn missing_boards(raw: &Vec<IssueWithLabels>, boards: &BoardCache) -> (r: Vec<i64>)
    ensures
        r@ == unknown_boards(raw@, boards@),
{
    let mut r: Vec<i64> = Vec::new();
    let mut i: usize = 0;
    while i < raw.len()
        invariant
            i <= raw@.len(),
            r@ == unknown_boards(raw@.take(i as int), boards@),
        decreases raw@.len() - i,
    {
        proof {
            assert(raw@.take(i + 1).drop_last() =~= raw@.take(i as int));
        }
        let p: i64 = raw[i].issue.project_id;
        let unknown: bool = match boards.get(p) {
            Some(_) => false,
            None => true,
        };
        if unknown && !contains_id(&r, p) {
            r.push(p);
        }
        i += 1;
    }
    proof {
        assert(raw@.take(raw@.len() as int) =~= raw@);
    }
    r
}

fn contains_id(v: &Vec<i64>, x: i64) -> (r: bool)
    ensures
        r == v@.contains(x),
{
    let mut i: usize = 0;
    while i < v.len()
        invariant
            i <= v@.len(),
            forall|j: int| 0 <= j < i ==> v@[j] != x,
        decreases v@.len() - i,
    {
        if v[i] == x {
            return true;
        }
        i += 1;
    }
    false
}

/// Whether `i` is the issue of `raw` with its board status told.
pub open spec fn is_enriched(
    i: Issue,
    raw: IssueWithLabels,
    boards: Map<u64, Vec<String>>,
) -> bool {
    &&& i == (Issue { graph_status: i.graph_status, ..raw.issue })
    &&& i.graph_status@ == graph_status(
        board_of(boards, raw.issue.project_id),
        raw.labels@,
        raw.issue.state@,
    )
}

/// Whether `list` holds the issues of `raw`, in order, with their status told.
pub open spec fn are_enriched(
    list: Seq<Issue>,
    raw: Seq<IssueWithLabels>,
    boards: Map<u64, Vec<String>>,
) -> bool {
    &&& list.len() == raw.len()
    &&& forall|i: int| 0 <= i < list.len() ==> is_enriched(#[trigger] list[i], raw[i], boards)
}

/// The issues of `raw` with their board status, as far as the boards are known.
pub fn enrich_graph_status(raw: Vec<IssueWithLabels>, boards: &BoardCache) -> (r: Vec<Issue>)
    ensures
        are_enriched(r@, raw@, boards@),
{
    let ghost all = raw@;
    let mut rest = crate::order::reversed(raw);
    let mut out: Vec<Issue> = Vec::new();
    proof {
        assert(all.skip(0) =~= all);
    }
    while rest.len() > 0
        invariant
            rest@.len() + out@.len() == all.len(),
            rest@ == all.skip(out@.len() as int).reverse(),
            forall|j: int| 0 <= j < out@.len() ==> is_enriched(#[trigger] out@[j], all[j], boards@),
        decreases rest@.len(),
    {
        let ghost n = out@.len() as int;
        let ghost r0 = rest@;
        match rest.pop() {
            Some(x) => {
                proof {
                    assert(r0.reverse() =~= all.skip(n));
                    assert(r0.reverse()[0] == x);
                    assert(all[n] == x);
                    assert(rest@ =~= all.skip(n + 1).reverse());
                }
                let IssueWithLabels { issue: i0, labels } = x;
                let mut issue = i0;
                issue.graph_status = graph_status_from(
                    boards.get(issue.project_id),
                    &labels,
                    issue.state.as_str(),
                );
                out.push(issue);
            },
            None => {},
        }
    }
    out
}

// ── timelogs ─────────────────────────────────────────────────────────────────

/// The last of `issues` with a web address.
pub open spec fn last_by_url(issues: Seq<Issue>, url: Seq<char>) -> Option<Issue>
    decreases issues.len(),
{
    if issues.len() == 0 {
        None
    } else if issues.last().web_url@ == url {
        Some(issues.last())
    } else {
        last_by_url(issues.drop_last(), url)
    }
}

/// The last of `issues` with a per-project number.
pub open spec fn last_by_iid(issues: Seq<Issue>, iid: i64) -> Option<Issue>
    decreases issues.len(),
{
    if issues.len() == 0 {
        None
    } else if issues.last().iid == iid {
        Some(issues.last())
    } else {
        last_by_iid(issues.drop_last(), iid)
    }
}

/// The last of `mrs` with a web address.
pub open spec fn last_mr_by_url<'a>(mrs: Seq<&'a SearchMr>, url: Seq<char>) -> Option<&'a SearchMr>
    decreases mrs.len(),
{
    if mrs.len() == 0 {
        None
    } else if mrs.last().web_url@ == url {
        Some(mrs.last())
    } else {
        last_mr_by_url(mrs.drop_last(), url)
    }
}

/// What the caches know about the target of a timelog: project, title, address.
pub open spec fn known_target(t: FetchedTimelog, issues: Seq<Issue>, mrs: Seq<&SearchMr>) -> Option<
    (i64, Seq<char>, Seq<char>),
> {
    match t.kind {
        Issuable::Issue => {
            let i = match last_by_url(issues, t.web_url@) {
                Some(i) => Some(i),
                None => last_by_iid(issues, t.iid),
            };
            match i {
                Some(i) => Some((i.project_id, i.title@, i.web_url@)),
                None => None,
            }
        },
        Issuable::MergeRequest => match last_mr_by_url(mrs, t.web_url@) {
            Some(m) => Some((m.project_id, m.title@, m.web_url@)),
            None => None,
        },
    }
}

/// Whether `s` is the timelog `t`, with a missing project, title or address
/// filled in from what is known about its target.
pub open spec fn is_stored(
    s: StoredTimelog,
    t: FetchedTimelog,
    known: Option<(i64, Seq<char>, Seq<char>)>,
) -> bool {
    &&& s.timelog_id == t.timelog_id
    &&& s.spent_at_secs == t.spent_at_secs
    &&& s.kind == t.kind
    &&& s.iid == t.iid
    &&& s.duration == t.duration
    &&& s.summary == t.summary
    &&& s.project_id == if t.project_id != 0 {
        t.project_id
    } else {
        match known {
            Some(k) => k.0,
            None => 0,
        }
    }
    &&& s.title@ == if t.title@.len() > 0 {
        t.title@
    } else {
        match known {
            Some(k) => k.1,
            None => Seq::empty(),
        }
    }
    &&& s.web_url@ == if t.web_url@.len() > 0 {
        t.web_url@
    } else {
        match known {
            Some(k) => k.2,
            None => Seq::empty(),
        }
    }
}

fn find_by_url<'a>(issues: &'a Vec<Issue>, url: &str) -> (r: Option<&'a Issue>)
    ensures
        match r {
            Some(i) => last_by_url(issues@, url@) == Some(*i),
            None => last_by_url(issues@, url@) is None,
        },
{
    let mut n: usize = issues.len();
    proof {
        assert(issues@.take(n as int) =~= issues@);
    }
    while n > 0
        invariant
            n <= issues@.len(),
            last_by_url(issues@, url@) == last_by_url(issues@.take(n as int), url@),
        decreases n,
    {
        proof {
            assert(issues@.take(n as int).drop_last() =~= issues@.take(n - 1));
        }
        if str_eq(issues[n - 1].web_url.as_str(), url) {
            return Some(&issues[n - 1]);
        }
        n -= 1;
    }
    None
}

fn find_by_iid<'a>(issues: &'a Vec<Issue>, iid: i64) -> (r: Option<&'a Issue>)
    ensures
        match r {
            Some(i) => last_by_iid(issues@, iid) == Some(*i),
            None => last_by_iid(issues@, iid) is None,
        },
{
    let mut n: usize = issues.len();
    proof {
        assert(issues@.take(n as int) =~= issues@);
    }
    while n > 0
        invariant
            n <= issues@.len(),
            last_by_iid(issues@, iid) == last_by_iid(issues@.take(n as int), iid),
        decreases n,
    {
        proof {
            assert(issues@.take(n as int).drop_last() =~= issues@.take(n - 1));
        }
        if issues[n - 1].iid == iid {
            return Some(&issues[n - 1]);
        }
        n -= 1;
    }
    None
}

fn find_mr_by_url<'a>(mrs: &Vec<&'a SearchMr>, url: &str) -> (r: Option<&'a SearchMr>)
    ensures
        r == last_mr_by_url(mrs@, url@),
{
    let mut n: usize = mrs.len();
    proof {
        assert(mrs@.take(n as int) =~= mrs@);
    }
    while n > 0
        invariant
            n <= mrs@.len(),
            last_mr_by_url(mrs@, url@) == last_mr_by_url(mrs@.take(n as int), url@),
        decreases n,
    {
        proof {
            assert(mrs@.take(n as int).drop_last() =~= mrs@.take(n - 1));
        }
        if str_eq(mrs[n - 1].web_url.as_str(), url) {
            return Some(mrs[n - 1]);
        }
        n -= 1;
    }
    None
}

fn fill(text: String, known: Option<&String>) -> (r: String)
    ensures
        r@ == if text@.len() > 0 {
            text@
        } else {
            match known {
                Some(k) => k@,
                None => Seq::empty(),
            }
        },
{
    if text.as_str().is_empty() {
        match known {
            Some(k) => k.clone(),
            None => String::new(),
        }
    } else {
        text
    }
}

/// Fills in what a fetched timelog lacks from the caches: an issue is looked up
/// by its address, then by its number, which may be that of another project; a
/// merge request by its address. Where nothing is found the project stays zero.
pub fn enrich_timelog(t: FetchedTimelog, issues: &Vec<Issue>, mrs: &Vec<&SearchMr>) -> (r:
    StoredTimelog)
    ensures
        is_stored(r, t, known_target(t, issues@, mrs@)),
{
    let known: Option<(i64, &String, &String)> = match t.kind {
        Issuable::Issue => match find_by_url(issues, t.web_url.as_str()) {
            Some(i) => Some((i.project_id, &i.title, &i.web_url)),
            None => match find_by_iid(issues, t.iid) {
                Some(i) => Some((i.project_id, &i.title, &i.web_url)),
                None => None,
            },
        },
        Issuable::MergeRequest => match find_mr_by_url(mrs, t.web_url.as_str()) {
            Some(m) => Some((m.project_id, &m.title, &m.web_url)),
            None => None,
        },
    };
    let project_id: i64 = if t.project_id != 0 {
        t.project_id
    } else {
        match known {
            Some(k) => k.0,
            None => 0,
        }
    };
    let (title, web_url) = match known {
        Some(k) => (fill(t.title, Some(k.1)), fill(t.web_url, Some(k.2))),
        None => (fill(t.title, None), fill(t.web_url, None)),
    };
    StoredTimelog {
        timelog_id: t.timelog_id,
        spent_at_secs: t.spent_at_secs,
        kind: t.kind,
        project_id,
        iid: t.iid,
        title,
        web_url,
        duration: t.duration,
        summary: t.summary,
    }
}

/// Whether `list` holds the timelogs of `fetched`, in order, filled in.
pub open spec fn are_stored(
    list: Seq<StoredTimelog>,
    fetched: Seq<FetchedTimelog>,
    issues: Seq<Issue>,
    mrs: Seq<&SearchMr>,
) -> bool {
    &&& list.len() == fetched.len()
    &&& forall|i: int|
        0 <= i < list.len() ==> is_stored(
            #[trigger] list[i],
            fetched[i],
            known_target(fetched[i], issues, mrs),
        )
}

fn enrich_all(fetched: Vec<FetchedTimelog>, issues: &Vec<Issue>, mrs: &Vec<&SearchMr>) -> (r: Vec<
    StoredTimelog,
>)
    ensures
        are_stored(r@, fetched@, issues@, mrs@),
{
    let ghost all = fetched@;
    let mut rest = crate::order::reversed(fetched);
    let mut out: Vec<StoredTimelog> = Vec::new();
    proof {
        assert(all.skip(0) =~= all);
    }
    while rest.len() > 0
        invariant
            rest@.len() + out@.len() == all.len(),
            rest@ == all.skip(out@.len() as int).reverse(),
            forall|j: int|
                0 <= j < out@.len() ==> is_stored(
                    #[trigger] out@[j],
                    all[j],
                    known_target(all[j], issues@, mrs@),
                ),
        decreases rest@.len(),
    {
        let ghost n = out@.len() as int;
        let ghost r0 = rest@;
        match rest.pop() {
            Some(x) => {
                proof {
                    assert(r0.reverse() =~= all.skip(n));
                    assert(r0.reverse()[0] == x);
                    assert(all[n] == x);
                    assert(rest@ =~= all.skip(n + 1).reverse());
                }
                out.push(enrich_timelog(x, issues, mrs));
            },
            None => {},
        }
    }
    out
}

// ── the tiers ────────────────────────────────────────────────────────────────

/// Where a timelog pull that reaches `window_secs` back starts.
pub fn history_cutoff(now: u64, window_secs: u64) -> (r: u64)
    ensures
        r == since(now, window_secs),
{
    now.saturating_sub(window_secs)
}

impl Handlers {
    /// The client to refresh issues, boards and recent history through, if the
    /// quick tier is due and there is a session.
    pub fn refresh_cache(&self, now: u64) -> (r: Option<u64>)
        ensures
            r == if tier_due(
                self.refresh_meta@.last_quick_sync_secs,
                self.config.refresh.quick.interval_secs,
                now,
            ) {
                client_of(self.session)
            } else {
                None
            },
    {
        let s = self.refresh_meta.stamps();
        if !is_due(s.last_quick_sync_secs, self.config.refresh.quick.interval().as_secs(), now) {
            return None;
        }
        self.session.gitlab()
    }

    /// Takes the assigned issues of a quick refresh; the projects whose boards
    /// have to be fetched next. A failed fetch ends the refresh.
    pub fn assigned_fetched(
        &mut self,
        client: u64,
        fetched: Result<Vec<IssueWithLabels>, Error>,
    ) -> (r: Option<(Vec<IssueWithLabels>, Vec<i64>)>)
        ensures
            match fetched {
                Ok(raw) => {
                    &&& r matches Some((list, boards)) && list == raw && boards@ == unknown_boards(
                        raw@,
                        old(self).boards@,
                    )
                    &&& *final(self) == *old(self)
                },
                Err(e) => r is None && noted_error(*old(self), *final(self), client, e),
            },
    {
        match fetched {
            Ok(raw) => {
                let missing = missing_boards(&raw, &self.boards);
                Some((raw, missing))
            },
            Err(e) => {
                self.note_gitlab_error(client, &e);
                None
            },
        }
    }

    /// Takes the board labels of a project. A failed fetch is not remembered, so
    /// that the status of its issues stays empty until the next refresh.
    pub fn board_fetched(&mut self, project_id: i64, fetched: Result<Vec<String>, Error>)
        ensures
            marks_kept(*old(self), *final(self)),
            *final(self) == (Handlers { boards: final(self).boards, ..*old(self) }),
            final(self).boards@ == match fetched {
                Ok(labels) => old(self).boards@.insert(id_key(project_id), labels),
                Err(_) => old(self).boards@,
            },
    {
        match fetched {
            Ok(labels) => {
                self.boards.put(project_id, labels);
            },
            Err(_) => {},
        }
    }

    /// Replaces the cached issues once the boards are in.
    pub fn issues_ready(&mut self, raw: Vec<IssueWithLabels>)
        ensures
            marks_kept(*old(self), *final(self)),
            *final(self) == (Handlers { cache: final(self).cache, ..*old(self) }),
            exists|list: Seq<Issue>| #[trigger]
                are_enriched(list, raw@, old(self).boards@) && final(self).cache@ == Some(
                    sorted(list),
                ),
    {
        let list = enrich_graph_status(raw, &self.boards);
        let ghost l = list@;
        self.cache.put(list);
        proof {
            assert(are_enriched(l, raw@, old(self).boards@));
        }
    }

    /// Takes the timelogs of one window; whether they were stored. A failed fetch
    /// changes nothing but, after a network failure, the session.
    pub fn timelogs_fetched(
        &mut self,
        client: u64,
        fetched: Result<Vec<FetchedTimelog>, Error>,
    ) -> (r: bool)
        ensures
            match fetched {
                Ok(logs) => {
                    &&& r
                    &&& marks_kept(*old(self), *final(self))
                    &&& *final(self) == (Handlers { history: final(self).history, ..*old(self) })
                    &&& exists|list: Seq<StoredTimelog>| #[trigger]
                        are_stored(
                            list,
                            logs@,
                            cached(old(self).cache@),
                            values_where(rows_of(old(self).search@.mrs), everything()),
                        ) && final(self).history@ == logged(old(self).history@, list)
                },
                Err(e) => !r && noted_error(*old(self), *final(self), client, e),
            },
    {
        match fetched {
            Ok(logs) => {
                let mrs = self.search.all_mrs();
                let none: Vec<Issue> = Vec::new();
                let list = match self.cache.get() {
                    Some(issues) => enrich_all(logs, issues, &mrs),
                    None => {
                        assert(none@ =~= cached(self.cache@));
                        enrich_all(logs, &none, &mrs)
                    },
                };
                let ghost l = list@;
                self.history.upsert(list);
                proof {
                    assert(are_stored(
                        l,
                        logs@,
                        cached(old(self).cache@),
                        values_where(rows_of(old(self).search@.mrs), everything()),
                    ));
                }
                true
            },
            Err(e) => {
                self.note_gitlab_error(client, &e);
                false
            },
        }
    }

    /// Ends a quick refresh that began at `started`: it is stamped if all of it was
    /// `fetched` and could be saved.
    pub fn quick_refreshed(&mut self, started: u64, fetched: bool, saved: &Result<(), Error>)
        ensures
            marks_kept(*old(self), *final(self)),
            *final(self) == (Handlers { refresh_meta: final(self).refresh_meta, ..*old(self) }),
            final(self).refresh_meta@ == if fetched && *saved is Ok {
                RefreshStamps { last_quick_sync_secs: started, ..old(self).refresh_meta@ }
            } else {
                old(self).refresh_meta@
            },
    {
        if fetched && saved.is_ok() {
            let stamp = |s: RefreshStamps| -> (t: RefreshStamps)
                ensures
                    t == (RefreshStamps { last_quick_sync_secs: started, ..s }),
                { RefreshStamps { last_quick_sync_secs: started, ..s } };
            self.refresh_meta.update(stamp);
        }
    }

    /// The client to refresh the bulk of the history through, if the slow tier is
    /// due and there is a session.
    pub fn refresh_history_daily(&self, now: u64) -> (r: Option<u64>)
        ensures
            r == if tier_due(
                self.refresh_meta@.last_slow_sync_secs,
                self.config.refresh.slow.interval_secs,
                now,
            ) {
                client_of(self.session)
            } else {
                None
            },
    {
        let s = self.refresh_meta.stamps();
        if !is_due(s.last_slow_sync_secs, self.config.refresh.slow.interval().as_secs(), now) {
            return None;
        }
        self.session.gitlab()
    }

    /// Ends a slow refresh that began at `started`: it is stamped if all of it was
    /// `fetched` and could be saved, and what aged past the retention is dropped
    /// either way.
    pub fn daily_refreshed(
        &mut self,
        started: u64,
        fetched: bool,
        saved: &Result<(), Error>,
        now: u64,
    )
        requires
            old(self).config.spans_fit(),
        ensures
            marks_kept(*old(self), *final(self)),
            *final(self) == (Handlers {
                refresh_meta: final(self).refresh_meta,
                history: final(self).history,
                ..*old(self)
            }),
            final(self).refresh_meta@ == if fetched && *saved is Ok {
                RefreshStamps { last_slow_sync_secs: started, ..old(self).refresh_meta@ }
            } else {
                old(self).refresh_meta@
            },
            final(self).history@ == pruned(*old(self), now),
    {
        if fetched && saved.is_ok() {
            let stamp = |s: RefreshStamps| -> (t: RefreshStamps)
                ensures
                    t == (RefreshStamps { last_slow_sync_secs: started, ..s }),
                { RefreshStamps { last_slow_sync_secs: started, ..s } };
            self.refresh_meta.update(stamp);
        }
        self.prune_history(now);
    }

    /// The client to backfill the whole retention window through, if that is due
    /// and there is a session.
    pub fn backfill_history(&self, now: u64) -> (r: Option<u64>)
        ensures
            r == if backfill_due(
                self.refresh_meta@,
                self.config.refresh.slow.interval_secs,
                self.config.history.retention_hours,
                now,
            ) {
                client_of(self.session)
            } else {
                None
            },
    {
        let s = self.refresh_meta.stamps();
        let due: bool = is_due(
            s.last_slow_sync_secs,
            self.config.refresh.slow.interval().as_secs(),
            now,
        ) || s.backfilled_retention_hours < self.config.history.retention_hours || s.schema_version
            < HISTORY_SCHEMA_VERSION;
        if !due {
            return None;
        }
        self.session.gitlab()
    }

    /// Ends a backfill that began at `started` over `retention_hours`: it is
    /// stamped if all of it was `fetched` and could be saved, and what aged past
    /// the retention is dropped either way.
    pub fn backfilled(
        &mut self,
        started: u64,
        retention_hours: u64,
        fetched: bool,
        saved: &Result<(), Error>,
        now: u64,
    )
        requires
            old(self).config.spans_fit(),
        ensures
            marks_kept(*old(self), *final(self)),
            *final(self) == (Handlers {
                refresh_meta: final(self).refresh_meta,
                history: final(self).history,
                ..*old(self)
            }),
            final(self).refresh_meta@ == if fetched && *saved is Ok {
                RefreshStamps {
                    last_slow_sync_secs: started,
                    backfilled_retention_hours: retention_hours,
                    schema_version: HISTORY_SCHEMA_VERSION,
                    ..old(self).refresh_meta@
                }
            } else {
                old(self).refresh_meta@
            },
            final(self).history@ == pruned(*old(self), now),
    {
        if fetched && saved.is_ok() {
            let stamp = |s: RefreshStamps| -> (t: RefreshStamps)
                ensures
                    t == (RefreshStamps {
                        last_slow_sync_secs: started,
                        backfilled_retention_hours: retention_hours,
                        schema_version: HISTORY_SCHEMA_VERSION,
                        ..s
                    }),
                {
                    RefreshStamps {
                        last_slow_sync_secs: started,
                        backfilled_retention_hours: retention_hours,
                        schema_version: HISTORY_SCHEMA_VERSION,
                        ..s
                    }
                };
            self.refresh_meta.update(stamp);
        }
        self.prune_history(now);
    }

    /// Drops the history that aged past the retention.
    pub fn prune_history(&mut self, now: u64)
        requires
            old(self).config.spans_fit(),
        ensures
            marks_kept(*old(self), *final(self)),
            *final(self) == (Handlers { history: final(self).history, ..*old(self) }),
            final(self).history@ == pruned(*old(self), now),
    {
        let cutoff: u64 = now.saturating_sub(self.config.history.retention().as_secs());
        let _ = self.history.prune(cutoff);
    }
}

/// The history without what aged past the retention.
pub open spec fn pruned(h: Handlers, now: u64) -> Map<u64, StoredTimelog> {
    without(
        h.history@,
        spent_between(0, since(now, (h.config.history.retention_hours * 3600) as u64) as u64),
    )
}

// ── laws ─────────────────────────────────────────────────────────────────────

/// A tier that never ran is due at any time; one that has just run is not before
/// its interval has passed.
pub proof fn law_due_until_stamped(started: u64, interval_secs: u64, now: u64)
    ensures
        tier_due(0, interval_secs, now),
        0 < started <= now && now - started < interval_secs ==> !tier_due(
            started,
            interval_secs,
            now,
        ),
        now - started >= interval_secs ==> tier_due(started, interval_secs, now),
{
}

/// A backfill that went well is not due again inside the slow interval, unless
/// the retention has grown since.
pub proof fn law_backfill_reruns_only_for_a_reason(
    s: RefreshStamps,
    interval_secs: u64,
    hours: u64,
    now: u64,
)
    requires
        0 < s.last_slow_sync_secs <= now,
        now - s.last_slow_sync_secs < interval_secs,
        s.schema_version == HISTORY_SCHEMA_VERSION,
    ensures
        backfill_due(s, interval_secs, hours, now) <==> s.backfilled_retention_hours < hours,
{
}

/// A tier is due where it never ran, and once its interval has passed since it last
/// went well; the backfill is due like the slow tier, and also where the retention
/// outgrew what was backfilled or the stored timelogs are of an older schema. No
/// other reason makes one due.
pub proof fn law_when_a_refresh_is_due(
    s: RefreshStamps,
    last: u64,
    interval_secs: u64,
    retention_hours: u64,
    now: u64,
)
    ensures
        last == 0 || now - last >= interval_secs ==> tier_due(last, interval_secs, now),
        tier_due(last, interval_secs, now) ==> last == 0 || now - last >= interval_secs
            || interval_secs == 0,
        tier_due(s.last_slow_sync_secs, interval_secs, now) || s.backfilled_retention_hours
            < retention_hours || s.schema_version < 1 <==> backfill_due(
            s,
            interval_secs,
            retention_hours,
            now,
        ),
{
}

/// A refresh is made through the client of the session, and not without one.
pub proof fn law_refreshes_need_a_session(s: ConnState)
    ensures
        s is Dormant ==> client_of(s) is None,
        s matches ConnState::Connected(c) ==> client_of(s) == Some(c.client),
{
}

proof fn lemma_first_on_board(board: Seq<String>, labels: Seq<String>)
    ensures
        match first_on_board(board, labels) {
            Some(l) => exists|i: int|
                0 <= i < labels.len() && (#[trigger] labels[i])@ == l && has_text(board, l)
                    && forall|j: int| 0 <= j < i ==> !has_text(board, (#[trigger] labels[j])@),
            None => forall|i: int|
                0 <= i < labels.len() ==> !has_text(board, (#[trigger] labels[i])@),
        },
    decreases labels.len(),
{
    if labels.len() > 0 && !has_text(board, labels[0]@) {
        let rest = labels.drop_first();
        lemma_first_on_board(board, rest);
        match first_on_board(board, rest) {
            Some(l) => {
                let i = choose|i: int|
                    0 <= i < rest.len() && (#[trigger] rest[i])@ == l && has_text(board, l)
                        && forall|j: int| 0 <= j < i ==> !has_text(board, (#[trigger] rest[j])@);
                assert(labels[i + 1]@ == l);
                assert forall|j: int| 0 <= j < i + 1 implies !has_text(
                    board,
                    (#[trigger] labels[j])@,
                ) by {
                    if j > 0 {
                        assert(!has_text(board, rest[j - 1]@));
                    }
                }
            },
            None => {
                assert forall|i: int| 0 <= i < labels.len() implies !has_text(
                    board,
                    (#[trigger] labels[i])@,
                ) by {
                    if i > 0 {
                        assert(!has_text(board, rest[i - 1]@));
                    }
                }
            },
        }
    } else if labels.len() > 0 {
        assert(labels[0]@ == first_on_board(board, labels)->0);
    }
}

/// The board status of an issue is its first label that names a list of its
/// project's board, in the order of the labels; its state where no label does; and
/// empty where the board is not known.
pub proof fn law_board_status(
    boards: Map<u64, Vec<String>>,
    project_id: i64,
    labels: Seq<String>,
    state: Seq<char>,
    i: int,
    b: int,
)
    ensures
        ({
            let known = boards.contains_key(project_id as u64);
            let board = boards[project_id as u64]@;
            let status = graph_status(board_of(boards, project_id), labels, state);
            &&& !known ==> status.len() == 0
            &&& known && 0 <= i < labels.len() && 0 <= b < board.len() && labels[i]@ == board[b]@
                ==> exists|j: int|
                0 <= j <= i && (#[trigger] labels[j])@ == status && exists|x: int|
                    0 <= x < board.len() && (#[trigger] board[x])@ == status
            &&& known && (forall|j: int, x: int|
                0 <= j < labels.len() && 0 <= x < board.len() ==> (#[trigger] labels[j])@ != (
                #[trigger] board[x])@) ==> status == state
        }),
{
    if boards.contains_key(project_id as u64) {
        let board = boards[project_id as u64]@;
        lemma_first_on_board(board, labels);
        if 0 <= i < labels.len() && 0 <= b < board.len() && labels[i]@ == board[b]@ {
            assert(has_text(board, labels[i]@));
            let l = first_on_board(board, labels)->0;
            let j = choose|j: int|
                0 <= j < labels.len() && (#[trigger] labels[j])@ == l && has_text(board, l)
                    && forall|n: int| 0 <= n < j ==> !has_text(board, (#[trigger] labels[n])@);
            assert(j <= i);
            assert(labels[j]@ == l);
            let x = choose|x: int| 0 <= x < board.len() && (#[trigger] board[x])@ == l;
            assert(board[x]@ == l);
        }
        if forall|j: int, x: int|
            0 <= j < labels.len() && 0 <= x < board.len() ==> (#[trigger] labels[j])@ != (
            #[trigger] board[x])@ {
            if first_on_board(board, labels) is Some {
                let l = first_on_board(board, labels)->0;
                let j = choose|j: int|
                    0 <= j < labels.len() && (#[trigger] labels[j])@ == l && has_text(board, l)
                        && forall|n: int| 0 <= n < j ==> !has_text(board, (#[trigger] labels[n])@);
                let x = choose|x: int| 0 <= x < board.len() && (#[trigger] board[x])@ == l;
                assert(labels[j]@ != board[x]@);
            }
        }
    }
}

/// The boards that a refresh fetches are those of the projects of its issues that
/// are not known yet, each once.
pub proof fn law_missing_boards(
    raw: Seq<IssueWithLabels>,
    boards: Map<u64, Vec<String>>,
    project_id: i64,
)
    ensures
        unknown_boards(raw, boards).contains(project_id) <==> !boards.contains_key(
            project_id as u64,
        ) && exists|i: int|
            0 <= i < raw.len() && (#[trigger] raw[i]).issue.project_id == project_id,
        unknown_boards(raw, boards).no_duplicates(),
    decreases raw.len(),
{
    if raw.len() > 0 {
        let init = raw.drop_last();
        let rest = unknown_boards(init, boards);
        let all = unknown_boards(raw, boards);
        law_missing_boards(init, boards, project_id);
        assert(raw[raw.len() - 1] == raw.last());
        if exists|i: int| 0 <= i < raw.len() && (#[trigger] raw[i]).issue.project_id == project_id {
            let i = choose|i: int|
                0 <= i < raw.len() && (#[trigger] raw[i]).issue.project_id == project_id;
            if i < init.len() {
                assert(init[i] == raw[i]);
            }
        }
        if exists|i: int| 0 <= i < init.len() && (#[trigger] init[i]).issue.project_id
            == project_id {
            let i = choose|i: int|
                0 <= i < init.len() && (#[trigger] init[i]).issue.project_id == project_id;
            assert(raw[i] == init[i]);
        }
        if all.len() > rest.len() {
            assert(all =~= rest.push(raw.last().issue.project_id));
            assert(all[rest.len() as int] == raw.last().issue.project_id);
            if rest.contains(project_id) {
                let j = choose|j: int| 0 <= j < rest.len() && rest[j] == project_id;
                assert(all[j] == project_id);
            }
            if all.contains(project_id) {
                let j = choose|j: int| 0 <= j < all.len() && all[j] == project_id;
                if j < rest.len() {
                    assert(rest[j] == project_id);
                }
            }
        }
    }
}

/// Every issue that was fetched is cached, with everything that GitLab told of it
/// and with its board status, and nothing else is cached.
pub proof fn law_fetched_issues_are_cached(
    list: Seq<Issue>,
    raw: Seq<IssueWithLabels>,
    boards: Map<u64, Vec<String>>,
    i: int,
)
    requires
        are_enriched(list, raw, boards),
    ensures
        sorted(list).len() == raw.len(),
        0 <= i < raw.len() ==> exists|n: int|
            0 <= n < sorted(list).len() && ({
                let x = #[trigger] sorted(list)[n];
                let y = raw[i].issue;
                x.id == y.id && x.iid == y.iid && x.project_id == y.project_id && x.title@
                    == y.title@ && x.web_url@ == y.web_url@ && x.state@ == y.state@ && x.parent@
                    == y.parent@ && x.total_time@ == y.total_time@ && x.graph_status@
                    == graph_status(board_of(boards, y.project_id), raw[i].labels@, y.state@)
            }),
        0 <= i < sorted(list).len() ==> exists|n: int|
            0 <= n < raw.len() && ({
                let x = sorted(list)[i];
                let y = (#[trigger] raw[n]).issue;
                x.id == y.id && x.iid == y.iid && x.project_id == y.project_id && x.title@
                    == y.title@
            }),
{
    crate::order::law_sorted(list, |x: Issue| true);
    if 0 <= i < raw.len() {
        assert(is_enriched(list[i], raw[i], boards));
        crate::order::lemma_sorted_contains(list, list[i]);
        assert(list.contains(list[i]));
        let n = choose|n: int| 0 <= n < sorted(list).len() && sorted(list)[n] == list[i];
        assert(sorted(list)[n] == list[i]);
    }
    if 0 <= i < sorted(list).len() {
        let x = sorted(list)[i];
        crate::order::lemma_sorted_contains(list, x);
        assert(sorted(list).contains(x));
        let n = choose|n: int| 0 <= n < list.len() && list[n] == x;
        assert(is_enriched(list[n], raw[n], boards));
        assert(raw[n].issue.id == x.id);
    }
}

proof fn lemma_logged_from(m: Map<u64, StoredTimelog>, events: Seq<StoredTimelog>, k: u64)
    ensures
        (exists|i: int| 0 <= i < events.len() && (#[trigger] events[i]).timelog_id == k) ==> logged(
            m,
            events,
        ).contains_key(k) && exists|i: int|
            0 <= i < events.len() && (#[trigger] events[i]).timelog_id == k && logged(m, events)[k]
                == events[i],
        !(exists|i: int| 0 <= i < events.len() && (#[trigger] events[i]).timelog_id == k)
            ==> crate::db::agree_at(logged(m, events), m, k),
    decreases events.len(),
{
    if events.len() > 0 {
        let init = events.drop_last();
        lemma_logged_from(m, init, k);
        assert(events[events.len() - 1] == events.last());
        if events.last().timelog_id != k {
            if exists|i: int| 0 <= i < events.len() && (#[trigger] events[i]).timelog_id == k {
                let i = choose|i: int|
                    0 <= i < events.len() && (#[trigger] events[i]).timelog_id == k;
                assert(init[i] == events[i]);
                let n = choose|n: int|
                    0 <= n < init.len() && (#[trigger] init[n]).timelog_id == k && logged(
                        m,
                        init,
                    )[k] == init[n];
                assert(events[n] == init[n]);
            }
            if exists|i: int| 0 <= i < init.len() && (#[trigger] init[i]).timelog_id == k {
                let i = choose|i: int|
                    0 <= i < init.len() && (#[trigger] init[i]).timelog_id == k;
                assert(events[i] == init[i]);
            }
        }
    }
}

/// Every timelog that was fetched is in the history, under its id and just as
/// GitLab told it; what it told of the target is never replaced. What was stored
/// under other ids stays as it was.
pub proof fn law_fetched_timelogs_are_stored(
    m: Map<u64, StoredTimelog>,
    list: Seq<StoredTimelog>,
    fetched: Seq<FetchedTimelog>,
    issues: Seq<Issue>,
    mrs: Seq<&SearchMr>,
    i: int,
    k: u64,
)
    requires
        are_stored(list, fetched, issues, mrs),
    ensures
        0 <= i < fetched.len() ==> logged(m, list).contains_key(fetched[i].timelog_id) && exists|
            n: int,
        |
            0 <= n < fetched.len() && ({
                let x = logged(m, list)[fetched[i].timelog_id];
                let t = #[trigger] fetched[n];
                &&& t.timelog_id == fetched[i].timelog_id
                &&& x.timelog_id == t.timelog_id
                &&& x.spent_at_secs == t.spent_at_secs
                &&& x.kind == t.kind
                &&& x.iid == t.iid
                &&& x.duration@ == t.duration@
                &&& x.summary@ == t.summary@
                &&& t.project_id != 0 ==> x.project_id == t.project_id
                &&& t.title@.len() > 0 ==> x.title@ == t.title@
                &&& t.web_url@.len() > 0 ==> x.web_url@ == t.web_url@
            }),
        m.contains_key(k) && (forall|n: int|
            0 <= n < fetched.len() ==> (#[trigger] fetched[n]).timelog_id != k) ==> logged(
            m,
            list,
        ).contains_key(k) && logged(m, list)[k] == m[k],
{
    lemma_logged_from(m, list, k);
    if 0 <= i < fetched.len() {
        let id = fetched[i].timelog_id;
        assert(is_stored(list[i], fetched[i], known_target(fetched[i], issues, mrs)));
        assert(list[i].timelog_id == id);
        lemma_logged_from(m, list, id);
        let n = choose|n: int|
            0 <= n < list.len() && (#[trigger] list[n]).timelog_id == id && logged(m, list)[id]
                == list[n];
        assert(is_stored(list[n], fetched[n], known_target(fetched[n], issues, mrs)));
        assert(fetched[n].timelog_id == id);
    }
    if m.contains_key(k) && (forall|n: int|
        0 <= n < fetched.len() ==> (#[trigger] fetched[n]).timelog_id != k) {
        assert forall|n: int| 0 <= n < list.len() implies (#[trigger] list[n]).timelog_id != k by {
            assert(is_stored(list[n], fetched[n], known_target(fetched[n], issues, mrs)));
            assert(fetched[n].timelog_id != k);
        }
    }
}

proof fn lemma_by_url(issues: Seq<Issue>, url: Seq<char>)
    ensures
        match last_by_url(issues, url) {
            Some(x) => issues.contains(x) && x.web_url@ == url,
            None => forall|i: int| 0 <= i < issues.len() ==> (#[trigger] issues[i]).web_url@ != url,
        },
    decreases issues.len(),
{
    if issues.len() > 0 {
        let init = issues.drop_last();
        lemma_by_url(init, url);
        assert(issues[issues.len() - 1] == issues.last());
        if issues.last().web_url@ != url {
            match last_by_url(init, url) {
                Some(x) => {
                    let i = choose|i: int| 0 <= i < init.len() && init[i] == x;
                    assert(issues[i] == x);
                },
                None => {
                    assert forall|i: int| 0 <= i < issues.len() implies (
                    #[trigger] issues[i]).web_url@ != url by {
                        if i < init.len() {
                            assert(init[i] == issues[i]);
                        }
                    }
                },
            }
        }
    }
}

/// A timelog of an issue that comes without its project or title takes them from
/// the cached issue at its address.
pub proof fn law_timelogs_are_filled_in(
    s: StoredTimelog,
    t: FetchedTimelog,
    issues: Seq<Issue>,
    mrs: Seq<&SearchMr>,
    i: int,
)
    requires
        is_stored(s, t, known_target(t, issues, mrs)),
        t.kind is Issue,
        0 <= i < issues.len(),
        issues[i].web_url@ == t.web_url@,
    ensures
        exists|n: int|
            0 <= n < issues.len() && (#[trigger] issues[n]).web_url@ == t.web_url@ && (t.project_id
                == 0 ==> s.project_id == issues[n].project_id) && (t.title@.len() == 0 ==> s.title@
                == issues[n].title@),
{
    lemma_by_url(issues, t.web_url@);
    let x = last_by_url(issues, t.web_url@)->0;
    let n = choose|n: int| 0 <= n < issues.len() && issues[n] == x;
    assert(issues[n].web_url@ == t.web_url@);
}

/// Pruning drops exactly the entries that are older than the retention, and
/// changes no other.
pub proof fn law_pruning(h: Handlers, now: u64, k: u64)
    requires
        h.config.spans_fit(),
    ensures
        pruned(h, now).contains_key(k) <==> h.history@.contains_key(k)
            && h.history@[k].spent_at_secs + h.config.history.retention_hours * 3600 >= now,
        pruned(h, now).contains_key(k) ==> pruned(h, now)[k] == h.history@[k],
{
}

proof fn lemma_by_iid(issues: Seq<Issue>, iid: i64)
    ensures
        match last_by_iid(issues, iid) {
            Some(x) => issues.contains(x) && x.iid == iid,
            None => forall|i: int| 0 <= i < issues.len() ==> (#[trigger] issues[i]).iid != iid,
        },
    decreases issues.len(),
{
    if issues.len() > 0 {
        let init = issues.drop_last();
        lemma_by_iid(init, iid);
        assert(issues[issues.len() - 1] == issues.last());
        if issues.last().iid != iid {
            match last_by_iid(init, iid) {
                Some(x) => {
                    let i = choose|i: int| 0 <= i < init.len() && init[i] == x;
                    assert(issues[i] == x);
                },
                None => {
                    assert forall|i: int| 0 <= i < issues.len() implies (#[trigger] issues[i]).iid
                        != iid by {
                        if i < init.len() {
                            assert(init[i] == issues[i]);
                        }
                    }
                },
            }
        }
    }
}

proof fn lemma_mr_by_url(mrs: Seq<&SearchMr>, url: Seq<char>)
    ensures
        match last_mr_by_url(mrs, url) {
            Some(x) => mrs.contains(x) && x.web_url@ == url,
            None => forall|i: int| 0 <= i < mrs.len() ==> (#[trigger] mrs[i]).web_url@ != url,
        },
    decreases mrs.len(),
{
    if mrs.len() > 0 {
        let init = mrs.drop_last();
        lemma_mr_by_url(init, url);
        assert(mrs[mrs.len() - 1] == mrs.last());
        if mrs.last().web_url@ != url {
            match last_mr_by_url(init, url) {
                Some(x) => {
                    let i = choose|i: int| 0 <= i < init.len() && init[i] == x;
                    assert(mrs[i] == x);
                },
                None => {
                    assert forall|i: int| 0 <= i < mrs.len() implies (#[trigger] mrs[i]).web_url@
                        != url by {
                        if i < init.len() {
                            assert(init[i] == mrs[i]);
                        }
                    }
                },
            }
        }
    }
}

/// A timelog of an issue at an address that is not cached takes what it lacks from
/// a cached issue of its number, and one of a merge request from the cached merge
/// request at its address; where nothing is known it stays without.
pub proof fn law_timelogs_are_filled_in_otherwise(
    s: StoredTimelog,
    t: FetchedTimelog,
    issues: Seq<Issue>,
    mrs: Seq<&SearchMr>,
    i: int,
)
    requires
        is_stored(s, t, known_target(t, issues, mrs)),
    ensures
        t.kind is Issue && (forall|n: int|
            0 <= n < issues.len() ==> (#[trigger] issues[n]).web_url@ != t.web_url@) && 0 <= i
            < issues.len() && issues[i].iid == t.iid ==> exists|n: int|
            0 <= n < issues.len() && (#[trigger] issues[n]).iid == t.iid && (t.project_id == 0
                ==> s.project_id == issues[n].project_id) && (t.title@.len() == 0 ==> s.title@
                == issues[n].title@) && (t.web_url@.len() == 0 ==> s.web_url@ == issues[n].web_url@),
        t.kind is MergeRequest && 0 <= i < mrs.len() && mrs[i].web_url@ == t.web_url@ ==> exists|
            n: int,
        |
            0 <= n < mrs.len() && (#[trigger] mrs[n]).web_url@ == t.web_url@ && (t.project_id == 0
                ==> s.project_id == mrs[n].project_id) && (t.title@.len() == 0 ==> s.title@
                == mrs[n].title@),
        t.kind is Issue && (forall|n: int|
            0 <= n < issues.len() ==> (#[trigger] issues[n]).web_url@ != t.web_url@ && issues[n].iid
                != t.iid) && t.project_id == 0 ==> s.project_id == 0,
        t.kind is MergeRequest && (forall|n: int|
            0 <= n < mrs.len() ==> (#[trigger] mrs[n]).web_url@ != t.web_url@) && t.project_id == 0
            ==> s.project_id == 0,
{
    lemma_by_url(issues, t.web_url@);
    lemma_by_iid(issues, t.iid);
    lemma_mr_by_url(mrs, t.web_url@);
    if t.kind is Issue {
        if last_by_url(issues, t.web_url@) is Some {
            let x = last_by_url(issues, t.web_url@)->0;
            let n = choose|n: int| 0 <= n < issues.len() && issues[n] == x;
            assert(issues[n].web_url@ == t.web_url@);
        } else if last_by_iid(issues, t.iid) is Some {
            let x = last_by_iid(issues, t.iid)->0;
            let n = choose|n: int| 0 <= n < issues.len() && issues[n] == x;
            assert(issues[n].iid == t.iid);
        }
    } else if last_mr_by_url(mrs, t.web_url@) is Some {
        let x = last_mr_by_url(mrs, t.web_url@)->0;
        let n = choose|n: int| 0 <= n < mrs.len() && mrs[n] == x;
        assert(mrs[n].web_url@ == t.web_url@);
    }
}

} // verus!
