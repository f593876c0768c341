//! The `Search` method: a read of the search cache, preceded, where a session
//! allows it, by a bounded live lookup whose hits are folded into the cache.

use vstd::prelude::*;
use vstd::string::*;

use crate::api::{Group, Issue, MergeRequest, NotAuthReason, Project};
use crate::config::SearchPopulation;
use crate::db::{rows_of, values_where};
use crate::error::{opt_text, reason_code, reason_detail, DormancyReason, Error};
use crate::handlers::refresh::{board_of, graph_status, graph_status_from};
use crate::handlers::{dormant_args, marks_kept, ConnState, Handlers};
use crate::order::{in_order, sort, sorted, Ranked};
use crate::search::{
    id_key, iid_query, matches_text, noted, parse_iid_query, text_matches, upserted, Corpus, HasId,
    MrAssignee, SearchGroup, SearchIssue, SearchMr, SearchProject,
};
use crate::text::{
    contains_text, debug_quoted, has_text, i64_text, int_text, join, join_texts, joined, lowercased,
    quote_debug, str_eq, texts, to_lowercase, trim, trimmed, Fringe,
};
use crate::time::{seconds, Duration};

verus! {

// ── replies ──────────────────────────────────────────────────────────────────

/// The answer to a varlink call.
#[derive(Debug)]
pub enum Reply<T> {
    Success(T),
    GitlabError(String),
    NotAuthenticated(Option<NotAuthReason>, Option<String>),
}

impl<T> Reply<T> {
    /// Whether the answer is the error with this message.
    pub open spec fn is_error(self, message: Seq<char>) -> bool {
        self matches Reply::GitlabError(m) && m@ == message
    }

    /// Whether the answer is that there is no session, for this reason.
    pub open spec fn is_dormant(self, d: DormancyReason) -> bool {
        self matches Reply::NotAuthenticated(r, t) && r == Some(reason_code(d)) && opt_text(t)
            == reason_detail(d)
    }
}

/// The answer that there is no session.
pub fn not_authenticated<T>(d: &DormancyReason) -> (r: Reply<T>)
    ensures
        r.is_dormant(*d),
{
    let (reason, detail) = dormant_args(d);
    Reply::NotAuthenticated(reason, detail)
}

// ── arguments ────────────────────────────────────────────────────────────────

/// Per-kind cap on results where the caller gives none.
pub const DEFAULT_SEARCH_LIMIT: u64 = 50;

/// The arguments of a search, checked.
#[derive(Debug)]
pub struct SearchArgs {
    pub query: String,
    /// The query trimmed and lowercased.
    pub needle: String,
    /// The kinds that are asked for; none means all.
    pub kinds: Vec<String>,
    pub limit: u64,
}

/// What a search asks for.
pub ghost struct Query {
    pub query: Seq<char>,
    pub needle: Seq<char>,
    pub kinds: Seq<String>,
    pub limit: u64,
}

impl View for SearchArgs {
    type V = Query;

    open spec fn view(&self) -> Query {
        Query {
            query: self.query@,
            needle: self.needle@,
            kinds: self.kinds@,
            limit: self.limit,
        }
    }
}

/// What the arguments of a search ask for.
pub open spec fn asked(query: Seq<char>, kinds: Seq<String>, limit: Option<i64>) -> Query {
    Query {
        query,
        needle: lowercased(trimmed(query, Fringe::Space)),
        kinds,
        limit: match limit {
            Some(n) => n as u64,
            None => DEFAULT_SEARCH_LIMIT,
        },
    }
}

impl Query {
    /// Whether a kind is asked for.
    pub open spec fn wants(self, kind: Seq<char>) -> bool {
        self.kinds.len() == 0 || has_text(self.kinds, kind)
    }
}

/// The kinds that can be asked for.
pub open spec fn known_kind(k: Seq<char>) -> bool {
    k == "issues"@ || k == "merge_requests"@ || k == "projects"@ || k == "groups"@
}

/// The first of `kinds` that cannot be asked for.
pub open spec fn first_unknown(kinds: Seq<String>) -> Option<Seq<char>>
    decreases kinds.len(),
{
    if kinds.len() == 0 {
        None
    } else if known_kind(kinds[0]@) {
        first_unknown(kinds.drop_first())
    } else {
        Some(kinds[0]@)
    }
}

/// What is wrong with the arguments of a search, if anything.
pub open spec fn args_error(query: Seq<char>, kinds: Seq<String>, limit: Option<i64>) -> Option<
    Seq<char>,
> {
    if trimmed(query, Fringe::Space).len() == 0 {
        Some("empty search query"@)
    } else if limit matches Some(n) && n <= 0 {
        Some("invalid limit: "@ + int_text(limit->0 as int))
    } else {
        match first_unknown(kinds) {
            Some(bad) => Some(
                "unknown kind "@ + debug_quoted(bad)
                    + " (expected one of: issues, merge_requests, projects, groups)"@,
            ),
            None => None,
        }
    }
}

/// The kinds of a call that may leave them out.
pub open spec fn kinds_or_none(kinds: Option<Vec<String>>) -> Seq<String> {
    match kinds {
        Some(k) => k@,
        None => Seq::empty(),
    }
}

fn find_unknown(kinds: &Vec<String>) -> (r: Option<&String>)
    ensures
        match r {
            Some(k) => first_unknown(kinds@) == Some(k@),
            None => first_unknown(kinds@) is None,
        },
{
    let mut i: usize = 0;
    proof {
        assert(kinds@.skip(0) =~= kinds@);
    }
    while i < kinds.len()
        invariant
            i <= kinds@.len(),
            first_unknown(kinds@) == first_unknown(kinds@.skip(i as int)),
        decreases kinds@.len() - i,
    {
        proof {
            assert(kinds@.skip(i as int).drop_first() =~= kinds@.skip(i + 1));
        }
        let k = kinds[i].as_str();
        if !(str_eq(k, "issues") || str_eq(k, "merge_requests") || str_eq(k, "projects") || str_eq(
            k,
            "groups",
        )) {
            return Some(&kinds[i]);
        }
        i += 1;
    }
    None
}

/// Checks the arguments of a search before anything is looked up.
pub fn check_args(query: String, kinds: Option<Vec<String>>, limit: Option<i64>) -> (r: Result<
    SearchArgs,
    String,
>)
    ensures
        match args_error(query@, kinds_or_none(kinds), limit) {
            Some(m) => r matches Err(e) && e@ == m,
            None => r matches Ok(a) && a@ == asked(query@, kinds_or_none(kinds), limit),
        },
{
    let t = trim(query.as_str(), Fringe::Space);
    let needle = to_lowercase(t.as_str());
    if needle.as_str().is_empty() {
        return Err("empty search query".to_owned());
    }
    let limit: u64 = match limit {
        None => DEFAULT_SEARCH_LIMIT,
        Some(n) => {
            if n <= 0 {
                let s = i64_text(n);
                return Err(joined("invalid limit: ", s.as_str()));
            }
            n as u64
        },
    };
    let kinds = match kinds {
        Some(k) => k,
        None => Vec::new(),
    };
    match find_unknown(&kinds) {
        Some(bad) => {
            let q = quote_debug(bad.as_str());
            let mut m = joined("unknown kind ", q.as_str());
            m.append(" (expected one of: issues, merge_requests, projects, groups)");
            return Err(m);
        },
        None => {},
    }
    Ok(SearchArgs { query, needle, kinds, limit })
}

impl SearchArgs {
    /// Whether a kind is asked for.
    pub fn want(&self, kind: &str) -> (r: bool)
        ensures
            r == self@.wants(kind@),
    {
        self.kinds.len() == 0 || contains_text(&self.kinds, kind)
    }
}

// ── matching ─────────────────────────────────────────────────────────────────

/// Whether one of `labels` matches.
pub open spec fn label_matches(needle: Seq<char>, labels: Seq<String>) -> bool {
    exists|i: int| 0 <= i < labels.len() && matches_text(needle, (#[trigger] labels[i])@)
}

/// Whether an issue or merge request matches: by its title, by a label, or by
/// the number that the query refers to.
pub open spec fn item_matches(
    needle: Seq<char>,
    reference: Option<i64>,
    title: Seq<char>,
    labels: Seq<String>,
    iid: i64,
) -> bool {
    matches_text(needle, title) || label_matches(needle, labels) || reference == Some(iid)
}

/// Whether an issue or merge request matches the search.
pub fn search_item_matches(
    needle: &str,
    iid_query: Option<i64>,
    title: &str,
    labels: &Vec<String>,
    iid: i64,
) -> (r: bool)
    ensures
        r == item_matches(needle@, iid_query, title@, labels@, iid),
{
    if text_matches(needle, title) {
        return true;
    }
    match iid_query {
        Some(n) => {
            if n == iid {
                return true;
            }
        },
        None => {},
    }
    let mut i: usize = 0;
    while i < labels.len()
        invariant
            i <= labels@.len(),
            forall|j: int| 0 <= j < i ==> !matches_text(needle@, (#[trigger] labels@[j])@),
        decreases labels@.len() - i,
    {
        if text_matches(needle, labels[i].as_str()) {
            return true;
        }
        i += 1;
    }
    false
}

/// Accepts the issues that match.
pub open spec fn issue_matches(needle: Seq<char>, reference: Option<i64>) -> spec_fn(
    u64,
    SearchIssue,
) -> bool {
    |k: u64, i: SearchIssue| item_matches(needle, reference, i.title@, i.labels@, i.iid)
}

/// Accepts the merge requests that match.
pub open spec fn mr_matches(needle: Seq<char>, reference: Option<i64>) -> spec_fn(
    u64,
    SearchMr,
) -> bool {
    |k: u64, m: SearchMr| item_matches(needle, reference, m.title@, m.labels@, m.iid)
}

/// Accepts the projects that match by name or path.
pub open spec fn project_matches(needle: Seq<char>) -> spec_fn(u64, SearchProject) -> bool {
    |k: u64, p: SearchProject| matches_text(needle, p.name@) || matches_text(needle, p.path@)
}

/// Accepts the groups that match by name or path.
pub open spec fn group_matches(needle: Seq<char>) -> spec_fn(u64, SearchGroup) -> bool {
    |k: u64, g: SearchGroup| matches_text(needle, g.name@) || matches_text(needle, g.path@)
}

/// Accepts every live hit, except that a reference query takes only issues that
/// match themselves.
pub open spec fn live_issue_passes(needle: Seq<char>, reference: Option<i64>) -> spec_fn(
    SearchIssue,
) -> bool {
    |i: SearchIssue|
        reference is None || item_matches(needle, reference, i.title@, i.labels@, i.iid)
}

/// Accepts every live hit, except that a reference query takes only merge
/// requests that match themselves.
pub open spec fn live_mr_passes(needle: Seq<char>, reference: Option<i64>) -> spec_fn(
    SearchMr,
) -> bool {
    |m: SearchMr|
        reference is None || item_matches(needle, reference, m.title@, m.labels@, m.iid)
}

/// Accepts everything.
pub open spec fn passes<T>() -> spec_fn(T) -> bool {
    |t: T| true
}

/// Whether one of `local` has an id.
pub open spec fn has_id<T: HasId>(local: Seq<&T>, id: i64) -> bool {
    exists|i: int| 0 <= i < local.len() && (#[trigger] local[i]).spec_id() == id
}

/// The live hits that are not among `local` and pass `keep`, in order.
pub open spec fn fresh_hits<'a, T: HasId>(
    local: Seq<&T>,
    live: Seq<T>,
    keep: spec_fn(T) -> bool,
) -> Seq<&'a T>
    decreases live.len(),
{
    if live.len() == 0 {
        Seq::empty()
    } else {
        let rest = fresh_hits(local, live.drop_last(), keep);
        if !has_id(local, live.last().spec_id()) && keep(live.last()) {
            rest.push(&live.last())
        } else {
            rest
        }
    }
}

/// The local hits, then the live ones that are not among them and pass `keep`.
pub open spec fn merged<'a, T: HasId>(
    local: Seq<&'a T>,
    live: Seq<T>,
    keep: spec_fn(T) -> bool,
) -> Seq<&'a T> {
    local + fresh_hits(local, live, keep)
}

/// Adds the live hits that are not among the local ones, by id, and pass `keep`.
/// GitLab also matches descriptions, which the cache does not hold, so a live hit
/// need not match here.
fn merge_live<'a, T: HasId, F: Fn(&T) -> bool>(
    local: Vec<&'a T>,
    live: &'a Vec<T>,
    keep: F,
    Ghost(p): Ghost<spec_fn(T) -> bool>,
) -> (r: Vec<&'a T>)
    requires
        forall|t: T| #[trigger] keep.requires((&t,)),
        forall|t: T, b: bool| #[trigger] keep.ensures((&t,), b) ==> b == p(t),
    ensures
        r@ == merged(local@, live@, p),
{
    let ghost base = local@;
    let n: usize = local.len();
    let mut r = local;
    let mut i: usize = 0;
    proof {
        assert(base + Seq::<&'a T>::empty() =~= base);
        assert(live@.take(0) =~= Seq::<T>::empty());
    }
    while i < live.len()
        invariant
            i <= live@.len(),
            n == base.len(),
            n <= r@.len(),
            r@ == base + fresh_hits(base, live@.take(i as int), p),
            forall|t: T| #[trigger] keep.requires((&t,)),
            forall|t: T, b: bool| #[trigger] keep.ensures((&t,), b) ==> b == p(t),
        decreases live@.len() - i,
    {
        let t: &'a T = &live[i];
        let id: i64 = t.id();
        let mut seen = false;
        let mut j: usize = 0;
        while j < n && !seen
            invariant
                j <= n == base.len(),
                n <= r@.len(),
                forall|k: int| 0 <= k < n ==> r@[k] == base[k],
                seen ==> has_id(base, id),
                !seen ==> forall|k: int| 0 <= k < j ==> (#[trigger] base[k]).spec_id() != id,
            decreases n - j + if seen { 0int } else { 1int },
        {
            if r[j].id() == id {
                seen = true;
                proof {
                    assert(base[j as int].spec_id() == id);
                }
            } else {
                j += 1;
            }
        }
        proof {
            assert(live@.take(i + 1).drop_last() =~= live@.take(i as int));
            assert(live@.take(i + 1).last() == *t);
            assert(seen == has_id(base, id));
        }
        assert(keep.requires((&*t,)));
        if !seen && keep(t) {
            let ghost r0 = r@;
            r.push(t);
            proof {
                assert(r@ =~= base + fresh_hits(base, live@.take(i + 1), p));
            }
        }
        i += 1;
    }
    proof {
        assert(live@.take(live@.len() as int) =~= live@);
    }
    r
}

/// The first `limit` elements.
pub open spec fn limited<T>(s: Seq<T>, limit: u64) -> Seq<T> {
    if s.len() <= limit {
        s
    } else {
        s.take(limit as int)
    }
}

fn truncated<T>(v: Vec<T>, limit: u64) -> (r: Vec<T>)
    ensures
        r@ == limited(v@, limit),
{
    let mut r = v;
    if (r.len() as u64) > limit {
        r.truncate(limit as usize);
    }
    r
}

// ── the cache read ───────────────────────────────────────────────────────────

/// What a live lookup brought back.
#[derive(Debug)]
pub struct LiveHits {
    pub issues: Vec<SearchIssue>,
    pub mrs: Vec<SearchMr>,
    pub projects: Vec<SearchProject>,
    pub groups: Vec<SearchGroup>,
    /// Whether every kind that was asked for was answered.
    pub complete: bool,
}

/// The hits of a live lookup.
pub ghost struct Live {
    pub issues: Seq<SearchIssue>,
    pub mrs: Seq<SearchMr>,
    pub projects: Seq<SearchProject>,
    pub groups: Seq<SearchGroup>,
}

impl View for LiveHits {
    type V = Live;

    open spec fn view(&self) -> Live {
        Live {
            issues: self.issues@,
            mrs: self.mrs@,
            projects: self.projects@,
            groups: self.groups@,
        }
    }
}

/// A live lookup that brought nothing back.
pub open spec fn no_hits() -> Live {
    Live {
        issues: Seq::empty(),
        mrs: Seq::empty(),
        projects: Seq::empty(),
        groups: Seq::empty(),
    }
}

impl Default for LiveHits {
    fn default() -> (r: Self)
        ensures
            r@ == no_hits(),
            !r.complete,
    {
        LiveHits {
            issues: Vec::new(),
            mrs: Vec::new(),
            projects: Vec::new(),
            groups: Vec::new(),
            complete: false,
        }
    }
}

/// What one kind of a live lookup brought back: nothing where it was not asked
/// for or failed.
pub open spec fn arm_hits<T>(fetched: Option<Result<Vec<T>, Error>>) -> Seq<T> {
    match fetched {
        Some(Ok(v)) => v@,
        _ => Seq::empty(),
    }
}

/// Whether one kind of a live lookup was answered or not asked for.
pub open spec fn arm_ok<T>(fetched: Option<Result<Vec<T>, Error>>) -> bool {
    !(fetched matches Some(Err(_)))
}

fn arm<T>(fetched: Option<Result<Vec<T>, Error>>) -> (r: (Vec<T>, bool))
    ensures
        r.0@ == arm_hits(fetched),
        r.1 == arm_ok(fetched),
{
    match fetched {
        Some(Ok(v)) => (v, true),
        Some(Err(_)) => (Vec::new(), false),
        None => (Vec::new(), true),
    }
}

/// Puts the kinds of a live lookup together. Each fails on its own; `None` is a
/// kind that was not asked for.
pub fn fetch_live_hits(
    issues: Option<Result<Vec<SearchIssue>, Error>>,
    mrs: Option<Result<Vec<SearchMr>, Error>>,
    projects: Option<Result<Vec<SearchProject>, Error>>,
    groups: Option<Result<Vec<SearchGroup>, Error>>,
) -> (r: LiveHits)
    ensures
        r.issues@ == arm_hits(issues),
        r.mrs@ == arm_hits(mrs),
        r.projects@ == arm_hits(projects),
        r.groups@ == arm_hits(groups),
        r.complete == (arm_ok(issues) && arm_ok(mrs) && arm_ok(projects) && arm_ok(groups)),
{
    let i = arm(issues);
    let m = arm(mrs);
    let p = arm(projects);
    let g = arm(groups);
    LiveHits {
        complete: i.1 && m.1 && p.1 && g.1,
        issues: i.0,
        mrs: m.0,
        projects: p.0,
        groups: g.0,
    }
}

/// The results of a search, per kind.
#[derive(Debug)]
pub struct SearchReply {
    pub issues: Vec<Issue>,
    pub merge_requests: Vec<MergeRequest>,
    pub projects: Vec<Project>,
    pub groups: Vec<Group>,
}

/// Whether `w` is what a caller sees of a cached issue: its board status comes
/// from boards that are known already.
pub open spec fn is_wire_issue(w: Issue, i: SearchIssue, boards: Map<u64, Vec<String>>) -> bool {
    &&& w.id == i.id
    &&& w.iid == i.iid
    &&& w.project_id == i.project_id
    &&& w.title == i.title
    &&& w.web_url == i.web_url
    &&& w.state == i.state
    &&& w.parent == i.parent
    &&& w.total_time == i.total_time
    &&& w.graph_status@ == graph_status(board_of(boards, i.project_id), i.labels@, i.state@)
}

/// Whether `w` is what a caller sees of a cached merge request: its assignees by
/// name.
pub open spec fn is_wire_mr(w: MergeRequest, m: SearchMr) -> bool {
    &&& w.id == m.id
    &&& w.iid == m.iid
    &&& w.project_id == m.project_id
    &&& w.title == m.title
    &&& w.web_url == m.web_url
    &&& w.state == m.state
    &&& w.assignees@ == m.assignees@.map_values(|a: MrAssignee| a.username)
}

/// What a caller sees of a cached project.
pub open spec fn wire_project(p: SearchProject) -> Project {
    Project { id: p.id, name: p.name, path: p.path, web_url: p.web_url }
}

/// What a caller sees of a cached group.
pub open spec fn wire_group(g: SearchGroup) -> Group {
    Group { id: g.id, name: g.name, path: g.path, web_url: g.web_url }
}

/// Whether `list` is what a caller sees of cached merge requests, in order.
pub open spec fn are_wire_mrs(list: Seq<MergeRequest>, hits: Seq<&SearchMr>) -> bool {
    &&& list.len() == hits.len()
    &&& forall|i: int| 0 <= i < list.len() ==> is_wire_mr(#[trigger] list[i], *hits[i])
}

/// What a caller sees of a cached merge request.
pub fn wire_mr(m: &SearchMr) -> (r: MergeRequest)
    ensures
        is_wire_mr(r, *m),
{
    let ghost f = |a: MrAssignee| a.username;
    let mut assignees: Vec<String> = Vec::new();
    let mut i: usize = 0;
    while i < m.assignees.len()
        invariant
            i <= m.assignees@.len(),
            f == |a: MrAssignee| a.username,
            assignees@ == m.assignees@.take(i as int).map_values(f),
        decreases m.assignees@.len() - i,
    {
        assignees.push(m.assignees[i].username.clone());
        i += 1;
        proof {
            assert(assignees@ =~= m.assignees@.take(i as int).map_values(f));
        }
    }
    proof {
        assert(m.assignees@.take(m.assignees@.len() as int) =~= m.assignees@);
    }
    MergeRequest {
        id: m.id,
        iid: m.iid,
        project_id: m.project_id,
        title: m.title.clone(),
        web_url: m.web_url.clone(),
        state: m.state.clone(),
        assignees,
    }
}

/// What a caller sees of cached merge requests.
pub fn wire_mrs(hits: &Vec<&SearchMr>) -> (r: Vec<MergeRequest>)
    ensures
        are_wire_mrs(r@, hits@),
{
    let mut r: Vec<MergeRequest> = Vec::new();
    let mut i: usize = 0;
    while i < hits.len()
        invariant
            i <= hits@.len(),
            r@.len() == i,
            forall|j: int| 0 <= j < i ==> is_wire_mr(#[trigger] r@[j], *hits@[j]),
        decreases hits@.len() - i,
    {
        r.push(wire_mr(hits[i]));
        i += 1;
    }
    r
}

/// The issues that a search finds, most recently updated first.
pub open spec fn issue_hits<'a>(c: Corpus, a: Query, live: Seq<SearchIssue>) -> Seq<
    &'a SearchIssue,
> {
    let q = iid_query(a.query);
    if a.wants("issues"@) {
        limited(
            sorted(
                merged(
                    values_where(rows_of(c.issues), issue_matches(a.needle, q)),
                    live,
                    live_issue_passes(a.needle, q),
                ),
            ),
            a.limit,
        )
    } else {
        Seq::empty()
    }
}

/// The merge requests that a search finds, most recently updated first.
pub open spec fn mr_hits<'a>(c: Corpus, a: Query, live: Seq<SearchMr>) -> Seq<&'a SearchMr> {
    let q = iid_query(a.query);
    if a.wants("merge_requests"@) {
        limited(
            sorted(
                merged(
                    values_where(rows_of(c.mrs), mr_matches(a.needle, q)),
                    live,
                    live_mr_passes(a.needle, q),
                ),
            ),
            a.limit,
        )
    } else {
        Seq::empty()
    }
}

/// The projects that a search finds, by path.
pub open spec fn project_hits<'a>(c: Corpus, a: Query, live: Seq<SearchProject>) -> Seq<
    &'a SearchProject,
> {
    if a.wants("projects"@) {
        limited(
            sorted(
                merged(
                    values_where(rows_of(c.projects), project_matches(a.needle)),
                    live,
                    passes(),
                ),
            ),
            a.limit,
        )
    } else {
        Seq::empty()
    }
}

/// The groups that a search finds, by path.
pub open spec fn group_hits<'a>(c: Corpus, a: Query, live: Seq<SearchGroup>) -> Seq<
    &'a SearchGroup,
> {
    if a.wants("groups"@) {
        limited(
            sorted(
                merged(
                    values_where(rows_of(c.groups), group_matches(a.needle)),
                    live,
                    passes(),
                ),
            ),
            a.limit,
        )
    } else {
        Seq::empty()
    }
}

/// Whether `r` holds what a search finds in a corpus and a live lookup.
pub open spec fn is_found(
    r: SearchReply,
    c: Corpus,
    boards: Map<u64, Vec<String>>,
    a: Query,
    live: Live,
) -> bool {
    let issues = issue_hits(c, a, live.issues);
    let projects = project_hits(c, a, live.projects);
    let groups = group_hits(c, a, live.groups);
    &&& r.issues@.len() == issues.len()
    &&& forall|i: int|
        0 <= i < issues.len() ==> is_wire_issue(#[trigger] r.issues@[i], *issues[i], boards)
    &&& are_wire_mrs(r.merge_requests@, mr_hits(c, a, live.mrs))
    &&& r.projects@ == projects.map_values(|p: &SearchProject| wire_project(*p))
    &&& r.groups@ == groups.map_values(|g: &SearchGroup| wire_group(*g))
}

/// Whether `r` answers a search from the cache alone.
pub open spec fn cached_answer(r: Reply<SearchReply>, h: Handlers, a: Query) -> bool {
    if h.search@.stamps.last_partial_sync_secs != 0 {
        r matches Reply::Success(s) && is_found(s, h.search@, h.boards@, a, no_hits())
    } else {
        match h.session {
            ConnState::Connected(_) => {
                r matches Reply::Success(s) && s.issues@.len() == 0 && s.merge_requests@.len() == 0
                    && s.projects@.len() == 0 && s.groups@.len() == 0
            },
            ConnState::Dormant(d) => r.is_dormant(d),
        }
    }
}

impl Handlers {
    /// What a caller sees of a cached issue.
    pub fn wire_search_issue(&self, i: &SearchIssue) -> (r: Issue)
        ensures
            is_wire_issue(r, *i, self.boards@),
    {
        Issue {
            id: i.id,
            iid: i.iid,
            project_id: i.project_id,
            title: i.title.clone(),
            web_url: i.web_url.clone(),
            state: i.state.clone(),
            parent: i.parent.clone(),
            total_time: i.total_time.clone(),
            graph_status: graph_status_from(
                self.boards.get(i.project_id),
                &i.labels,
                i.state.as_str(),
            ),
        }
    }

    fn find_issues(&self, a: &SearchArgs, live: &LiveHits) -> (r: Vec<Issue>)
        ensures
            ({
                let hits = issue_hits(self.search@, a@, live.issues@);
                &&& r@.len() == hits.len()
                &&& forall|i: int|
                    0 <= i < hits.len() ==> is_wire_issue(
                        #[trigger] r@[i],
                        *hits[i],
                        self.boards@,
                    )
            }),
    {
        let mut r: Vec<Issue> = Vec::new();
        if !a.want("issues") {
            return r;
        }
        let q = parse_iid_query(a.query.as_str());
        let needle = a.needle.as_str();
        let wanted = |_k: u64, i: &SearchIssue| -> (b: bool)
            ensures
                b == item_matches(a.needle@, q, i.title@, i.labels@, i.iid),
            { search_item_matches(needle, q, i.title.as_str(), &i.labels, i.iid) };
        let local = self.search.select_issues(wanted, Ghost(issue_matches(a.needle@, q)));
        let keep = |i: &SearchIssue| -> (b: bool)
            ensures
                b == (q is None || item_matches(a.needle@, q, i.title@, i.labels@, i.iid)),
            {
                q.is_none() || search_item_matches(
                    needle,
                    q,
                    i.title.as_str(),
                    &i.labels,
                    i.iid,
                )
            };
        let all = merge_live(local, &live.issues, keep, Ghost(live_issue_passes(a.needle@, q)));
        let hits = truncated(sort(&all), a.limit);
        let mut i: usize = 0;
        while i < hits.len()
            invariant
                i <= hits@.len(),
                r@.len() == i,
                forall|j: int|
                    0 <= j < i ==> is_wire_issue(#[trigger] r@[j], *hits@[j], self.boards@),
            decreases hits@.len() - i,
        {
            r.push(self.wire_search_issue(hits[i]));
            i += 1;
        }
        r
    }

    fn find_mrs(&self, a: &SearchArgs, live: &LiveHits) -> (r: Vec<MergeRequest>)
        ensures
            are_wire_mrs(r@, mr_hits(self.search@, a@, live.mrs@)),
    {
        if !a.want("merge_requests") {
            return Vec::new();
        }
        let q = parse_iid_query(a.query.as_str());
        let needle = a.needle.as_str();
        let wanted = |_k: u64, m: &SearchMr| -> (b: bool)
            ensures
                b == item_matches(a.needle@, q, m.title@, m.labels@, m.iid),
            { search_item_matches(needle, q, m.title.as_str(), &m.labels, m.iid) };
        let local = self.search.select_mrs(wanted, Ghost(mr_matches(a.needle@, q)));
        let keep = |m: &SearchMr| -> (b: bool)
            ensures
                b == (q is None || item_matches(a.needle@, q, m.title@, m.labels@, m.iid)),
            {
                q.is_none() || search_item_matches(
                    needle,
                    q,
                    m.title.as_str(),
                    &m.labels,
                    m.iid,
                )
            };
        let all = merge_live(local, &live.mrs, keep, Ghost(live_mr_passes(a.needle@, q)));
        let hits = truncated(sort(&all), a.limit);
        wire_mrs(&hits)
    }

    fn find_projects(&self, a: &SearchArgs, live: &LiveHits) -> (r: Vec<Project>)
        ensures
            r@ == project_hits(self.search@, a@, live.projects@).map_values(
                |p: &SearchProject| wire_project(*p),
            ),
    {
        let ghost f = |p: &SearchProject| wire_project(*p);
        let mut r: Vec<Project> = Vec::new();
        if !a.want("projects") {
            proof {
                assert(r@ =~= Seq::<&SearchProject>::empty().map_values(f));
            }
            return r;
        }
        let needle = a.needle.as_str();
        let wanted = |_k: u64, p: &SearchProject| -> (b: bool)
            ensures
                b == (matches_text(a.needle@, p.name@) || matches_text(a.needle@, p.path@)),
            { text_matches(needle, p.name.as_str()) || text_matches(needle, p.path.as_str()) };
        let local = self.search.select_projects(wanted, Ghost(project_matches(a.needle@)));
        let keep = |_p: &SearchProject| -> (b: bool)
            ensures
                b,
            { true };
        let all = merge_live(local, &live.projects, keep, Ghost(passes()));
        let hits = truncated(sort(&all), a.limit);
        let mut i: usize = 0;
        while i < hits.len()
            invariant
                i <= hits@.len(),
                f == |p: &SearchProject| wire_project(*p),
                r@ == hits@.take(i as int).map_values(f),
            decreases hits@.len() - i,
        {
            let p = hits[i];
            r.push(
                Project {
                    id: p.id,
                    name: p.name.clone(),
                    path: p.path.clone(),
                    web_url: p.web_url.clone(),
                },
            );
            i += 1;
            proof {
                assert(r@ =~= hits@.take(i as int).map_values(f));
            }
        }
        proof {
            assert(hits@.take(hits@.len() as int) =~= hits@);
        }
        r
    }

    fn find_groups(&self, a: &SearchArgs, live: &LiveHits) -> (r: Vec<Group>)
        ensures
            r@ == group_hits(self.search@, a@, live.groups@).map_values(
                |g: &SearchGroup| wire_group(*g),
            ),
    {
        let ghost f = |g: &SearchGroup| wire_group(*g);
        let mut r: Vec<Group> = Vec::new();
        if !a.want("groups") {
            proof {
                assert(r@ =~= Seq::<&SearchGroup>::empty().map_values(f));
            }
            return r;
        }
        let needle = a.needle.as_str();
        let wanted = |_k: u64, g: &SearchGroup| -> (b: bool)
            ensures
                b == (matches_text(a.needle@, g.name@) || matches_text(a.needle@, g.path@)),
            { text_matches(needle, g.name.as_str()) || text_matches(needle, g.path.as_str()) };
        let local = self.search.select_groups(wanted, Ghost(group_matches(a.needle@)));
        let keep = |_g: &SearchGroup| -> (b: bool)
            ensures
                b,
            { true };
        let all = merge_live(local, &live.groups, keep, Ghost(passes()));
        let hits = truncated(sort(&all), a.limit);
        let mut i: usize = 0;
        while i < hits.len()
            invariant
                i <= hits@.len(),
                f == |g: &SearchGroup| wire_group(*g),
                r@ == hits@.take(i as int).map_values(f),
            decreases hits@.len() - i,
        {
            let g = hits[i];
            r.push(
                Group {
                    id: g.id,
                    name: g.name.clone(),
                    path: g.path.clone(),
                    web_url: g.web_url.clone(),
                },
            );
            i += 1;
            proof {
                assert(r@ =~= hits@.take(i as int).map_values(f));
            }
        }
        proof {
            assert(hits@.take(hits@.len() as int) =~= hits@);
        }
        r
    }

    /// The answer to a search, from the cache and what a live lookup brought
    /// back. Without a live lookup, a cache that was never synced is answered by
    /// the reason for having no session, or, while the first sync is pending, by
    /// nothing found.
    pub fn search_impl(&self, a: &SearchArgs, live: Option<&LiveHits>) -> (r: Reply<SearchReply>)
        ensures
            match live {
                Some(hits) => r matches Reply::Success(s) && is_found(
                    s,
                    self.search@,
                    self.boards@,
                    a@,
                    hits@,
                ),
                None => cached_answer(r, *self, a@),
            },
    {
        let none = LiveHits::default();
        let hits: &LiveHits = match live {
            Some(h) => h,
            None => {
                if self.search.stamps().last_partial_sync_secs == 0 {
                    return match &self.session {
                        ConnState::Connected(_) => Reply::Success(
                            SearchReply {
                                issues: Vec::new(),
                                merge_requests: Vec::new(),
                                projects: Vec::new(),
                                groups: Vec::new(),
                            },
                        ),
                        ConnState::Dormant(d) => not_authenticated(d),
                    };
                }
                &none
            },
        };
        let s = SearchReply {
            issues: self.find_issues(a, hits),
            merge_requests: self.find_mrs(a, hits),
            projects: self.find_projects(a, hits),
            groups: self.find_groups(a, hits),
        };
        proof {
            assert(is_found(s, self.search@, self.boards@, a@, hits@));
        }
        Reply::Success(s)
    }

    /// The answer to a search from the cache alone.
    pub fn search_cached(&self, query: String, kinds: Option<Vec<String>>, limit: Option<i64>) -> (r:
        Reply<SearchReply>)
        ensures
            match args_error(query@, kinds_or_none(kinds), limit) {
                Some(m) => r.is_error(m),
                None => cached_answer(r, *self, asked(query@, kinds_or_none(kinds), limit)),
            },
    {
        match check_args(query, kinds, limit) {
            Ok(a) => self.search_impl(&a, None),
            Err(m) => Reply::GitlabError(m),
        }
    }
}

// ── the live lookup ──────────────────────────────────────────────────────────

/// Whether searches may ask GitLab: not where the cache is filled eagerly.
pub open spec fn looks_live(p: SearchPopulation) -> bool {
    p == SearchPopulation::Auto || p == SearchPopulation::TrackedProjects
}

/// What identical searches have in common: the needle, and the kinds in any
/// order.
pub open spec fn live_key(a: Query) -> Seq<char> {
    a.needle + "\u{1f}"@ + join_texts(texts(sorted(a.kinds)), ","@)
}

/// `now - then`, or zero.
pub open spec fn elapsed(now: nat, then: nat) -> nat {
    if now >= then {
        (now - then) as nat
    } else {
        0
    }
}

/// Whether a lookup under `key` completed within the window.
pub open spec fn debounced(
    recent: Seq<(String, Duration)>,
    key: Seq<char>,
    window: nat,
    now: nat,
) -> bool {
    exists|i: int|
        0 <= i < recent.len() && (#[trigger] recent[i]).0@ == key && elapsed(now, recent[i].1@)
            < window
}

/// Accepts the lookups that completed within the window, under another key.
pub open spec fn still_recent(key: Seq<char>, window: nat, now: nat) -> spec_fn(
    (String, Duration),
) -> bool {
    |e: (String, Duration)| elapsed(now, e.1@) < window && e.0@ != key
}

/// What a search does about a live lookup.
#[derive(Debug)]
pub enum LiveStep {
    /// There is none: the cache is filled eagerly, or there is no session.
    NotInPlay,
    /// An identical one has just completed: the cache is up to date.
    Debounced,
    /// Ask GitLab, per kind for so many results and in all for so long.
    Lookup { client: u64, limit: u64, deadline: Duration, key: String },
}

fn key_of_search(a: &SearchArgs) -> (r: String)
    ensures
        r@ == live_key(a@),
{
    let kinds = crate::order::into_sorted(crate::search::clone_texts(&a.kinds));
    let k = join(&kinds, ",");
    let mut r = joined(a.needle.as_str(), "\u{1f}");
    r.append(k.as_str());
    r
}

impl Handlers {
    /// Whether a lookup under `key` completed within the window.
    pub fn live_debounced(&self, key: &str, window: Duration, now: Duration) -> (r: bool)
        ensures
            r == debounced(self.live_search_recent@, key@, window@, now@),
    {
        let mut i: usize = 0;
        while i < self.live_search_recent.len()
            invariant
                i <= self.live_search_recent@.len(),
                forall|j: int|
                    0 <= j < i ==> !((#[trigger] self.live_search_recent@[j]).0@ == key@ && elapsed(
                        now@,
                        self.live_search_recent@[j].1@,
                    ) < window@),
            decreases self.live_search_recent@.len() - i,
        {
            let e = &self.live_search_recent[i];
            if str_eq(e.0.as_str(), key) && now.saturating_sub(e.1).is_below(&window) {
                return true;
            }
            i += 1;
        }
        false
    }

    /// Remembers that a lookup under `key` completed, and forgets those whose
    /// window has passed.
    pub fn record_live_search(&mut self, key: String, window: Duration, now: Duration)
        ensures
            *final(self) == (Handlers {
                live_search_recent: final(self).live_search_recent,
                ..*old(self)
            }),
            final(self).live_search_recent@ == if window@ == 0 {
                old(self).live_search_recent@
            } else {
                old(self).live_search_recent@.filter(still_recent(key@, window@, now@)).push(
                    (key, now),
                )
            },
    {
        if window.is_zero() {
            return;
        }
        let mut taken: Vec<(String, Duration)> = Vec::new();
        std::mem::swap(&mut taken, &mut self.live_search_recent);
        let ghost all = taken@;
        let ghost p = still_recent(key@, window@, now@);
        let mut rest = crate::order::reversed(taken);
        let mut kept: Vec<(String, Duration)> = Vec::new();
        proof {
            reveal(Seq::filter);
            assert(all.skip(0) =~= all);
            assert(all.take(0) =~= Seq::<(String, Duration)>::empty());
        }
        while rest.len() > 0
            invariant
                p == still_recent(key@, window@, now@),
                rest@.len() <= all.len(),
                rest@ == all.skip(all.len() - rest@.len()).reverse(),
                kept@ == all.take(all.len() - rest@.len()).filter(p),
            decreases rest@.len(),
        {
            let ghost n = all.len() - rest@.len();
            let ghost r0 = rest@;
            match rest.pop() {
                Some(e) => {
                    proof {
                        reveal(Seq::filter);
                        assert(r0.reverse() =~= all.skip(n));
                        assert(r0.reverse()[0] == e);
                        assert(all[n] == e);
                        assert(all.take(n + 1).drop_last() =~= all.take(n));
                        assert(rest@ =~= all.skip(n + 1).reverse());
                    }
                    if now.saturating_sub(e.1).is_below(&window) && !str_eq(
                        e.0.as_str(),
                        key.as_str(),
                    ) {
                        kept.push(e);
                    }
                },
                None => {},
            }
        }
        proof {
            assert(all.take(all.len() as int) =~= all);
        }
        kept.push((key, now));
        self.live_search_recent = kept;
    }

    /// What a search that passed its checks does about a live lookup at `now`.
    pub fn live_search(&self, a: &SearchArgs, now: Duration) -> (r: LiveStep)
        ensures
            match (looks_live(self.config.search.population), self.session) {
                (true, ConnState::Connected(s)) => if debounced(
                    self.live_search_recent@,
                    live_key(a@),
                    seconds(self.config.search.live_debounce_secs as nat),
                    now@,
                ) {
                    r is Debounced
                } else {
                    r matches LiveStep::Lookup { client, limit, deadline, key } && client
                        == s.client && limit == self.config.search.live_limit && deadline@
                        == self.config.search.live_deadline_ms * 1_000_000 && key@ == live_key(a@)
                },
                _ => r is NotInPlay,
            },
    {
        let live: bool = match self.config.search.population {
            SearchPopulation::Auto => true,
            SearchPopulation::TrackedProjects => true,
            _ => false,
        };
        if !live {
            return LiveStep::NotInPlay;
        }
        let client: u64 = match &self.session {
            ConnState::Connected(s) => s.client,
            ConnState::Dormant(_) => {
                return LiveStep::NotInPlay;
            },
        };
        let key = key_of_search(a);
        if self.live_debounced(key.as_str(), self.config.search.live_debounce(), now) {
            return LiveStep::Debounced;
        }
        LiveStep::Lookup {
            client,
            limit: self.config.search.live_limit,
            deadline: self.config.search.live_deadline(),
            key,
        }
    }
}

/// An issue that a live lookup found, with an epic or a time that it lacks taken
/// from the cached entry.
pub open spec fn patched(hit: SearchIssue, m: Map<u64, SearchIssue>) -> SearchIssue {
    let k = id_key(hit.id);
    if m.contains_key(k) {
        SearchIssue {
            parent: if hit.parent@.len() == 0 {
                m[k].parent
            } else {
                hit.parent
            },
            total_time: if hit.total_time@.len() == 0 {
                m[k].total_time
            } else {
                hit.total_time
            },
            ..hit
        }
    } else {
        hit
    }
}

/// Whether `list` holds the found issues, patched.
pub open spec fn are_patched(
    list: Seq<SearchIssue>,
    hits: Seq<SearchIssue>,
    m: Map<u64, SearchIssue>,
) -> bool {
    &&& list.len() == hits.len()
    &&& forall|i: int|
        0 <= i < list.len() ==> crate::search::same_issue(#[trigger] list[i], patched(hits[i], m))
}

/// Whether `list` holds the found merge requests.
pub open spec fn are_copies(list: Seq<SearchMr>, hits: Seq<SearchMr>) -> bool {
    &&& list.len() == hits.len()
    &&& forall|i: int| 0 <= i < list.len() ==> crate::search::same_mr(#[trigger] list[i], hits[i])
}

/// The projects of the found issues and merge requests that the user is a member
/// of: those among the cached projects.
pub open spec fn member_projects(c: Corpus, hits: Live) -> Seq<i64> {
    let all = hits.issues.map_values(|i: SearchIssue| i.project_id) + hits.mrs.map_values(
        |m: SearchMr| m.project_id,
    );
    all.filter(|p: i64| c.projects.contains_key(id_key(p)))
}

/// Whether `after` is the corpus `c` with what a live lookup found folded in.
pub open spec fn is_absorbed(c: Corpus, after: Corpus, hits: Live, now: u64) -> bool {
    exists|issues: Seq<SearchIssue>, mrs: Seq<SearchMr>|
        #![trigger are_patched(issues, hits.issues, c.issues), are_copies(mrs, hits.mrs)]
        {
            &&& are_patched(issues, hits.issues, c.issues)
            &&& are_copies(mrs, hits.mrs)
            &&& after == (Corpus {
                issues: upserted(c.issues, issues),
                mrs: upserted(c.mrs, mrs),
                projects: upserted(c.projects, hits.projects),
                groups: upserted(c.groups, hits.groups),
                tracked_set: noted(c.tracked_set, member_projects(c, hits), now),
                ..c
            })
        }
}

fn copy_projects(v: &Vec<SearchProject>) -> (r: Vec<SearchProject>)
    ensures
        r@ == v@,
{
    let mut r: Vec<SearchProject> = Vec::new();
    let mut i: usize = 0;
    while i < v.len()
        invariant
            i <= v@.len(),
            r@ == v@.take(i as int),
        decreases v@.len() - i,
    {
        r.push(v[i].clone());
        i += 1;
        proof {
            assert(r@ =~= v@.take(i as int));
        }
    }
    proof {
        assert(v@.take(v@.len() as int) =~= v@);
    }
    r
}

fn copy_groups(v: &Vec<SearchGroup>) -> (r: Vec<SearchGroup>)
    ensures
        r@ == v@,
{
    let mut r: Vec<SearchGroup> = Vec::new();
    let mut i: usize = 0;
    while i < v.len()
        invariant
            i <= v@.len(),
            r@ == v@.take(i as int),
        decreases v@.len() - i,
    {
        r.push(v[i].clone());
        i += 1;
        proof {
            assert(r@ =~= v@.take(i as int));
        }
    }
    proof {
        assert(v@.take(v@.len() as int) =~= v@);
    }
    r
}

fn copy_mrs(v: &Vec<SearchMr>) -> (r: Vec<SearchMr>)
    ensures
        are_copies(r@, v@),
{
    let mut r: Vec<SearchMr> = Vec::new();
    let mut i: usize = 0;
    while i < v.len()
        invariant
            i <= v@.len(),
            r@.len() == i,
            forall|j: int| 0 <= j < i ==> crate::search::same_mr(#[trigger] r@[j], v@[j]),
        decreases v@.len() - i,
    {
        r.push(v[i].clone());
        i += 1;
    }
    r
}

impl Handlers {
    fn patch_issues(&self, hits: &Vec<SearchIssue>) -> (r: Vec<SearchIssue>)
        ensures
            are_patched(r@, hits@, self.search@.issues),
    {
        let mut r: Vec<SearchIssue> = Vec::new();
        let mut i: usize = 0;
        while i < hits.len()
            invariant
                i <= hits@.len(),
                r@.len() == i,
                forall|j: int|
                    0 <= j < i ==> crate::search::same_issue(
                        #[trigger] r@[j],
                        patched(hits@[j], self.search@.issues),
                    ),
            decreases hits@.len() - i,
        {
            let mut hit = hits[i].clone();
            match self.search.issue_by_id(hit.id) {
                Some(prev) => {
                    if hit.parent.as_str().is_empty() {
                        hit.parent = prev.parent.clone();
                    }
                    if hit.total_time.as_str().is_empty() {
                        hit.total_time = prev.total_time.clone();
                    }
                },
                None => {},
            }
            r.push(hit);
            i += 1;
        }
        r
    }

    fn members_among(&self, hits: &LiveHits) -> (r: Vec<i64>)
        ensures
            r@ == member_projects(self.search@, hits@),
    {
        let ghost c = self.search@;
        let ghost p = |p: i64| c.projects.contains_key(id_key(p));
        let ghost all = hits@.issues.map_values(|i: SearchIssue| i.project_id)
            + hits@.mrs.map_values(|m: SearchMr| m.project_id);
        let n: usize = hits.issues.len();
        let mut r: Vec<i64> = Vec::new();
        let mut i: usize = 0;
        proof {
            reveal(Seq::filter);
            assert(all.take(0) =~= Seq::<i64>::empty());
        }
        while i < n
            invariant
                i <= n == hits.issues@.len(),
                c == self.search@,
                p == |p: i64| c.projects.contains_key(id_key(p)),
                all == hits@.issues.map_values(|i: SearchIssue| i.project_id)
                    + hits@.mrs.map_values(|m: SearchMr| m.project_id),
                r@ == all.take(i as int).filter(p),
            decreases n - i,
        {
            let id: i64 = hits.issues[i].project_id;
            proof {
                reveal(Seq::filter);
                assert(all.take(i + 1).drop_last() =~= all.take(i as int));
                assert(all.take(i + 1).last() == id);
            }
            if self.search.has_project(id) {
                r.push(id);
            }
            i += 1;
        }
        let mut j: usize = 0;
        while j < hits.mrs.len()
            invariant
                j <= hits.mrs@.len(),
                n == hits.issues@.len(),
                c == self.search@,
                p == |p: i64| c.projects.contains_key(id_key(p)),
                all == hits@.issues.map_values(|i: SearchIssue| i.project_id)
                    + hits@.mrs.map_values(|m: SearchMr| m.project_id),
                r@ == all.take(n + j).filter(p),
            decreases hits.mrs@.len() - j,
        {
            let id: i64 = hits.mrs[j].project_id;
            proof {
                reveal(Seq::filter);
                assert(all.take(n + j + 1).drop_last() =~= all.take(n + j));
                assert(all.take(n + j + 1).last() == id);
            }
            if self.search.has_project(id) {
                r.push(id);
            }
            j += 1;
        }
        proof {
            assert(all.take(all.len() as int) =~= all);
            assert(member_projects(c, hits@) == all.filter(p));
        }
        r
    }

    /// Folds what a live lookup found into the cache, and notes evidence for the
    /// projects among it that the user is a member of. While a sync runs nothing
    /// is cached: the answer still carries the hits.
    pub fn absorb_live_hits(&mut self, hits: &LiveHits, now: u64)
        ensures
            marks_kept(*old(self), *final(self)),
            *final(self) == (Handlers { search: final(self).search, ..*old(self) }),
            final(self).search.syncing() == old(self).search.syncing(),
            if old(self).search.syncing() || hits@ == no_hits() {
                final(self).search@ == old(self).search@
            } else {
                is_absorbed(old(self).search@, final(self).search@, hits@, now)
            },
    {
        if hits.issues.len() == 0 && hits.mrs.len() == 0 && hits.projects.len() == 0
            && hits.groups.len() == 0 {
            proof {
                assert(hits@.issues =~= Seq::empty());
                assert(hits@.mrs =~= Seq::empty());
                assert(hits@.projects =~= Seq::empty());
                assert(hits@.groups =~= Seq::empty());
            }
            return;
        }
        if self.search.is_syncing() {
            return;
        }
        let issues = self.patch_issues(&hits.issues);
        let mrs = copy_mrs(&hits.mrs);
        let members = self.members_among(hits);
        let ghost c = self.search@;
        let ghost gi = issues@;
        let ghost gm = mrs@;
        match self.search.try_begin_sync() {
            Some(guard) => {
                guard.upsert_issues(&mut self.search, issues);
                guard.upsert_mrs(&mut self.search, mrs);
                guard.upsert_projects(&mut self.search, copy_projects(&hits.projects));
                guard.upsert_groups(&mut self.search, copy_groups(&hits.groups));
                guard.note_tracked(&mut self.search, &members, now);
                guard.end(&mut self.search);
                proof {
                    assert(are_patched(gi, hits@.issues, c.issues));
                    assert(are_copies(gm, hits@.mrs));
                }
            },
            None => {},
        }
    }

    /// Ends a live lookup that came back in time: one that was answered in full
    /// holds off identical ones for a while, and what it found is cached.
    pub fn live_done(&mut self, key: String, hits: &LiveHits, clock: Duration, now: u64)
        ensures
            marks_kept(*old(self), *final(self)),
            *final(self) == (Handlers {
                search: final(self).search,
                live_search_recent: final(self).live_search_recent,
                ..*old(self)
            }),
            final(self).live_search_recent@ == if hits.complete
                && old(self).config.search.live_debounce_secs > 0 {
                old(self).live_search_recent@.filter(
                    still_recent(
                        key@,
                        seconds(old(self).config.search.live_debounce_secs as nat),
                        clock@,
                    ),
                ).push((key, clock))
            } else {
                old(self).live_search_recent@
            },
            final(self).search.syncing() == old(self).search.syncing(),
            if old(self).search.syncing() || hits@ == no_hits() {
                final(self).search@ == old(self).search@
            } else {
                is_absorbed(old(self).search@, final(self).search@, hits@, now)
            },
    {
        if hits.complete {
            let window = self.config.search.live_debounce();
            self.record_live_search(key, window, clock);
        }
        self.absorb_live_hits(hits, now);
    }
}

/// How a search goes on.
#[derive(Debug)]
pub enum SearchStep {
    Answered(Reply<SearchReply>),
    /// Ask GitLab for each kind that is asked for, per kind for so many results
    /// and in all for so long, then report what came back.
    Lookup { args: SearchArgs, client: u64, limit: u64, deadline: Duration, key: String },
}

/// Whether a search that starts at `now` goes on with `r`: refused over its
/// arguments, answered from the cache, or with a live lookup first.
pub open spec fn search_started(
    h: Handlers,
    r: SearchStep,
    query: Seq<char>,
    kinds: Seq<String>,
    limit: Option<i64>,
    now: nat,
) -> bool {
    match args_error(query, kinds, limit) {
        Some(m) => r matches SearchStep::Answered(reply) && reply.is_error(m),
        None => {
            let a = asked(query, kinds, limit);
            match (looks_live(h.config.search.population), h.session) {
                (true, ConnState::Connected(s)) => if debounced(
                    h.live_search_recent@,
                    live_key(a),
                    seconds(h.config.search.live_debounce_secs as nat),
                    now,
                ) {
                    r matches SearchStep::Answered(Reply::Success(v)) && is_found(
                        v,
                        h.search@,
                        h.boards@,
                        a,
                        no_hits(),
                    )
                } else {
                    r matches SearchStep::Lookup { args, client, limit: n, deadline, key } && args@
                        == a && client == s.client && n == h.config.search.live_limit && deadline@
                        == h.config.search.live_deadline_ms * 1_000_000 && key@ == live_key(a)
                },
                _ => r matches SearchStep::Answered(reply) && cached_answer(reply, h, a),
            }
        },
    }
}

impl Handlers {
    /// Starts a search at `now`: refused over its arguments, answered from the
    /// cache, or a live lookup comes first.
    pub fn search(
        &self,
        query: String,
        kinds: Option<Vec<String>>,
        limit: Option<i64>,
        now: Duration,
    ) -> (r: SearchStep)
        ensures
            search_started(*self, r, query@, kinds_or_none(kinds), limit, now@),
    {
        let args = match check_args(query, kinds, limit) {
            Ok(a) => a,
            Err(m) => {
                return SearchStep::Answered(Reply::GitlabError(m));
            },
        };
        match self.live_search(&args, now) {
            LiveStep::NotInPlay => SearchStep::Answered(self.search_impl(&args, None)),
            LiveStep::Debounced => {
                let none = LiveHits::default();
                SearchStep::Answered(self.search_impl(&args, Some(&none)))
            },
            LiveStep::Lookup { client, limit, deadline, key } => SearchStep::Lookup {
                args,
                client,
                limit,
                deadline,
                key,
            },
        }
    }

    /// Ends a search whose live lookup came back, or with `None` did not in time:
    /// what was found is cached and answered together with the cache. However the
    /// lookup went, the session and the stamps stay as they are.
    pub fn search_done(
        &mut self,
        args: &SearchArgs,
        key: String,
        hits: Option<LiveHits>,
        clock: Duration,
        now: u64,
    ) -> (r: Reply<SearchReply>)
        ensures
            marks_kept(*old(self), *final(self)),
            *final(self) == (Handlers {
                search: final(self).search,
                live_search_recent: final(self).live_search_recent,
                ..*old(self)
            }),
            final(self).search@.stamps == old(self).search@.stamps,
            match hits {
                None => *final(self) == *old(self),
                Some(h) => {
                    &&& final(self).search.syncing() == old(self).search.syncing()
                    &&& final(self).live_search_recent@ == if h.complete
                        && old(self).config.search.live_debounce_secs > 0 {
                        old(self).live_search_recent@.filter(
                            still_recent(
                                key@,
                                seconds(old(self).config.search.live_debounce_secs as nat),
                                clock@,
                            ),
                        ).push((key, clock))
                    } else {
                        old(self).live_search_recent@
                    }
                    &&& if old(self).search.syncing() || h@ == no_hits() {
                        final(self).search@ == old(self).search@
                    } else {
                        is_absorbed(old(self).search@, final(self).search@, h@, now)
                    }
                },
            },
            r matches Reply::Success(v) && is_found(
                v,
                final(self).search@,
                final(self).boards@,
                args@,
                match hits {
                    Some(h) => h@,
                    None => no_hits(),
                },
            ),
    {
        match hits {
            Some(h) => {
                self.live_done(key, &h, clock, now);
                self.search_impl(args, Some(&h))
            },
            None => {
                let none = LiveHits::default();
                self.search_impl(args, Some(&none))
            },
        }
    }
}

// ── laws ─────────────────────────────────────────────────────────────────────

proof fn lemma_limited_in_order<T: Ranked>(s: Seq<T>, limit: u64)
    ensures
        limited(sorted(s), limit).len() <= limit,
        limited(sorted(s), limit).len() <= s.len(),
        in_order(limited(sorted(s), limit)),
{
    crate::order::law_sorted(s, |t: T| true);
}

/// A search returns no more of a kind than its limit; issues and merge requests
/// come most recently updated first, projects and groups by path.
pub proof fn law_results_are_limited_and_ordered(c: Corpus, a: Query, live: Live)
    ensures
        issue_hits(c, a, live.issues).len() <= a.limit,
        in_order(issue_hits(c, a, live.issues)),
        mr_hits(c, a, live.mrs).len() <= a.limit,
        in_order(mr_hits(c, a, live.mrs)),
        project_hits(c, a, live.projects).len() <= a.limit,
        in_order(project_hits(c, a, live.projects)),
        group_hits(c, a, live.groups).len() <= a.limit,
        in_order(group_hits(c, a, live.groups)),
{
    let q = iid_query(a.query);
    lemma_limited_in_order(
        merged(
            values_where(rows_of(c.issues), issue_matches(a.needle, q)),
            live.issues,
            live_issue_passes(a.needle, q),
        ),
        a.limit,
    );
    lemma_limited_in_order(
        merged(
            values_where(rows_of(c.mrs), mr_matches(a.needle, q)),
            live.mrs,
            live_mr_passes(a.needle, q),
        ),
        a.limit,
    );
    lemma_limited_in_order(
        merged(
            values_where(rows_of(c.projects), project_matches(a.needle)),
            live.projects,
            passes(),
        ),
        a.limit,
    );
    lemma_limited_in_order(
        merged(values_where(rows_of(c.groups), group_matches(a.needle)), live.groups, passes()),
        a.limit,
    );
}

proof fn lemma_fresh<T: HasId>(local: Seq<&T>, live: Seq<T>, keep: spec_fn(T) -> bool, i: int)
    requires
        0 <= i < fresh_hits(local, live, keep).len(),
    ensures
        !has_id(local, fresh_hits(local, live, keep)[i].spec_id()),
        keep(*fresh_hits(local, live, keep)[i]),
        live.contains(*fresh_hits(local, live, keep)[i]),
    decreases live.len(),
{
    if live.len() > 0 {
        let init = live.drop_last();
        let rest = fresh_hits(local, init, keep);
        if i < rest.len() {
            lemma_fresh(local, init, keep, i);
            let j = choose|j: int| 0 <= j < init.len() && init[j] == *rest[i];
            assert(live[j] == *rest[i]);
        } else {
            assert(live[live.len() - 1] == live.last());
        }
    }
}

/// Merging keeps every local hit in front and adds only live hits, none of which
/// has the id of a local one.
pub proof fn law_merge_dedupes_by_id<T: HasId>(
    local: Seq<&T>,
    live: Seq<T>,
    keep: spec_fn(T) -> bool,
    i: int,
)
    requires
        local.len() <= i < merged(local, live, keep).len(),
    ensures
        merged(local, live, keep).take(local.len() as int) == local,
        !has_id(local, merged(local, live, keep)[i].spec_id()),
        live.contains(*merged(local, live, keep)[i]),
        keep(*merged(local, live, keep)[i]),
{
    assert(merged(local, live, keep).take(local.len() as int) =~= local);
    lemma_fresh(local, live, keep, i - local.len());
}

/// An issue that a search returns either is a cached one that matches or was
/// found by the live lookup; a reference query returns only issues that match.
pub proof fn law_every_issue_is_accounted_for(c: Corpus, a: Query, live: Live, i: int)
    requires
        0 <= i < issue_hits(c, a, live.issues).len(),
    ensures
        ({
            let hit = *issue_hits(c, a, live.issues)[i];
            let q = iid_query(a.query);
            let m = item_matches(a.needle, q, hit.title@, hit.labels@, hit.iid);
            &&& m || live.issues.contains(hit)
            &&& q is Some ==> m
        }),
{
    let q = iid_query(a.query);
    let p = issue_matches(a.needle, q);
    let keep = live_issue_passes(a.needle, q);
    let local = values_where(rows_of(c.issues), p);
    let all = merged(local, live.issues, keep);
    let hits = issue_hits(c, a, live.issues);
    let hit = hits[i];
    crate::order::law_sorted(all, |t: &SearchIssue| true);
    assert(sorted(all)[i] == hit);
    crate::order::lemma_sorted_contains(all, hit);
    assert(sorted(all).contains(hit));
    let j = choose|j: int| 0 <= j < all.len() && all[j] == hit;
    if j < local.len() {
        assert(local[j] == hit);
        crate::db::lemma_values_where(rows_of(c.issues), p, *hit);
    } else {
        lemma_fresh(local, live.issues, keep, j - local.len());
    }
}

proof fn lemma_first_of_sorted<T: Ranked>(s: Seq<T>, limit: u64, x: T)
    requires
        s.contains(x),
    ensures
        limited(sorted(s), limit).contains(x) || (limited(sorted(s), limit).len() == limit
            && forall|i: int|
            0 <= i < limit ==> !x.before(#[trigger] limited(sorted(s), limit)[i])),
{
    crate::order::law_sorted(s, |t: T| true);
    crate::order::lemma_sorted_contains(s, x);
    let all = sorted(s);
    let j = choose|j: int| 0 <= j < all.len() && all[j] == x;
    if all.len() > limit {
        if j < limit {
            assert(limited(all, limit)[j] == x);
        } else {
            assert forall|i: int| 0 <= i < limit implies !x.before(
                #[trigger] limited(all, limit)[i],
            ) by {
                assert(!all[j].before(all[i]));
            }
        }
    }
}

/// A cached issue that matches is found, unless the limit is used up by issues
/// that were updated no earlier.
pub proof fn law_matching_issue_is_found(c: Corpus, a: Query, live: Live, k: u64)
    requires
        c.issues.contains_key(k),
        a.wants("issues"@),
        item_matches(
            a.needle,
            iid_query(a.query),
            c.issues[k].title@,
            c.issues[k].labels@,
            c.issues[k].iid,
        ),
    ensures
        ({
            let hits = issue_hits(c, a, live.issues);
            hits.contains(&c.issues[k]) || (hits.len() == a.limit && forall|i: int|
                0 <= i < hits.len() ==> (#[trigger] hits[i]).updated_at_secs
                    >= c.issues[k].updated_at_secs)
        }),
{
    let q = iid_query(a.query);
    let p = issue_matches(a.needle, q);
    let keep = live_issue_passes(a.needle, q);
    let local = values_where(rows_of(c.issues), p);
    let all = merged(local, live.issues, keep);
    let x = c.issues[k];
    crate::db::lemma_entry_is_listed(c.issues, k);
    crate::db::lemma_values_where(rows_of(c.issues), p, x);
    let j = choose|j: int| 0 <= j < local.len() && local[j] == &x;
    assert(all[j] == &x);
    lemma_first_of_sorted(all, a.limit, &x);
}

/// Whether `needle` stands somewhere in `text`.
pub open spec fn mentions(text: Seq<char>, needle: Seq<char>) -> bool {
    exists|at: int|
        0 <= at && at + needle.len() <= text.len() && #[trigger] text.subrange(
            at,
            at + needle.len(),
        ) == needle
}

proof fn lemma_mentions(needle: Seq<char>, hay: Seq<char>)
    ensures
        matches_text(needle, hay) <==> mentions(lowercased(hay), needle),
{
    let text = lowercased(hay);
    if matches_text(needle, hay) {
        let at = choose|at: int| #[trigger] crate::text::occurs_at(text, needle, at);
        assert(text.subrange(at, at + needle.len()) == needle);
    }
    if mentions(text, needle) {
        let at = choose|at: int|
            0 <= at && at + needle.len() <= text.len() && #[trigger] text.subrange(
                at,
                at + needle.len(),
            ) == needle;
        assert(crate::text::occurs_at(text, needle, at));
    }
}

proof fn lemma_item_mentions(
    needle: Seq<char>,
    reference: Option<i64>,
    title: Seq<char>,
    labels: Seq<String>,
    iid: i64,
)
    ensures
        item_matches(needle, reference, title, labels, iid) <==> mentions(lowercased(title), needle)
            || (exists|l: int|
            0 <= l < labels.len() && mentions(lowercased((#[trigger] labels[l])@), needle))
            || reference == Some(iid),
{
    lemma_mentions(needle, title);
    assert forall|l: int| 0 <= l < labels.len() implies matches_text(
        needle,
        (#[trigger] labels[l])@,
    ) == mentions(lowercased(labels[l]@), needle) by {
        lemma_mentions(needle, labels[l]@);
    }
    if label_matches(needle, labels) {
        let l = choose|l: int| 0 <= l < labels.len() && matches_text(needle, (#[trigger] labels[l])@);
        assert(mentions(lowercased(labels[l]@), needle));
    }
}

proof fn lemma_fresh_has<T: HasId>(local: Seq<&T>, live: Seq<T>, keep: spec_fn(T) -> bool, j: int)
    requires
        0 <= j < live.len(),
        keep(live[j]),
        !has_id(local, live[j].spec_id()),
    ensures
        fresh_hits(local, live, keep).contains(&live[j]),
    decreases live.len(),
{
    let init = live.drop_last();
    let rest = fresh_hits(local, init, keep);
    let all = fresh_hits(local, live, keep);
    if j < init.len() {
        lemma_fresh_has(local, init, keep, j);
        let i = choose|i: int| 0 <= i < rest.len() && rest[i] == &init[j];
        assert(all[i] == &live[j]);
    } else {
        assert(all[rest.len() as int] == &live[j]);
    }
}

/// Whether one of `hits` has an id.
pub open spec fn shows_id<T: HasId>(hits: Seq<&T>, id: i64) -> bool {
    exists|i: int| 0 <= i < hits.len() && (#[trigger] hits[i]).spec_id() == id
}

proof fn lemma_hits<T: HasId + Ranked>(
    m: Map<u64, T>,
    p: spec_fn(u64, T) -> bool,
    live: Seq<T>,
    keep: spec_fn(T) -> bool,
    limit: u64,
)
    ensures
        ({
            let hits = limited(sorted(merged(values_where(rows_of(m), p), live, keep)), limit);
            &&& hits.len() <= limit
            &&& in_order(hits)
            &&& forall|i: int|
                0 <= i < hits.len() ==> (live.contains(*#[trigger] hits[i]) && keep(*hits[i]))
                    || exists|k: u64| #[trigger]
                    m.contains_key(k) && m[k] == *hits[i] && p(k, m[k])
            &&& forall|k: u64| #[trigger]
                m.contains_key(k) && p(k, m[k]) ==> hits.contains(&m[k]) || (hits.len() == limit
                    && forall|i: int|
                    0 <= i < hits.len() ==> !m[k].before(*#[trigger] hits[i]))
            &&& forall|j: int|
                0 <= j < live.len() && keep(#[trigger] live[j]) ==> shows_id(
                    hits,
                    live[j].spec_id(),
                ) || hits.len() == limit
        }),
{
    let local = values_where(rows_of(m), p);
    let all = merged(local, live, keep);
    let hits = limited(sorted(all), limit);
    lemma_limited_in_order(all, limit);
    assert forall|i: int| 0 <= i < hits.len() implies (live.contains(*#[trigger] hits[i]) && keep(
        *hits[i],
    )) || exists|k: u64| #[trigger] m.contains_key(k) && m[k] == *hits[i] && p(k, m[k]) by {
        let hit = hits[i];
        crate::order::law_sorted(all, |t: &T| true);
        assert(sorted(all)[i] == hit);
        crate::order::lemma_sorted_contains(all, hit);
        assert(sorted(all).contains(hit));
        let j = choose|j: int| 0 <= j < all.len() && all[j] == hit;
        if j < local.len() {
            assert(local[j] == hit);
            crate::db::lemma_listed_where(m, p, *hit);
            assert(local.contains(&*hit));
        } else {
            lemma_fresh(local, live, keep, j - local.len());
        }
    }
    assert forall|k: u64| #[trigger] m.contains_key(k) && p(k, m[k]) implies hits.contains(&m[k])
        || (hits.len() == limit && forall|i: int|
        0 <= i < hits.len() ==> !m[k].before(*#[trigger] hits[i])) by {
        let x = &m[k];
        crate::db::lemma_listed_where(m, p, m[k]);
        assert(local.contains(x));
        let j = choose|j: int| 0 <= j < local.len() && local[j] == x;
        assert(all[j] == x);
        lemma_first_of_sorted(all, limit, x);
    }
    assert forall|j: int| 0 <= j < live.len() && keep(#[trigger] live[j]) implies shows_id(
        hits,
        live[j].spec_id(),
    ) || hits.len() == limit by {
        let id = live[j].spec_id();
        if has_id(local, id) {
            let i = choose|i: int| 0 <= i < local.len() && (#[trigger] local[i]).spec_id() == id;
            let x = local[i];
            assert(all[i] == x);
            lemma_first_of_sorted(all, limit, x);
            if hits.contains(x) {
                let n = choose|n: int| 0 <= n < hits.len() && hits[n] == x;
                assert(hits[n].spec_id() == id);
            }
        } else {
            let x = &live[j];
            lemma_fresh_has(local, live, keep, j);
            let fresh = fresh_hits(local, live, keep);
            let n = choose|n: int| 0 <= n < fresh.len() && fresh[n] == x;
            assert(all[local.len() + n] == x);
            lemma_first_of_sorted(all, limit, x);
            if hits.contains(x) {
                let n = choose|n: int| 0 <= n < hits.len() && hits[n] == x;
                assert(hits[n].spec_id() == id);
            }
        }
    }
}

/// Whether a search asks for a kind: it names the kind, or none at all.
pub open spec fn asks_for(a: Query, kind: Seq<char>) -> bool {
    a.kinds.len() == 0 || exists|i: int| 0 <= i < a.kinds.len() && (#[trigger] a.kinds[i])@ == kind
}

/// Whether an issue or a merge request answers to a search, whatever its state:
/// its title or one of its labels mentions the needle, in whatever case, or the
/// query refers to its number.
pub open spec fn answers_to(a: Query, title: Seq<char>, labels: Seq<String>, iid: i64) -> bool {
    ||| mentions(lowercased(title), a.needle)
    ||| exists|l: int| 0 <= l < labels.len() && mentions(lowercased((#[trigger] labels[l])@), a.needle)
    ||| iid_query(a.query) == Some(iid)
}

/// Every cached issue that answers to a search for issues is shown, with all that
/// the cache knows of it, as long as the limit is not used up.
pub proof fn law_cached_issue_is_shown(
    r: SearchReply,
    c: Corpus,
    boards: Map<u64, Vec<String>>,
    a: Query,
    live: Live,
    k: u64,
)
    requires
        is_found(r, c, boards, a, live),
        asks_for(a, "issues"@),
        c.issues.contains_key(k),
        answers_to(a, c.issues[k].title@, c.issues[k].labels@, c.issues[k].iid),
        r.issues@.len() < a.limit,
    ensures
        exists|i: int|
            0 <= i < r.issues@.len() && ({
                let w = #[trigger] r.issues@[i];
                let x = c.issues[k];
                w.id == x.id && w.iid == x.iid && w.project_id == x.project_id && w.title@
                    == x.title@ && w.web_url@ == x.web_url@ && w.state@ == x.state@ && w.parent@
                    == x.parent@ && w.total_time@ == x.total_time@ && w.graph_status@
                    == graph_status(board_of(boards, x.project_id), x.labels@, x.state@)
            }),
{
    let q = iid_query(a.query);
    let x = c.issues[k];
    lemma_item_mentions(a.needle, q, x.title@, x.labels@, x.iid);
    let p = issue_matches(a.needle, q);
    assert(p(k, c.issues[k]));
    lemma_hits(c.issues, p, live.issues, live_issue_passes(a.needle, q), a.limit);
    let hits = issue_hits(c, a, live.issues);
    assert(hits.contains(&x));
    let i = choose|i: int| 0 <= i < hits.len() && hits[i] == &x;
    assert(is_wire_issue(r.issues@[i], *hits[i], boards));
}

/// Every cached merge request that answers to a search for merge requests is
/// shown, whatever its state, as long as the limit is not used up.
pub proof fn law_cached_mr_is_shown(
    r: SearchReply,
    c: Corpus,
    boards: Map<u64, Vec<String>>,
    a: Query,
    live: Live,
    k: u64,
)
    requires
        is_found(r, c, boards, a, live),
        asks_for(a, "merge_requests"@),
        c.mrs.contains_key(k),
        answers_to(a, c.mrs[k].title@, c.mrs[k].labels@, c.mrs[k].iid),
        r.merge_requests@.len() < a.limit,
    ensures
        exists|i: int|
            0 <= i < r.merge_requests@.len() && ({
                let w = #[trigger] r.merge_requests@[i];
                let x = c.mrs[k];
                w.id == x.id && w.iid == x.iid && w.project_id == x.project_id && w.title@
                    == x.title@ && w.web_url@ == x.web_url@ && w.state@ == x.state@
                    && w.assignees@.len() == x.assignees@.len() && forall|n: int|
                    0 <= n < x.assignees@.len() ==> (#[trigger] w.assignees@[n])@
                        == x.assignees@[n].username@
            }),
{
    let q = iid_query(a.query);
    let x = c.mrs[k];
    lemma_item_mentions(a.needle, q, x.title@, x.labels@, x.iid);
    let p = mr_matches(a.needle, q);
    assert(p(k, c.mrs[k]));
    lemma_hits(c.mrs, p, live.mrs, live_mr_passes(a.needle, q), a.limit);
    let hits = mr_hits(c, a, live.mrs);
    assert(hits.contains(&x));
    let i = choose|i: int| 0 <= i < hits.len() && hits[i] == &x;
    assert(is_wire_mr(r.merge_requests@[i], *hits[i]));
}

/// Every cached project whose name or path mentions the needle of a search for
/// projects is shown, as long as the limit is not used up.
pub proof fn law_cached_project_is_shown(
    r: SearchReply,
    c: Corpus,
    boards: Map<u64, Vec<String>>,
    a: Query,
    live: Live,
    k: u64,
)
    requires
        is_found(r, c, boards, a, live),
        asks_for(a, "projects"@),
        c.projects.contains_key(k),
        mentions(lowercased(c.projects[k].name@), a.needle) || mentions(
            lowercased(c.projects[k].path@),
            a.needle,
        ),
        r.projects@.len() < a.limit,
    ensures
        exists|i: int|
            0 <= i < r.projects@.len() && ({
                let w = #[trigger] r.projects@[i];
                let x = c.projects[k];
                w.id == x.id && w.name@ == x.name@ && w.path@ == x.path@ && w.web_url@ == x.web_url@
            }),
{
    let x = c.projects[k];
    lemma_mentions(a.needle, x.name@);
    lemma_mentions(a.needle, x.path@);
    let p = project_matches(a.needle);
    assert(p(k, c.projects[k]));
    lemma_hits(c.projects, p, live.projects, passes(), a.limit);
    let hits = project_hits(c, a, live.projects);
    assert(hits.contains(&x));
    let i = choose|i: int| 0 <= i < hits.len() && hits[i] == &x;
    assert(r.projects@[i] == wire_project(*hits[i]));
}

/// Every cached group whose name or path mentions the needle of a search for
/// groups is shown, as long as the limit is not used up.
pub proof fn law_cached_group_is_shown(
    r: SearchReply,
    c: Corpus,
    boards: Map<u64, Vec<String>>,
    a: Query,
    live: Live,
    k: u64,
)
    requires
        is_found(r, c, boards, a, live),
        asks_for(a, "groups"@),
        c.groups.contains_key(k),
        mentions(lowercased(c.groups[k].name@), a.needle) || mentions(
            lowercased(c.groups[k].path@),
            a.needle,
        ),
        r.groups@.len() < a.limit,
    ensures
        exists|i: int|
            0 <= i < r.groups@.len() && ({
                let w = #[trigger] r.groups@[i];
                let x = c.groups[k];
                w.id == x.id && w.name@ == x.name@ && w.path@ == x.path@ && w.web_url@ == x.web_url@
            }),
{
    let x = c.groups[k];
    lemma_mentions(a.needle, x.name@);
    lemma_mentions(a.needle, x.path@);
    let p = group_matches(a.needle);
    assert(p(k, c.groups[k]));
    lemma_hits(c.groups, p, live.groups, passes(), a.limit);
    let hits = group_hits(c, a, live.groups);
    assert(hits.contains(&x));
    let i = choose|i: int| 0 <= i < hits.len() && hits[i] == &x;
    assert(r.groups@[i] == wire_group(*hits[i]));
}

/// Every live hit of a kind that is asked for is shown, by its id, as long as the
/// limit is not used up: GitLab may have matched what the cache does not hold. A
/// query that refers to a number shows the issues and merge requests among them
/// that answer to it.
pub proof fn law_live_hits_are_shown(
    r: SearchReply,
    c: Corpus,
    boards: Map<u64, Vec<String>>,
    a: Query,
    live: Live,
    j: int,
)
    requires
        is_found(r, c, boards, a, live),
        0 <= j,
    ensures
        asks_for(a, "issues"@) && j < live.issues.len() && r.issues@.len() < a.limit && (iid_query(
            a.query,
        ) is None || answers_to(
            a,
            live.issues[j].title@,
            live.issues[j].labels@,
            live.issues[j].iid,
        )) ==> exists|i: int|
            0 <= i < r.issues@.len() && (#[trigger] r.issues@[i]).id == live.issues[j].id,
        asks_for(a, "merge_requests"@) && j < live.mrs.len() && r.merge_requests@.len() < a.limit
            && (iid_query(a.query) is None || answers_to(
            a,
            live.mrs[j].title@,
            live.mrs[j].labels@,
            live.mrs[j].iid,
        )) ==> exists|i: int|
            0 <= i < r.merge_requests@.len() && (#[trigger] r.merge_requests@[i]).id
                == live.mrs[j].id,
        asks_for(a, "projects"@) && j < live.projects.len() && r.projects@.len() < a.limit
            ==> exists|i: int|
            0 <= i < r.projects@.len() && (#[trigger] r.projects@[i]).id == live.projects[j].id,
        asks_for(a, "groups"@) && j < live.groups.len() && r.groups@.len() < a.limit ==> exists|
            i: int,
        |
            0 <= i < r.groups@.len() && (#[trigger] r.groups@[i]).id == live.groups[j].id,
{
    let q = iid_query(a.query);
    if asks_for(a, "issues"@) && j < live.issues.len() {
        let x = live.issues[j];
        let keep = live_issue_passes(a.needle, q);
        lemma_item_mentions(a.needle, q, x.title@, x.labels@, x.iid);
        lemma_hits(c.issues, issue_matches(a.needle, q), live.issues, keep, a.limit);
        let hits = issue_hits(c, a, live.issues);
        if r.issues@.len() < a.limit && keep(x) {
            assert(keep(live.issues[j]));
            assert(shows_id(hits, x.spec_id()));
            let i = choose|i: int| 0 <= i < hits.len() && (#[trigger] hits[i]).spec_id() == x.id;
            assert(is_wire_issue(r.issues@[i], *hits[i], boards));
        }
    }
    if asks_for(a, "merge_requests"@) && j < live.mrs.len() {
        let x = live.mrs[j];
        let keep = live_mr_passes(a.needle, q);
        lemma_item_mentions(a.needle, q, x.title@, x.labels@, x.iid);
        lemma_hits(c.mrs, mr_matches(a.needle, q), live.mrs, keep, a.limit);
        let hits = mr_hits(c, a, live.mrs);
        if r.merge_requests@.len() < a.limit && keep(x) {
            assert(keep(live.mrs[j]));
            assert(shows_id(hits, x.spec_id()));
            let i = choose|i: int| 0 <= i < hits.len() && (#[trigger] hits[i]).spec_id() == x.id;
            assert(is_wire_mr(r.merge_requests@[i], *hits[i]));
        }
    }
    if asks_for(a, "projects"@) && j < live.projects.len() {
        let x = live.projects[j];
        lemma_hits(c.projects, project_matches(a.needle), live.projects, passes(), a.limit);
        let hits = project_hits(c, a, live.projects);
        let keep = passes::<SearchProject>();
        assert(keep(live.projects[j]));
        if r.projects@.len() < a.limit {
            assert(shows_id(hits, x.spec_id()));
            let i = choose|i: int| 0 <= i < hits.len() && (#[trigger] hits[i]).spec_id() == x.id;
            assert(r.projects@[i] == wire_project(*hits[i]));
        }
    }
    if asks_for(a, "groups"@) && j < live.groups.len() {
        let x = live.groups[j];
        lemma_hits(c.groups, group_matches(a.needle), live.groups, passes(), a.limit);
        let hits = group_hits(c, a, live.groups);
        let keep = passes::<SearchGroup>();
        assert(keep(live.groups[j]));
        if r.groups@.len() < a.limit {
            assert(shows_id(hits, x.spec_id()));
            let i = choose|i: int| 0 <= i < hits.len() && (#[trigger] hits[i]).spec_id() == x.id;
            assert(r.groups@[i] == wire_group(*hits[i]));
        }
    }
}

/// A search shows no issue that does not belong there: each is cached and answers
/// to the search, or is a live hit of a search that does not refer to a number,
/// or answers to it. No kind exceeds the limit.
pub proof fn law_shown_issue_belongs_there(
    r: SearchReply,
    c: Corpus,
    boards: Map<u64, Vec<String>>,
    a: Query,
    live: Live,
    i: int,
)
    requires
        is_found(r, c, boards, a, live),
        0 <= i,
    ensures
        r.issues@.len() <= a.limit,
        r.merge_requests@.len() <= a.limit,
        r.projects@.len() <= a.limit,
        r.groups@.len() <= a.limit,
        i < r.issues@.len() ==> asks_for(a, "issues"@) && exists|x: SearchIssue|
            #![trigger answers_to(a, x.title@, x.labels@, x.iid)]
            r.issues@[i].id == x.id && r.issues@[i].title@ == x.title@ && r.issues@[i].iid == x.iid
                && r.issues@[i].project_id == x.project_id && (answers_to(
                a,
                x.title@,
                x.labels@,
                x.iid,
            ) || iid_query(a.query) is None && live.issues.contains(x)) && (live.issues.contains(x)
                || exists|k: u64| #[trigger] c.issues.contains_key(k) && c.issues[k] == x),
{
    let q = iid_query(a.query);
    law_results_are_limited_and_ordered(c, a, live);
    let issues = issue_hits(c, a, live.issues);
    if i < issues.len() {
        lemma_hits(
            c.issues,
            issue_matches(a.needle, q),
            live.issues,
            live_issue_passes(a.needle, q),
            a.limit,
        );
        let x = *issues[i];
        lemma_item_mentions(a.needle, q, x.title@, x.labels@, x.iid);
        assert(is_wire_issue(r.issues@[i], *issues[i], boards));
        if !(live.issues.contains(x) && live_issue_passes(a.needle, q)(x)) {
            let k = choose|k: u64| #[trigger]
                c.issues.contains_key(k) && c.issues[k] == x && issue_matches(a.needle, q)(
                    k,
                    c.issues[k],
                );
            assert(c.issues.contains_key(k) && c.issues[k] == x);
            assert(answers_to(a, x.title@, x.labels@, x.iid));
        } else {
            assert(answers_to(a, x.title@, x.labels@, x.iid) || q is None);
        }
    }
}

/// A search shows no merge request that does not belong there: each is cached and
/// answers to the search, or is a live hit of a search that does not refer to a
/// number, or answers to it.
pub proof fn law_shown_mr_belongs_there(
    r: SearchReply,
    c: Corpus,
    boards: Map<u64, Vec<String>>,
    a: Query,
    live: Live,
    i: int,
)
    requires
        is_found(r, c, boards, a, live),
        0 <= i,
    ensures
        i < r.merge_requests@.len() ==> asks_for(a, "merge_requests"@) && exists|x: SearchMr|
            #![trigger answers_to(a, x.title@, x.labels@, x.iid)]
            r.merge_requests@[i].id == x.id && r.merge_requests@[i].title@ == x.title@
                && r.merge_requests@[i].iid == x.iid && r.merge_requests@[i].project_id
                == x.project_id && (answers_to(a, x.title@, x.labels@, x.iid) || iid_query(
                a.query,
            ) is None && live.mrs.contains(x)) && (live.mrs.contains(x) || exists|k: u64| #[trigger]
                c.mrs.contains_key(k) && c.mrs[k] == x),
{
    let q = iid_query(a.query);
    law_results_are_limited_and_ordered(c, a, live);
    let mrs = mr_hits(c, a, live.mrs);
    if i < mrs.len() {
        lemma_hits(c.mrs, mr_matches(a.needle, q), live.mrs, live_mr_passes(a.needle, q), a.limit);
        let x = *mrs[i];
        lemma_item_mentions(a.needle, q, x.title@, x.labels@, x.iid);
        assert(is_wire_mr(r.merge_requests@[i], *mrs[i]));
        if !(live.mrs.contains(x) && live_mr_passes(a.needle, q)(x)) {
            let k = choose|k: u64| #[trigger]
                c.mrs.contains_key(k) && c.mrs[k] == x && mr_matches(a.needle, q)(k, c.mrs[k]);
            assert(c.mrs.contains_key(k) && c.mrs[k] == x);
            assert(answers_to(a, x.title@, x.labels@, x.iid));
        } else {
            assert(answers_to(a, x.title@, x.labels@, x.iid) || q is None);
        }
    }
}

/// A search shows no project and no group that does not belong there: each is
/// cached and mentions the needle, or is a live hit.
pub proof fn law_shown_place_belongs_there(
    r: SearchReply,
    c: Corpus,
    boards: Map<u64, Vec<String>>,
    a: Query,
    live: Live,
    i: int,
)
    requires
        is_found(r, c, boards, a, live),
        0 <= i,
    ensures
        i < r.projects@.len() ==> asks_for(a, "projects"@) && exists|x: SearchProject|
            #![trigger mentions(lowercased(x.name@), a.needle)]
            r.projects@[i].id == x.id && r.projects@[i].path@ == x.path@ && (live.projects.contains(x)
                || (mentions(lowercased(x.name@), a.needle) || mentions(
                lowercased(x.path@),
                a.needle,
            )) && exists|k: u64| #[trigger] c.projects.contains_key(k) && c.projects[k] == x),
        i < r.groups@.len() ==> asks_for(a, "groups"@) && exists|x: SearchGroup|
            #![trigger mentions(lowercased(x.name@), a.needle)]
            r.groups@[i].id == x.id && r.groups@[i].path@ == x.path@ && (live.groups.contains(x) || (
            mentions(lowercased(x.name@), a.needle) || mentions(lowercased(x.path@), a.needle))
                && exists|k: u64| #[trigger] c.groups.contains_key(k) && c.groups[k] == x),
{
    law_results_are_limited_and_ordered(c, a, live);
    let projects = project_hits(c, a, live.projects);
    if i < projects.len() {
        lemma_hits(c.projects, project_matches(a.needle), live.projects, passes(), a.limit);
        let x = *projects[i];
        lemma_mentions(a.needle, x.name@);
        lemma_mentions(a.needle, x.path@);
        assert(r.projects@[i] == wire_project(x));
        assert(mentions(lowercased(x.name@), a.needle) || !mentions(lowercased(x.name@), a.needle));
    }
    let groups = group_hits(c, a, live.groups);
    if i < groups.len() {
        lemma_hits(c.groups, group_matches(a.needle), live.groups, passes(), a.limit);
        let x = *groups[i];
        lemma_mentions(a.needle, x.name@);
        lemma_mentions(a.needle, x.path@);
        assert(r.groups@[i] == wire_group(x));
        assert(mentions(lowercased(x.name@), a.needle) || !mentions(lowercased(x.name@), a.needle));
    }
}

/// Issues and merge requests come most recently updated first, and projects and
/// groups by path, so that what the limit cuts off comes later.
pub proof fn law_most_recent_come_first(c: Corpus, a: Query, live: Live, i: int, j: int)
    requires
        0 <= i < j,
    ensures
        j < issue_hits(c, a, live.issues).len() ==> issue_hits(c, a, live.issues)[i].updated_at_secs
            >= issue_hits(c, a, live.issues)[j].updated_at_secs,
        j < mr_hits(c, a, live.mrs).len() ==> mr_hits(c, a, live.mrs)[i].updated_at_secs >= mr_hits(
            c,
            a,
            live.mrs,
        )[j].updated_at_secs,
        j < project_hits(c, a, live.projects).len() ==> !crate::text::text_before(
            project_hits(c, a, live.projects)[j].path@,
            project_hits(c, a, live.projects)[i].path@,
        ),
        j < group_hits(c, a, live.groups).len() ==> !crate::text::text_before(
            group_hits(c, a, live.groups)[j].path@,
            group_hits(c, a, live.groups)[i].path@,
        ),
{
    law_results_are_limited_and_ordered(c, a, live);
    let issues = issue_hits(c, a, live.issues);
    if j < issues.len() {
        assert(!issues[j].before(issues[i]));
    }
    let mrs = mr_hits(c, a, live.mrs);
    if j < mrs.len() {
        assert(!mrs[j].before(mrs[i]));
    }
    let projects = project_hits(c, a, live.projects);
    if j < projects.len() {
        assert(!projects[j].before(projects[i]));
    }
    let groups = group_hits(c, a, live.groups);
    if j < groups.len() {
        assert(!groups[j].before(groups[i]));
    }
}

/// A merge request that answers to a search and is not shown was cut off by the
/// limit, in favour of others that were updated no earlier.
pub proof fn law_matching_mr_is_found(c: Corpus, a: Query, live: Live, k: u64)
    requires
        c.mrs.contains_key(k),
        asks_for(a, "merge_requests"@),
        answers_to(a, c.mrs[k].title@, c.mrs[k].labels@, c.mrs[k].iid),
    ensures
        ({
            let hits = mr_hits(c, a, live.mrs);
            hits.contains(&c.mrs[k]) || (hits.len() == a.limit && forall|i: int|
                0 <= i < hits.len() ==> (#[trigger] hits[i]).updated_at_secs
                    >= c.mrs[k].updated_at_secs)
        }),
{
    let q = iid_query(a.query);
    let x = c.mrs[k];
    lemma_item_mentions(a.needle, q, x.title@, x.labels@, x.iid);
    let p = mr_matches(a.needle, q);
    assert(p(k, c.mrs[k]));
    lemma_hits(c.mrs, p, live.mrs, live_mr_passes(a.needle, q), a.limit);
    let hits = mr_hits(c, a, live.mrs);
    assert forall|i: int| 0 <= i < hits.len() && !x.before(*#[trigger] hits[i]) implies hits[i].updated_at_secs
        >= x.updated_at_secs by {
    }
}

proof fn lemma_all_known(kinds: Seq<String>)
    ensures
        first_unknown(kinds) is None <==> forall|i: int|
            0 <= i < kinds.len() ==> known_kind((#[trigger] kinds[i])@),
        first_unknown(kinds) matches Some(bad) ==> exists|i: int|
            0 <= i < kinds.len() && (#[trigger] kinds[i])@ == bad && !known_kind(bad) && forall|
                j: int,
            |
                0 <= j < i ==> known_kind((#[trigger] kinds[j])@),
    decreases kinds.len(),
{
    if kinds.len() > 0 {
        let rest = kinds.drop_first();
        lemma_all_known(rest);
        if known_kind(kinds[0]@) {
            assert forall|i: int| 0 < i < kinds.len() implies rest[i - 1] == #[trigger] kinds[i] by {
            }
            if first_unknown(rest) is Some {
                let bad = first_unknown(rest)->0;
                let i = choose|i: int|
                    0 <= i < rest.len() && (#[trigger] rest[i])@ == bad && !known_kind(bad) && forall|
                        j: int,
                    |
                        0 <= j < i ==> known_kind((#[trigger] rest[j])@);
                assert(kinds[i + 1]@ == bad);
                assert forall|j: int| 0 <= j < i + 1 implies known_kind((#[trigger] kinds[j])@) by {
                    if j > 0 {
                        assert(known_kind(rest[j - 1]@));
                    }
                }
            }
            if forall|i: int| 0 <= i < rest.len() ==> known_kind((#[trigger] rest[i])@) {
                assert forall|i: int| 0 <= i < kinds.len() implies known_kind(
                    (#[trigger] kinds[i])@,
                ) by {
                    if i > 0 {
                        assert(known_kind(rest[i - 1]@));
                    }
                }
            }
            if forall|i: int| 0 <= i < kinds.len() ==> known_kind((#[trigger] kinds[i])@) {
                assert forall|i: int| 0 <= i < rest.len() implies known_kind(
                    (#[trigger] rest[i])@,
                ) by {
                    assert(known_kind(kinds[i + 1]@));
                }
            }
        } else {
            assert(kinds[0]@ == first_unknown(kinds)->0);
        }
    }
}

/// A search is refused exactly where its query is blank, its limit is not
/// positive, or one of its kinds is none of the four; a search that is not
/// refused looks for the trimmed query in lower case, in the kinds it names, up
/// to the limit that it gives, or to fifty results per kind.
pub proof fn law_search_arguments(query: Seq<char>, kinds: Seq<String>, limit: Option<i64>)
    ensures
        args_error(query, kinds, limit) is None <==> (trimmed(query, Fringe::Space).len() > 0 && (
        limit is None || limit->0 > 0) && forall|i: int|
            0 <= i < kinds.len() ==> ((#[trigger] kinds[i])@ == "issues"@ || kinds[i]@
                == "merge_requests"@ || kinds[i]@ == "projects"@ || kinds[i]@ == "groups"@)),
        args_error(query, kinds, limit) is None ==> ({
            let a = asked(query, kinds, limit);
            &&& a.query == query
            &&& a.needle == lowercased(trimmed(query, Fringe::Space))
            &&& a.kinds == kinds
            &&& limit is None ==> a.limit == 50
            &&& limit matches Some(n) ==> a.limit as int == n as int
        }),
        trimmed(query, Fringe::Space).len() == 0 ==> args_error(query, kinds, limit) == Some(
            "empty search query"@,
        ),
        trimmed(query, Fringe::Space).len() > 0 && limit is Some && limit->0 <= 0 ==> args_error(
            query,
            kinds,
            limit,
        ) == Some("invalid limit: "@ + int_text(limit->0 as int)),
        trimmed(query, Fringe::Space).len() > 0 && (limit is None || limit->0 > 0) && args_error(
            query,
            kinds,
            limit,
        ) is Some ==> exists|i: int|
            0 <= i < kinds.len() && args_error(query, kinds, limit)->0 == "unknown kind "@
                + debug_quoted((#[trigger] kinds[i])@)
                + " (expected one of: issues, merge_requests, projects, groups)"@ && kinds[i]@
                != "issues"@ && kinds[i]@ != "merge_requests"@ && kinds[i]@ != "projects"@
                && kinds[i]@ != "groups"@,
{
    lemma_all_known(kinds);
}

/// Without a lookup, a search is answered from a cache that was ever synced, with
/// or without a session; before the first sync nothing is found while there is a
/// session, and without one the reason is told.
pub proof fn law_search_works_offline(r: Reply<SearchReply>, h: Handlers, a: Query)
    requires
        cached_answer(r, h, a),
    ensures
        h.search@.stamps.last_partial_sync_secs > 0 ==> r is Success && is_found(
            r->Success_0,
            h.search@,
            h.boards@,
            a,
            no_hits(),
        ),
        h.search@.stamps.last_partial_sync_secs == 0 && h.session is Connected ==> r is Success
            && r->Success_0.issues@.len() == 0 && r->Success_0.merge_requests@.len() == 0
            && r->Success_0.projects@.len() == 0 && r->Success_0.groups@.len() == 0,
        h.search@.stamps.last_partial_sync_secs == 0 && h.session is Dormant ==> r
            is NotAuthenticated,
{
}

/// GitLab is asked by a search only with a session, where the cache is not filled
/// eagerly, and unless the same search has just been answered; it is asked through
/// the session's client, for what the configuration says.
pub proof fn law_when_a_search_asks_gitlab(
    h: Handlers,
    r: SearchStep,
    query: Seq<char>,
    kinds: Seq<String>,
    limit: Option<i64>,
    now: nat,
)
    requires
        search_started(h, r, query, kinds, limit, now),
    ensures
        r matches SearchStep::Lookup { args, client, limit: n, deadline, key } ==> {
            &&& h.session matches ConnState::Connected(s) && s.client == client
            &&& h.config.search.population is Auto || h.config.search.population is TrackedProjects
            &&& args.query@ == query
            &&& args.needle@ == lowercased(trimmed(query, Fringe::Space))
            &&& args.kinds@ == kinds
            &&& n == h.config.search.live_limit
            &&& deadline@ == h.config.search.live_deadline_ms * 1_000_000
            &&& forall|i: int|
                0 <= i < h.live_search_recent@.len() ==> (#[trigger] h.live_search_recent@[i]).0@
                    != key@ || h.config.search.live_debounce_secs == 0 || now
                    - h.live_search_recent@[i].1@ >= h.config.search.live_debounce_secs
                    * 1_000_000_000
        },
        !(r is Lookup) && h.session is Connected && (h.config.search.population is Auto
            || h.config.search.population is TrackedProjects) && args_error(query, kinds, limit)
            is None ==> exists|i: int|
            0 <= i < h.live_search_recent@.len() && (#[trigger] h.live_search_recent@[i]).0@
                == live_key(asked(query, kinds, limit)) && now - h.live_search_recent@[i].1@
                < h.config.search.live_debounce_secs * 1_000_000_000,
        r matches SearchStep::Lookup { args, client, limit: n, deadline, key } ==> key@ == live_key(
            asked(query, kinds, limit),
        ),
        args_error(query, kinds, limit) matches Some(m) ==> (r matches SearchStep::Answered(reply)
            && reply.is_error(m)),
        h.session is Dormant && args_error(query, kinds, limit) is None ==> (
        r matches SearchStep::Answered(reply) && cached_answer(
            reply,
            h,
            asked(query, kinds, limit),
        )),
{
    if let SearchStep::Lookup { args, client, limit: n, deadline, key } = r {
        assert forall|i: int| 0 <= i < h.live_search_recent@.len() implies (
        #[trigger] h.live_search_recent@[i]).0@ != key@ || h.config.search.live_debounce_secs == 0
            || now - h.live_search_recent@[i].1@ >= h.config.search.live_debounce_secs
            * 1_000_000_000 by {
            let e = h.live_search_recent@[i];
            if e.0@ == key@ {
                assert(elapsed(now, e.1@) >= seconds(h.config.search.live_debounce_secs as nat));
            }
        }
    }
}

proof fn lemma_noted_only(
    m: Map<u64, crate::search::TrackedProject>,
    ids: Seq<i64>,
    now: u64,
    k: u64,
)
    requires
        noted(m, ids, now).contains_key(k),
    ensures
        m.contains_key(k) || exists|i: int| 0 <= i < ids.len() && id_key(#[trigger] ids[i]) == k,
    decreases ids.len(),
{
    if ids.len() > 0 {
        let init = ids.drop_last();
        if noted(m, init, now).contains_key(k) {
            lemma_noted_only(m, init, now, k);
            if !m.contains_key(k) {
                let i = choose|i: int| 0 <= i < init.len() && id_key(#[trigger] init[i]) == k;
                assert(id_key(ids[i]) == k);
            }
        } else {
            assert(id_key(ids[ids.len() - 1]) == k);
        }
    }
}

/// What a live lookup finds enrolls no project in the background refresh that the
/// user is not a member of.
pub proof fn law_live_hits_enroll_members_only(
    c: Corpus,
    after: Corpus,
    hits: Live,
    now: u64,
    k: u64,
)
    requires
        is_absorbed(c, after, hits, now),
        after.tracked_set.contains_key(k),
        !c.tracked_set.contains_key(k),
    ensures
        c.projects.contains_key(k),
{
    let ids = member_projects(c, hits);
    lemma_noted_only(c.tracked_set, ids, now, k);
    let i = choose|i: int| 0 <= i < ids.len() && id_key(#[trigger] ids[i]) == k;
    let all = hits.issues.map_values(|i: SearchIssue| i.project_id) + hits.mrs.map_values(
        |m: SearchMr| m.project_id,
    );
    lemma_filter_satisfies(all, |p: i64| c.projects.contains_key(id_key(p)), i);
}

/// What a live lookup finds is in the cache afterwards: every hit under its id, an
/// issue or merge request with the title, state, labels and time of update of a
/// hit of that id; what the cache held under other ids stays as it was, and so do
/// the stamps. The projects of hits that the user is a member of count as tracked
/// from then on.
pub proof fn law_live_hits_are_cached(
    c: Corpus,
    after: Corpus,
    hits: Live,
    now: u64,
    j: int,
    k: u64,
)
    requires
        is_absorbed(c, after, hits, now),
    ensures
        after.stamps == c.stamps,
        0 <= j < hits.issues.len() ==> after.issues.contains_key(hits.issues[j].id as u64) && exists|
            n: int,
        |
            0 <= n < hits.issues.len() && ({
                let x = after.issues[hits.issues[j].id as u64];
                let y = #[trigger] hits.issues[n];
                x.id == hits.issues[j].id && y.id == x.id && x.iid == y.iid && x.project_id
                    == y.project_id && x.title@ == y.title@ && x.state@ == y.state@ && x.web_url@
                    == y.web_url@ && x.labels@ == y.labels@ && x.updated_at_secs
                    == y.updated_at_secs
            }),
        0 <= j < hits.mrs.len() ==> after.mrs.contains_key(hits.mrs[j].id as u64) && exists|n: int|
            0 <= n < hits.mrs.len() && ({
                let x = after.mrs[hits.mrs[j].id as u64];
                let y = #[trigger] hits.mrs[n];
                x.id == hits.mrs[j].id && y.id == x.id && x.iid == y.iid && x.project_id
                    == y.project_id && x.title@ == y.title@ && x.state@ == y.state@ && x.web_url@
                    == y.web_url@ && x.labels@ == y.labels@ && x.assignees@ == y.assignees@
                    && x.updated_at_secs == y.updated_at_secs
            }),
        0 <= j < hits.projects.len() ==> after.projects.contains_key(hits.projects[j].id as u64),
        0 <= j < hits.groups.len() ==> after.groups.contains_key(hits.groups[j].id as u64),
        c.issues.contains_key(k) ==> after.issues.contains_key(k),
        c.mrs.contains_key(k) ==> after.mrs.contains_key(k),
        c.projects.contains_key(k) ==> after.projects.contains_key(k),
        c.groups.contains_key(k) ==> after.groups.contains_key(k),
        c.issues.contains_key(k) && (forall|n: int|
            0 <= n < hits.issues.len() ==> (#[trigger] hits.issues[n]).id as u64 != k)
            ==> after.issues[k] == c.issues[k],
        c.mrs.contains_key(k) && (forall|n: int|
            0 <= n < hits.mrs.len() ==> (#[trigger] hits.mrs[n]).id as u64 != k) ==> after.mrs[k]
            == c.mrs[k],
        now > 0 && 0 <= j < hits.issues.len() && c.projects.contains_key(
            hits.issues[j].project_id as u64,
        ) ==> after.tracked_set.contains_key(hits.issues[j].project_id as u64)
            && after.tracked_set[hits.issues[j].project_id as u64].last_evidence_secs >= now,
        now > 0 && 0 <= j < hits.mrs.len() && c.projects.contains_key(
            hits.mrs[j].project_id as u64,
        ) ==> after.tracked_set.contains_key(hits.mrs[j].project_id as u64)
            && after.tracked_set[hits.mrs[j].project_id as u64].last_evidence_secs >= now,
        c.tracked_set.contains_key(k) ==> after.tracked_set.contains_key(k)
            && after.tracked_set[k].last_evidence_secs >= c.tracked_set[k].last_evidence_secs,
{
    let (issues, mrs) = choose|issues: Seq<SearchIssue>, mrs: Seq<SearchMr>|
        #![trigger are_patched(issues, hits.issues, c.issues), are_copies(mrs, hits.mrs)]
        {
            &&& are_patched(issues, hits.issues, c.issues)
            &&& are_copies(mrs, hits.mrs)
            &&& after == (Corpus {
                issues: upserted(c.issues, issues),
                mrs: upserted(c.mrs, mrs),
                projects: upserted(c.projects, hits.projects),
                groups: upserted(c.groups, hits.groups),
                tracked_set: noted(c.tracked_set, member_projects(c, hits), now),
                ..c
            })
        };
    crate::search::lemma_upserted_value(c.issues, issues, k);
    crate::search::lemma_upserted_value(c.mrs, mrs, k);
    crate::search::lemma_upserted_value(c.projects, hits.projects, k);
    crate::search::lemma_upserted_value(c.groups, hits.groups, k);
    if c.issues.contains_key(k) && (forall|n: int|
        0 <= n < hits.issues.len() ==> (#[trigger] hits.issues[n]).id as u64 != k) {
        assert forall|n: int| 0 <= n < issues.len() implies id_key((#[trigger] issues[n]).spec_id())
            != k by {
            assert(hits.issues[n].id as u64 != k);
        }
    }
    if c.mrs.contains_key(k) && (forall|n: int|
        0 <= n < hits.mrs.len() ==> (#[trigger] hits.mrs[n]).id as u64 != k) {
        assert forall|n: int| 0 <= n < mrs.len() implies id_key((#[trigger] mrs[n]).spec_id())
            != k by {
            assert(hits.mrs[n].id as u64 != k);
        }
    }
    let ids = member_projects(c, hits);
    let all = hits.issues.map_values(|i: SearchIssue| i.project_id) + hits.mrs.map_values(
        |m: SearchMr| m.project_id,
    );
    let member = |p: i64| c.projects.contains_key(id_key(p));
    crate::search::law_noting_never_ages(c.tracked_set, ids, now, k);
    if 0 <= j < hits.issues.len() {
        let id = hits.issues[j].id;
        crate::search::law_key_roundtrip(id, k);
        crate::search::lemma_upserted_value(c.issues, issues, id as u64);
        assert(id_key(issues[j].spec_id()) == id as u64);
        let n = choose|n: int|
            0 <= n < issues.len() && id_key((#[trigger] issues[n]).spec_id()) == id as u64
                && upserted(c.issues, issues)[id as u64] == issues[n];
        crate::search::law_key_roundtrip(issues[n].id, k);
        assert(hits.issues[n].id == id);
        let project = hits.issues[j].project_id;
        if member(project) {
            assert(all[j] == project);
            lemma_filter_has(all, member, j);
            let x = choose|x: int| 0 <= x < ids.len() && ids[x] == project;
            assert(id_key(ids[x]) == project as u64);
            crate::search::law_noting_never_ages(c.tracked_set, ids, now, project as u64);
        }
    }
    if 0 <= j < hits.mrs.len() {
        let id = hits.mrs[j].id;
        crate::search::law_key_roundtrip(id, k);
        crate::search::lemma_upserted_value(c.mrs, mrs, id as u64);
        assert(id_key(mrs[j].spec_id()) == id as u64);
        let n = choose|n: int|
            0 <= n < mrs.len() && id_key((#[trigger] mrs[n]).spec_id()) == id as u64 && upserted(
                c.mrs,
                mrs,
            )[id as u64] == mrs[n];
        crate::search::law_key_roundtrip(mrs[n].id, k);
        assert(hits.mrs[n].id == id);
        let project = hits.mrs[j].project_id;
        if member(project) {
            assert(all[hits.issues.len() + j] == project);
            lemma_filter_has(all, member, hits.issues.len() + j);
            let x = choose|x: int| 0 <= x < ids.len() && ids[x] == project;
            assert(id_key(ids[x]) == project as u64);
            crate::search::law_noting_never_ages(c.tracked_set, ids, now, project as u64);
        }
    }
    if 0 <= j < hits.projects.len() {
        crate::search::lemma_upserted_value(c.projects, hits.projects, hits.projects[j].id as u64);
        assert(id_key(hits.projects[j].spec_id()) == hits.projects[j].id as u64);
    }
    if 0 <= j < hits.groups.len() {
        crate::search::lemma_upserted_value(c.groups, hits.groups, hits.groups[j].id as u64);
        assert(id_key(hits.groups[j].spec_id()) == hits.groups[j].id as u64);
    }
}

proof fn lemma_filter_has<T>(s: Seq<T>, p: spec_fn(T) -> bool, i: int)
    requires
        0 <= i < s.len(),
        p(s[i]),
    ensures
        s.filter(p).contains(s[i]),
    decreases s.len(),
{
    reveal(Seq::filter);
    let init = s.drop_last();
    let rest = init.filter(p);
    if i < init.len() {
        lemma_filter_has(init, p, i);
        let j = choose|j: int| 0 <= j < rest.len() && rest[j] == init[i];
        assert(s.filter(p)[j] == s[i]);
    } else {
        assert(s.filter(p)[rest.len() as int] == s[i]);
    }
}

/// A live hit loses nothing that the cache knew: where it comes without an epic or
/// a time, the cached ones stay; what it comes with replaces them.
pub proof fn law_live_issue_keeps_epic_and_time(
    c: Corpus,
    list: Seq<SearchIssue>,
    hits: Seq<SearchIssue>,
    j: int,
)
    requires
        are_patched(list, hits, c.issues),
        0 <= j < hits.len(),
    ensures
        ({
            let k = hits[j].id as u64;
            let x = list[j];
            &&& hits[j].parent@.len() > 0 || !c.issues.contains_key(k) ==> x.parent@
                == hits[j].parent@
            &&& hits[j].parent@.len() == 0 && c.issues.contains_key(k) ==> x.parent@
                == c.issues[k].parent@
            &&& hits[j].total_time@.len() > 0 || !c.issues.contains_key(k) ==> x.total_time@
                == hits[j].total_time@
            &&& hits[j].total_time@.len() == 0 && c.issues.contains_key(k) ==> x.total_time@
                == c.issues[k].total_time@
        }),
{
    assert(crate::search::same_issue(list[j], patched(hits[j], c.issues)));
}

/// A lookup that was recorded holds off identical ones until its window has
/// passed, and no longer; a window of zero holds off none.
pub proof fn law_debounce(
    recent: Seq<(String, Duration)>,
    key: String,
    done: Duration,
    window: nat,
    now: nat,
)
    ensures
        ({
            let after = recent.filter(still_recent(key@, window, done@)).push((key, done));
            debounced(after, key@, window, now) <==> elapsed(now, done@) < window
        }),
        !debounced(recent, key@, 0, now),
{
    let p = still_recent(key@, window, done@);
    let kept = recent.filter(p);
    let after = kept.push((key, done));
    assert(after[after.len() - 1] == (key, done));
    if debounced(after, key@, window, now) {
        let i = choose|i: int|
            0 <= i < after.len() && (#[trigger] after[i]).0@ == key@ && elapsed(now, after[i].1@)
                < window;
        if i < kept.len() {
            lemma_filter_satisfies(recent, p, i);
            assert(kept[i] == after[i]);
        }
    }
}

proof fn lemma_filter_satisfies<T>(s: Seq<T>, p: spec_fn(T) -> bool, i: int)
    requires
        0 <= i < s.filter(p).len(),
    ensures
        p(s.filter(p)[i]),
    decreases s.len(),
{
    reveal(Seq::filter);
    if s.len() > 0 {
        let rest = s.drop_last().filter(p);
        if i < rest.len() {
            lemma_filter_satisfies(s.drop_last(), p, i);
        }
    }
}

/// An error is answered with its message, and nothing else is; a missing session
/// with its reason and detail.
pub proof fn law_answers_say_what_they_mean<T>(
    r: Reply<T>,
    message: Seq<char>,
    d: DormancyReason,
)
    ensures
        r.is_error(message) <==> (r is GitlabError && r->GitlabError_0@ == message),
        r.is_dormant(d) ==> r is NotAuthenticated && r->NotAuthenticated_0 == Some(reason_code(d)),
        r.is_dormant(d) && reason_detail(d) is Some ==> r->NotAuthenticated_1 is Some
            && r->NotAuthenticated_1->0@ == reason_detail(d)->0,
        r.is_dormant(d) && reason_detail(d) is None ==> r->NotAuthenticated_1 is None,
{
}

/// Of each kind a lookup brings back all that GitLab found, and nothing where it
/// was not asked for or failed; only a failure leaves the lookup incomplete.
pub proof fn law_kinds_of_a_lookup<T>(fetched: Option<Result<Vec<T>, Error>>)
    ensures
        fetched matches Some(Ok(v)) ==> arm_hits(fetched) == v@ && arm_ok(fetched),
        fetched is None ==> arm_hits(fetched).len() == 0 && arm_ok(fetched),
        fetched is Some && fetched->0 is Err ==> arm_hits(fetched).len() == 0 && !arm_ok(fetched),
{
}

/// Recording a lookup forgets no other that still holds off its like.
pub proof fn law_recording_keeps_the_others(
    recent: Seq<(String, Duration)>,
    key: String,
    done: Duration,
    window: nat,
    i: int,
)
    requires
        0 <= i < recent.len(),
        recent[i].0@ != key@,
        done@ < recent[i].1@ + window,
        window > 0,
    ensures
        recent.filter(still_recent(key@, window, done@)).push((key, done)).contains(recent[i]),
{
    let p = still_recent(key@, window, done@);
    assert(p(recent[i]));
    lemma_filter_has(recent, p, i);
    let kept = recent.filter(p);
    let j = choose|j: int| 0 <= j < kept.len() && kept[j] == recent[i];
    assert(kept.push((key, done))[j] == recent[i]);
}

proof fn lemma_join_tail(parts: Seq<Seq<char>>)
    requires
        parts.len() > 0,
        forall|j: int| 0 <= j < parts.len() ==> !(#[trigger] parts[j]).contains(','),
    ensures
        ({
            let s = join_texts(parts, seq![',']);
            let last = parts.last();
            &&& s.len() >= last.len()
            &&& s.skip(s.len() - last.len()) == last
            &&& parts.len() == 1 ==> s == last
            &&& parts.len() > 1 ==> s.len() > last.len() && s[s.len() - last.len() - 1] == ','
                && s.take(s.len() - last.len() - 1) == join_texts(parts.drop_last(), seq![','])
        }),
{
    let s = join_texts(parts, seq![',']);
    let last = parts.last();
    if parts.len() > 1 {
        let head = join_texts(parts.drop_last(), seq![',']);
        assert(s == head + seq![','] + last);
        assert(s.skip(s.len() - last.len()) =~= last);
        assert(s.take(s.len() - last.len() - 1) =~= head);
    } else {
        assert(s.skip(0) =~= s);
    }
}

proof fn lemma_join_injective(a: Seq<Seq<char>>, b: Seq<Seq<char>>)
    requires
        join_texts(a, seq![',']) == join_texts(b, seq![',']),
        forall|j: int|
            0 <= j < a.len() ==> !(#[trigger] a[j]).contains(',') && a[j].len() > 0,
        forall|j: int|
            0 <= j < b.len() ==> !(#[trigger] b[j]).contains(',') && b[j].len() > 0,
    ensures
        a == b,
    decreases a.len(),
{
    let s = join_texts(a, seq![',']);
    if a.len() == 0 {
        if b.len() > 0 {
            lemma_join_tail(b);
            assert(b[b.len() - 1].len() > 0);
        }
        assert(a =~= b);
    } else if b.len() == 0 {
        lemma_join_tail(a);
        assert(a[a.len() - 1].len() > 0);
    } else {
        lemma_join_tail(a);
        lemma_join_tail(b);
        let x = a.last();
        let y = b.last();
        assert(a[a.len() - 1] == x && b[b.len() - 1] == y);
        if x.len() < y.len() {
            let at = s.len() - x.len() - 1;
            assert(s.len() >= y.len());
            assert(a.len() > 1);
            assert(s[at] == ',');
            assert(s.skip(s.len() - y.len())[at - (s.len() - y.len())] == ',');
            assert(y[at - (s.len() - y.len())] == ',');
            assert(y.contains(','));
        }
        if y.len() < x.len() {
            let at = s.len() - y.len() - 1;
            assert(s.len() >= x.len());
            assert(b.len() > 1);
            assert(s[at] == ',');
            assert(s.skip(s.len() - x.len())[at - (s.len() - x.len())] == ',');
            assert(x[at - (s.len() - x.len())] == ',');
            assert(x.contains(','));
        }
        assert(x == y);
        if a.len() == 1 && b.len() > 1 {
            assert(s.len() == x.len());
        }
        if b.len() == 1 && a.len() > 1 {
            assert(s.len() == y.len());
        }
        let ai = a.drop_last();
        let bi = b.drop_last();
        assert forall|j: int| 0 <= j < ai.len() implies !(#[trigger] ai[j]).contains(',')
            && ai[j].len() > 0 by {
            assert(a[j] == ai[j]);
        }
        assert forall|j: int| 0 <= j < bi.len() implies !(#[trigger] bi[j]).contains(',')
            && bi[j].len() > 0 by {
            assert(b[j] == bi[j]);
        }
        if a.len() > 1 {
            lemma_join_injective(ai, bi);
        } else {
            assert(ai =~= bi);
        }
        assert(a =~= ai.push(x));
        assert(b =~= bi.push(y));
    }
}

proof fn lemma_known_kinds(k: Seq<char>)
    requires
        known_kind(k),
    ensures
        !k.contains(','),
        k.len() > 0,
{
    reveal_strlit("issues");
    reveal_strlit("merge_requests");
    reveal_strlit("projects");
    reveal_strlit("groups");
    if k.contains(',') {
        let i = choose|i: int| 0 <= i < k.len() && k[i] == ',';
        assert("issues"@.len() == 6 && "merge_requests"@.len() == 14 && "projects"@.len() == 8
            && "groups"@.len() == 6);
        assert(k[i] != ',');
    }
}

/// Only searches for the same thing hold each other off: two of the same needle
/// share their key only if they ask for the same kinds, and two of the same kinds
/// only if they have the same needle.
pub proof fn law_searches_are_told_apart(a: Query, b: Query, kind: Seq<char>)
    requires
        live_key(a) == live_key(b),
        forall|i: int| 0 <= i < a.kinds.len() ==> known_kind((#[trigger] a.kinds[i])@),
        forall|i: int| 0 <= i < b.kinds.len() ==> known_kind((#[trigger] b.kinds[i])@),
    ensures
        a.kinds == b.kinds ==> a.needle == b.needle,
        a.needle == b.needle ==> ((exists|i: int|
            0 <= i < a.kinds.len() && (#[trigger] a.kinds[i])@ == kind) <==> exists|i: int|
            0 <= i < b.kinds.len() && (#[trigger] b.kinds[i])@ == kind),
{
    reveal_strlit("\u{1f}");
    reveal_strlit(",");
    assert(","@ =~= seq![',']);
    let x = texts(sorted(a.kinds));
    let y = texts(sorted(b.kinds));
    let jx = join_texts(x, seq![',']);
    let jy = join_texts(y, seq![',']);
    let kx = live_key(a);
    let n = a.needle.len() as int;
    assert("\u{1f}"@.len() == 1);
    assert(kx == a.needle + "\u{1f}"@ + jx);
    assert(kx == b.needle + "\u{1f}"@ + jy);
    if a.kinds == b.kinds {
        assert(jx == jy);
        assert(kx.len() == a.needle.len() + 1 + jx.len());
        assert(kx.len() == b.needle.len() + 1 + jx.len());
        assert(kx.take(n) =~= a.needle);
        assert(kx.take(n) =~= b.needle);
    }
    if a.needle == b.needle {
        assert(kx.skip(n + 1) =~= jx);
        assert(kx.skip(n + 1) =~= jy);
        crate::order::law_sorted(a.kinds, |s: String| true);
        crate::order::law_sorted(b.kinds, |s: String| true);
        assert forall|j: int| 0 <= j < x.len() implies !(#[trigger] x[j]).contains(',')
            && x[j].len() > 0 by {
            lemma_sorted_known(a.kinds, j);
        }
        assert forall|j: int| 0 <= j < y.len() implies !(#[trigger] y[j]).contains(',')
            && y[j].len() > 0 by {
            lemma_sorted_known(b.kinds, j);
        }
        lemma_join_injective(x, y);
        lemma_texts_of_sorted(a.kinds, kind);
        lemma_texts_of_sorted(b.kinds, kind);
    }
}

proof fn lemma_sorted_known(kinds: Seq<String>, j: int)
    requires
        0 <= j < sorted(kinds).len(),
        forall|i: int| 0 <= i < kinds.len() ==> known_kind((#[trigger] kinds[i])@),
    ensures
        !sorted(kinds)[j]@.contains(','),
        sorted(kinds)[j]@.len() > 0,
{
    let k = sorted(kinds)[j];
    crate::order::lemma_sorted_contains(kinds, k);
    assert(sorted(kinds).contains(k));
    let i = choose|i: int| 0 <= i < kinds.len() && kinds[i] == k;
    assert(known_kind(kinds[i]@));
    lemma_known_kinds(k@);
}

proof fn lemma_texts_of_sorted(kinds: Seq<String>, t: Seq<char>)
    ensures
        texts(sorted(kinds)).contains(t) <==> exists|i: int|
            0 <= i < kinds.len() && (#[trigger] kinds[i])@ == t,
{
    let s = sorted(kinds);
    if texts(s).contains(t) {
        let j = choose|j: int| 0 <= j < texts(s).len() && texts(s)[j] == t;
        crate::order::lemma_sorted_contains(kinds, s[j]);
        assert(s.contains(s[j]));
        let i = choose|i: int| 0 <= i < kinds.len() && kinds[i] == s[j];
        assert(kinds[i]@ == t);
    }
    if exists|i: int| 0 <= i < kinds.len() && (#[trigger] kinds[i])@ == t {
        let i = choose|i: int| 0 <= i < kinds.len() && (#[trigger] kinds[i])@ == t;
        crate::order::lemma_sorted_contains(kinds, kinds[i]);
        assert(kinds.contains(kinds[i]));
        let j = choose|j: int| 0 <= j < s.len() && s[j] == kinds[i];
        assert(texts(s)[j] == t);
    }
}

/// Two searches that name the same two kinds in either order hold each other off.
pub proof fn law_order_of_kinds_does_not_matter(a: Query, b: Query, x: String, y: String)
    requires
        a.needle == b.needle,
        a.kinds == seq![x, y],
        b.kinds == seq![y, x],
    ensures
        live_key(a) == live_key(b),
{
    let e = Seq::<String>::empty();
    assert(seq![x, y].drop_last() =~= seq![x]);
    assert(seq![y, x].drop_last() =~= seq![y]);
    assert(seq![x].drop_last() =~= e);
    assert(seq![y].drop_last() =~= e);
    assert(sorted(e) == e);
    assert(sorted(seq![x]) =~= seq![x]) by {
        assert(e.push(x) =~= seq![x]);
    }
    assert(sorted(seq![y]) =~= seq![y]) by {
        assert(e.push(y) =~= seq![y]);
    }
    reveal_with_fuel(crate::order::insert_ranked, 3);
    crate::text::law_text_order(x@, y@, x@);
    crate::text::law_text_order(y@, x@, y@);
    assert(x.before(y) == crate::text::text_before(x@, y@));
    assert(y.before(x) == crate::text::text_before(y@, x@));
    let s = sorted(a.kinds);
    let t = sorted(b.kinds);
    if y.before(x) {
        assert(s =~= seq![y, x]);
        assert(t =~= seq![y, x]);
    } else if x.before(y) {
        assert(s =~= seq![x, y]);
        assert(t =~= seq![x, y]);
    } else {
        assert(s =~= seq![x, y]);
        assert(t =~= seq![y, x]);
    }
    assert(texts(s) =~= texts(t));
}

/// Whether no two of `hits` have the same id.
pub open spec fn ids_differ<T: HasId>(hits: Seq<&T>) -> bool {
    forall|i: int, j: int|
        0 <= i < j < hits.len() ==> (#[trigger] hits[i]).spec_id() != (
        #[trigger] hits[j]).spec_id()
}

proof fn lemma_local_ids_differ<T: HasId>(rows: Seq<(u64, T)>, p: spec_fn(u64, T) -> bool)
    requires
        crate::db::ascending(rows),
        forall|i: int| 0 <= i < rows.len() ==> (#[trigger] rows[i]).1.spec_id() as u64 == rows[i].0,
    ensures
        ids_differ(values_where(rows, p)),
    decreases rows.len(),
{
    if rows.len() > 0 {
        let init = rows.drop_last();
        let last = rows.last();
        let some = values_where(init, p);
        let all = values_where(rows, p);
        assert forall|i: int| 0 <= i < init.len() implies (
        #[trigger] init[i]).1.spec_id() as u64 == init[i].0 by {
            assert(rows[i] == init[i]);
        }
        assert(crate::db::ascending(init)) by {
            assert forall|i: int, j: int| 0 <= i < j < init.len() implies (#[trigger] init[i]).0 < (
            #[trigger] init[j]).0 by {
                assert(rows[i].0 < rows[j].0);
            }
        }
        lemma_local_ids_differ(init, p);
        assert(rows[rows.len() - 1] == last);
        assert forall|i: int, j: int| 0 <= i < j < all.len() implies (
        #[trigger] all[i]).spec_id() != (#[trigger] all[j]).spec_id() by {
            assert(all[i] == some[i]);
            if j < some.len() {
                assert(all[j] == some[j]);
            } else {
                crate::db::lemma_values_where(init, p, *some[i]);
                assert(some.contains(&*some[i]));
                let n = choose|n: int|
                    0 <= n < init.len() && (#[trigger] init[n]).1 == *some[i] && p(
                        init[n].0,
                        *some[i],
                    );
                assert(rows[n].0 < rows[rows.len() - 1].0);
                assert(init[n].1.spec_id() as u64 == init[n].0);
                assert(last.1.spec_id() as u64 == last.0);
            }
        }
    }
}

proof fn lemma_fresh_ids_differ<T: HasId>(
    local: Seq<&T>,
    live: Seq<T>,
    keep: spec_fn(T) -> bool,
)
    requires
        forall|i: int, j: int|
            0 <= i < j < live.len() ==> (#[trigger] live[i]).spec_id() != (
            #[trigger] live[j]).spec_id(),
    ensures
        ids_differ(fresh_hits(local, live, keep)),
    decreases live.len(),
{
    if live.len() > 0 {
        let init = live.drop_last();
        let some = fresh_hits(local, init, keep);
        let all = fresh_hits(local, live, keep);
        assert forall|i: int, j: int| 0 <= i < j < init.len() implies (
        #[trigger] init[i]).spec_id() != (#[trigger] init[j]).spec_id() by {
            assert(live[i].spec_id() != live[j].spec_id());
        }
        lemma_fresh_ids_differ(local, init, keep);
        assert forall|i: int, j: int| 0 <= i < j < all.len() implies (
        #[trigger] all[i]).spec_id() != (#[trigger] all[j]).spec_id() by {
            assert(all[i] == some[i]);
            if j < some.len() {
                assert(all[j] == some[j]);
            } else {
                lemma_fresh(local, init, keep, i);
                let n = choose|n: int| 0 <= n < init.len() && init[n] == *some[i];
                assert(live[n].spec_id() != live[live.len() - 1].spec_id());
            }
        }
    }
}

proof fn lemma_hits_ids_differ<T: HasId + Ranked>(
    m: Map<u64, T>,
    p: spec_fn(u64, T) -> bool,
    live: Seq<T>,
    keep: spec_fn(T) -> bool,
    limit: u64,
)
    requires
        forall|k: u64| #[trigger] m.contains_key(k) ==> m[k].spec_id() as u64 == k,
        forall|i: int, j: int|
            0 <= i < j < live.len() ==> (#[trigger] live[i]).spec_id() != (
            #[trigger] live[j]).spec_id(),
    ensures
        ids_differ(limited(sorted(merged(values_where(rows_of(m), p), live, keep)), limit)),
{
    let rows = rows_of(m);
    let local = values_where(rows, p);
    let fresh = fresh_hits(local, live, keep);
    let all = merged(local, live, keep);
    let s = sorted(all);
    crate::db::law_every_map_is_listed(m);
    assert forall|i: int| 0 <= i < rows.len() implies (#[trigger] rows[i]).1.spec_id() as u64
        == rows[i].0 by {
        crate::db::lemma_row_in_map(rows, i);
        assert(m.contains_key(rows[i].0));
    }
    lemma_local_ids_differ(rows, p);
    lemma_fresh_ids_differ(local, live, keep);
    assert forall|i: int, j: int| 0 <= i < j < all.len() implies (#[trigger] all[i]).spec_id() != (
    #[trigger] all[j]).spec_id() by {
        if j < local.len() {
            assert(all[i] == local[i] && all[j] == local[j]);
        } else if i >= local.len() {
            assert(all[i] == fresh[i - local.len()] && all[j] == fresh[j - local.len()]);
        } else {
            lemma_fresh(local, live, keep, j - local.len());
            assert(all[j] == fresh[j - local.len()]);
            assert(local[i] == all[i]);
        }
    }
    assert(all.no_duplicates());
    all.lemma_multiset_has_no_duplicates();
    crate::order::law_sorted(all, |t: &T| true);
    s.lemma_multiset_has_no_duplicates_conv();
    assert forall|i: int, j: int| 0 <= i < j < s.len() implies (#[trigger] s[i]).spec_id() != (
    #[trigger] s[j]).spec_id() by {
        assert(s[i] != s[j]);
        crate::order::lemma_sorted_contains(all, s[i]);
        crate::order::lemma_sorted_contains(all, s[j]);
        assert(s.contains(s[i]) && s.contains(s[j]));
        let a = choose|a: int| 0 <= a < all.len() && all[a] == s[i];
        let b = choose|b: int| 0 <= b < all.len() && all[b] == s[j];
        if a < b {
            assert(all[a].spec_id() != all[b].spec_id());
        } else {
            assert(all[b].spec_id() != all[a].spec_id());
        }
    }
}

/// No issue and no merge request is shown twice, though both the cache and the
/// live lookup have it, as long as the cache keeps each under its own id and GitLab
/// lists each once.
pub proof fn law_no_result_is_shown_twice(
    r: SearchReply,
    c: Corpus,
    boards: Map<u64, Vec<String>>,
    a: Query,
    live: Live,
    i: int,
    j: int,
)
    requires
        is_found(r, c, boards, a, live),
        forall|k: u64| #[trigger] c.issues.contains_key(k) ==> c.issues[k].id as u64 == k,
        forall|k: u64| #[trigger] c.mrs.contains_key(k) ==> c.mrs[k].id as u64 == k,
        forall|x: int, y: int|
            0 <= x < y < live.issues.len() ==> (#[trigger] live.issues[x]).id != (
            #[trigger] live.issues[y]).id,
        forall|x: int, y: int|
            0 <= x < y < live.mrs.len() ==> (#[trigger] live.mrs[x]).id != (
            #[trigger] live.mrs[y]).id,
        0 <= i < j,
    ensures
        j < r.issues@.len() ==> r.issues@[i].id != r.issues@[j].id,
        j < r.merge_requests@.len() ==> r.merge_requests@[i].id != r.merge_requests@[j].id,
{
    let q = iid_query(a.query);
    assert forall|x: int, y: int| 0 <= x < y < live.issues.len() implies (
    #[trigger] live.issues[x]).spec_id() != (#[trigger] live.issues[y]).spec_id() by {
    }
    assert forall|x: int, y: int| 0 <= x < y < live.mrs.len() implies (
    #[trigger] live.mrs[x]).spec_id() != (#[trigger] live.mrs[y]).spec_id() by {
    }
    let issues = issue_hits(c, a, live.issues);
    if j < issues.len() {
        lemma_hits_ids_differ(
            c.issues,
            issue_matches(a.needle, q),
            live.issues,
            live_issue_passes(a.needle, q),
            a.limit,
        );
        assert(issues[i].spec_id() != issues[j].spec_id());
        assert(is_wire_issue(r.issues@[i], *issues[i], boards));
        assert(is_wire_issue(r.issues@[j], *issues[j], boards));
    }
    let mrs = mr_hits(c, a, live.mrs);
    if j < mrs.len() {
        lemma_hits_ids_differ(
            c.mrs,
            mr_matches(a.needle, q),
            live.mrs,
            live_mr_passes(a.needle, q),
            a.limit,
        );
        assert(mrs[i].spec_id() != mrs[j].spec_id());
        assert(is_wire_mr(r.merge_requests@[i], *mrs[i]));
        assert(is_wire_mr(r.merge_requests@[j], *mrs[j]));
    }
}

/// No project and no group is shown twice either.
pub proof fn law_no_place_is_shown_twice(
    r: SearchReply,
    c: Corpus,
    boards: Map<u64, Vec<String>>,
    a: Query,
    live: Live,
    i: int,
    j: int,
)
    requires
        is_found(r, c, boards, a, live),
        forall|k: u64| #[trigger] c.projects.contains_key(k) ==> c.projects[k].id as u64 == k,
        forall|k: u64| #[trigger] c.groups.contains_key(k) ==> c.groups[k].id as u64 == k,
        forall|x: int, y: int|
            0 <= x < y < live.projects.len() ==> (#[trigger] live.projects[x]).id != (
            #[trigger] live.projects[y]).id,
        forall|x: int, y: int|
            0 <= x < y < live.groups.len() ==> (#[trigger] live.groups[x]).id != (
            #[trigger] live.groups[y]).id,
        0 <= i < j,
    ensures
        j < r.projects@.len() ==> r.projects@[i].id != r.projects@[j].id,
        j < r.groups@.len() ==> r.groups@[i].id != r.groups@[j].id,
{
    assert forall|x: int, y: int| 0 <= x < y < live.projects.len() implies (
    #[trigger] live.projects[x]).spec_id() != (#[trigger] live.projects[y]).spec_id() by {
    }
    assert forall|x: int, y: int| 0 <= x < y < live.groups.len() implies (
    #[trigger] live.groups[x]).spec_id() != (#[trigger] live.groups[y]).spec_id() by {
    }
    let projects = project_hits(c, a, live.projects);
    if j < projects.len() {
        lemma_hits_ids_differ(
            c.projects,
            project_matches(a.needle),
            live.projects,
            passes(),
            a.limit,
        );
        assert(projects[i].spec_id() != projects[j].spec_id());
    }
    let groups = group_hits(c, a, live.groups);
    if j < groups.len() {
        lemma_hits_ids_differ(c.groups, group_matches(a.needle), live.groups, passes(), a.limit);
        assert(groups[i].spec_id() != groups[j].spec_id());
    }
}

} // verus!
