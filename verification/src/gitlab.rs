//! The GitLab side: request paths and bodies, and what the daemon makes of the
//! replies.

use vstd::prelude::*;
use vstd::string::*;

use crate::api::Issue;
use crate::error::Error;
use crate::json::{
    as_int, as_items, as_text, field, get, held, int_in, int_or_zero, integer, items_in, text,
    text_in, text_or_empty, Json,
};
use crate::order::{into_sorted, sorted, Ranked};
use crate::search::{MrAssignee, SearchGroup, SearchIssue, SearchMr, SearchProject};
use crate::text::{
    decimal, i64_text, int_text, join, join_texts, joined, last_path_segment, last_segment,
    law_decimal_reads_back, push_u64,
};
use crate::time::{seconds, Duration};

verus! {

// ── issuables ────────────────────────────────────────────────────────────────

/// What an operation targets.
#[derive(Clone, Copy, PartialEq, Eq, Structural, Debug)]
pub enum Issuable {
    Issue,
    MergeRequest,
}

impl Default for Issuable {
    fn default() -> (r: Self)
        ensures
            r == Issuable::Issue,
    {
        Issuable::Issue
    }
}

/// The REST path segment of a kind.
pub open spec fn segment(kind: Issuable) -> Seq<char> {
    match kind {
        Issuable::Issue => "issues"@,
        Issuable::MergeRequest => "merge_requests"@,
    }
}

/// The GraphQL type name of a kind.
pub open spec fn gid_name(kind: Issuable) -> Seq<char> {
    match kind {
        Issuable::Issue => "Issue"@,
        Issuable::MergeRequest => "MergeRequest"@,
    }
}

impl Issuable {
    /// REST path segment: `projects/{id}/<segment>/{iid}`.
    pub fn path_segment(self) -> (r: &'static str)
        ensures
            r@ == segment(self),
    {
        match self {
            Issuable::Issue => "issues",
            Issuable::MergeRequest => "merge_requests",
        }
    }

    /// GraphQL global-id type: `gid://gitlab/<type>/{id}`.
    pub fn gid_type(self) -> (r: &'static str)
        ensures
            r@ == gid_name(self),
    {
        match self {
            Issuable::Issue => "Issue",
            Issuable::MergeRequest => "MergeRequest",
        }
    }
}

/// What the daemon keeps of an authenticated connection.
#[derive(Debug)]
pub struct GitlabClient {
    host: String,
    current_user_id: i64,
}

impl GitlabClient {
    pub closed spec fn spec_host(&self) -> Seq<char> {
        self.host@
    }

    pub closed spec fn spec_user(&self) -> i64 {
        self.current_user_id
    }

    /// The client for `host`, from the reply to the request for the user's own
    /// profile; `shown` is that reply as text.
    pub fn connect(host: &str, user: &Json, shown: &str) -> (r: Result<GitlabClient, Error>)
        ensures
            match int_in(field(Some(*user), "id"@)) {
                Some(id) => r matches Ok(c) && c.spec_host() == host@ && c.spec_user() == id,
                None => r matches Err(Error::Gitlab(m)) && m@
                    == "GET /user response missing numeric id: "@ + shown@,
            },
    {
        match as_int(get(Some(user), "id")) {
            Some(id) => Ok(GitlabClient { host: host.to_owned(), current_user_id: id }),
            None => Err(
                Error::Gitlab(joined("GET /user response missing numeric id: ", shown)),
            ),
        }
    }

    pub fn host(&self) -> (r: &str)
        ensures
            r@ == self.spec_host(),
    {
        self.host.as_str()
    }

    pub fn current_user_id(&self) -> (r: i64)
        ensures
            r == self.spec_user(),
    {
        self.current_user_id
    }
}

/// An issue with its labels, which decide its board status.
#[derive(Debug)]
pub struct IssueWithLabels {
    pub issue: Issue,
    pub labels: Vec<String>,
}

/// A timelog entry as GitLab reports it.
#[derive(Debug)]
pub struct FetchedTimelog {
    pub timelog_id: u64,
    pub spent_at_secs: u64,
    pub kind: Issuable,
    /// Zero where GitLab gave no project.
    pub project_id: i64,
    pub iid: i64,
    pub title: String,
    pub web_url: String,
    pub duration: String,
    pub summary: String,
}

/// Most recent first.
impl Ranked for FetchedTimelog {
    open spec fn before(self, other: Self) -> bool {
        self.spent_at_secs > other.spent_at_secs
    }

    fn precedes(&self, other: &Self) -> (r: bool) {
        self.spent_at_secs > other.spent_at_secs
    }

    proof fn weak_order(x: Self, y: Self, z: Self) {
    }
}

// ── failures ─────────────────────────────────────────────────────────────────

/// How a request to GitLab failed.
#[derive(Clone, Copy, PartialEq, Eq, Structural, Debug)]
pub enum FailureKind {
    /// The REST client could not carry the request.
    Client,
    /// The transport failed while the client was built.
    Communication,
    /// An empty reply while the client was built.
    NoResponse,
    /// GitLab answered, and rejected the request or answered out of shape.
    Rejected,
}

/// Network failures are worth a retry; everything else is final.
pub fn classify(kind: FailureKind, message: String) -> (r: Error)
    ensures
        r == match kind {
            FailureKind::Rejected => Error::Gitlab(message),
            _ => Error::Transient(message),
        },
{
    match kind {
        FailureKind::Rejected => Error::Gitlab(message),
        _ => Error::Transient(message),
    }
}

/// Bounded exponential backoff over network failures: up to four attempts, one,
/// two and four seconds apart.
#[derive(Clone, Copy, PartialEq, Eq, Structural, Debug)]
pub struct RetryPlan {
    /// Attempts made so far.
    attempts: u32,
    delay: Duration,
}

impl RetryPlan {
    pub closed spec fn made(self) -> nat {
        self.attempts as nat
    }

    pub closed spec fn next_delay(self) -> nat {
        self.delay@
    }

    /// Whether the plan is one that `n` attempts lead to.
    pub open spec fn after_attempts(self, n: nat) -> bool {
        &&& self.made() == n
        &&& n <= 4
        &&& self.next_delay() == seconds(
            if n <= 0 {
                1
            } else if n == 1 {
                2
            } else {
                4
            },
        )
    }

    pub fn new() -> (r: Self)
        ensures
            r.after_attempts(0),
    {
        RetryPlan { attempts: 0, delay: Duration::from_secs(1) }
    }

    /// Takes note of an attempt that failed with `e`: how long to wait before
    /// the next one, or `None` to give up.
    pub fn failed(&mut self, e: &Error) -> (r: Option<Duration>)
        requires
            exists|n: nat| n < 4 && #[trigger] old(self).after_attempts(n),
        ensures
            *e is Transient && old(self).made() < 3 ==> r is Some && r->0@
                == old(self).next_delay() && final(self).after_attempts(old(self).made() + 1),
            !(*e is Transient && old(self).made() < 3) ==> r is None,
    {
        self.attempts = self.attempts + 1;
        match e {
            Error::Transient(_) => {
                if self.attempts < 4 {
                    let wait = self.delay;
                    self.delay = self.delay.double_up_to(Duration::from_secs(4));
                    Some(wait)
                } else {
                    None
                }
            },
            _ => None,
        }
    }
}

// ── timestamps ───────────────────────────────────────────────────────────────

/// The UNIX seconds of an RFC 3339 text, or `None` where it is none.
pub uninterp spec fn rfc3339_timestamp(s: Seq<char>) -> Option<i64>;

/// Calls `chrono::DateTime::parse_from_rfc3339` and, on success, `timestamp` on
/// what it parsed. Both are functions of the text alone; the result goes by the
/// name [`rfc3339_timestamp`].
#[verifier::external_body]
pub(crate) fn parse_rfc3339(s: &str) -> (r: Option<i64>)
    ensures
        r == rfc3339_timestamp(s@),
{
    chrono::DateTime::parse_from_rfc3339(s).ok().map(|d| d.timestamp())
}

/// The RFC 3339 text of UNIX seconds, or `None` where they are out of range.
pub uninterp spec fn rfc3339_text(secs: i64) -> Option<Seq<char>>;

/// The seconds since the epoch that fall into the years with four digits.
pub open spec fn in_four_digit_years(secs: int) -> bool {
    0 <= secs < 253402300800
}

/// Calls `chrono::DateTime::from_timestamp` with no nanoseconds and, on success,
/// `to_rfc3339` on what it gave. Both are functions of the seconds alone; the
/// result goes by the name [`rfc3339_text`]. From the epoch to the end of the year
/// 9999 there is a text, and reading it as [`parse_rfc3339`] does gives the
/// seconds back.
#[verifier::external_body]
pub(crate) fn show_rfc3339(secs: i64) -> (r: Option<String>)
    ensures
        match r {
            Some(t) => rfc3339_text(secs) == Some(t@),
            None => rfc3339_text(secs) is None,
        },
        in_four_digit_years(secs as int) ==> r is Some && rfc3339_timestamp(r->0@) == Some(secs),
{
    chrono::DateTime::<chrono::Utc>::from_timestamp(secs, 0).map(|d| d.to_rfc3339())
}

/// Seconds that are kept of a parsed timestamp: none before the epoch, and zero
/// for what could not be parsed.
pub open spec fn kept_secs(parsed: Option<i64>) -> u64 {
    match parsed {
        Some(t) => if t > 0 {
            t as u64
        } else {
            0
        },
        None => 0,
    }
}

/// The seconds that are kept of a parsed timestamp.
pub fn secs_kept(parsed: Option<i64>) -> (r: u64)
    ensures
        r == kept_secs(parsed),
{
    match parsed {
        Some(t) => if t > 0 {
            t as u64
        } else {
            0
        },
        None => 0,
    }
}

/// The seconds that an RFC 3339 string value stands for; anything else is zero.
pub open spec fn stamp_secs(v: Option<Json>) -> u64 {
    match text_in(v) {
        Some(s) => kept_secs(rfc3339_timestamp(s)),
        None => 0,
    }
}

/// The seconds that an RFC 3339 string value stands for; missing or malformed
/// is zero, which sorts oldest.
pub fn rfc3339_secs(v: Option<&Json>) -> (r: u64)
    ensures
        r == stamp_secs(held(v)),
{
    match as_text(v) {
        Some(s) => secs_kept(parse_rfc3339(s.as_str())),
        None => 0,
    }
}

/// The RFC 3339 text of `secs`, or `now` where they are out of range.
pub fn instant_text(secs: i64, now: &str) -> (r: String)
    ensures
        r@ == match rfc3339_text(secs) {
            Some(t) => t,
            None => now@,
        },
        in_four_digit_years(secs as int) ==> rfc3339_timestamp(r@) == Some(secs),
{
    or_now(show_rfc3339(secs), now)
}

/// The text of an instant, or `now` where it has none.
pub fn or_now(instant: Option<String>, now: &str) -> (r: String)
    ensures
        r@ == match instant {
            Some(t) => t@,
            None => now@,
        },
{
    match instant {
        Some(t) => t,
        None => now.to_owned(),
    }
}

// ── replies ──────────────────────────────────────────────────────────────────

/// The texts among `items`, in order.
pub open spec fn texts_among(items: Seq<Json>) -> Seq<Seq<char>>
    decreases items.len(),
{
    if items.len() == 0 {
        Seq::empty()
    } else {
        let rest = texts_among(items.drop_last());
        match items.last() {
            Json::Str(s) => rest.push(s@),
            _ => rest,
        }
    }
}

/// The texts of an array value; of anything else none.
pub open spec fn texts_of(v: Option<Json>) -> Seq<Seq<char>> {
    match items_in(v) {
        Some(a) => texts_among(a),
        None => Seq::empty(),
    }
}

fn collect_texts(items: &Vec<Json>) -> (r: Vec<String>)
    ensures
        crate::text::texts(r@) == texts_among(items@),
{
    let mut r: Vec<String> = Vec::new();
    let mut i: usize = 0;
    proof {
        assert(crate::text::texts(r@) =~= texts_among(items@.take(0)));
    }
    while i < items.len()
        invariant
            i <= items@.len(),
            crate::text::texts(r@) == texts_among(items@.take(i as int)),
        decreases items@.len() - i,
    {
        let ghost r0 = r@;
        proof {
            assert(items@.take(i + 1).drop_last() =~= items@.take(i as int));
        }
        match &items[i] {
            Json::Str(s) => {
                r.push(s.clone());
                proof {
                    assert(crate::text::texts(r@) =~= crate::text::texts(r0).push(s@));
                }
            },
            _ => {},
        }
        i += 1;
    }
    proof {
        assert(items@.take(items@.len() as int) =~= items@);
    }
    r
}

/// The labels of an issuable; missing or malformed ones are left out.
pub fn labels_from(v: &Json) -> (r: Vec<String>)
    ensures
        crate::text::texts(r@) == texts_of(field(Some(*v), "labels"@)),
{
    match as_items(get(Some(v), "labels")) {
        Some(a) => collect_texts(a),
        None => {
            let r: Vec<String> = Vec::new();
            proof {
                assert(crate::text::texts(r@) =~= Seq::<Seq<char>>::empty());
            }
            r
        },
    }
}

/// Whether `i` is the issue that `v` describes, missing or malformed fields at
/// zero or empty, and the board status still open.
pub open spec fn is_issue_of(i: Issue, v: Json) -> bool {
    let o = Some(v);
    &&& i.id == int_or_zero(field(o, "id"@))
    &&& i.iid == int_or_zero(field(o, "iid"@))
    &&& i.project_id == int_or_zero(field(o, "project_id"@))
    &&& i.title@ == text_or_empty(field(o, "title"@))
    &&& i.web_url@ == text_or_empty(field(o, "web_url"@))
    &&& i.state@ == text_or_empty(field(o, "state"@))
    &&& i.parent@ == text_or_empty(field(field(o, "epic"@), "url"@))
    &&& i.total_time@ == text_or_empty(
        field(field(o, "time_stats"@), "human_total_time_spent"@),
    )
    &&& i.graph_status@ == Seq::<char>::empty()
}

/// The issue that `v` describes, with its labels.
pub fn issue_with_labels(v: &Json) -> (r: IssueWithLabels)
    ensures
        is_issue_of(r.issue, *v),
        crate::text::texts(r.labels@) == texts_of(field(Some(*v), "labels"@)),
{
    let o = Some(v);
    IssueWithLabels {
        issue: Issue {
            id: integer(get(o, "id")),
            iid: integer(get(o, "iid")),
            project_id: integer(get(o, "project_id")),
            title: text(get(o, "title")),
            web_url: text(get(o, "web_url")),
            state: text(get(o, "state")),
            parent: text(get(get(o, "epic"), "url")),
            total_time: text(get(get(o, "time_stats"), "human_total_time_spent")),
            graph_status: String::new(),
        },
        labels: labels_from(v),
    }
}

/// Whether `i` is the search entry of the issue that `v` describes.
pub open spec fn is_search_issue_of(i: SearchIssue, v: Json) -> bool {
    let o = Some(v);
    &&& i.id == int_or_zero(field(o, "id"@))
    &&& i.iid == int_or_zero(field(o, "iid"@))
    &&& i.project_id == int_or_zero(field(o, "project_id"@))
    &&& i.title@ == text_or_empty(field(o, "title"@))
    &&& i.web_url@ == text_or_empty(field(o, "web_url"@))
    &&& i.state@ == text_or_empty(field(o, "state"@))
    &&& crate::text::texts(i.labels@) == texts_of(field(o, "labels"@))
    &&& i.parent@ == text_or_empty(field(field(o, "epic"@), "url"@))
    &&& i.total_time@ == text_or_empty(
        field(field(o, "time_stats"@), "human_total_time_spent"@),
    )
    &&& i.updated_at_secs == stamp_secs(field(o, "updated_at"@))
}

/// The search entry of the issue that `v` describes.
pub fn search_issue_from_json(v: &Json) -> (r: SearchIssue)
    ensures
        is_search_issue_of(r, *v),
{
    let o = Some(v);
    SearchIssue {
        id: integer(get(o, "id")),
        iid: integer(get(o, "iid")),
        project_id: integer(get(o, "project_id")),
        title: text(get(o, "title")),
        web_url: text(get(o, "web_url")),
        state: text(get(o, "state")),
        labels: labels_from(v),
        parent: text(get(get(o, "epic"), "url")),
        total_time: text(get(get(o, "time_stats"), "human_total_time_spent")),
        updated_at_secs: rfc3339_secs(get(o, "updated_at")),
    }
}

/// The ids and names of the assignees among `items` that have a numeric id.
pub open spec fn assignees_among(items: Seq<Json>) -> Seq<(i64, Seq<char>)>
    decreases items.len(),
{
    if items.len() == 0 {
        Seq::empty()
    } else {
        let rest = assignees_among(items.drop_last());
        match int_in(field(Some(items.last()), "id"@)) {
            Some(id) => rest.push((id, text_or_empty(field(Some(items.last()), "username"@)))),
            None => rest,
        }
    }
}

/// The ids and names of assignees.
pub open spec fn assignee_pairs(v: Seq<MrAssignee>) -> Seq<(i64, Seq<char>)> {
    v.map_values(|a: MrAssignee| (a.id, a.username@))
}

/// The assignees of a merge request; those without a numeric id are dropped.
pub fn mr_assignees_from(v: &Json) -> (r: Vec<MrAssignee>)
    ensures
        assignee_pairs(r@) == match items_in(field(Some(*v), "assignees"@)) {
            Some(a) => assignees_among(a),
            None => Seq::empty(),
        },
{
    let mut r: Vec<MrAssignee> = Vec::new();
    proof {
        assert(assignee_pairs(r@) =~= Seq::<(i64, Seq<char>)>::empty());
    }
    match as_items(get(Some(v), "assignees")) {
        Some(items) => {
            let mut i: usize = 0;
            proof {
                assert(items@.take(0) =~= Seq::<Json>::empty());
            }
            while i < items.len()
                invariant
                    i <= items@.len(),
                    assignee_pairs(r@) == assignees_among(items@.take(i as int)),
                decreases items@.len() - i,
            {
                let ghost r0 = r@;
                proof {
                    assert(items@.take(i + 1).drop_last() =~= items@.take(i as int));
                }
                let a = Some(&items[i]);
                match as_int(get(a, "id")) {
                    Some(id) => {
                        r.push(MrAssignee { id, username: text(get(a, "username")) });
                        proof {
                            assert(assignee_pairs(r@) =~= assignee_pairs(r0).push(
                                (id, text_or_empty(field(held(a), "username"@))),
                            ));
                        }
                    },
                    None => {},
                }
                i += 1;
            }
            proof {
                assert(items@.take(items@.len() as int) =~= items@);
            }
        },
        None => {},
    }
    r
}

/// Whether `m` is the search entry of the merge request that `v` describes.
pub open spec fn is_search_mr_of(m: SearchMr, v: Json) -> bool {
    let o = Some(v);
    &&& m.id == int_or_zero(field(o, "id"@))
    &&& m.iid == int_or_zero(field(o, "iid"@))
    &&& m.project_id == int_or_zero(field(o, "project_id"@))
    &&& m.title@ == text_or_empty(field(o, "title"@))
    &&& m.web_url@ == text_or_empty(field(o, "web_url"@))
    &&& m.state@ == text_or_empty(field(o, "state"@))
    &&& crate::text::texts(m.labels@) == texts_of(field(o, "labels"@))
    &&& assignee_pairs(m.assignees@) == match items_in(field(o, "assignees"@)) {
        Some(a) => assignees_among(a),
        None => Seq::empty(),
    }
    &&& m.updated_at_secs == stamp_secs(field(o, "updated_at"@))
}

/// The search entry of the merge request that `v` describes.
pub fn search_mr_from_json(v: &Json) -> (r: SearchMr)
    ensures
        is_search_mr_of(r, *v),
{
    let o = Some(v);
    SearchMr {
        id: integer(get(o, "id")),
        iid: integer(get(o, "iid")),
        project_id: integer(get(o, "project_id")),
        title: text(get(o, "title")),
        web_url: text(get(o, "web_url")),
        state: text(get(o, "state")),
        labels: labels_from(v),
        assignees: mr_assignees_from(v),
        updated_at_secs: rfc3339_secs(get(o, "updated_at")),
    }
}

/// Whether `p` is the search entry of the project that `v` describes.
pub open spec fn is_search_project_of(p: SearchProject, v: Json) -> bool {
    let o = Some(v);
    &&& p.id == int_or_zero(field(o, "id"@))
    &&& p.name@ == text_or_empty(field(o, "name"@))
    &&& p.path@ == text_or_empty(field(o, "path_with_namespace"@))
    &&& p.web_url@ == text_or_empty(field(o, "web_url"@))
}

/// The search entry of the project that `v` describes.
pub fn search_project_from_json(v: &Json) -> (r: SearchProject)
    ensures
        is_search_project_of(r, *v),
{
    let o = Some(v);
    SearchProject {
        id: integer(get(o, "id")),
        name: text(get(o, "name")),
        path: text(get(o, "path_with_namespace")),
        web_url: text(get(o, "web_url")),
    }
}

/// Whether `g` is the search entry of the group that `v` describes.
pub open spec fn is_search_group_of(g: SearchGroup, v: Json) -> bool {
    let o = Some(v);
    &&& g.id == int_or_zero(field(o, "id"@))
    &&& g.name@ == text_or_empty(field(o, "name"@))
    &&& g.path@ == text_or_empty(field(o, "full_path"@))
    &&& g.web_url@ == text_or_empty(field(o, "web_url"@))
}

/// The search entry of the group that `v` describes.
pub fn search_group_from_json(v: &Json) -> (r: SearchGroup)
    ensures
        is_search_group_of(r, *v),
{
    let o = Some(v);
    SearchGroup {
        id: integer(get(o, "id")),
        name: text(get(o, "name")),
        path: text(get(o, "full_path")),
        web_url: text(get(o, "web_url")),
    }
}

/// The values of a list reply that have a positive id.
pub open spec fn with_id(raw: Seq<Json>) -> Seq<Json> {
    raw.filter(|v: Json| int_or_zero(field(Some(v), "id"@)) > 0)
}

/// The issues of a list reply; those without a positive id are dropped.
pub fn search_issues_from(raw: &Vec<Json>) -> (r: Vec<SearchIssue>)
    ensures
        r@.len() == with_id(raw@).len(),
        forall|i: int| 0 <= i < r@.len() ==> is_search_issue_of(#[trigger] r@[i], with_id(raw@)[i]),
{
    let mut r: Vec<SearchIssue> = Vec::new();
    let mut i: usize = 0;
    proof {
        reveal(Seq::filter);
        assert(raw@.take(0) =~= Seq::<Json>::empty());
    }
    while i < raw.len()
        invariant
            i <= raw@.len(),
            r@.len() == with_id(raw@.take(i as int)).len(),
            forall|j: int|
                0 <= j < r@.len() ==> is_search_issue_of(
                    #[trigger] r@[j],
                    with_id(raw@.take(i as int))[j],
                ),
        decreases raw@.len() - i,
    {
        proof {
            reveal(Seq::filter);
            assert(raw@.take(i + 1).drop_last() =~= raw@.take(i as int));
        }
        let item = search_issue_from_json(&raw[i]);
        if item.id > 0 {
            r.push(item);
        }
        i += 1;
    }
    proof {
        assert(raw@.take(raw@.len() as int) =~= raw@);
    }
    r
}

/// The merge requests of a list reply; those without a positive id are dropped.
pub fn search_mrs_from(raw: &Vec<Json>) -> (r: Vec<SearchMr>)
    ensures
        r@.len() == with_id(raw@).len(),
        forall|i: int| 0 <= i < r@.len() ==> is_search_mr_of(#[trigger] r@[i], with_id(raw@)[i]),
{
    let mut r: Vec<SearchMr> = Vec::new();
    let mut i: usize = 0;
    proof {
        reveal(Seq::filter);
        assert(raw@.take(0) =~= Seq::<Json>::empty());
    }
    while i < raw.len()
        invariant
            i <= raw@.len(),
            r@.len() == with_id(raw@.take(i as int)).len(),
            forall|j: int|
                0 <= j < r@.len() ==> is_search_mr_of(
                    #[trigger] r@[j],
                    with_id(raw@.take(i as int))[j],
                ),
        decreases raw@.len() - i,
    {
        proof {
            reveal(Seq::filter);
            assert(raw@.take(i + 1).drop_last() =~= raw@.take(i as int));
        }
        let item = search_mr_from_json(&raw[i]);
        if item.id > 0 {
            r.push(item);
        }
        i += 1;
    }
    proof {
        assert(raw@.take(raw@.len() as int) =~= raw@);
    }
    r
}

/// The projects of a list reply; those without a positive id are dropped.
pub fn search_projects_from(raw: &Vec<Json>) -> (r: Vec<SearchProject>)
    ensures
        r@.len() == with_id(raw@).len(),
        forall|i: int|
            0 <= i < r@.len() ==> is_search_project_of(#[trigger] r@[i], with_id(raw@)[i]),
{
    let mut r: Vec<SearchProject> = Vec::new();
    let mut i: usize = 0;
    proof {
        reveal(Seq::filter);
        assert(raw@.take(0) =~= Seq::<Json>::empty());
    }
    while i < raw.len()
        invariant
            i <= raw@.len(),
            r@.len() == with_id(raw@.take(i as int)).len(),
            forall|j: int|
                0 <= j < r@.len() ==> is_search_project_of(
                    #[trigger] r@[j],
                    with_id(raw@.take(i as int))[j],
                ),
        decreases raw@.len() - i,
    {
        proof {
            reveal(Seq::filter);
            assert(raw@.take(i + 1).drop_last() =~= raw@.take(i as int));
        }
        let item = search_project_from_json(&raw[i]);
        if item.id > 0 {
            r.push(item);
        }
        i += 1;
    }
    proof {
        assert(raw@.take(raw@.len() as int) =~= raw@);
    }
    r
}

/// The groups of a list reply; those without a positive id are dropped.
pub fn search_groups_from(raw: &Vec<Json>) -> (r: Vec<SearchGroup>)
    ensures
        r@.len() == with_id(raw@).len(),
        forall|i: int| 0 <= i < r@.len() ==> is_search_group_of(#[trigger] r@[i], with_id(raw@)[i]),
{
    let mut r: Vec<SearchGroup> = Vec::new();
    let mut i: usize = 0;
    proof {
        reveal(Seq::filter);
        assert(raw@.take(0) =~= Seq::<Json>::empty());
    }
    while i < raw.len()
        invariant
            i <= raw@.len(),
            r@.len() == with_id(raw@.take(i as int)).len(),
            forall|j: int|
                0 <= j < r@.len() ==> is_search_group_of(
                    #[trigger] r@[j],
                    with_id(raw@.take(i as int))[j],
                ),
        decreases raw@.len() - i,
    {
        proof {
            reveal(Seq::filter);
            assert(raw@.take(i + 1).drop_last() =~= raw@.take(i as int));
        }
        let item = search_group_from_json(&raw[i]);
        if item.id > 0 {
            r.push(item);
        }
        i += 1;
    }
    proof {
        assert(raw@.take(raw@.len() as int) =~= raw@);
    }
    r
}

/// The issues of a list reply.
pub fn issues_from(raw: &Vec<Json>) -> (r: Vec<IssueWithLabels>)
    ensures
        r@.len() == raw@.len(),
        forall|i: int|
            0 <= i < r@.len() ==> is_issue_of((#[trigger] r@[i]).issue, raw@[i])
                && crate::text::texts(r@[i].labels@) == texts_of(field(Some(raw@[i]), "labels"@)),
{
    let mut r: Vec<IssueWithLabels> = Vec::new();
    let mut i: usize = 0;
    while i < raw.len()
        invariant
            i <= raw@.len(),
            r@.len() == i,
            forall|j: int|
                0 <= j < i ==> is_issue_of((#[trigger] r@[j]).issue, raw@[j])
                    && crate::text::texts(r@[j].labels@) == texts_of(
                    field(Some(raw@[j]), "labels"@),
                ),
        decreases raw@.len() - i,
    {
        r.push(issue_with_labels(&raw[i]));
        i += 1;
    }
    r
}

// ── numbers and durations ────────────────────────────────────────────────────

/// The number at the end of a global id.
pub open spec fn gid_number(gid: Seq<char>) -> Option<nat> {
    crate::text::unsigned_in(last_segment(gid), u64::MAX as nat)
}

/// The number at the end of a global id such as `gid://gitlab/Timelog/<id>`.
pub fn parse_gid(gid: &str) -> (r: Option<u64>)
    ensures
        match r {
            Some(n) => gid_number(gid@) == Some(n as nat),
            None => gid_number(gid@) is None,
        },
{
    let tail = last_path_segment(gid);
    crate::text::read_u64(&tail)
}

/// How a number of seconds is shown, in the style of GitLab.
pub open spec fn duration_text(secs: nat) -> Seq<char> {
    let h = secs / 3600;
    let m = (secs % 3600) / 60;
    if secs == 0 {
        "0m"@
    } else if h > 0 && m > 0 {
        decimal(h) + "h "@ + decimal(m) + "m"@
    } else if h > 0 {
        decimal(h) + "h"@
    } else if m > 0 {
        decimal(m) + "m"@
    } else {
        decimal(secs) + "s"@
    }
}

/// Shows a number of seconds as `"1h 30m"`, or as `"45s"` below a minute.
pub fn format_duration(secs: u64) -> (r: String)
    ensures
        r@ == duration_text(secs as nat),
{
    if secs == 0 {
        return "0m".to_owned();
    }
    let h: u64 = secs / 3600;
    let m: u64 = (secs % 3600) / 60;
    let mut r = String::new();
    if h > 0 && m > 0 {
        push_u64(&mut r, h);
        r.append("h ");
        push_u64(&mut r, m);
        r.append("m");
    } else if h > 0 {
        push_u64(&mut r, h);
        r.append("h");
    } else if m > 0 {
        push_u64(&mut r, m);
        r.append("m");
    } else {
        push_u64(&mut r, secs);
        r.append("s");
    }
    proof {
        assert(r@ =~= duration_text(secs as nat));
    }
    r
}

// ── assignees ────────────────────────────────────────────────────────────────

/// Accepts every id but `me`.
pub open spec fn other_than(me: i64) -> spec_fn(i64) -> bool {
    |id: i64| id != me
}

/// The assignees after adding or removing oneself, or `None` where nothing
/// changes.
pub open spec fn new_assignees(current: Seq<i64>, me: i64, add: bool) -> Option<Seq<i64>> {
    if add == current.contains(me) {
        None
    } else if add {
        Some(current.push(me))
    } else {
        Some(current.filter(other_than(me)))
    }
}

/// The assignees after adding or removing oneself, or `None` where nothing
/// changes and no request is needed.
pub fn compute_new_assignees(current: &Vec<i64>, self_id: i64, add: bool) -> (r: Option<Vec<i64>>)
    ensures
        match r {
            Some(v) => new_assignees(current@, self_id, add) == Some(v@),
            None => new_assignees(current@, self_id, add) is None,
        },
{
    let mut kept: Vec<i64> = Vec::new();
    let mut already = false;
    let mut i: usize = 0;
    let ghost p = other_than(self_id);
    proof {
        reveal(Seq::filter);
        assert(current@.take(0) =~= Seq::<i64>::empty());
    }
    while i < current.len()
        invariant
            i <= current@.len(),
            p == other_than(self_id),
            kept@ == current@.take(i as int).filter(p),
            already <==> exists|j: int| 0 <= j < i && #[trigger] current@[j] == self_id,
        decreases current@.len() - i,
    {
        proof {
            reveal(Seq::filter);
            assert(current@.take(i + 1).drop_last() =~= current@.take(i as int));
        }
        let id: i64 = current[i];
        if id == self_id {
            already = true;
        } else {
            kept.push(id);
        }
        i += 1;
    }
    proof {
        assert(current@.take(current@.len() as int) =~= current@);
        assert(already == current@.contains(self_id));
    }
    if add == already {
        return None;
    }
    if add {
        proof {
            lemma_filter_absent(current@, self_id);
        }
        kept.push(self_id);
        Some(kept)
    } else {
        Some(kept)
    }
}

proof fn lemma_filter_absent(s: Seq<i64>, me: i64)
    requires
        !s.contains(me),
    ensures
        s.filter(other_than(me)) == s,
    decreases s.len(),
{
    reveal(Seq::filter);
    if s.len() > 0 {
        let init = s.drop_last();
        assert(!init.contains(me)) by {
            if init.contains(me) {
                let j = choose|j: int| 0 <= j < init.len() && init[j] == me;
                assert(s[j] == me);
            }
        }
        lemma_filter_absent(init, me);
        assert(s[s.len() - 1] != me);
        assert(s =~= init.push(s.last()));
    }
}

/// Adding oneself and removing oneself again restores the assignees.
pub proof fn law_add_then_remove_restores(current: Seq<i64>, me: i64)
    requires
        !current.contains(me),
    ensures
        new_assignees(current, me, true) is Some,
        new_assignees(new_assignees(current, me, true)->0, me, false) == Some(current),
{
    let added = current.push(me);
    assert(added[added.len() - 1] == me);
    reveal(Seq::filter);
    assert(added.drop_last() =~= current);
    lemma_filter_absent(current, me);
    assert(added.filter(other_than(me)) == current.filter(other_than(me)));
}

/// The ids of the assignees that a reply lists.
pub open spec fn assignee_ids(v: Json) -> Seq<i64> {
    match items_in(field(Some(v), "assignees"@)) {
        Some(a) => assignees_among(a).map_values(|p: (i64, Seq<char>)| p.0),
        None => Seq::empty(),
    }
}

/// The ids of the assignees that a reply lists.
pub fn current_assignees(v: &Json) -> (r: Vec<i64>)
    ensures
        r@ == assignee_ids(*v),
{
    let list = mr_assignees_from(v);
    let mut r: Vec<i64> = Vec::new();
    let mut i: usize = 0;
    while i < list.len()
        invariant
            i <= list@.len(),
            r@.len() == i,
            forall|j: int| 0 <= j < i ==> r@[j] == (#[trigger] list@[j]).id,
        decreases list@.len() - i,
    {
        r.push(list[i].id);
        i += 1;
    }
    proof {
        let pairs = assignee_pairs(list@);
        assert(r@ =~= pairs.map_values(|p: (i64, Seq<char>)| p.0));
        if items_in(field(Some(*v), "assignees"@)) is None {
            assert(r@ =~= Seq::<i64>::empty());
        }
    }
    r
}

/// The assignee list to send after reading `reply`, or `None` where the
/// issuable is in the wanted state already.
pub fn mutate_self_assignment(reply: &Json, self_id: i64, add: bool) -> (r: Option<Vec<i64>>)
    ensures
        match r {
            Some(v) => new_assignees(assignee_ids(*reply), self_id, add) == Some(v@),
            None => new_assignees(assignee_ids(*reply), self_id, add) is None,
        },
{
    let current = current_assignees(reply);
    compute_new_assignees(&current, self_id, add)
}

// ── timelogs ─────────────────────────────────────────────────────────────────

/// The messages that GraphQL errors carry.
pub open spec fn messages_among(errs: Seq<Json>) -> Seq<Seq<char>>
    decreases errs.len(),
{
    if errs.len() == 0 {
        Seq::empty()
    } else {
        let rest = messages_among(errs.drop_last());
        match text_in(field(Some(errs.last()), "message"@)) {
            Some(m) => rest.push(m),
            None => rest,
        }
    }
}

fn collect_messages(errs: &Vec<Json>) -> (r: Vec<String>)
    ensures
        crate::text::texts(r@) == messages_among(errs@),
{
    let mut r: Vec<String> = Vec::new();
    let mut i: usize = 0;
    proof {
        assert(crate::text::texts(r@) =~= messages_among(errs@.take(0)));
    }
    while i < errs.len()
        invariant
            i <= errs@.len(),
            crate::text::texts(r@) == messages_among(errs@.take(i as int)),
        decreases errs@.len() - i,
    {
        let ghost r0 = r@;
        proof {
            assert(errs@.take(i + 1).drop_last() =~= errs@.take(i as int));
        }
        match as_text(get(Some(&errs[i]), "message")) {
            Some(m) => {
                r.push(m.clone());
                proof {
                    assert(crate::text::texts(r@) =~= crate::text::texts(r0).push(m@));
                }
            },
            None => {},
        }
        i += 1;
    }
    proof {
        assert(errs@.take(errs@.len() as int) =~= errs@);
    }
    r
}

/// What the top-level errors of a GraphQL reply say, where there are any.
pub open spec fn graphql_error(raw: Json) -> Option<Seq<char>> {
    match items_in(field(Some(raw), "errors"@)) {
        Some(errs) => if errs.len() > 0 {
            Some(join_texts(messages_among(errs), "; "@))
        } else {
            None
        },
        None => None,
    }
}

fn graphql_failure(raw: &Json) -> (r: Option<String>)
    ensures
        crate::error::opt_text(r) == graphql_error(*raw),
{
    match as_items(get(Some(raw), "errors")) {
        Some(errs) => {
            if errs.len() > 0 {
                let messages = collect_messages(errs);
                Some(join(&messages, "; "))
            } else {
                None
            }
        },
        None => None,
    }
}

/// What a reply to the mutation that creates a timelog complains of, if anything.
pub open spec fn create_error(raw: Json) -> Option<Seq<char>> {
    match graphql_error(raw) {
        Some(m) => Some(m),
        None => match items_in(
            field(field(field(Some(raw), "data"@), "timelogCreate"@), "errors"@),
        ) {
            Some(errs) => if errs.len() > 0 {
                Some(join_texts(texts_among(errs), "; "@))
            } else {
                None
            },
            None => None,
        },
    }
}

/// Whether the mutation that creates a timelog went through.
pub fn create_timelog(raw: &Json) -> (r: Result<(), Error>)
    ensures
        match create_error(*raw) {
            Some(m) => r matches Err(Error::Gitlab(t)) && t@ == "timelogCreate: "@ + m,
            None => r is Ok,
        },
{
    match graphql_failure(raw) {
        Some(m) => Err(Error::Gitlab(joined("timelogCreate: ", m.as_str()))),
        None => {
            let inner = get(get(get(Some(raw), "data"), "timelogCreate"), "errors");
            match as_items(inner) {
                Some(errs) => {
                    if errs.len() > 0 {
                        let messages = collect_texts(errs);
                        let m = join(&messages, "; ");
                        Err(Error::Gitlab(joined("timelogCreate: ", m.as_str())))
                    } else {
                        Ok(())
                    }
                },
                None => Ok(()),
            }
        },
    }
}

/// The per-project number in a timelog node, which GitLab gives as text.
pub open spec fn node_iid(v: Option<Json>) -> i64 {
    match v {
        Some(Json::Str(s)) => match crate::text::signed_in(s@) {
            Some(n) => n as i64,
            None => 0,
        },
        Some(Json::Int(i)) => i,
        _ => 0,
    }
}

fn read_node_iid(v: Option<&Json>) -> (r: i64)
    ensures
        r == node_iid(held(v)),
{
    match v {
        Some(Json::Str(s)) => {
            let chars = crate::text::chars_of(s.as_str());
            match crate::text::read_i64(&chars) {
                Some(n) => n,
                None => 0,
            }
        },
        Some(Json::Int(i)) => *i,
        _ => 0,
    }
}

/// Accepts the timelog nodes that have a numeric id.
pub open spec fn numbered() -> spec_fn(Json) -> bool {
    |n: Json| gid_number(text_or_empty(field(Some(n), "id"@))) is Some
}

/// Whether `t` is the timelog that the node `n` describes.
pub open spec fn is_timelog_of(t: FetchedTimelog, n: Json) -> bool {
    let o = Some(n);
    let issue = field(o, "issue"@);
    let spent = int_or_zero(field(o, "timeSpent"@));
    &&& gid_number(text_or_empty(field(o, "id"@))) == Some(t.timelog_id as nat)
    &&& t.spent_at_secs == kept_secs(rfc3339_timestamp(text_or_empty(field(o, "spentAt"@))))
    &&& t.kind == Issuable::Issue
    &&& t.project_id == 0
    &&& t.iid == node_iid(field(issue, "iid"@))
    &&& t.title@ == text_or_empty(field(issue, "title"@))
    &&& t.web_url@ == text_or_empty(field(issue, "webUrl"@))
    &&& t.duration@ == duration_text(
        if spent > 0 {
            spent as nat
        } else {
            0
        },
    )
    &&& t.summary@ == text_or_empty(field(o, "summary"@))
}

/// The nodes of a reply to the query for the user's timelogs.
pub open spec fn timelog_nodes(raw: Json) -> Option<Seq<Json>> {
    items_in(
        field(field(field(field(Some(raw), "data"@), "currentUser"@), "timelogs"@), "nodes"@),
    )
}

/// Whether `list` holds the timelogs of the numbered `nodes`, in their order.
pub open spec fn are_timelogs_of(list: Seq<FetchedTimelog>, nodes: Seq<Json>) -> bool {
    let kept = nodes.filter(numbered());
    &&& list.len() == kept.len()
    &&& forall|i: int| 0 <= i < list.len() ==> is_timelog_of(#[trigger] list[i], kept[i])
}

/// Whether `list` holds the timelogs of the numbered `nodes`, most recent first.
pub open spec fn are_newest_first(list: Seq<FetchedTimelog>, nodes: Seq<Json>) -> bool {
    exists|unsorted: Seq<FetchedTimelog>| #[trigger]
        are_timelogs_of(unsorted, nodes) && list == sorted(unsorted)
}

fn timelog_of(n: &Json, timelog_id: u64) -> (t: FetchedTimelog)
    requires
        gid_number(text_or_empty(field(Some(*n), "id"@))) == Some(timelog_id as nat),
    ensures
        is_timelog_of(t, *n),
{
    let o = Some(n);
    let issue = get(o, "issue");
    let spent_at = text(get(o, "spentAt"));
    let spent: i64 = integer(get(o, "timeSpent"));
    let secs: u64 = if spent > 0 {
        spent as u64
    } else {
        0
    };
    FetchedTimelog {
        timelog_id,
        spent_at_secs: secs_kept(parse_rfc3339(spent_at.as_str())),
        kind: Issuable::Issue,
        project_id: 0,
        iid: read_node_iid(get(issue, "iid")),
        title: text(get(issue, "title")),
        web_url: text(get(issue, "webUrl")),
        duration: format_duration(secs),
        summary: text(get(o, "summary")),
    }
}

/// The timelogs of `nodes`, in their order; nodes without a numeric id are
/// skipped.
pub fn timelogs_of(nodes: &Vec<Json>) -> (r: Vec<FetchedTimelog>)
    ensures
        are_timelogs_of(r@, nodes@),
{
    let mut r: Vec<FetchedTimelog> = Vec::new();
    let mut i: usize = 0;
    proof {
        reveal(Seq::filter);
        assert(nodes@.take(0) =~= Seq::<Json>::empty());
    }
    while i < nodes.len()
        invariant
            i <= nodes@.len(),
            are_timelogs_of(r@, nodes@.take(i as int)),
        decreases nodes@.len() - i,
    {
        proof {
            reveal(Seq::filter);
            assert(nodes@.take(i + 1).drop_last() =~= nodes@.take(i as int));
        }
        let id = text(get(Some(&nodes[i]), "id"));
        match parse_gid(id.as_str()) {
            Some(n) => {
                r.push(timelog_of(&nodes[i], n));
            },
            None => {},
        }
        i += 1;
    }
    proof {
        assert(nodes@.take(nodes@.len() as int) =~= nodes@);
    }
    r
}

/// The user's timelogs from the reply to the query for them, most recent first;
/// `shown` is that reply as text.
pub fn fetch_my_timelogs(raw: &Json, shown: &str) -> (r: Result<Vec<FetchedTimelog>, Error>)
    ensures
        match (graphql_error(*raw), timelog_nodes(*raw)) {
            (Some(m), _) => r matches Err(Error::Gitlab(t)) && t@ == "currentUser.timelogs: "@ + m,
            (None, Some(nodes)) => r matches Ok(list) && are_newest_first(list@, nodes),
            (None, None) => r matches Err(Error::Gitlab(t)) && t@
                == "currentUser.timelogs returned unexpected shape: "@ + shown@,
        },
{
    match graphql_failure(raw) {
        Some(m) => {
            return Err(Error::Gitlab(joined("currentUser.timelogs: ", m.as_str())));
        },
        None => {},
    }
    let inner = get(get(get(get(Some(raw), "data"), "currentUser"), "timelogs"), "nodes");
    match as_items(inner) {
        Some(nodes) => {
            let list = timelogs_of(nodes);
            let ghost unsorted = list@;
            let list = into_sorted(list);
            proof {
                assert(are_timelogs_of(unsorted, nodes@));
                assert(are_newest_first(list@, nodes@));
            }
            Ok(list)
        },
        None => Err(
            Error::Gitlab(joined("currentUser.timelogs returned unexpected shape: ", shown)),
        ),
    }
}

// ── boards ───────────────────────────────────────────────────────────────────

/// The ids of boards that have a numeric one.
pub open spec fn ids_among(boards: Seq<Json>) -> Seq<i64>
    decreases boards.len(),
{
    if boards.len() == 0 {
        Seq::empty()
    } else {
        let rest = ids_among(boards.drop_last());
        match int_in(field(Some(boards.last()), "id"@)) {
            Some(id) => rest.push(id),
            None => rest,
        }
    }
}

/// The ids of the boards of a project; boards without a numeric id are skipped.
pub fn board_ids(boards: &Vec<Json>) -> (r: Vec<i64>)
    ensures
        r@ == ids_among(boards@),
{
    let mut r: Vec<i64> = Vec::new();
    let mut i: usize = 0;
    while i < boards.len()
        invariant
            i <= boards@.len(),
            r@ == ids_among(boards@.take(i as int)),
        decreases boards@.len() - i,
    {
        proof {
            assert(boards@.take(i + 1).drop_last() =~= boards@.take(i as int));
        }
        match as_int(get(Some(&boards[i]), "id")) {
            Some(id) => {
                r.push(id);
            },
            None => {},
        }
        i += 1;
    }
    proof {
        assert(boards@.take(boards@.len() as int) =~= boards@);
    }
    r
}

/// The label names of board lists that have one.
pub open spec fn list_names(lists: Seq<Json>) -> Seq<Seq<char>>
    decreases lists.len(),
{
    if lists.len() == 0 {
        Seq::empty()
    } else {
        let rest = list_names(lists.drop_last());
        match text_in(field(field(Some(lists.last()), "label"@), "name"@)) {
            Some(n) => rest.push(n),
            None => rest,
        }
    }
}

/// Appends the label names of the lists of one board; lists without a label,
/// such as the backlog, are skipped.
pub fn push_list_labels(labels: &mut Vec<String>, lists: &Vec<Json>)
    ensures
        crate::text::texts(final(labels)@) == crate::text::texts(old(labels)@) + list_names(lists@),
{
    let mut i: usize = 0;
    proof {
        assert(lists@.take(0) =~= Seq::<Json>::empty());
        assert(crate::text::texts(labels@) =~= crate::text::texts(labels@)
            + Seq::<Seq<char>>::empty());
    }
    while i < lists.len()
        invariant
            i <= lists@.len(),
            crate::text::texts(labels@) == crate::text::texts(old(labels)@) + list_names(
                lists@.take(i as int),
            ),
        decreases lists@.len() - i,
    {
        let ghost l0 = labels@;
        proof {
            assert(lists@.take(i + 1).drop_last() =~= lists@.take(i as int));
        }
        match as_text(get(get(Some(&lists[i]), "label"), "name")) {
            Some(n) => {
                labels.push(n.clone());
                proof {
                    assert(crate::text::texts(labels@) =~= crate::text::texts(l0).push(n@));
                    assert(crate::text::texts(labels@) =~= crate::text::texts(old(labels)@)
                        + list_names(lists@.take(i + 1)));
                }
            },
            None => {},
        }
        i += 1;
    }
    proof {
        assert(lists@.take(lists@.len() as int) =~= lists@);
    }
}

// ── endpoints ────────────────────────────────────────────────────────────────

#[derive(Clone, Copy, PartialEq, Eq, Structural, Debug)]
pub enum Method {
    Get,
    Post,
    Put,
}

/// The REST path of an issuable.
pub open spec fn issuable_path(kind: Issuable, project_id: i64, iid: i64) -> Seq<char> {
    "projects/"@ + int_text(project_id as int) + "/"@ + segment(kind) + "/"@ + int_text(iid as int)
}

fn path_of(kind: Issuable, project_id: i64, iid: i64) -> (r: String)
    ensures
        r@ == issuable_path(kind, project_id, iid),
{
    let p = i64_text(project_id);
    let i = i64_text(iid);
    let mut r = joined("projects/", p.as_str());
    r.append("/");
    r.append(kind.path_segment());
    r.append("/");
    r.append(i.as_str());
    r
}

/// Whether `body` is an object with the members `names`, in that order.
pub open spec fn has_members(body: Json, names: Seq<Seq<char>>) -> bool {
    body matches Json::Object(m) && m@.len() == names.len() && forall|i: int|
        0 <= i < names.len() ==> (#[trigger] m@[i]).0@ == names[i]
}

/// The text of the member at position `i`.
pub open spec fn member_text(body: Json, i: int) -> Option<Seq<char>> {
    match body {
        Json::Object(m) => text_in(Some(m@[i].1)),
        _ => None,
    }
}

/// The value of the member at position `i`.
pub open spec fn member_value(body: Json, i: int) -> Json {
    match body {
        Json::Object(m) => m@[i].1,
        _ => Json::Null,
    }
}

fn str_member(name: &str, value: &str) -> (r: (String, Json))
    ensures
        r.0@ == name@,
        r.1 matches Json::Str(s) && s@ == value@,
{
    (name.to_owned(), Json::Str(value.to_owned()))
}

/// Records time spent on an issuable.
pub struct AddSpentTime<'a> {
    pub kind: Issuable,
    pub project_id: i64,
    pub iid: i64,
    pub duration: &'a str,
    pub summary: Option<&'a str>,
}

impl<'a> AddSpentTime<'a> {
    pub fn method(&self) -> (r: Method)
        ensures
            r == Method::Post,
    {
        Method::Post
    }

    pub fn endpoint(&self) -> (r: String)
        ensures
            r@ == issuable_path(self.kind, self.project_id, self.iid) + "/add_spent_time"@,
    {
        let mut r = path_of(self.kind, self.project_id, self.iid);
        r.append("/add_spent_time");
        r
    }

    pub fn body(&self) -> (r: Json)
        ensures
            match self.summary {
                Some(s) => has_members(r, seq!["duration"@, "summary"@]) && member_text(r, 1)
                    == Some(s@),
                None => has_members(r, seq!["duration"@]),
            },
            member_text(r, 0) == Some(self.duration@),
    {
        let mut m: Vec<(String, Json)> = Vec::new();
        m.push(str_member("duration", self.duration));
        match self.summary {
            Some(s) => {
                m.push(str_member("summary", s));
            },
            None => {},
        }
        Json::Object(m)
    }
}

/// The GraphQL mutation that creates a timelog.
pub const TIMELOG_CREATE: &'static str = r#"
                mutation($id: IssuableID!, $time: String!, $summary: String!, $spent: Time) {
                    timelogCreate(input: { issuableId: $id, timeSpent: $time, summary: $summary, spentAt: $spent }) {
                        errors
                    }
                }
            "#;

/// The GraphQL query for the timelogs of the authenticated user.
pub const MY_TIMELOGS: &'static str = r#"
                query($start: Time!) {
                    currentUser {
                        timelogs(startTime: $start) {
                            nodes {
                                id
                                timeSpent
                                spentAt
                                summary
                                issue { iid title webUrl }
                            }
                        }
                    }
                }
            "#;

/// Creates a timelog at a given time through GraphQL: the REST call would stamp
/// it with the time of receipt.
pub struct TimelogCreate<'a> {
    pub kind: Issuable,
    pub issuable_id: i64,
    pub time_spent: &'a str,
    pub summary: &'a str,
    /// UNIX seconds of the time that was spent.
    pub spent_at_secs: i64,
    /// The current time as RFC 3339 text, for seconds that are out of range.
    pub now: &'a str,
}

/// The global id of an issuable.
pub open spec fn global_id(kind: Issuable, id: i64) -> Seq<char> {
    "gid://gitlab/"@ + gid_name(kind) + "/"@ + int_text(id as int)
}

impl<'a> TimelogCreate<'a> {
    pub fn method(&self) -> (r: Method)
        ensures
            r == Method::Post,
    {
        Method::Post
    }

    /// Relative to the instance, not to the REST root.
    pub fn endpoint(&self) -> (r: &'static str)
        ensures
            r@ == "api/graphql"@,
    {
        "api/graphql"
    }

    /// The variables of the mutation.
    pub fn variables(&self) -> (r: Json)
        ensures
            has_members(r, seq!["id"@, "time"@, "summary"@, "spent"@]),
            member_text(r, 0) == Some(global_id(self.kind, self.issuable_id)),
            member_text(r, 1) == Some(self.time_spent@),
            member_text(r, 2) == Some(self.summary@),
            member_text(r, 3) == Some(
                match rfc3339_text(self.spent_at_secs) {
                    Some(t) => t,
                    None => self.now@,
                },
            ),
            in_four_digit_years(self.spent_at_secs as int) ==> rfc3339_timestamp(
                member_text(r, 3)->0,
            ) == Some(self.spent_at_secs),
    {
        let id = i64_text(self.issuable_id);
        let mut gid = joined("gid://gitlab/", self.kind.gid_type());
        gid.append("/");
        gid.append(id.as_str());
        let spent = instant_text(self.spent_at_secs, self.now);
        let mut m: Vec<(String, Json)> = Vec::new();
        m.push(str_member("id", gid.as_str()));
        m.push(str_member("time", self.time_spent));
        m.push(str_member("summary", self.summary));
        m.push(str_member("spent", spent.as_str()));
        Json::Object(m)
    }

    pub fn body(&self) -> (r: Json)
        ensures
            has_members(r, seq!["query"@, "variables"@]),
            member_text(r, 0) == Some(TIMELOG_CREATE@),
            has_members(member_value(r, 1), seq!["id"@, "time"@, "summary"@, "spent"@]),
            member_text(member_value(r, 1), 0) == Some(global_id(self.kind, self.issuable_id)),
            member_text(member_value(r, 1), 1) == Some(self.time_spent@),
            member_text(member_value(r, 1), 2) == Some(self.summary@),
            member_text(member_value(r, 1), 3) == Some(
                match rfc3339_text(self.spent_at_secs) {
                    Some(t) => t,
                    None => self.now@,
                },
            ),
            in_four_digit_years(self.spent_at_secs as int) ==> rfc3339_timestamp(
                member_text(member_value(r, 1), 3)->0,
            ) == Some(self.spent_at_secs),
    {
        let mut m: Vec<(String, Json)> = Vec::new();
        m.push(str_member("query", TIMELOG_CREATE));
        m.push(("variables".to_owned(), self.variables()));
        Json::Object(m)
    }
}

/// Reads the profile of the authenticated user.
pub struct CurrentUserEndpoint {}

impl CurrentUserEndpoint {
    pub fn method(&self) -> (r: Method)
        ensures
            r == Method::Get,
    {
        Method::Get
    }

    pub fn endpoint(&self) -> (r: &'static str)
        ensures
            r@ == "user"@,
    {
        "user"
    }
}

/// Reads an issuable.
pub struct GetIssuableEndpoint {
    pub kind: Issuable,
    pub project_id: i64,
    pub iid: i64,
}

impl GetIssuableEndpoint {
    pub fn method(&self) -> (r: Method)
        ensures
            r == Method::Get,
    {
        Method::Get
    }

    pub fn endpoint(&self) -> (r: String)
        ensures
            r@ == issuable_path(self.kind, self.project_id, self.iid),
    {
        path_of(self.kind, self.project_id, self.iid)
    }
}

/// Replaces the assignees of an issuable.
pub struct UpdateAssigneesEndpoint {
    pub kind: Issuable,
    pub project_id: i64,
    pub iid: i64,
    pub assignee_ids: Vec<i64>,
}

impl UpdateAssigneesEndpoint {
    pub fn method(&self) -> (r: Method)
        ensures
            r == Method::Put,
    {
        Method::Put
    }

    pub fn endpoint(&self) -> (r: String)
        ensures
            r@ == issuable_path(self.kind, self.project_id, self.iid),
    {
        path_of(self.kind, self.project_id, self.iid)
    }

    pub fn body(&self) -> (r: Json)
        ensures
            has_members(r, seq!["assignee_ids"@]),
            member_value(r, 0) matches Json::Array(a) && a@.len() == self.assignee_ids@.len()
                && forall|i: int|
                0 <= i < a@.len() ==> #[trigger] a@[i] == Json::Int(self.assignee_ids@[i]),
    {
        let mut a: Vec<Json> = Vec::new();
        let mut i: usize = 0;
        while i < self.assignee_ids.len()
            invariant
                i <= self.assignee_ids@.len(),
                a@.len() == i,
                forall|j: int| 0 <= j < i ==> #[trigger] a@[j] == Json::Int(self.assignee_ids@[j]),
            decreases self.assignee_ids@.len() - i,
        {
            a.push(Json::Int(self.assignee_ids[i]));
            i += 1;
        }
        let mut m: Vec<(String, Json)> = Vec::new();
        m.push(("assignee_ids".to_owned(), Json::Array(a)));
        Json::Object(m)
    }
}

/// Closes an issuable.
pub struct CloseEndpoint {
    pub kind: Issuable,
    pub project_id: i64,
    pub iid: i64,
}

impl CloseEndpoint {
    pub fn method(&self) -> (r: Method)
        ensures
            r == Method::Put,
    {
        Method::Put
    }

    pub fn endpoint(&self) -> (r: String)
        ensures
            r@ == issuable_path(self.kind, self.project_id, self.iid),
    {
        path_of(self.kind, self.project_id, self.iid)
    }

    pub fn body(&self) -> (r: Json)
        ensures
            has_members(r, seq!["state_event"@]),
            member_text(r, 0) == Some("close"@),
    {
        let mut m: Vec<(String, Json)> = Vec::new();
        m.push(str_member("state_event", "close"));
        Json::Object(m)
    }
}

/// Lists the boards of a project.
pub struct ListProjectBoards {
    pub project_id: i64,
}

impl ListProjectBoards {
    pub fn method(&self) -> (r: Method)
        ensures
            r == Method::Get,
    {
        Method::Get
    }

    pub fn endpoint(&self) -> (r: String)
        ensures
            r@ == "projects/"@ + int_text(self.project_id as int) + "/boards"@,
    {
        let p = i64_text(self.project_id);
        let mut r = joined("projects/", p.as_str());
        r.append("/boards");
        r
    }
}

/// Lists the lists of a board.
pub struct ListBoardLists {
    pub project_id: i64,
    pub board_id: i64,
}

impl ListBoardLists {
    pub fn method(&self) -> (r: Method)
        ensures
            r == Method::Get,
    {
        Method::Get
    }

    pub fn endpoint(&self) -> (r: String)
        ensures
            r@ == "projects/"@ + int_text(self.project_id as int) + "/boards/"@ + int_text(
                self.board_id as int,
            ) + "/lists"@,
    {
        let p = i64_text(self.project_id);
        let b = i64_text(self.board_id);
        let mut r = joined("projects/", p.as_str());
        r.append("/boards/");
        r.append(b.as_str());
        r.append("/lists");
        r
    }
}

/// Queries the timelogs of the authenticated user since a time.
pub struct MyTimelogs<'a> {
    /// UNIX seconds to start at.
    pub start_secs: i64,
    /// The current time as RFC 3339 text, for seconds that are out of range.
    pub now: &'a str,
}

impl<'a> MyTimelogs<'a> {
    pub fn method(&self) -> (r: Method)
        ensures
            r == Method::Post,
    {
        Method::Post
    }

    /// Relative to the instance, not to the REST root.
    pub fn endpoint(&self) -> (r: &'static str)
        ensures
            r@ == "api/graphql"@,
    {
        "api/graphql"
    }

    pub fn body(&self) -> (r: Json)
        ensures
            has_members(r, seq!["query"@, "variables"@]),
            member_text(r, 0) == Some(MY_TIMELOGS@),
            has_members(member_value(r, 1), seq!["start"@]),
            member_text(member_value(r, 1), 0) == Some(
                match rfc3339_text(self.start_secs) {
                    Some(t) => t,
                    None => self.now@,
                },
            ),
            in_four_digit_years(self.start_secs as int) ==> rfc3339_timestamp(
                member_text(member_value(r, 1), 0)->0,
            ) == Some(self.start_secs),
    {
        let start = instant_text(self.start_secs, self.now);
        let mut v: Vec<(String, Json)> = Vec::new();
        v.push(str_member("start", start.as_str()));
        let mut m: Vec<(String, Json)> = Vec::new();
        m.push(str_member("query", MY_TIMELOGS));
        m.push(("variables".to_owned(), Json::Object(v)));
        Json::Object(m)
    }
}

// ── laws ─────────────────────────────────────────────────────────────────────

proof fn lemma_last_segment(prefix: Seq<char>, tail: Seq<char>)
    requires
        forall|i: int| 0 <= i < tail.len() ==> #[trigger] tail[i] != '/',
    ensures
        last_segment(prefix + seq!['/'] + tail) == tail,
    decreases tail.len(),
{
    let s = prefix + seq!['/'] + tail;
    if tail.len() == 0 {
        assert(s.last() == '/');
        assert(last_segment(s) =~= tail);
    } else {
        lemma_last_segment(prefix, tail.drop_last());
        assert(s.drop_last() =~= prefix + seq!['/'] + tail.drop_last());
        assert(s.last() == tail.last());
        assert(tail =~= tail.drop_last().push(tail.last()));
    }
}

proof fn lemma_whole_segment(tail: Seq<char>)
    requires
        forall|i: int| 0 <= i < tail.len() ==> #[trigger] tail[i] != '/',
    ensures
        last_segment(tail) == tail,
    decreases tail.len(),
{
    if tail.len() == 0 {
        assert(last_segment(tail) =~= tail);
    } else {
        lemma_whole_segment(tail.drop_last());
        assert(tail[tail.len() - 1] != '/');
        assert(tail =~= tail.drop_last().push(tail.last()));
    }
}

/// The number of a global id that ends in the decimal form of a number is that
/// number, whatever stands before the last slash; so is that of the bare number.
pub proof fn law_gid_roundtrip(prefix: Seq<char>, n: nat)
    requires
        n <= u64::MAX,
    ensures
        gid_number(prefix + seq!['/'] + decimal(n)) == Some(n),
        gid_number(decimal(n)) == Some(n),
{
    law_decimal_reads_back(n);
    let d = decimal(n);
    assert forall|i: int| 0 <= i < d.len() implies #[trigger] d[i] != '/' by {
        assert(crate::text::is_digit(d[i]));
    }
    assert(crate::text::is_digit(d[0]));
    lemma_last_segment(prefix, d);
    lemma_whole_segment(d);
}

/// A global id whose last segment is empty or has a character that is neither a
/// digit nor a leading plus sign has no number.
pub proof fn law_gid_rejects_text(prefix: Seq<char>, tail: Seq<char>)
    requires
        forall|i: int| 0 <= i < tail.len() ==> #[trigger] tail[i] != '/',
        tail.len() == 0 || exists|i: int|
            0 <= i < tail.len() && !crate::text::is_digit(#[trigger] tail[i]) && tail[i] != '+',
    ensures
        gid_number(prefix + seq!['/'] + tail) is None,
        gid_number(tail) is None,
{
    lemma_last_segment(prefix, tail);
    lemma_whole_segment(tail);
    if tail.len() > 0 {
        let i = choose|i: int|
            0 <= i < tail.len() && !crate::text::is_digit(#[trigger] tail[i]) && tail[i] != '+';
        if tail[0] == '+' {
            assert(tail.skip(1)[i - 1] == tail[i]);
        }
    }
}

/// From a minute on, a shown duration drops nothing but the begun minute, and
/// its minutes are below sixty.
pub proof fn law_duration_drops_only_seconds(secs: nat)
    requires
        secs >= 60,
    ensures
        ({
            let h = secs / 3600;
            let m = (secs % 3600) / 60;
            &&& h * 3600 + m * 60 == secs - secs % 60
            &&& m < 60
            &&& h > 0 || m > 0
            &&& duration_text(secs) == (if h > 0 && m > 0 {
                decimal(h) + "h "@ + decimal(m) + "m"@
            } else if h > 0 {
                decimal(h) + "h"@
            } else {
                decimal(m) + "m"@
            })
        }),
{
}

/// The path of an issue and of a merge request: its project and its number, under
/// the segment of its kind; and its global id, under the name of its kind.
pub proof fn law_paths_and_global_ids(project_id: i64, iid: i64, id: i64)
    ensures
        issuable_path(Issuable::Issue, project_id, iid) == "projects/"@ + int_text(
            project_id as int,
        ) + "/"@ + "issues"@ + "/"@ + int_text(iid as int),
        issuable_path(Issuable::MergeRequest, project_id, iid) == "projects/"@ + int_text(
            project_id as int,
        ) + "/"@ + "merge_requests"@ + "/"@ + int_text(iid as int),
        global_id(Issuable::Issue, id) == "gid://gitlab/"@ + "Issue"@ + "/"@ + int_text(id as int),
        global_id(Issuable::MergeRequest, id) == "gid://gitlab/"@ + "MergeRequest"@ + "/"@
            + int_text(id as int),
{
}

/// Network failures while connecting are retried three times, one, two and four
/// seconds apart.
pub proof fn law_retry_schedule(p: RetryPlan, n: nat)
    requires
        p.after_attempts(n),
    ensures
        p.made() == n,
        n == 0 ==> p.next_delay() == 1_000_000_000,
        n == 1 ==> p.next_delay() == 2_000_000_000,
        n == 2 ==> p.next_delay() == 4_000_000_000,
        n <= 4,
{
}

/// A time since the epoch is kept as it is; one before, or none, is zero.
pub proof fn law_kept_seconds(t: i64)
    ensures
        t >= 0 ==> kept_secs(Some(t)) as int == t as int,
        t < 0 ==> kept_secs(Some(t)) == 0,
        kept_secs(None) == 0,
{
}

/// Below a minute the seconds are shown, and nothing at all as no minutes.
pub proof fn law_short_durations(secs: nat)
    ensures
        secs == 0 ==> duration_text(secs) == "0m"@,
        0 < secs < 60 ==> duration_text(secs) == decimal(secs) + "s"@,
{
}

proof fn lemma_kept_by_filter<T>(s: Seq<T>, p: spec_fn(T) -> bool, x: T)
    ensures
        s.filter(p).contains(x) <==> s.contains(x) && p(x),
    decreases s.len(),
{
    reveal(Seq::filter);
    if s.len() > 0 {
        let init = s.drop_last();
        let rest = init.filter(p);
        let all = s.filter(p);
        lemma_kept_by_filter(init, p, x);
        assert(s =~= init.push(s.last()));
        assert(s[s.len() - 1] == s.last());
        if init.contains(x) {
            let j = choose|j: int| 0 <= j < init.len() && init[j] == x;
            assert(s[j] == x);
        }
        if s.contains(x) {
            let j = choose|j: int| 0 <= j < s.len() && s[j] == x;
            if j < init.len() {
                assert(init[j] == x);
            }
        }
        if p(s.last()) {
            assert(all =~= rest.push(s.last()));
            assert(all[rest.len() as int] == s.last());
            if rest.contains(x) {
                let j = choose|j: int| 0 <= j < rest.len() && rest[j] == x;
                assert(all[j] == x);
            }
            if all.contains(x) {
                let j = choose|j: int| 0 <= j < all.len() && all[j] == x;
                if j < rest.len() {
                    assert(rest[j] == x);
                }
            }
        }
    }
}

/// Of a list reply, exactly the values with a positive numeric id are kept.
pub proof fn law_listed_values_are_kept(raw: Seq<Json>, v: Json)
    ensures
        with_id(raw).contains(v) <==> raw.contains(v) && (field(Some(v), "id"@) is Some && field(
            Some(v),
            "id"@,
        )->0 is Int && field(Some(v), "id"@)->0->Int_0 > 0),
{
    lemma_kept_by_filter(raw, |v: Json| int_or_zero(field(Some(v), "id"@)) > 0, v);
}

/// Every text of a list of labels is kept, in order, and nothing else is.
pub proof fn law_labels_are_kept(items: Seq<Json>, t: Seq<char>)
    ensures
        texts_among(items).contains(t) <==> exists|i: int|
            0 <= i < items.len() && (#[trigger] items[i]) is Str && items[i]->Str_0@ == t,
        (forall|i: int| 0 <= i < items.len() ==> (#[trigger] items[i]) is Str) ==> {
            &&& texts_among(items).len() == items.len()
            &&& forall|i: int|
                0 <= i < items.len() ==> #[trigger] texts_among(items)[i] == items[i]->Str_0@
        },
    decreases items.len(),
{
    if items.len() > 0 {
        let init = items.drop_last();
        let rest = texts_among(init);
        let all = texts_among(items);
        law_labels_are_kept(init, t);
        assert(items[items.len() - 1] == items.last());
        assert forall|i: int| 0 <= i < init.len() implies init[i] == #[trigger] items[i] by {
        }
        if items.last() is Str {
            assert(all =~= rest.push(items.last()->Str_0@));
            assert(all[rest.len() as int] == items.last()->Str_0@);
        }
        if all.contains(t) {
            let j = choose|j: int| 0 <= j < all.len() && all[j] == t;
            if j < rest.len() {
                assert(rest[j] == t);
                let i = choose|i: int|
                    0 <= i < init.len() && (#[trigger] init[i]) is Str && init[i]->Str_0@ == t;
                assert(items[i] is Str && items[i]->Str_0@ == t);
            }
        }
        if exists|i: int|
            0 <= i < items.len() && (#[trigger] items[i]) is Str && items[i]->Str_0@ == t {
            let i = choose|i: int|
                0 <= i < items.len() && (#[trigger] items[i]) is Str && items[i]->Str_0@ == t;
            if i < init.len() {
                assert(init[i] is Str && init[i]->Str_0@ == t);
                let j = choose|j: int| 0 <= j < rest.len() && rest[j] == t;
                assert(all[j] == t);
            }
        }
        if forall|i: int| 0 <= i < items.len() ==> (#[trigger] items[i]) is Str {
            assert forall|i: int| 0 <= i < init.len() implies (#[trigger] init[i]) is Str by {
                assert(items[i] is Str);
            }
            assert forall|i: int| 0 <= i < items.len() implies #[trigger] all[i]
                == items[i]->Str_0@ by {
                if i < init.len() {
                    assert(rest[i] == init[i]->Str_0@);
                }
            }
        }
    }
}

/// Every assignee with a numeric id is kept, with the name, and nobody else is.
pub proof fn law_assignees_are_kept(items: Seq<Json>, id: i64)
    ensures
        (exists|n: int| 0 <= n < assignees_among(items).len() && (#[trigger] assignees_among(
            items,
        )[n]).0 == id) <==> exists|i: int|
            0 <= i < items.len() && field(Some(#[trigger] items[i]), "id"@) == Some(Json::Int(id)),
        forall|i: int|
            0 <= i < items.len() && field(Some(#[trigger] items[i]), "id"@) == Some(Json::Int(id))
                && field(Some(items[i]), "username"@) is Some && field(
                Some(items[i]),
                "username"@,
            )->0 is Str ==> assignees_among(items).contains(
                (id, field(Some(items[i]), "username"@)->0->Str_0@),
            ),
    decreases items.len(),
{
    if items.len() > 0 {
        let init = items.drop_last();
        let rest = assignees_among(init);
        let all = assignees_among(items);
        law_assignees_are_kept(init, id);
        assert(items[items.len() - 1] == items.last());
        assert forall|i: int| 0 <= i < init.len() implies init[i] == #[trigger] items[i] by {
        }
        let last = int_in(field(Some(items.last()), "id"@));
        if last is Some {
            assert(all.len() == rest.len() + 1);
            assert(all[rest.len() as int].0 == last->0);
        }
        assert forall|n: int| 0 <= n < rest.len() implies rest[n] == #[trigger] all[n] by {
        }
        if exists|n: int| 0 <= n < all.len() && (#[trigger] all[n]).0 == id {
            let n = choose|n: int| 0 <= n < all.len() && (#[trigger] all[n]).0 == id;
            if n < rest.len() {
                assert(rest[n].0 == id);
                let i = choose|i: int|
                    0 <= i < init.len() && field(Some(#[trigger] init[i]), "id"@) == Some(
                        Json::Int(id),
                    );
                assert(field(Some(items[i]), "id"@) == Some(Json::Int(id)));
            } else {
                assert(field(Some(items[items.len() - 1]), "id"@) == Some(Json::Int(id)));
            }
        }
        if exists|i: int|
            0 <= i < items.len() && field(Some(#[trigger] items[i]), "id"@) == Some(
                Json::Int(id),
            ) {
            let i = choose|i: int|
                0 <= i < items.len() && field(Some(#[trigger] items[i]), "id"@) == Some(
                    Json::Int(id),
                );
            if i < init.len() {
                assert(field(Some(init[i]), "id"@) == Some(Json::Int(id)));
                let n = choose|n: int| 0 <= n < rest.len() && (#[trigger] rest[n]).0 == id;
                assert(all[n].0 == id);
            } else {
                assert(all[rest.len() as int].0 == id);
            }
        }
        assert forall|i: int|
            0 <= i < items.len() && field(Some(#[trigger] items[i]), "id"@) == Some(Json::Int(id))
                && field(Some(items[i]), "username"@) is Some && field(
                Some(items[i]),
                "username"@,
            )->0 is Str implies all.contains(
            (id, field(Some(items[i]), "username"@)->0->Str_0@),
        ) by {
            let pair = (id, field(Some(items[i]), "username"@)->0->Str_0@);
            if i < init.len() {
                assert(field(Some(init[i]), "id"@) == Some(Json::Int(id)));
                let n = choose|n: int| 0 <= n < rest.len() && rest[n] == pair;
                assert(all[n] == pair);
            } else {
                assert(all[rest.len() as int] == pair);
            }
        }
    }
}

/// Whether a text was read from a value: the text of a string, and nothing of
/// anything else.
pub open spec fn reads_text(s: Seq<char>, v: Option<Json>) -> bool {
    &&& v is Some && v->0 is Str ==> s == v->0->Str_0@
    &&& !(v is Some && v->0 is Str) ==> s.len() == 0
}

/// Whether a number was read from a value: that of an integer, and zero of
/// anything else.
pub open spec fn reads_number(n: i64, v: Option<Json>) -> bool {
    &&& v is Some && v->0 is Int ==> n == v->0->Int_0
    &&& !(v is Some && v->0 is Int) ==> n == 0
}

/// Everything that is kept of an issue is read from the member of that name: its
/// epic's address and its time from the members inside.
pub proof fn law_issue_is_read_from_its_members(i: Issue, x: SearchIssue, v: Json)
    ensures
        ({
            let o = Some(v);
            let epic = field(field(o, "epic"@), "url"@);
            let time = field(field(o, "time_stats"@), "human_total_time_spent"@);
            &&& is_issue_of(i, v) ==> {
                &&& reads_number(i.id, field(o, "id"@))
                &&& reads_number(i.iid, field(o, "iid"@))
                &&& reads_number(i.project_id, field(o, "project_id"@))
                &&& reads_text(i.title@, field(o, "title"@))
                &&& reads_text(i.web_url@, field(o, "web_url"@))
                &&& reads_text(i.state@, field(o, "state"@))
                &&& reads_text(i.parent@, epic)
                &&& reads_text(i.total_time@, time)
                &&& i.graph_status@.len() == 0
            }
            &&& is_search_issue_of(x, v) ==> {
                &&& reads_number(x.id, field(o, "id"@))
                &&& reads_number(x.iid, field(o, "iid"@))
                &&& reads_number(x.project_id, field(o, "project_id"@))
                &&& reads_text(x.title@, field(o, "title"@))
                &&& reads_text(x.web_url@, field(o, "web_url"@))
                &&& reads_text(x.state@, field(o, "state"@))
                &&& reads_text(x.parent@, epic)
                &&& reads_text(x.total_time@, time)
                &&& field(o, "updated_at"@) is Some && field(o, "updated_at"@)->0 is Str
                    && rfc3339_timestamp(field(o, "updated_at"@)->0->Str_0@) is Some
                    && rfc3339_timestamp(field(o, "updated_at"@)->0->Str_0@)->0 >= 0
                    ==> x.updated_at_secs as int == rfc3339_timestamp(
                    field(o, "updated_at"@)->0->Str_0@,
                )->0 as int
                &&& field(o, "labels"@) is Some && field(o, "labels"@)->0 is Array
                    ==> crate::text::texts(x.labels@) == texts_among(
                    field(o, "labels"@)->0->Array_0@,
                )
            }
        }),
{
}

/// Everything that is kept of a merge request, a project and a group is read from
/// the member of that name.
pub proof fn law_entries_are_read_from_their_members(
    m: SearchMr,
    p: SearchProject,
    g: SearchGroup,
    v: Json,
)
    ensures
        ({
            let o = Some(v);
            &&& is_search_mr_of(m, v) ==> {
                &&& reads_number(m.id, field(o, "id"@))
                &&& reads_number(m.iid, field(o, "iid"@))
                &&& reads_number(m.project_id, field(o, "project_id"@))
                &&& reads_text(m.title@, field(o, "title"@))
                &&& reads_text(m.web_url@, field(o, "web_url"@))
                &&& reads_text(m.state@, field(o, "state"@))
                &&& field(o, "updated_at"@) is Some && field(o, "updated_at"@)->0 is Str
                    && rfc3339_timestamp(field(o, "updated_at"@)->0->Str_0@) is Some
                    && rfc3339_timestamp(field(o, "updated_at"@)->0->Str_0@)->0 >= 0
                    ==> m.updated_at_secs as int == rfc3339_timestamp(
                    field(o, "updated_at"@)->0->Str_0@,
                )->0 as int
                &&& field(o, "labels"@) is Some && field(o, "labels"@)->0 is Array
                    ==> crate::text::texts(m.labels@) == texts_among(
                    field(o, "labels"@)->0->Array_0@,
                )
                &&& field(o, "assignees"@) is Some && field(o, "assignees"@)->0 is Array
                    ==> m.assignees@.len() == assignees_among(
                    field(o, "assignees"@)->0->Array_0@,
                ).len() && forall|i: int|
                    0 <= i < m.assignees@.len() ==> (#[trigger] m.assignees@[i]).id
                        == assignees_among(field(o, "assignees"@)->0->Array_0@)[i].0
                        && m.assignees@[i].username@ == assignees_among(
                        field(o, "assignees"@)->0->Array_0@,
                    )[i].1
            }
            &&& is_search_project_of(p, v) ==> {
                &&& reads_number(p.id, field(o, "id"@))
                &&& reads_text(p.name@, field(o, "name"@))
                &&& reads_text(p.path@, field(o, "path_with_namespace"@))
                &&& reads_text(p.web_url@, field(o, "web_url"@))
            }
            &&& is_search_group_of(g, v) ==> {
                &&& reads_number(g.id, field(o, "id"@))
                &&& reads_text(g.name@, field(o, "name"@))
                &&& reads_text(g.path@, field(o, "full_path"@))
                &&& reads_text(g.web_url@, field(o, "web_url"@))
            }
        }),
{
    if is_search_mr_of(m, v) {
        let pairs = assignee_pairs(m.assignees@);
        assert forall|i: int| 0 <= i < m.assignees@.len() implies pairs[i].0 == (
        #[trigger] m.assignees@[i]).id && pairs[i].1 == m.assignees@[i].username@ by {
        }
    }
}

/// A timelog is read from its node: when, for which issue, how long and with which
/// summary the time was spent.
pub proof fn law_timelog_is_read_from_its_node(t: FetchedTimelog, n: Json)
    requires
        is_timelog_of(t, n),
    ensures
        ({
            let o = Some(n);
            let issue = field(o, "issue"@);
            let spent = field(o, "timeSpent"@);
            let at = field(o, "spentAt"@);
            &&& field(o, "id"@) is Some && field(o, "id"@)->0 is Str ==> gid_number(
                field(o, "id"@)->0->Str_0@,
            ) == Some(t.timelog_id as nat)
            &&& at is Some && at->0 is Str && rfc3339_timestamp(at->0->Str_0@) is Some
                && rfc3339_timestamp(at->0->Str_0@)->0 >= 0 ==> t.spent_at_secs as int
                == rfc3339_timestamp(at->0->Str_0@)->0 as int
            &&& reads_text(t.title@, field(issue, "title"@))
            &&& reads_text(t.web_url@, field(issue, "webUrl"@))
            &&& reads_text(t.summary@, field(o, "summary"@))
            &&& field(issue, "iid"@) is Some && field(issue, "iid"@)->0 is Int ==> t.iid == field(
                issue,
                "iid"@,
            )->0->Int_0
            &&& field(issue, "iid"@) is Some && field(issue, "iid"@)->0 is Str
                && crate::text::signed_in(field(issue, "iid"@)->0->Str_0@) is Some ==> t.iid as int
                == crate::text::signed_in(field(issue, "iid"@)->0->Str_0@)->0
            &&& spent is Some && spent->0 is Int && spent->0->Int_0 > 0 ==> t.duration@
                == duration_text(spent->0->Int_0 as nat)
            &&& !(spent is Some && spent->0 is Int && spent->0->Int_0 > 0) ==> t.duration@ == "0m"@
            &&& t.kind is Issue
            &&& t.project_id == 0
        }),
{
}

/// Every timelog node with a numeric id is kept, and nothing else is; the most
/// recent come first.
pub proof fn law_timelogs_are_kept(
    list: Seq<FetchedTimelog>,
    nodes: Seq<Json>,
    n: Json,
    i: int,
    j: int,
)
    requires
        are_newest_first(list, nodes),
    ensures
        nodes.contains(n) && gid_number(text_or_empty(field(Some(n), "id"@))) is Some ==> exists|
            k: int,
        |
            0 <= k < list.len() && is_timelog_of(#[trigger] list[k], n),
        0 <= i < list.len() ==> exists|k: int|
            0 <= k < nodes.len() && is_timelog_of(list[i], #[trigger] nodes[k]),
        0 <= i < j < list.len() ==> list[i].spent_at_secs >= list[j].spent_at_secs,
{
    let unsorted = choose|unsorted: Seq<FetchedTimelog>| #[trigger]
        are_timelogs_of(unsorted, nodes) && list == sorted(unsorted);
    let kept = nodes.filter(numbered());
    crate::order::law_sorted(unsorted, |t: FetchedTimelog| true);
    lemma_kept_by_filter(nodes, numbered(), n);
    if nodes.contains(n) && gid_number(text_or_empty(field(Some(n), "id"@))) is Some {
        let x = choose|x: int| 0 <= x < kept.len() && kept[x] == n;
        assert(is_timelog_of(unsorted[x], kept[x]));
        crate::order::lemma_sorted_contains(unsorted, unsorted[x]);
        assert(unsorted.contains(unsorted[x]));
        let k = choose|k: int| 0 <= k < list.len() && list[k] == unsorted[x];
        assert(is_timelog_of(list[k], n));
    }
    if 0 <= i < list.len() {
        crate::order::lemma_sorted_contains(unsorted, list[i]);
        assert(list.contains(list[i]));
        let x = choose|x: int| 0 <= x < unsorted.len() && unsorted[x] == list[i];
        assert(is_timelog_of(unsorted[x], kept[x]));
        lemma_kept_by_filter(nodes, numbered(), kept[x]);
        assert(kept.contains(kept[x]));
        let k = choose|k: int| 0 <= k < nodes.len() && nodes[k] == kept[x];
        assert(is_timelog_of(list[i], nodes[k]));
    }
    if 0 <= i < j < list.len() {
        assert(!list[j].before(list[i]));
    }
}

/// Assigning oneself adds oneself and keeps everybody, unassigning takes oneself
/// off and keeps everybody else, and nothing is sent where that is so already.
pub proof fn law_own_assignment(current: Seq<i64>, me: i64, other: i64)
    ensures
        new_assignees(current, me, true) is None <==> current.contains(me),
        new_assignees(current, me, false) is None <==> !current.contains(me),
        new_assignees(current, me, true) matches Some(v) ==> {
            &&& v.contains(me)
            &&& v.len() == current.len() + 1
            &&& v.take(current.len() as int) == current
        },
        new_assignees(current, me, false) matches Some(v) ==> {
            &&& !v.contains(me)
            &&& other != me ==> (v.contains(other) <==> current.contains(other))
        },
{
    lemma_kept_by_filter(current, other_than(me), me);
    lemma_kept_by_filter(current, other_than(me), other);
    let v = current.push(me);
    assert(v[current.len() as int] == me);
    assert(v.take(current.len() as int) =~= current);
}

/// A reply that reports errors is a failure, whether GraphQL or the mutation itself
/// reports them, and a reply that reports none is not.
pub proof fn law_reported_errors_are_failures(raw: Json)
    ensures
        ({
            let top = field(Some(raw), "errors"@);
            let inner = field(field(field(Some(raw), "data"@), "timelogCreate"@), "errors"@);
            let reports = |e: Option<Json>| e is Some && e->0 is Array && e->0->Array_0@.len() > 0;
            &&& reports(top) <==> graphql_error(raw) is Some
            &&& reports(top) || reports(inner) <==> create_error(raw) is Some
        }),
{
}

/// Every board with a numeric id is looked at, and nothing else is.
pub proof fn law_boards_are_kept(boards: Seq<Json>, id: i64)
    ensures
        ids_among(boards).contains(id) <==> exists|i: int|
            0 <= i < boards.len() && field(Some(#[trigger] boards[i]), "id"@) == Some(
                Json::Int(id),
            ),
    decreases boards.len(),
{
    if boards.len() > 0 {
        let init = boards.drop_last();
        let rest = ids_among(init);
        let all = ids_among(boards);
        law_boards_are_kept(init, id);
        assert(boards[boards.len() - 1] == boards.last());
        if int_in(field(Some(boards.last()), "id"@)) is Some {
            assert(all[rest.len() as int] == int_in(field(Some(boards.last()), "id"@))->0);
        }
        if all.contains(id) {
            let j = choose|j: int| 0 <= j < all.len() && all[j] == id;
            if j < rest.len() {
                assert(rest[j] == id);
                let i = choose|i: int|
                    0 <= i < init.len() && field(Some(#[trigger] init[i]), "id"@) == Some(
                        Json::Int(id),
                    );
                assert(boards[i] == init[i]);
            }
        }
        if exists|i: int|
            0 <= i < boards.len() && field(Some(#[trigger] boards[i]), "id"@) == Some(
                Json::Int(id),
            ) {
            let i = choose|i: int|
                0 <= i < boards.len() && field(Some(#[trigger] boards[i]), "id"@) == Some(
                    Json::Int(id),
                );
            if i < init.len() {
                assert(init[i] == boards[i]);
                let j = choose|j: int| 0 <= j < rest.len() && rest[j] == id;
                assert(all[j] == id);
            }
        }
    }
}

/// Every list of a board that has a label goes by the label's name, and a list
/// without one is skipped.
pub proof fn law_board_lists_are_kept(lists: Seq<Json>, name: Seq<char>)
    ensures
        list_names(lists).contains(name) <==> exists|i: int|
            0 <= i < lists.len() && text_in(
                field(field(Some(#[trigger] lists[i]), "label"@), "name"@),
            ) == Some(name),
    decreases lists.len(),
{
    if lists.len() > 0 {
        let init = lists.drop_last();
        let rest = list_names(init);
        let all = list_names(lists);
        law_board_lists_are_kept(init, name);
        assert(lists[lists.len() - 1] == lists.last());
        let last = text_in(field(field(Some(lists.last()), "label"@), "name"@));
        if last is Some {
            assert(all[rest.len() as int] == last->0);
        }
        if all.contains(name) {
            let j = choose|j: int| 0 <= j < all.len() && all[j] == name;
            if j < rest.len() {
                assert(rest[j] == name);
                let i = choose|i: int|
                    0 <= i < init.len() && text_in(
                        field(field(Some(#[trigger] init[i]), "label"@), "name"@),
                    ) == Some(name);
                assert(lists[i] == init[i]);
            }
        }
        if exists|i: int|
            0 <= i < lists.len() && text_in(
                field(field(Some(#[trigger] lists[i]), "label"@), "name"@),
            ) == Some(name) {
            let i = choose|i: int|
                0 <= i < lists.len() && text_in(
                    field(field(Some(#[trigger] lists[i]), "label"@), "name"@),
                ) == Some(name);
            if i < init.len() {
                assert(init[i] == lists[i]);
                let j = choose|j: int| 0 <= j < rest.len() && rest[j] == name;
                assert(all[j] == name);
            }
        }
    }
}

/// The errors of a reply are told in their own words, in order: those of GraphQL by
/// their messages, those of the mutation as they are.
pub proof fn law_error_messages_are_kept(raw: Json, errs: Vec<Json>, i: int)
    requires
        errs@.len() > 0,
    ensures
        field(Some(raw), "errors"@) == Some(Json::Array(errs)) ==> graphql_error(raw) == Some(
            join_texts(messages_among(errs@), "; "@),
        ) && create_error(raw) == graphql_error(raw),
        graphql_error(raw) is None && field(
            field(field(Some(raw), "data"@), "timelogCreate"@),
            "errors"@,
        ) == Some(Json::Array(errs)) ==> create_error(raw) == Some(
            join_texts(texts_among(errs@), "; "@),
        ),
        (forall|n: int|
            0 <= n < errs@.len() ==> text_in(field(Some(#[trigger] errs@[n]), "message"@)) is Some)
            ==> {
            &&& messages_among(errs@).len() == errs@.len()
            &&& 0 <= i < errs@.len() ==> Some(messages_among(errs@)[i]) == text_in(
                field(Some(errs@[i]), "message"@),
            )
        },
{
    lemma_messages(errs@, i);
}

proof fn lemma_messages(errs: Seq<Json>, i: int)
    ensures
        (forall|n: int|
            0 <= n < errs.len() ==> text_in(field(Some(#[trigger] errs[n]), "message"@)) is Some)
            ==> {
            &&& messages_among(errs).len() == errs.len()
            &&& 0 <= i < errs.len() ==> Some(messages_among(errs)[i]) == text_in(
                field(Some(errs[i]), "message"@),
            )
        },
    decreases errs.len(),
{
    if errs.len() > 0 {
        let init = errs.drop_last();
        lemma_messages(init, i);
        assert(errs[errs.len() - 1] == errs.last());
        assert forall|n: int| 0 <= n < init.len() implies init[n] == #[trigger] errs[n] by {
        }
    }
}

/// The timelogs of a reply stand under the current user, and in no other place.
pub proof fn law_where_timelogs_stand(raw: Json)
    ensures
        ({
            let at = field(
                field(field(field(Some(raw), "data"@), "currentUser"@), "timelogs"@),
                "nodes"@,
            );
            &&& at is Some && at->0 is Array ==> timelog_nodes(raw) == Some(at->0->Array_0@)
            &&& !(at is Some && at->0 is Array) ==> timelog_nodes(raw) is None
        }),
{
}

/// A body has exactly the members that are named, in that order, each with its own
/// value.
pub proof fn law_members_of_a_body(body: Json, names: Seq<Seq<char>>, i: int)
    requires
        has_members(body, names),
        0 <= i < names.len(),
    ensures
        body is Object,
        body->Object_0@.len() == names.len(),
        body->Object_0@[i].0@ == names[i],
        member_value(body, i) == body->Object_0@[i].1,
        body->Object_0@[i].1 is Str ==> member_text(body, i) == Some(
            body->Object_0@[i].1->Str_0@,
        ),
        !(body->Object_0@[i].1 is Str) ==> member_text(body, i) is None,
{
}

/// The ids of the present assignees are those that the reply lists.
pub proof fn law_present_assignees(v: Json, items: Vec<Json>, id: i64)
    requires
        field(Some(v), "assignees"@) == Some(Json::Array(items)),
    ensures
        assignee_ids(v).contains(id) <==> exists|i: int|
            0 <= i < items@.len() && field(Some(#[trigger] items@[i]), "id"@) == Some(
                Json::Int(id),
            ),
{
    law_assignees_are_kept(items@, id);
    let pairs = assignees_among(items@);
    let ids = assignee_ids(v);
    if ids.contains(id) {
        let n = choose|n: int| 0 <= n < ids.len() && ids[n] == id;
        assert(pairs[n].0 == id);
    }
    if exists|n: int| 0 <= n < pairs.len() && (#[trigger] pairs[n]).0 == id {
        let n = choose|n: int| 0 <= n < pairs.len() && (#[trigger] pairs[n]).0 == id;
        assert(ids[n] == id);
    }
}

/// The mutation passes all four of its variables on, each as what it is, and asks
/// for the errors; the query asks for the timelogs of the authenticated user from
/// a time on, and for all that is kept of them.
pub proof fn law_graphql_documents()
    ensures
        crate::text::has_substring(TIMELOG_CREATE@, "mutation($id: IssuableID!, $time: String!, $summary: String!, $spent: Time)"@),
        crate::text::has_substring(TIMELOG_CREATE@, "timelogCreate(input: { issuableId: $id, timeSpent: $time, summary: $summary, spentAt: $spent })"@),
        crate::text::has_substring(TIMELOG_CREATE@, "errors"@),
        crate::text::has_substring(MY_TIMELOGS@, "query($start: Time!)"@),
        crate::text::has_substring(MY_TIMELOGS@, "currentUser"@),
        crate::text::has_substring(MY_TIMELOGS@, "timelogs(startTime: $start)"@),
        crate::text::has_substring(MY_TIMELOGS@, "timeSpent"@),
        crate::text::has_substring(MY_TIMELOGS@, "spentAt"@),
        crate::text::has_substring(MY_TIMELOGS@, "summary"@),
        crate::text::has_substring(MY_TIMELOGS@, "issue { iid title webUrl }"@),
{
    reveal_strlit(r#"
                mutation($id: IssuableID!, $time: String!, $summary: String!, $spent: Time) {
                    timelogCreate(input: { issuableId: $id, timeSpent: $time, summary: $summary, spentAt: $spent }) {
                        errors
                    }
                }
            "#);
    reveal_strlit(r#"
                query($start: Time!) {
                    currentUser {
                        timelogs(startTime: $start) {
                            nodes {
                                id
                                timeSpent
                                spentAt
                                summary
                                issue { iid title webUrl }
                            }
                        }
                    }
                }
            "#);
    reveal_strlit("mutation($id: IssuableID!, $time: String!, $summary: String!, $spent: Time)");
    assert(TIMELOG_CREATE@.subrange(17, 92) =~= "mutation($id: IssuableID!, $time: String!, $summary: String!, $spent: Time)"@);
    assert(crate::text::occurs_at(TIMELOG_CREATE@, "mutation($id: IssuableID!, $time: String!, $summary: String!, $spent: Time)"@, 17));
    reveal_strlit("timelogCreate(input: { issuableId: $id, timeSpent: $time, summary: $summary, spentAt: $spent })");
    assert(TIMELOG_CREATE@.subrange(115, 210) =~= "timelogCreate(input: { issuableId: $id, timeSpent: $time, summary: $summary, spentAt: $spent })"@);
    assert(crate::text::occurs_at(TIMELOG_CREATE@, "timelogCreate(input: { issuableId: $id, timeSpent: $time, summary: $summary, spentAt: $spent })"@, 115));
    reveal_strlit("errors");
    assert(TIMELOG_CREATE@.subrange(237, 243) =~= "errors"@);
    assert(crate::text::occurs_at(TIMELOG_CREATE@, "errors"@, 237));
    reveal_strlit("query($start: Time!)");
    assert(MY_TIMELOGS@.subrange(17, 37) =~= "query($start: Time!)"@);
    assert(crate::text::occurs_at(MY_TIMELOGS@, "query($start: Time!)"@, 17));
    reveal_strlit("currentUser");
    assert(MY_TIMELOGS@.subrange(60, 71) =~= "currentUser"@);
    assert(crate::text::occurs_at(MY_TIMELOGS@, "currentUser"@, 60));
    reveal_strlit("timelogs(startTime: $start)");
    assert(MY_TIMELOGS@.subrange(98, 125) =~= "timelogs(startTime: $start)"@);
    assert(crate::text::occurs_at(MY_TIMELOGS@, "timelogs(startTime: $start)"@, 98));
    reveal_strlit("timeSpent");
    assert(MY_TIMELOGS@.subrange(231, 240) =~= "timeSpent"@);
    assert(crate::text::occurs_at(MY_TIMELOGS@, "timeSpent"@, 231));
    reveal_strlit("spentAt");
    assert(MY_TIMELOGS@.subrange(273, 280) =~= "spentAt"@);
    assert(crate::text::occurs_at(MY_TIMELOGS@, "spentAt"@, 273));
    reveal_strlit("summary");
    assert(MY_TIMELOGS@.subrange(313, 320) =~= "summary"@);
    assert(crate::text::occurs_at(MY_TIMELOGS@, "summary"@, 313));
    reveal_strlit("issue { iid title webUrl }");
    assert(MY_TIMELOGS@.subrange(353, 379) =~= "issue { iid title webUrl }"@);
    assert(crate::text::occurs_at(MY_TIMELOGS@, "issue { iid title webUrl }"@, 353));
}

} // verus!
