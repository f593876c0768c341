//! Varlink dispatch: which method a request calls, with which arguments, and
//! how replies are framed.

use vstd::prelude::*;
use vstd::string::*;

use crate::api::{FailedTask, HistoryEvent, IssuableKind, Issue, MergeRequest};
use crate::error::{DormancyReason, Error};
use crate::handlers::search::{
    args_error, asked, cached_answer, kinds_or_none, search_started, Reply, SearchReply, SearchStep,
};
use crate::handlers::varlink::{
    assign_ended, assign_started, close_ended, close_started, failure_dismissed, failure_retried,
    groups_or_none, history_start, is_failure_list, is_history, is_issue_listing, is_mr_listing,
    is_user, issues_cleared, post_time_ended, post_time_started, scopes_or_all, unassign_ended,
    unassign_started, LetterStep, Letters, WriteStep,
};
use crate::handlers::{marks_kept, ConnState, Handlers};
use crate::queue::WriteCall;
use crate::time::Duration;
use crate::json::{as_int, as_text, field, get, held, int_in, member, text_in, Json};
use crate::text::{starts_with, str_eq, texts};

verus! {

/// A request as it came over the socket.
#[derive(Debug)]
pub struct Request {
    pub method: String,
    /// `None` where there is no parameter block.
    pub parameters: Option<Json>,
    /// Whether the caller takes more than one reply.
    pub more: bool,
}

/// What a request asks for.
#[derive(Debug)]
pub enum Call {
    GetInfo,
    /// The description of an interface, where one is named.
    GetInterfaceDescription { interface: Option<String> },
    ClearCache { scope: Option<Vec<String>> },
    GetHistory { days: Option<i64> },
    GetFailures,
    RetryFailure { id: i64 },
    DismissFailure { id: i64 },
    ClearFailures,
    GetAssignedIssues { groups: Option<Vec<String>> },
    GetAssignedMergeRequests { groups: Option<Vec<String>> },
    /// A search, answered once or, streamed, from the cache first.
    Search { query: String, kinds: Option<Vec<String>>, limit: Option<i64>, streamed: bool },
    PostTime {
        project_id: i64,
        iid: i64,
        kind: IssuableKind,
        duration: String,
        summary: Option<String>,
    },
    Close { project_id: i64, iid: i64, kind: IssuableKind },
    AssignSelf { project_id: i64, iid: i64, kind: IssuableKind },
    UnassignSelf { project_id: i64, iid: i64, kind: IssuableKind },
    Login { host: String, token: String },
    Logout,
    WhoAmI,
    /// No method of that name: answered with an error.
    MethodNotFound,
    /// The method needs parameters and there are none: answered with an error.
    MissingParameters,
    /// The parameters do not fit the method: the connection ends.
    BadParameters,
}

/// What a request asks for, in terms of texts.
pub ghost enum Asked {
    GetInfo,
    GetInterfaceDescription(Option<Seq<char>>),
    ClearCache(Option<Seq<Seq<char>>>),
    GetHistory(Option<i64>),
    GetFailures,
    RetryFailure(i64),
    DismissFailure(i64),
    ClearFailures,
    GetAssignedIssues(Option<Seq<Seq<char>>>),
    GetAssignedMergeRequests(Option<Seq<Seq<char>>>),
    Search(Seq<char>, Option<Seq<Seq<char>>>, Option<i64>, bool),
    PostTime(i64, i64, IssuableKind, Seq<char>, Option<Seq<char>>),
    Close(i64, i64, IssuableKind),
    AssignSelf(i64, i64, IssuableKind),
    UnassignSelf(i64, i64, IssuableKind),
    Login(Seq<char>, Seq<char>),
    Logout,
    WhoAmI,
    MethodNotFound,
    MissingParameters,
    BadParameters,
}

/// The texts of a list that may be left out.
pub open spec fn list_texts(v: Option<Vec<String>>) -> Option<Seq<Seq<char>>> {
    match v {
        Some(l) => Some(texts(l@)),
        None => None,
    }
}

impl View for Call {
    type V = Asked;

    open spec fn view(&self) -> Asked {
        match *self {
            Call::GetInfo => Asked::GetInfo,
            Call::GetInterfaceDescription { interface } => Asked::GetInterfaceDescription(
                crate::error::opt_text(interface),
            ),
            Call::ClearCache { scope } => Asked::ClearCache(list_texts(scope)),
            Call::GetHistory { days } => Asked::GetHistory(days),
            Call::GetFailures => Asked::GetFailures,
            Call::RetryFailure { id } => Asked::RetryFailure(id),
            Call::DismissFailure { id } => Asked::DismissFailure(id),
            Call::ClearFailures => Asked::ClearFailures,
            Call::GetAssignedIssues { groups } => Asked::GetAssignedIssues(list_texts(groups)),
            Call::GetAssignedMergeRequests { groups } => Asked::GetAssignedMergeRequests(
                list_texts(groups),
            ),
            Call::Search { query, kinds, limit, streamed } => Asked::Search(
                query@,
                list_texts(kinds),
                limit,
                streamed,
            ),
            Call::PostTime { project_id, iid, kind, duration, summary } => Asked::PostTime(
                project_id,
                iid,
                kind,
                duration@,
                crate::error::opt_text(summary),
            ),
            Call::Close { project_id, iid, kind } => Asked::Close(project_id, iid, kind),
            Call::AssignSelf { project_id, iid, kind } => Asked::AssignSelf(project_id, iid, kind),
            Call::UnassignSelf { project_id, iid, kind } => Asked::UnassignSelf(
                project_id,
                iid,
                kind,
            ),
            Call::Login { host, token } => Asked::Login(host@, token@),
            Call::Logout => Asked::Logout,
            Call::WhoAmI => Asked::WhoAmI,
            Call::MethodNotFound => Asked::MethodNotFound,
            Call::MissingParameters => Asked::MissingParameters,
            Call::BadParameters => Asked::BadParameters,
        }
    }
}

// ── arguments ────────────────────────────────────────────────────────────────

/// Whether a parameter block can hold `count` arguments: as an object by name, or
/// as an array of all of them in order.
pub open spec fn has_shape(p: Json, count: int) -> bool {
    match p {
        Json::Object(_) => true,
        Json::Array(a) => a@.len() == count,
        _ => false,
    }
}

/// An argument of a parameter block, by its name or its place.
pub open spec fn argument(p: Json, key: Seq<char>, at: int) -> Option<Json> {
    match p {
        Json::Object(m) => member(m@, key),
        Json::Array(a) => if 0 <= at < a@.len() {
            Some(a@[at])
        } else {
            None
        },
        _ => None,
    }
}

/// An integer that may be left out: the outer `None` is one of the wrong type.
pub open spec fn maybe_int(v: Option<Json>) -> Option<Option<i64>> {
    match v {
        None => Some(None),
        Some(Json::Null) => Some(None),
        Some(Json::Int(i)) => Some(Some(i)),
        _ => None,
    }
}

/// A text that may be left out.
pub open spec fn maybe_text(v: Option<Json>) -> Option<Option<Seq<char>>> {
    match v {
        None => Some(None),
        Some(Json::Null) => Some(None),
        Some(Json::Str(s)) => Some(Some(s@)),
        _ => None,
    }
}

/// The texts of a list, if all of its items are texts.
pub open spec fn all_texts(items: Seq<Json>) -> Option<Seq<Seq<char>>>
    decreases items.len(),
{
    if items.len() == 0 {
        Some(Seq::empty())
    } else {
        match (all_texts(items.drop_last()), items.last()) {
            (Some(rest), Json::Str(s)) => Some(rest.push(s@)),
            _ => None,
        }
    }
}

/// A list of texts that may be left out.
pub open spec fn maybe_list(v: Option<Json>) -> Option<Option<Seq<Seq<char>>>> {
    match v {
        None => Some(None),
        Some(Json::Null) => Some(None),
        Some(Json::Array(a)) => match all_texts(a@) {
            Some(l) => Some(Some(l)),
            None => None,
        },
        _ => None,
    }
}

/// The kind of an issuable that goes by a name.
pub open spec fn kind_named(name: Seq<char>) -> Option<IssuableKind> {
    if name == "issue"@ {
        Some(IssuableKind::issue)
    } else if name == "merge_request"@ {
        Some(IssuableKind::merge_request)
    } else {
        None
    }
}

/// The kind of an issuable, which has to be there: its name, alone or as the one
/// key of an object without a value.
pub open spec fn kind_in(v: Option<Json>) -> Option<IssuableKind> {
    match v {
        Some(Json::Str(s)) => kind_named(s@),
        Some(Json::Object(m)) => if m@.len() == 1 && m@[0].1 is Null {
            kind_named(m@[0].0@)
        } else {
            None
        },
        _ => None,
    }
}

pub(crate) fn fits_shape(p: &Json, count: usize) -> (r: bool)
    ensures
        r == has_shape(*p, count as int),
{
    match p {
        Json::Object(_) => true,
        Json::Array(a) => a.len() == count,
        _ => false,
    }
}

pub(crate) fn find_argument<'a>(p: &'a Json, key: &str, at: usize) -> (r: Option<&'a Json>)
    ensures
        held(r) == argument(*p, key@, at as int),
{
    match p {
        Json::Object(_) => get(Some(p), key),
        Json::Array(a) => if at < a.len() {
            Some(&a[at])
        } else {
            None
        },
        _ => None,
    }
}

fn read_maybe_int(v: Option<&Json>) -> (r: Option<Option<i64>>)
    ensures
        r == maybe_int(held(v)),
{
    match v {
        None => Some(None),
        Some(Json::Null) => Some(None),
        Some(Json::Int(i)) => Some(Some(*i)),
        _ => None,
    }
}

/// What a text that may be left out stands for.
pub open spec fn maybe_shown(r: Option<Option<String>>) -> Option<Option<Seq<char>>> {
    match r {
        Some(o) => Some(crate::error::opt_text(o)),
        None => None,
    }
}

/// What a list that may be left out stands for.
pub open spec fn list_shown(r: Option<Option<Vec<String>>>) -> Option<Option<Seq<Seq<char>>>> {
    match r {
        Some(o) => Some(list_texts(o)),
        None => None,
    }
}

pub(crate) fn read_maybe_text(v: Option<&Json>) -> (r: Option<Option<String>>)
    ensures
        maybe_shown(r) == maybe_text(held(v)),
{
    match v {
        None => Some(None),
        Some(Json::Null) => Some(None),
        Some(Json::Str(s)) => Some(Some(s.clone())),
        _ => None,
    }
}

fn read_texts(items: &Vec<Json>) -> (r: Option<Vec<String>>)
    ensures
        list_texts(r) == all_texts(items@),
{
    let mut out: Vec<String> = Vec::new();
    let mut i: usize = 0;
    proof {
        assert(items@.take(0) =~= Seq::<Json>::empty());
        assert(texts(out@) =~= Seq::<Seq<char>>::empty());
    }
    while i < items.len()
        invariant
            i <= items@.len(),
            all_texts(items@.take(i as int)) == Some(texts(out@)),
        decreases items@.len() - i,
    {
        let ghost o0 = out@;
        proof {
            assert(items@.take(i + 1).drop_last() =~= items@.take(i as int));
        }
        match &items[i] {
            Json::Str(s) => {
                out.push(s.clone());
                proof {
                    assert(texts(out@) =~= texts(o0).push(s@));
                }
            },
            _ => {
                proof {
                    assert(all_texts(items@.take(i + 1)) is None);
                    lemma_not_texts(items@, i + 1);
                }
                return None;
            },
        }
        i += 1;
    }
    proof {
        assert(items@.take(items@.len() as int) =~= items@);
    }
    Some(out)
}

proof fn lemma_not_texts(items: Seq<Json>, n: int)
    requires
        0 <= n <= items.len(),
        all_texts(items.take(n)) is None,
    ensures
        all_texts(items) is None,
    decreases items.len(),
{
    if n < items.len() {
        assert(items.drop_last().take(n) =~= items.take(n));
        lemma_not_texts(items.drop_last(), n);
    } else {
        assert(items.take(n) =~= items);
    }
}

fn read_maybe_list(v: Option<&Json>) -> (r: Option<Option<Vec<String>>>)
    ensures
        list_shown(r) == maybe_list(held(v)),
{
    match v {
        None => Some(None),
        Some(Json::Null) => Some(None),
        Some(Json::Array(a)) => match read_texts(a) {
            Some(l) => Some(Some(l)),
            None => None,
        },
        _ => None,
    }
}

pub(crate) fn read_text(v: Option<&Json>) -> (r: Option<String>)
    ensures
        crate::error::opt_text(r) == text_in(held(v)),
{
    match as_text(v) {
        Some(s) => Some(s.clone()),
        None => None,
    }
}

fn read_kind_name(name: &str) -> (r: Option<IssuableKind>)
    ensures
        r == kind_named(name@),
{
    if str_eq(name, "issue") {
        Some(IssuableKind::issue)
    } else if str_eq(name, "merge_request") {
        Some(IssuableKind::merge_request)
    } else {
        None
    }
}

fn read_kind(v: Option<&Json>) -> (r: Option<IssuableKind>)
    ensures
        r == kind_in(held(v)),
{
    match v {
        Some(Json::Str(s)) => read_kind_name(s.as_str()),
        Some(Json::Object(m)) => {
            if m.len() != 1 {
                return None;
            }
            match &m[0].1 {
                Json::Null => read_kind_name(m[0].0.as_str()),
                _ => None,
            }
        },
        _ => None,
    }
}

/// The project, number and kind that a write is about: its first three arguments.
pub open spec fn target_args(p: Json) -> Option<(i64, i64, IssuableKind)> {
    match (
        int_in(argument(p, "project_id"@, 0)),
        int_in(argument(p, "iid"@, 1)),
        kind_in(argument(p, "kind"@, 2)),
    ) {
        (Some(a), Some(b), Some(k)) => Some((a, b, k)),
        _ => None,
    }
}

fn read_target(p: &Json) -> (r: Option<(i64, i64, IssuableKind)>)
    ensures
        r == target_args(*p),
{
    match (
        as_int(find_argument(p, "project_id", 0)),
        as_int(find_argument(p, "iid", 1)),
        read_kind(find_argument(p, "kind", 2)),
    ) {
        (Some(a), Some(b), Some(k)) => Some((a, b, k)),
        _ => None,
    }
}

// ── methods ──────────────────────────────────────────────────────────────────

/// What a method with optional arguments is asked for.
pub open spec fn with_defaults(method: Seq<char>, params: Option<Json>) -> Asked {
    match params {
        None => if method == "org.thehoster.gitlab.trackrd.ClearCache"@ {
            Asked::ClearCache(None)
        } else if method == "org.thehoster.gitlab.trackrd.GetHistory"@ {
            Asked::GetHistory(None)
        } else if method == "org.thehoster.gitlab.trackrd.GetAssignedIssues"@ {
            Asked::GetAssignedIssues(None)
        } else {
            Asked::GetAssignedMergeRequests(None)
        },
        Some(p) => if !has_shape(p, 1) {
            Asked::BadParameters
        } else if method == "org.thehoster.gitlab.trackrd.ClearCache"@ {
            match maybe_list(argument(p, "scope"@, 0)) {
                Some(l) => Asked::ClearCache(l),
                None => Asked::BadParameters,
            }
        } else if method == "org.thehoster.gitlab.trackrd.GetHistory"@ {
            match maybe_int(argument(p, "days"@, 0)) {
                Some(d) => Asked::GetHistory(d),
                None => Asked::BadParameters,
            }
        } else {
            match maybe_list(argument(p, "groups"@, 0)) {
                Some(l) => if method == "org.thehoster.gitlab.trackrd.GetAssignedIssues"@ {
                    Asked::GetAssignedIssues(l)
                } else {
                    Asked::GetAssignedMergeRequests(l)
                },
                None => Asked::BadParameters,
            }
        },
    }
}

/// What a method with required arguments is asked for.
pub open spec fn with_required(method: Seq<char>, p: Json, more: bool) -> Asked {
    if method == "org.thehoster.gitlab.trackrd.RetryFailure"@ {
        match int_in(argument(p, "id"@, 0)) {
            Some(id) => Asked::RetryFailure(id),
            None => Asked::BadParameters,
        }
    } else if method == "org.thehoster.gitlab.trackrd.DismissFailure"@ {
        match int_in(argument(p, "id"@, 0)) {
            Some(id) => Asked::DismissFailure(id),
            None => Asked::BadParameters,
        }
    } else if method == "org.thehoster.gitlab.trackrd.Search"@ {
        match (
            text_in(argument(p, "query"@, 0)),
            maybe_list(argument(p, "kinds"@, 1)),
            maybe_int(argument(p, "limit"@, 2)),
        ) {
            (Some(q), Some(k), Some(l)) => Asked::Search(q, k, l, more),
            _ => Asked::BadParameters,
        }
    } else if method == "org.thehoster.gitlab.trackrd.PostTime"@ {
        match (
            target_args(p),
            text_in(argument(p, "duration"@, 3)),
            maybe_text(argument(p, "summary"@, 4)),
        ) {
            (Some(t), Some(d), Some(s)) => Asked::PostTime(t.0, t.1, t.2, d, s),
            _ => Asked::BadParameters,
        }
    } else if method == "org.thehoster.gitlab.trackrd.Login"@ {
        match (text_in(argument(p, "host"@, 0)), text_in(argument(p, "token"@, 1))) {
            (Some(h), Some(t)) => Asked::Login(h, t),
            _ => Asked::BadParameters,
        }
    } else {
        match target_args(p) {
            Some(t) => if method == "org.thehoster.gitlab.trackrd.Close"@ {
                Asked::Close(t.0, t.1, t.2)
            } else if method == "org.thehoster.gitlab.trackrd.AssignSelf"@ {
                Asked::AssignSelf(t.0, t.1, t.2)
            } else {
                Asked::UnassignSelf(t.0, t.1, t.2)
            },
            None => Asked::BadParameters,
        }
    }
}

/// The methods whose arguments may all be left out.
pub open spec fn takes_defaults(method: Seq<char>) -> bool {
    ||| method == "org.thehoster.gitlab.trackrd.ClearCache"@
    ||| method == "org.thehoster.gitlab.trackrd.GetHistory"@
    ||| method == "org.thehoster.gitlab.trackrd.GetAssignedIssues"@
    ||| method == "org.thehoster.gitlab.trackrd.GetAssignedMergeRequests"@
}

/// The methods that need a parameter block.
pub open spec fn needs_parameters(method: Seq<char>) -> bool {
    ||| method == "org.thehoster.gitlab.trackrd.RetryFailure"@
    ||| method == "org.thehoster.gitlab.trackrd.DismissFailure"@
    ||| method == "org.thehoster.gitlab.trackrd.Search"@
    ||| method == "org.thehoster.gitlab.trackrd.PostTime"@
    ||| method == "org.thehoster.gitlab.trackrd.Close"@
    ||| method == "org.thehoster.gitlab.trackrd.AssignSelf"@
    ||| method == "org.thehoster.gitlab.trackrd.UnassignSelf"@
    ||| method == "org.thehoster.gitlab.trackrd.Login"@
}

/// How many arguments a method takes that needs a parameter block.
pub open spec fn arity(method: Seq<char>) -> int {
    if method == "org.thehoster.gitlab.trackrd.RetryFailure"@ || method
        == "org.thehoster.gitlab.trackrd.DismissFailure"@ {
        1
    } else if method == "org.thehoster.gitlab.trackrd.Login"@ {
        2
    } else if method == "org.thehoster.gitlab.trackrd.PostTime"@ {
        5
    } else {
        3
    }
}

/// What a request asks for.
pub open spec fn asked_for(method: Seq<char>, params: Option<Json>, more: bool) -> Asked {
    if method == "org.varlink.service.GetInfo"@ {
        Asked::GetInfo
    } else if method == "org.varlink.service.GetInterfaceDescription"@ {
        Asked::GetInterfaceDescription(text_in(field(params, "interface"@)))
    } else if takes_defaults(method) {
        with_defaults(method, params)
    } else if needs_parameters(method) {
        match params {
            None => Asked::MissingParameters,
            Some(p) => if has_shape(p, arity(method)) {
                with_required(method, p, more)
            } else {
                Asked::BadParameters
            },
        }
    } else if method == "org.thehoster.gitlab.trackrd.GetFailures"@ {
        Asked::GetFailures
    } else if method == "org.thehoster.gitlab.trackrd.ClearFailures"@ {
        Asked::ClearFailures
    } else if method == "org.thehoster.gitlab.trackrd.Logout"@ {
        Asked::Logout
    } else if method == "org.thehoster.gitlab.trackrd.WhoAmI"@ {
        Asked::WhoAmI
    } else {
        Asked::MethodNotFound
    }
}

fn count_arguments(method: &str) -> (r: usize)
    ensures
        r == arity(method@),
{
    if str_eq(method, "org.thehoster.gitlab.trackrd.RetryFailure") || str_eq(
        method,
        "org.thehoster.gitlab.trackrd.DismissFailure",
    ) {
        1
    } else if str_eq(method, "org.thehoster.gitlab.trackrd.Login") {
        2
    } else if str_eq(method, "org.thehoster.gitlab.trackrd.PostTime") {
        5
    } else {
        3
    }
}

fn call_with_defaults(method: &str, params: Option<&Json>) -> (r: Call)
    ensures
        r@ == with_defaults(method@, held(params)),
{
    let p = match params {
        None => {
            return if str_eq(method, "org.thehoster.gitlab.trackrd.ClearCache") {
                Call::ClearCache { scope: None }
            } else if str_eq(method, "org.thehoster.gitlab.trackrd.GetHistory") {
                Call::GetHistory { days: None }
            } else if str_eq(method, "org.thehoster.gitlab.trackrd.GetAssignedIssues") {
                Call::GetAssignedIssues { groups: None }
            } else {
                Call::GetAssignedMergeRequests { groups: None }
            };
        },
        Some(p) => p,
    };
    if !fits_shape(p, 1) {
        Call::BadParameters
    } else if str_eq(method, "org.thehoster.gitlab.trackrd.ClearCache") {
        match read_maybe_list(find_argument(p, "scope", 0)) {
            Some(scope) => Call::ClearCache { scope },
            None => Call::BadParameters,
        }
    } else if str_eq(method, "org.thehoster.gitlab.trackrd.GetHistory") {
        match read_maybe_int(find_argument(p, "days", 0)) {
            Some(days) => Call::GetHistory { days },
            None => Call::BadParameters,
        }
    } else {
        match read_maybe_list(find_argument(p, "groups", 0)) {
            Some(groups) => {
                if str_eq(method, "org.thehoster.gitlab.trackrd.GetAssignedIssues") {
                    Call::GetAssignedIssues { groups }
                } else {
                    Call::GetAssignedMergeRequests { groups }
                }
            },
            None => Call::BadParameters,
        }
    }
}

fn call_with_required(method: &str, p: &Json, more: bool) -> (r: Call)
    ensures
        r@ == with_required(method@, *p, more),
{
    if str_eq(method, "org.thehoster.gitlab.trackrd.RetryFailure") {
        match as_int(find_argument(p, "id", 0)) {
            Some(id) => Call::RetryFailure { id },
            None => Call::BadParameters,
        }
    } else if str_eq(method, "org.thehoster.gitlab.trackrd.DismissFailure") {
        match as_int(find_argument(p, "id", 0)) {
            Some(id) => Call::DismissFailure { id },
            None => Call::BadParameters,
        }
    } else if str_eq(method, "org.thehoster.gitlab.trackrd.Search") {
        match (
            read_text(find_argument(p, "query", 0)),
            read_maybe_list(find_argument(p, "kinds", 1)),
            read_maybe_int(find_argument(p, "limit", 2)),
        ) {
            (Some(query), Some(kinds), Some(limit)) => Call::Search {
                query,
                kinds,
                limit,
                streamed: more,
            },
            _ => Call::BadParameters,
        }
    } else if str_eq(method, "org.thehoster.gitlab.trackrd.PostTime") {
        match (
            read_target(p),
            read_text(find_argument(p, "duration", 3)),
            read_maybe_text(find_argument(p, "summary", 4)),
        ) {
            (Some(t), Some(duration), Some(summary)) => Call::PostTime {
                project_id: t.0,
                iid: t.1,
                kind: t.2,
                duration,
                summary,
            },
            _ => Call::BadParameters,
        }
    } else if str_eq(method, "org.thehoster.gitlab.trackrd.Login") {
        match (read_text(find_argument(p, "host", 0)), read_text(find_argument(p, "token", 1))) {
            (Some(host), Some(token)) => Call::Login { host, token },
            _ => Call::BadParameters,
        }
    } else {
        match read_target(p) {
            Some(t) => {
                if str_eq(method, "org.thehoster.gitlab.trackrd.Close") {
                    Call::Close { project_id: t.0, iid: t.1, kind: t.2 }
                } else if str_eq(method, "org.thehoster.gitlab.trackrd.AssignSelf") {
                    Call::AssignSelf { project_id: t.0, iid: t.1, kind: t.2 }
                } else {
                    Call::UnassignSelf { project_id: t.0, iid: t.1, kind: t.2 }
                }
            },
            None => Call::BadParameters,
        }
    }
}

fn is_any(method: &str, a: &str, b: &str, c: &str, d: &str) -> (r: bool)
    ensures
        r == (method@ == a@ || method@ == b@ || method@ == c@ || method@ == d@),
{
    str_eq(method, a) || str_eq(method, b) || str_eq(method, c) || str_eq(method, d)
}

/// What a method of the daemon's own interface is asked for.
pub fn handle_trackrd(method: &str, params: Option<&Json>, more: bool) -> (r: Call)
    requires
        method@ != "org.varlink.service.GetInfo"@,
        method@ != "org.varlink.service.GetInterfaceDescription"@,
    ensures
        r@ == asked_for(method@, held(params), more),
{
    if is_any(
        method,
        "org.thehoster.gitlab.trackrd.ClearCache",
        "org.thehoster.gitlab.trackrd.GetHistory",
        "org.thehoster.gitlab.trackrd.GetAssignedIssues",
        "org.thehoster.gitlab.trackrd.GetAssignedMergeRequests",
    ) {
        return call_with_defaults(method, params);
    }
    if is_any(
        method,
        "org.thehoster.gitlab.trackrd.RetryFailure",
        "org.thehoster.gitlab.trackrd.DismissFailure",
        "org.thehoster.gitlab.trackrd.Search",
        "org.thehoster.gitlab.trackrd.PostTime",
    ) || is_any(
        method,
        "org.thehoster.gitlab.trackrd.Close",
        "org.thehoster.gitlab.trackrd.AssignSelf",
        "org.thehoster.gitlab.trackrd.UnassignSelf",
        "org.thehoster.gitlab.trackrd.Login",
    ) {
        return match params {
            None => Call::MissingParameters,
            Some(p) => {
                if fits_shape(p, count_arguments(method)) {
                    call_with_required(method, p, more)
                } else {
                    Call::BadParameters
                }
            },
        };
    }
    if str_eq(method, "org.thehoster.gitlab.trackrd.GetFailures") {
        Call::GetFailures
    } else if str_eq(method, "org.thehoster.gitlab.trackrd.ClearFailures") {
        Call::ClearFailures
    } else if str_eq(method, "org.thehoster.gitlab.trackrd.Logout") {
        Call::Logout
    } else if str_eq(method, "org.thehoster.gitlab.trackrd.WhoAmI") {
        Call::WhoAmI
    } else {
        Call::MethodNotFound
    }
}

/// What a method of the varlink service interface is asked for; `None` of any
/// other.
pub fn handle_varlink_meta(method: &str, params: Option<&Json>) -> (r: Option<Call>)
    ensures
        match r {
            Some(c) => c@ == asked_for(method@, held(params), false) && (c is GetInfo
                || c is GetInterfaceDescription),
            None => method@ != "org.varlink.service.GetInfo"@ && method@
                != "org.varlink.service.GetInterfaceDescription"@,
        },
{
    if str_eq(method, "org.varlink.service.GetInfo") {
        Some(Call::GetInfo)
    } else if str_eq(method, "org.varlink.service.GetInterfaceDescription") {
        let interface = match as_text(get(params, "interface")) {
            Some(s) => Some(s.clone()),
            None => None,
        };
        Some(Call::GetInterfaceDescription { interface })
    } else {
        None
    }
}

/// What a request asks for.
pub fn dispatch(request: &Request) -> (r: Call)
    ensures
        r@ == asked_for(request.method@, request.parameters, request.more),
{
    let params = match &request.parameters {
        Some(p) => Some(p),
        None => None,
    };
    match handle_varlink_meta(request.method.as_str(), params) {
        Some(c) => c,
        None => handle_trackrd(request.method.as_str(), params, request.more),
    }
}

// ── the service interface ────────────────────────────────────────────────────

/// Which description an interface name stands for.
#[derive(Clone, Copy, PartialEq, Eq, Structural, Debug)]
pub enum Described {
    /// The varlink service interface.
    Service,
    /// The daemon's own interface.
    Trackrd,
}

/// Which description an interface name stands for.
pub open spec fn described(interface: Option<Seq<char>>) -> Option<Described> {
    if interface == Some("org.varlink.service"@) {
        Some(Described::Service)
    } else if interface == Some("org.thehoster.gitlab.trackrd"@) {
        Some(Described::Trackrd)
    } else {
        None
    }
}

/// Which description an interface name stands for; without one the call is
/// answered as one with an invalid parameter.
pub fn describe(interface: &Option<String>) -> (r: Option<Described>)
    ensures
        r == described(crate::error::opt_text(*interface)),
{
    match interface {
        Some(s) => {
            if str_eq(s.as_str(), "org.varlink.service") {
                Some(Described::Service)
            } else if str_eq(s.as_str(), "org.thehoster.gitlab.trackrd") {
                Some(Described::Trackrd)
            } else {
                None
            }
        },
        None => None,
    }
}

/// What the daemon says of itself.
#[derive(Debug)]
pub struct ServiceInfo {
    pub vendor: &'static str,
    pub product: &'static str,
    pub version: String,
    pub url: &'static str,
    pub interfaces: Vec<&'static str>,
}

/// What the daemon says of itself.
pub fn service_info(version: String) -> (r: ServiceInfo)
    ensures
        r.vendor@ == "org.thehoster"@,
        r.product@ == "gitlab-trackrd"@,
        r.version == version,
        r.url@ == "https://github.com/bjarneseger/gitlab_trackr"@,
        r.interfaces@.len() == 2,
        r.interfaces@[0]@ == "org.varlink.service"@,
        r.interfaces@[1]@ == "org.thehoster.gitlab.trackrd"@,
{
    let mut interfaces: Vec<&'static str> = Vec::new();
    interfaces.push("org.varlink.service");
    interfaces.push("org.thehoster.gitlab.trackrd");
    ServiceInfo {
        vendor: "org.thehoster",
        product: "gitlab-trackrd",
        version,
        url: "https://github.com/bjarneseger/gitlab_trackr",
        interfaces,
    }
}

/// An error reply of the varlink service itself, with its one parameter.
#[derive(Debug)]
pub struct Refusal {
    pub error: &'static str,
    pub key: &'static str,
    pub value: String,
}

/// Whether the call is answered by the varlink service with an error.
pub open spec fn refused(c: Asked) -> bool {
    match c {
        Asked::MethodNotFound => true,
        Asked::MissingParameters => true,
        Asked::GetInterfaceDescription(interface) => described(interface) is None,
        _ => false,
    }
}

/// The error that the varlink service answers the call with, if it does.
pub fn refusal(call: &Call, method: &str) -> (r: Option<Refusal>)
    ensures
        match r {
            Some(f) => refused(call@) && is_refusal(f, call@, method@),
            None => !refused(call@),
        },
{
    match call {
        Call::MethodNotFound => Some(
            Refusal {
                error: "org.varlink.service.MethodNotFound",
                key: "method",
                value: method.to_owned(),
            },
        ),
        Call::MissingParameters => Some(
            Refusal {
                error: "org.varlink.service.InvalidParameter",
                key: "parameter",
                value: "parameters".to_owned(),
            },
        ),
        Call::GetInterfaceDescription { interface } => match describe(interface) {
            None => Some(
                Refusal {
                    error: "org.varlink.service.InvalidParameter",
                    key: "parameter",
                    value: "interface".to_owned(),
                },
            ),
            Some(_) => None,
        },
        _ => None,
    }
}

// ── replies ──────────────────────────────────────────────────────────────────

impl<T> Reply<T> {
    /// The name of the varlink error that the reply is, if it is one.
    pub fn error(&self) -> (r: Option<&'static str>)
        ensures
            match r {
                Some(s) => s@ == match *self {
                    Reply::GitlabError(_) => "org.thehoster.gitlab.trackrd.GitlabError"@,
                    _ => "org.thehoster.gitlab.trackrd.NotAuthenticated"@,
                } && !(*self is Success),
                None => *self is Success,
            },
    {
        match self {
            Reply::Success(_) => None,
            Reply::GitlabError(_) => Some("org.thehoster.gitlab.trackrd.GitlabError"),
            Reply::NotAuthenticated(_, _) => Some("org.thehoster.gitlab.trackrd.NotAuthenticated"),
        }
    }
}

/// One reply on the wire.
#[derive(Debug)]
pub struct Frame<T> {
    pub reply: Reply<T>,
    /// Whether another reply follows.
    pub continues: bool,
}

/// How a call goes on.
#[derive(Debug)]
pub enum Next {
    /// Say what the daemon is.
    Info,
    /// Send this description.
    Description(Described),
    /// Send this error of the varlink service.
    Refused(Refusal),
    /// Send these answers.
    Issues(Reply<Vec<Issue>>),
    MergeRequests(Reply<Vec<MergeRequest>>),
    History(Vec<HistoryEvent>),
    Failures(Vec<FailedTask>),
    User(Reply<(String, i64)>),
    /// A search goes on like this.
    Search(SearchStep),
    /// Send this frame, and if it says so, start the search in full.
    Stream {
        first: Frame<SearchReply>,
        query: String,
        kinds: Option<Vec<String>>,
        limit: Option<i64>,
    },
    /// A write goes on like this.
    Write(WriteStep),
    /// A call about dead letters goes on like this.
    Letters(LetterStep),
    /// The issues are cleared: wait for a running sync, then clear the rest.
    Clear(Vec<String>),
    /// Connect to this host, then store the credentials.
    Connect { host: String, token: String },
    /// The session has ended: delete the credentials.
    Forget,
    /// The queue has no id left for another task: nothing was done.
    NoRoom,
    /// Close the connection.
    Hangup,
}

/// The calls that may queue a task.
pub open spec fn may_queue(c: Asked) -> bool {
    c is RetryFailure || c is PostTime || c is Close || c is AssignSelf || c is UnassignSelf
}

fn queues(c: &Call) -> (r: bool)
    ensures
        r == may_queue(c@),
{
    match c {
        Call::RetryFailure { .. } => true,
        Call::PostTime { .. } => true,
        Call::Close { .. } => true,
        Call::AssignSelf { .. } => true,
        Call::UnassignSelf { .. } => true,
        _ => false,
    }
}

/// Whether `f` is the error that the varlink service answers `c` with.
pub open spec fn is_refusal(f: Refusal, c: Asked, method: Seq<char>) -> bool {
    if c == Asked::MethodNotFound {
        f.error@ == "org.varlink.service.MethodNotFound"@ && f.key@ == "method"@ && f.value@
            == method
    } else {
        f.error@ == "org.varlink.service.InvalidParameter"@ && f.key@ == "parameter"@ && f.value@
            == if c == Asked::MissingParameters {
            "parameters"@
        } else {
            "interface"@
        }
    }
}

/// Whether a call that came at `now`, by the steady clock at `clock`, goes on
/// with `r` and takes the daemon from `before` to `after`.
pub open spec fn performed(
    before: Handlers,
    after: Handlers,
    c: Call,
    method: Seq<char>,
    now: u64,
    clock: nat,
    r: Next,
) -> bool {
    match c {
        Call::GetInfo => r is Info && after == before,
        Call::GetInterfaceDescription { interface } => after == before && match described(
            crate::error::opt_text(interface),
        ) {
            Some(d) => r == Next::Description(d),
            None => r matches Next::Refused(f) && is_refusal(f, c@, method),
        },
        Call::MethodNotFound => after == before && (r matches Next::Refused(f) && is_refusal(
            f,
            c@,
            method,
        )),
        Call::MissingParameters => after == before && (r matches Next::Refused(f) && is_refusal(
            f,
            c@,
            method,
        )),
        Call::BadParameters => r is Hangup && after == before,
        Call::ClearCache { scope } => r matches Next::Clear(scopes) && scopes@ == scopes_or_all(
            scope,
        ) && issues_cleared(before, after, scopes@),
        Call::GetHistory { days } => after == before && (r matches Next::History(events)
            && is_history(events@, before, history_start(days, now))),
        Call::GetFailures => after == before && (r matches Next::Failures(list)
            && is_failure_list(list@, before.queue@)),
        Call::RetryFailure { id } => r matches Next::Letters(step) && failure_retried(
            before,
            after,
            step,
            id,
        ),
        Call::DismissFailure { id } => after == before && (r matches Next::Letters(step)
            && failure_dismissed(before, step, id)),
        Call::ClearFailures => after == before && r == Next::Letters(
            LetterStep::Delete(Letters::All),
        ),
        Call::GetAssignedIssues { groups } => after == before && (r matches Next::Issues(reply)
            && is_issue_listing(reply, before, groups_or_none(groups))),
        Call::GetAssignedMergeRequests { groups } => after == before && (
        r matches Next::MergeRequests(reply) && is_mr_listing(
            reply,
            before,
            groups_or_none(groups),
        )),
        Call::Search { query, kinds, limit, streamed } => after == before && if streamed {
            r matches Next::Stream { first, query: q, kinds: k, limit: l } && q == query
                && list_texts(k) == list_texts(kinds) && l == limit && is_first_frame(
                first,
                before,
                query@,
                kinds_or_none(kinds),
                limit,
            )
        } else {
            r matches Next::Search(step) && search_started(
                before,
                step,
                query@,
                kinds_or_none(kinds),
                limit,
                clock,
            )
        },
        Call::PostTime { project_id, iid, kind, duration, summary } => r matches Next::Write(step)
            && post_time_started(
            before,
            after,
            step,
            project_id,
            iid,
            kind,
            duration,
            summary,
            now,
        ),
        Call::Close { project_id, iid, kind } => r matches Next::Write(step) && close_started(
            before,
            after,
            step,
            project_id,
            iid,
            kind,
            now,
        ),
        Call::AssignSelf { project_id, iid, kind } => r matches Next::Write(step)
            && assign_started(before, after, step, project_id, iid, kind, now),
        Call::UnassignSelf { project_id, iid, kind } => r matches Next::Write(step)
            && unassign_started(before, after, step, project_id, iid, kind, now),
        Call::Login { host, token } => r == (Next::Connect { host, token }) && after == before,
        Call::Logout => r is Forget && after == (Handlers {
            session: ConnState::Dormant(DormancyReason::LoggedOut),
            ..before
        }),
        Call::WhoAmI => after == before && (r matches Next::User(reply) && is_user(
            reply,
            before.session,
        )),
    }
}

/// Whether `first` is the first frame of a streamed search: the answer from the
/// cache alone, which another frame follows exactly if it is no error.
pub open spec fn is_first_frame(
    first: Frame<SearchReply>,
    h: Handlers,
    query: Seq<char>,
    kinds: Seq<String>,
    limit: Option<i64>,
) -> bool {
    &&& first.continues == (first.reply is Success)
    &&& match args_error(query, kinds, limit) {
        Some(m) => first.reply.is_error(m),
        None => cached_answer(first.reply, h, asked(query, kinds, limit)),
    }
}

fn clone_list(v: &Option<Vec<String>>) -> (r: Option<Vec<String>>)
    ensures
        list_texts(r) == list_texts(*v),
        kinds_or_none(r) == kinds_or_none(*v),
{
    match v {
        Some(l) => Some(crate::search::clone_texts(l)),
        None => None,
    }
}

impl Handlers {
    /// The first frame of a streamed search: the answer from the cache alone. An
    /// error ends the exchange; anything else is followed by exactly one more
    /// frame, the answer of the full search, even where nothing can be added.
    pub fn handle_search_streamed(
        &self,
        query: String,
        kinds: Option<Vec<String>>,
        limit: Option<i64>,
    ) -> (r: Frame<SearchReply>)
        ensures
            is_first_frame(r, *self, query@, kinds_or_none(kinds), limit),
    {
        let reply = self.search_cached(query, kinds, limit);
        let continues = match &reply {
            Reply::Success(_) => true,
            _ => false,
        };
        Frame { reply, continues }
    }

    /// Carries out a call as far as it goes without GitLab, the keychain or
    /// waiting; how it goes on.
    pub fn perform(&mut self, call: Call, method: &str, now: u64, clock: Duration) -> (r: Next)
        requires
            may_queue(call@) ==> old(self).queue@.next_id < u64::MAX,
        ensures
            performed(*old(self), *final(self), call, method@, now, clock@, r),
            marks_kept(*old(self), *final(self)),
    {
        match refusal(&call, method) {
            Some(f) => {
                return Next::Refused(f);
            },
            None => {},
        }
        match call {
            Call::GetInfo => Next::Info,
            Call::GetInterfaceDescription { interface } => match describe(&interface) {
                Some(d) => Next::Description(d),
                None => Next::Hangup,
            },
            Call::MethodNotFound => Next::Hangup,
            Call::MissingParameters => Next::Hangup,
            Call::BadParameters => Next::Hangup,
            Call::ClearCache { scope } => {
                let scopes = match scope {
                    Some(s) => s,
                    None => Vec::new(),
                };
                self.clear_issues(&scopes);
                Next::Clear(scopes)
            },
            Call::GetHistory { days } => Next::History(self.get_history(days, now)),
            Call::GetFailures => Next::Failures(self.get_failures()),
            Call::RetryFailure { id } => Next::Letters(self.retry_failure(id)),
            Call::DismissFailure { id } => Next::Letters(self.dismiss_failure(id)),
            Call::ClearFailures => Next::Letters(self.clear_failures()),
            Call::GetAssignedIssues { groups } => Next::Issues(self.get_assigned_issues(groups)),
            Call::GetAssignedMergeRequests { groups } => Next::MergeRequests(
                self.get_assigned_merge_requests(groups),
            ),
            Call::Search { query, kinds, limit, streamed } => {
                if streamed {
                    let first = self.handle_search_streamed(
                        query.clone(),
                        clone_list(&kinds),
                        limit,
                    );
                    Next::Stream { first, query, kinds, limit }
                } else {
                    Next::Search(self.search(query, kinds, limit, clock))
                }
            },
            Call::PostTime { project_id, iid, kind, duration, summary } => Next::Write(
                self.post_time(project_id, iid, kind, duration, summary, now),
            ),
            Call::Close { project_id, iid, kind } => Next::Write(
                self.close(project_id, iid, kind, now),
            ),
            Call::AssignSelf { project_id, iid, kind } => Next::Write(
                self.assign_self(project_id, iid, kind, now),
            ),
            Call::UnassignSelf { project_id, iid, kind } => Next::Write(
                self.unassign_self(project_id, iid, kind, now),
            ),
            Call::Login { host, token } => Next::Connect { host, token },
            Call::Logout => {
                self.logout();
                Next::Forget
            },
            Call::WhoAmI => Next::User(self.who_am_i()),
        }
    }

    /// Ends a write that a call asked for, once it was tried.
    pub fn write_done(&mut self, call: WriteCall, outcome: Result<(), Error>, now: u64) -> (r: Reply<
        (),
    >)
        requires
            old(self).queue@.next_id < u64::MAX,
            !(call is CreateTimelog),
        ensures
            marks_kept(*old(self), *final(self)),
            match call {
                WriteCall::AddSpentTime { kind, project_id, iid, duration, summary } => post_time_ended(
                    *old(self),
                    *final(self),
                    r,
                    kind,
                    project_id,
                    iid,
                    duration,
                    summary,
                    outcome,
                    now,
                ),
                WriteCall::Close { kind, project_id, iid } => close_ended(
                    *old(self),
                    *final(self),
                    r,
                    kind,
                    project_id,
                    iid,
                    outcome,
                    now,
                ),
                WriteCall::AssignSelf { kind, project_id, iid } => assign_ended(
                    *old(self),
                    *final(self),
                    r,
                    kind,
                    project_id,
                    iid,
                    outcome,
                    now,
                ),
                WriteCall::UnassignSelf { kind, project_id, iid } => unassign_ended(
                    *old(self),
                    *final(self),
                    r,
                    kind,
                    project_id,
                    iid,
                    outcome,
                    now,
                ),
                WriteCall::CreateTimelog { .. } => true,
            },
    {
        match call {
            WriteCall::AddSpentTime { kind, project_id, iid, duration, summary } => {
                self.post_time_done(kind, project_id, iid, duration, summary, outcome, now)
            },
            WriteCall::Close { kind, project_id, iid } => {
                self.close_done(kind, project_id, iid, outcome, now)
            },
            WriteCall::AssignSelf { kind, project_id, iid } => {
                self.assign_self_done(kind, project_id, iid, outcome, now)
            },
            WriteCall::UnassignSelf { kind, project_id, iid } => {
                self.unassign_self_done(kind, project_id, iid, outcome, now)
            },
            WriteCall::CreateTimelog { .. } => Reply::Success(()),
        }
    }
}

/// The daemon behind its varlink interface.
pub struct ServiceHandler {
    pub handlers: Handlers,
}

impl ServiceHandler {
    pub fn new(handlers: Handlers) -> (r: Self)
        ensures
            r.handlers == handlers,
    {
        ServiceHandler { handlers }
    }

    /// Handles a request: reads it and carries it out as [`Handlers::perform`] does.
    /// One that may queue a task is put off while the queue has no id left.
    pub fn handle(&mut self, request: &Request, now: u64, clock: Duration) -> (r: Next)
        ensures
            marks_kept(old(self).handlers, final(self).handlers),
            ({
                let c = asked_for(request.method@, request.parameters, request.more);
                if may_queue(c) && old(self).handlers.queue@.next_id == u64::MAX {
                    r is NoRoom && *final(self) == *old(self)
                } else {
                    exists|call: Call|
                        call@ == c && #[trigger] performed(
                            old(self).handlers,
                            final(self).handlers,
                            call,
                            request.method@,
                            now,
                            clock@,
                            r,
                        )
                }
            }),
    {
        let call = dispatch(request);
        if queues(&call) && !self.handlers.queue.has_room() {
            return Next::NoRoom;
        }
        self.handlers.perform(call, request.method.as_str(), now, clock)
    }
}

// ── laws ─────────────────────────────────────────────────────────────────────

/// A streamed search is answered with one error frame, or with two frames: where
/// the first frame is followed by another, the full search in the same state does
/// not fail, even while there is no session.
pub proof fn law_streamed_search_is_answered_twice(
    h: Handlers,
    first: Frame<SearchReply>,
    step: SearchStep,
    query: Seq<char>,
    kinds: Seq<String>,
    limit: Option<i64>,
    clock: nat,
)
    requires
        is_first_frame(first, h, query, kinds, limit),
        search_started(h, step, query, kinds, limit, clock),
    ensures
        first.continues ==> step is Lookup || (step matches SearchStep::Answered(reply)
            && reply is Success),
        !first.continues ==> !(first.reply is Success),
{
}

/// A method that is neither of the service interface nor of the daemon's own is
/// not found, whatever it comes with.
pub proof fn law_foreign_methods_are_not_found(
    method: Seq<char>,
    params: Option<Json>,
    more: bool,
)
    requires
        !starts_with(method, "org.thehoster.gitlab.trackrd."@),
        !starts_with(method, "org.varlink.service."@),
    ensures
        asked_for(method, params, more) == Asked::MethodNotFound,
{
    reveal_strlit("org.thehoster.gitlab.trackrd.");
    reveal_strlit("org.varlink.service.");
    reveal_strlit("org.varlink.service.GetInfo");
    assert("org.varlink.service.GetInfo"@.subrange(0, 20) =~= "org.varlink.service."@);
    reveal_strlit("org.varlink.service.GetInterfaceDescription");
    assert("org.varlink.service.GetInterfaceDescription"@.subrange(0, 20) =~= "org.varlink.service."@);
    reveal_strlit("org.thehoster.gitlab.trackrd.ClearCache");
    assert("org.thehoster.gitlab.trackrd.ClearCache"@.subrange(0, 29) =~= "org.thehoster.gitlab.trackrd."@);
    reveal_strlit("org.thehoster.gitlab.trackrd.GetHistory");
    assert("org.thehoster.gitlab.trackrd.GetHistory"@.subrange(0, 29) =~= "org.thehoster.gitlab.trackrd."@);
    reveal_strlit("org.thehoster.gitlab.trackrd.GetFailures");
    assert("org.thehoster.gitlab.trackrd.GetFailures"@.subrange(0, 29) =~= "org.thehoster.gitlab.trackrd."@);
    reveal_strlit("org.thehoster.gitlab.trackrd.RetryFailure");
    assert("org.thehoster.gitlab.trackrd.RetryFailure"@.subrange(0, 29) =~= "org.thehoster.gitlab.trackrd."@);
    reveal_strlit("org.thehoster.gitlab.trackrd.DismissFailure");
    assert("org.thehoster.gitlab.trackrd.DismissFailure"@.subrange(0, 29) =~= "org.thehoster.gitlab.trackrd."@);
    reveal_strlit("org.thehoster.gitlab.trackrd.ClearFailures");
    assert("org.thehoster.gitlab.trackrd.ClearFailures"@.subrange(0, 29) =~= "org.thehoster.gitlab.trackrd."@);
    reveal_strlit("org.thehoster.gitlab.trackrd.GetAssignedIssues");
    assert("org.thehoster.gitlab.trackrd.GetAssignedIssues"@.subrange(0, 29) =~= "org.thehoster.gitlab.trackrd."@);
    reveal_strlit("org.thehoster.gitlab.trackrd.GetAssignedMergeRequests");
    assert("org.thehoster.gitlab.trackrd.GetAssignedMergeRequests"@.subrange(0, 29) =~= "org.thehoster.gitlab.trackrd."@);
    reveal_strlit("org.thehoster.gitlab.trackrd.Search");
    assert("org.thehoster.gitlab.trackrd.Search"@.subrange(0, 29) =~= "org.thehoster.gitlab.trackrd."@);
    reveal_strlit("org.thehoster.gitlab.trackrd.PostTime");
    assert("org.thehoster.gitlab.trackrd.PostTime"@.subrange(0, 29) =~= "org.thehoster.gitlab.trackrd."@);
    reveal_strlit("org.thehoster.gitlab.trackrd.Close");
    assert("org.thehoster.gitlab.trackrd.Close"@.subrange(0, 29) =~= "org.thehoster.gitlab.trackrd."@);
    reveal_strlit("org.thehoster.gitlab.trackrd.AssignSelf");
    assert("org.thehoster.gitlab.trackrd.AssignSelf"@.subrange(0, 29) =~= "org.thehoster.gitlab.trackrd."@);
    reveal_strlit("org.thehoster.gitlab.trackrd.UnassignSelf");
    assert("org.thehoster.gitlab.trackrd.UnassignSelf"@.subrange(0, 29) =~= "org.thehoster.gitlab.trackrd."@);
    reveal_strlit("org.thehoster.gitlab.trackrd.Login");
    assert("org.thehoster.gitlab.trackrd.Login"@.subrange(0, 29) =~= "org.thehoster.gitlab.trackrd."@);
    reveal_strlit("org.thehoster.gitlab.trackrd.Logout");
    assert("org.thehoster.gitlab.trackrd.Logout"@.subrange(0, 29) =~= "org.thehoster.gitlab.trackrd."@);
    reveal_strlit("org.thehoster.gitlab.trackrd.WhoAmI");
    assert("org.thehoster.gitlab.trackrd.WhoAmI"@.subrange(0, 29) =~= "org.thehoster.gitlab.trackrd."@);
}

/// Without a parameter block exactly the methods that need one are refused for
/// it, and no method is refused for the arguments that it did not get.
pub proof fn law_missing_parameters(method: Seq<char>, more: bool)
    ensures
        asked_for(method, None, more) == Asked::MissingParameters <==> needs_parameters(method),
        asked_for(method, None, more) != Asked::BadParameters,
{
    reveal_strlit("org.varlink.service.GetInfo");
    reveal_strlit("org.varlink.service.GetInterfaceDescription");
    reveal_strlit("org.thehoster.gitlab.trackrd.ClearCache");
    reveal_strlit("org.thehoster.gitlab.trackrd.GetHistory");
    reveal_strlit("org.thehoster.gitlab.trackrd.GetAssignedIssues");
    reveal_strlit("org.thehoster.gitlab.trackrd.GetAssignedMergeRequests");
    reveal_strlit("org.thehoster.gitlab.trackrd.RetryFailure");
    reveal_strlit("org.thehoster.gitlab.trackrd.DismissFailure");
    reveal_strlit("org.thehoster.gitlab.trackrd.Search");
    reveal_strlit("org.thehoster.gitlab.trackrd.PostTime");
    reveal_strlit("org.thehoster.gitlab.trackrd.Close");
    reveal_strlit("org.thehoster.gitlab.trackrd.AssignSelf");
    reveal_strlit("org.thehoster.gitlab.trackrd.UnassignSelf");
    reveal_strlit("org.thehoster.gitlab.trackrd.Login");
    if needs_parameters(method) {
        assert(method[4] == 't');
        assert("org.varlink.service.GetInfo"@[4] == 'v');
        assert("org.varlink.service.GetInterfaceDescription"@[4] == 'v');
        assert(method.len() == 39 ==> method[29] == 'A');
        assert("org.thehoster.gitlab.trackrd.ClearCache"@[29] == 'C');
        assert("org.thehoster.gitlab.trackrd.GetHistory"@[29] == 'G');
    }
}

proof fn lemma_method_names_differ()
    ensures
        "org.varlink.service.GetInfo"@ != "org.varlink.service.GetInterfaceDescription"@,
        "org.varlink.service.GetInfo"@ != "org.thehoster.gitlab.trackrd.ClearCache"@,
        "org.varlink.service.GetInfo"@ != "org.thehoster.gitlab.trackrd.GetHistory"@,
        "org.varlink.service.GetInfo"@ != "org.thehoster.gitlab.trackrd.GetFailures"@,
        "org.varlink.service.GetInfo"@ != "org.thehoster.gitlab.trackrd.ClearFailures"@,
        "org.varlink.service.GetInfo"@ != "org.thehoster.gitlab.trackrd.GetAssignedIssues"@,
        "org.varlink.service.GetInfo"@ != "org.thehoster.gitlab.trackrd.GetAssignedMergeRequests"@,
        "org.varlink.service.GetInfo"@ != "org.thehoster.gitlab.trackrd.RetryFailure"@,
        "org.varlink.service.GetInfo"@ != "org.thehoster.gitlab.trackrd.DismissFailure"@,
        "org.varlink.service.GetInfo"@ != "org.thehoster.gitlab.trackrd.Search"@,
        "org.varlink.service.GetInfo"@ != "org.thehoster.gitlab.trackrd.PostTime"@,
        "org.varlink.service.GetInfo"@ != "org.thehoster.gitlab.trackrd.Close"@,
        "org.varlink.service.GetInfo"@ != "org.thehoster.gitlab.trackrd.AssignSelf"@,
        "org.varlink.service.GetInfo"@ != "org.thehoster.gitlab.trackrd.UnassignSelf"@,
        "org.varlink.service.GetInfo"@ != "org.thehoster.gitlab.trackrd.Login"@,
        "org.varlink.service.GetInfo"@ != "org.thehoster.gitlab.trackrd.Logout"@,
        "org.varlink.service.GetInfo"@ != "org.thehoster.gitlab.trackrd.WhoAmI"@,
        "org.varlink.service.GetInterfaceDescription"@ != "org.thehoster.gitlab.trackrd.ClearCache"@,
        "org.varlink.service.GetInterfaceDescription"@ != "org.thehoster.gitlab.trackrd.GetHistory"@,
        "org.varlink.service.GetInterfaceDescription"@ != "org.thehoster.gitlab.trackrd.GetFailures"@,
        "org.varlink.service.GetInterfaceDescription"@ != "org.thehoster.gitlab.trackrd.ClearFailures"@,
        "org.varlink.service.GetInterfaceDescription"@ != "org.thehoster.gitlab.trackrd.GetAssignedIssues"@,
        "org.varlink.service.GetInterfaceDescription"@ != "org.thehoster.gitlab.trackrd.GetAssignedMergeRequests"@,
        "org.varlink.service.GetInterfaceDescription"@ != "org.thehoster.gitlab.trackrd.RetryFailure"@,
        "org.varlink.service.GetInterfaceDescription"@ != "org.thehoster.gitlab.trackrd.DismissFailure"@,
        "org.varlink.service.GetInterfaceDescription"@ != "org.thehoster.gitlab.trackrd.Search"@,
        "org.varlink.service.GetInterfaceDescription"@ != "org.thehoster.gitlab.trackrd.PostTime"@,
        "org.varlink.service.GetInterfaceDescription"@ != "org.thehoster.gitlab.trackrd.Close"@,
        "org.varlink.service.GetInterfaceDescription"@ != "org.thehoster.gitlab.trackrd.AssignSelf"@,
        "org.varlink.service.GetInterfaceDescription"@ != "org.thehoster.gitlab.trackrd.UnassignSelf"@,
        "org.varlink.service.GetInterfaceDescription"@ != "org.thehoster.gitlab.trackrd.Login"@,
        "org.varlink.service.GetInterfaceDescription"@ != "org.thehoster.gitlab.trackrd.Logout"@,
        "org.varlink.service.GetInterfaceDescription"@ != "org.thehoster.gitlab.trackrd.WhoAmI"@,
        "org.thehoster.gitlab.trackrd.ClearCache"@ != "org.thehoster.gitlab.trackrd.GetHistory"@,
        "org.thehoster.gitlab.trackrd.ClearCache"@ != "org.thehoster.gitlab.trackrd.GetFailures"@,
        "org.thehoster.gitlab.trackrd.ClearCache"@ != "org.thehoster.gitlab.trackrd.ClearFailures"@,
        "org.thehoster.gitlab.trackrd.ClearCache"@ != "org.thehoster.gitlab.trackrd.GetAssignedIssues"@,
        "org.thehoster.gitlab.trackrd.ClearCache"@ != "org.thehoster.gitlab.trackrd.GetAssignedMergeRequests"@,
        "org.thehoster.gitlab.trackrd.ClearCache"@ != "org.thehoster.gitlab.trackrd.RetryFailure"@,
        "org.thehoster.gitlab.trackrd.ClearCache"@ != "org.thehoster.gitlab.trackrd.DismissFailure"@,
        "org.thehoster.gitlab.trackrd.ClearCache"@ != "org.thehoster.gitlab.trackrd.Search"@,
        "org.thehoster.gitlab.trackrd.ClearCache"@ != "org.thehoster.gitlab.trackrd.PostTime"@,
        "org.thehoster.gitlab.trackrd.ClearCache"@ != "org.thehoster.gitlab.trackrd.Close"@,
        "org.thehoster.gitlab.trackrd.ClearCache"@ != "org.thehoster.gitlab.trackrd.AssignSelf"@,
        "org.thehoster.gitlab.trackrd.ClearCache"@ != "org.thehoster.gitlab.trackrd.UnassignSelf"@,
        "org.thehoster.gitlab.trackrd.ClearCache"@ != "org.thehoster.gitlab.trackrd.Login"@,
        "org.thehoster.gitlab.trackrd.ClearCache"@ != "org.thehoster.gitlab.trackrd.Logout"@,
        "org.thehoster.gitlab.trackrd.ClearCache"@ != "org.thehoster.gitlab.trackrd.WhoAmI"@,
        "org.thehoster.gitlab.trackrd.GetHistory"@ != "org.thehoster.gitlab.trackrd.GetFailures"@,
        "org.thehoster.gitlab.trackrd.GetHistory"@ != "org.thehoster.gitlab.trackrd.ClearFailures"@,
        "org.thehoster.gitlab.trackrd.GetHistory"@ != "org.thehoster.gitlab.trackrd.GetAssignedIssues"@,
        "org.thehoster.gitlab.trackrd.GetHistory"@ != "org.thehoster.gitlab.trackrd.GetAssignedMergeRequests"@,
        "org.thehoster.gitlab.trackrd.GetHistory"@ != "org.thehoster.gitlab.trackrd.RetryFailure"@,
        "org.thehoster.gitlab.trackrd.GetHistory"@ != "org.thehoster.gitlab.trackrd.DismissFailure"@,
        "org.thehoster.gitlab.trackrd.GetHistory"@ != "org.thehoster.gitlab.trackrd.Search"@,
        "org.thehoster.gitlab.trackrd.GetHistory"@ != "org.thehoster.gitlab.trackrd.PostTime"@,
        "org.thehoster.gitlab.trackrd.GetHistory"@ != "org.thehoster.gitlab.trackrd.Close"@,
        "org.thehoster.gitlab.trackrd.GetHistory"@ != "org.thehoster.gitlab.trackrd.AssignSelf"@,
        "org.thehoster.gitlab.trackrd.GetHistory"@ != "org.thehoster.gitlab.trackrd.UnassignSelf"@,
        "org.thehoster.gitlab.trackrd.GetHistory"@ != "org.thehoster.gitlab.trackrd.Login"@,
        "org.thehoster.gitlab.trackrd.GetHistory"@ != "org.thehoster.gitlab.trackrd.Logout"@,
        "org.thehoster.gitlab.trackrd.GetHistory"@ != "org.thehoster.gitlab.trackrd.WhoAmI"@,
        "org.thehoster.gitlab.trackrd.GetFailures"@ != "org.thehoster.gitlab.trackrd.ClearFailures"@,
        "org.thehoster.gitlab.trackrd.GetFailures"@ != "org.thehoster.gitlab.trackrd.GetAssignedIssues"@,
        "org.thehoster.gitlab.trackrd.GetFailures"@ != "org.thehoster.gitlab.trackrd.GetAssignedMergeRequests"@,
        "org.thehoster.gitlab.trackrd.GetFailures"@ != "org.thehoster.gitlab.trackrd.RetryFailure"@,
        "org.thehoster.gitlab.trackrd.GetFailures"@ != "org.thehoster.gitlab.trackrd.DismissFailure"@,
        "org.thehoster.gitlab.trackrd.GetFailures"@ != "org.thehoster.gitlab.trackrd.Search"@,
        "org.thehoster.gitlab.trackrd.GetFailures"@ != "org.thehoster.gitlab.trackrd.PostTime"@,
        "org.thehoster.gitlab.trackrd.GetFailures"@ != "org.thehoster.gitlab.trackrd.Close"@,
        "org.thehoster.gitlab.trackrd.GetFailures"@ != "org.thehoster.gitlab.trackrd.AssignSelf"@,
        "org.thehoster.gitlab.trackrd.GetFailures"@ != "org.thehoster.gitlab.trackrd.UnassignSelf"@,
        "org.thehoster.gitlab.trackrd.GetFailures"@ != "org.thehoster.gitlab.trackrd.Login"@,
        "org.thehoster.gitlab.trackrd.GetFailures"@ != "org.thehoster.gitlab.trackrd.Logout"@,
        "org.thehoster.gitlab.trackrd.GetFailures"@ != "org.thehoster.gitlab.trackrd.WhoAmI"@,
        "org.thehoster.gitlab.trackrd.ClearFailures"@ != "org.thehoster.gitlab.trackrd.GetAssignedIssues"@,
        "org.thehoster.gitlab.trackrd.ClearFailures"@ != "org.thehoster.gitlab.trackrd.GetAssignedMergeRequests"@,
        "org.thehoster.gitlab.trackrd.ClearFailures"@ != "org.thehoster.gitlab.trackrd.RetryFailure"@,
        "org.thehoster.gitlab.trackrd.ClearFailures"@ != "org.thehoster.gitlab.trackrd.DismissFailure"@,
        "org.thehoster.gitlab.trackrd.ClearFailures"@ != "org.thehoster.gitlab.trackrd.Search"@,
        "org.thehoster.gitlab.trackrd.ClearFailures"@ != "org.thehoster.gitlab.trackrd.PostTime"@,
        "org.thehoster.gitlab.trackrd.ClearFailures"@ != "org.thehoster.gitlab.trackrd.Close"@,
        "org.thehoster.gitlab.trackrd.ClearFailures"@ != "org.thehoster.gitlab.trackrd.AssignSelf"@,
        "org.thehoster.gitlab.trackrd.ClearFailures"@ != "org.thehoster.gitlab.trackrd.UnassignSelf"@,
        "org.thehoster.gitlab.trackrd.ClearFailures"@ != "org.thehoster.gitlab.trackrd.Login"@,
        "org.thehoster.gitlab.trackrd.ClearFailures"@ != "org.thehoster.gitlab.trackrd.Logout"@,
        "org.thehoster.gitlab.trackrd.ClearFailures"@ != "org.thehoster.gitlab.trackrd.WhoAmI"@,
        "org.thehoster.gitlab.trackrd.GetAssignedIssues"@ != "org.thehoster.gitlab.trackrd.GetAssignedMergeRequests"@,
        "org.thehoster.gitlab.trackrd.GetAssignedIssues"@ != "org.thehoster.gitlab.trackrd.RetryFailure"@,
        "org.thehoster.gitlab.trackrd.GetAssignedIssues"@ != "org.thehoster.gitlab.trackrd.DismissFailure"@,
        "org.thehoster.gitlab.trackrd.GetAssignedIssues"@ != "org.thehoster.gitlab.trackrd.Search"@,
        "org.thehoster.gitlab.trackrd.GetAssignedIssues"@ != "org.thehoster.gitlab.trackrd.PostTime"@,
        "org.thehoster.gitlab.trackrd.GetAssignedIssues"@ != "org.thehoster.gitlab.trackrd.Close"@,
        "org.thehoster.gitlab.trackrd.GetAssignedIssues"@ != "org.thehoster.gitlab.trackrd.AssignSelf"@,
        "org.thehoster.gitlab.trackrd.GetAssignedIssues"@ != "org.thehoster.gitlab.trackrd.UnassignSelf"@,
        "org.thehoster.gitlab.trackrd.GetAssignedIssues"@ != "org.thehoster.gitlab.trackrd.Login"@,
        "org.thehoster.gitlab.trackrd.GetAssignedIssues"@ != "org.thehoster.gitlab.trackrd.Logout"@,
        "org.thehoster.gitlab.trackrd.GetAssignedIssues"@ != "org.thehoster.gitlab.trackrd.WhoAmI"@,
        "org.thehoster.gitlab.trackrd.GetAssignedMergeRequests"@ != "org.thehoster.gitlab.trackrd.RetryFailure"@,
        "org.thehoster.gitlab.trackrd.GetAssignedMergeRequests"@ != "org.thehoster.gitlab.trackrd.DismissFailure"@,
        "org.thehoster.gitlab.trackrd.GetAssignedMergeRequests"@ != "org.thehoster.gitlab.trackrd.Search"@,
        "org.thehoster.gitlab.trackrd.GetAssignedMergeRequests"@ != "org.thehoster.gitlab.trackrd.PostTime"@,
        "org.thehoster.gitlab.trackrd.GetAssignedMergeRequests"@ != "org.thehoster.gitlab.trackrd.Close"@,
        "org.thehoster.gitlab.trackrd.GetAssignedMergeRequests"@ != "org.thehoster.gitlab.trackrd.AssignSelf"@,
        "org.thehoster.gitlab.trackrd.GetAssignedMergeRequests"@ != "org.thehoster.gitlab.trackrd.UnassignSelf"@,
        "org.thehoster.gitlab.trackrd.GetAssignedMergeRequests"@ != "org.thehoster.gitlab.trackrd.Login"@,
        "org.thehoster.gitlab.trackrd.GetAssignedMergeRequests"@ != "org.thehoster.gitlab.trackrd.Logout"@,
        "org.thehoster.gitlab.trackrd.GetAssignedMergeRequests"@ != "org.thehoster.gitlab.trackrd.WhoAmI"@,
        "org.thehoster.gitlab.trackrd.RetryFailure"@ != "org.thehoster.gitlab.trackrd.DismissFailure"@,
        "org.thehoster.gitlab.trackrd.RetryFailure"@ != "org.thehoster.gitlab.trackrd.Search"@,
        "org.thehoster.gitlab.trackrd.RetryFailure"@ != "org.thehoster.gitlab.trackrd.PostTime"@,
        "org.thehoster.gitlab.trackrd.RetryFailure"@ != "org.thehoster.gitlab.trackrd.Close"@,
        "org.thehoster.gitlab.trackrd.RetryFailure"@ != "org.thehoster.gitlab.trackrd.AssignSelf"@,
        "org.thehoster.gitlab.trackrd.RetryFailure"@ != "org.thehoster.gitlab.trackrd.UnassignSelf"@,
        "org.thehoster.gitlab.trackrd.RetryFailure"@ != "org.thehoster.gitlab.trackrd.Login"@,
        "org.thehoster.gitlab.trackrd.RetryFailure"@ != "org.thehoster.gitlab.trackrd.Logout"@,
        "org.thehoster.gitlab.trackrd.RetryFailure"@ != "org.thehoster.gitlab.trackrd.WhoAmI"@,
        "org.thehoster.gitlab.trackrd.DismissFailure"@ != "org.thehoster.gitlab.trackrd.Search"@,
        "org.thehoster.gitlab.trackrd.DismissFailure"@ != "org.thehoster.gitlab.trackrd.PostTime"@,
        "org.thehoster.gitlab.trackrd.DismissFailure"@ != "org.thehoster.gitlab.trackrd.Close"@,
        "org.thehoster.gitlab.trackrd.DismissFailure"@ != "org.thehoster.gitlab.trackrd.AssignSelf"@,
        "org.thehoster.gitlab.trackrd.DismissFailure"@ != "org.thehoster.gitlab.trackrd.UnassignSelf"@,
        "org.thehoster.gitlab.trackrd.DismissFailure"@ != "org.thehoster.gitlab.trackrd.Login"@,
        "org.thehoster.gitlab.trackrd.DismissFailure"@ != "org.thehoster.gitlab.trackrd.Logout"@,
        "org.thehoster.gitlab.trackrd.DismissFailure"@ != "org.thehoster.gitlab.trackrd.WhoAmI"@,
        "org.thehoster.gitlab.trackrd.Search"@ != "org.thehoster.gitlab.trackrd.PostTime"@,
        "org.thehoster.gitlab.trackrd.Search"@ != "org.thehoster.gitlab.trackrd.Close"@,
        "org.thehoster.gitlab.trackrd.Search"@ != "org.thehoster.gitlab.trackrd.AssignSelf"@,
        "org.thehoster.gitlab.trackrd.Search"@ != "org.thehoster.gitlab.trackrd.UnassignSelf"@,
        "org.thehoster.gitlab.trackrd.Search"@ != "org.thehoster.gitlab.trackrd.Login"@,
        "org.thehoster.gitlab.trackrd.Search"@ != "org.thehoster.gitlab.trackrd.Logout"@,
        "org.thehoster.gitlab.trackrd.Search"@ != "org.thehoster.gitlab.trackrd.WhoAmI"@,
        "org.thehoster.gitlab.trackrd.PostTime"@ != "org.thehoster.gitlab.trackrd.Close"@,
        "org.thehoster.gitlab.trackrd.PostTime"@ != "org.thehoster.gitlab.trackrd.AssignSelf"@,
        "org.thehoster.gitlab.trackrd.PostTime"@ != "org.thehoster.gitlab.trackrd.UnassignSelf"@,
        "org.thehoster.gitlab.trackrd.PostTime"@ != "org.thehoster.gitlab.trackrd.Login"@,
        "org.thehoster.gitlab.trackrd.PostTime"@ != "org.thehoster.gitlab.trackrd.Logout"@,
        "org.thehoster.gitlab.trackrd.PostTime"@ != "org.thehoster.gitlab.trackrd.WhoAmI"@,
        "org.thehoster.gitlab.trackrd.Close"@ != "org.thehoster.gitlab.trackrd.AssignSelf"@,
        "org.thehoster.gitlab.trackrd.Close"@ != "org.thehoster.gitlab.trackrd.UnassignSelf"@,
        "org.thehoster.gitlab.trackrd.Close"@ != "org.thehoster.gitlab.trackrd.Login"@,
        "org.thehoster.gitlab.trackrd.Close"@ != "org.thehoster.gitlab.trackrd.Logout"@,
        "org.thehoster.gitlab.trackrd.Close"@ != "org.thehoster.gitlab.trackrd.WhoAmI"@,
        "org.thehoster.gitlab.trackrd.AssignSelf"@ != "org.thehoster.gitlab.trackrd.UnassignSelf"@,
        "org.thehoster.gitlab.trackrd.AssignSelf"@ != "org.thehoster.gitlab.trackrd.Login"@,
        "org.thehoster.gitlab.trackrd.AssignSelf"@ != "org.thehoster.gitlab.trackrd.Logout"@,
        "org.thehoster.gitlab.trackrd.AssignSelf"@ != "org.thehoster.gitlab.trackrd.WhoAmI"@,
        "org.thehoster.gitlab.trackrd.UnassignSelf"@ != "org.thehoster.gitlab.trackrd.Login"@,
        "org.thehoster.gitlab.trackrd.UnassignSelf"@ != "org.thehoster.gitlab.trackrd.Logout"@,
        "org.thehoster.gitlab.trackrd.UnassignSelf"@ != "org.thehoster.gitlab.trackrd.WhoAmI"@,
        "org.thehoster.gitlab.trackrd.Login"@ != "org.thehoster.gitlab.trackrd.Logout"@,
        "org.thehoster.gitlab.trackrd.Login"@ != "org.thehoster.gitlab.trackrd.WhoAmI"@,
        "org.thehoster.gitlab.trackrd.Logout"@ != "org.thehoster.gitlab.trackrd.WhoAmI"@,
{
    reveal_strlit("org.varlink.service.GetInfo");
    reveal_strlit("org.varlink.service.GetInterfaceDescription");
    reveal_strlit("org.thehoster.gitlab.trackrd.ClearCache");
    reveal_strlit("org.thehoster.gitlab.trackrd.GetHistory");
    reveal_strlit("org.thehoster.gitlab.trackrd.GetFailures");
    reveal_strlit("org.thehoster.gitlab.trackrd.ClearFailures");
    reveal_strlit("org.thehoster.gitlab.trackrd.GetAssignedIssues");
    reveal_strlit("org.thehoster.gitlab.trackrd.GetAssignedMergeRequests");
    reveal_strlit("org.thehoster.gitlab.trackrd.RetryFailure");
    reveal_strlit("org.thehoster.gitlab.trackrd.DismissFailure");
    reveal_strlit("org.thehoster.gitlab.trackrd.Search");
    reveal_strlit("org.thehoster.gitlab.trackrd.PostTime");
    reveal_strlit("org.thehoster.gitlab.trackrd.Close");
    reveal_strlit("org.thehoster.gitlab.trackrd.AssignSelf");
    reveal_strlit("org.thehoster.gitlab.trackrd.UnassignSelf");
    reveal_strlit("org.thehoster.gitlab.trackrd.Login");
    reveal_strlit("org.thehoster.gitlab.trackrd.Logout");
    reveal_strlit("org.thehoster.gitlab.trackrd.WhoAmI");
    assert("org.varlink.service.GetInfo"@.len() == 27);
    assert("org.varlink.service.GetInterfaceDescription"@.len() == 43);
    assert("org.thehoster.gitlab.trackrd.ClearCache"@.len() == 39);
    assert("org.thehoster.gitlab.trackrd.GetHistory"@.len() == 39);
    assert("org.thehoster.gitlab.trackrd.GetFailures"@.len() == 40);
    assert("org.thehoster.gitlab.trackrd.ClearFailures"@.len() == 42);
    assert("org.thehoster.gitlab.trackrd.GetAssignedIssues"@.len() == 46);
    assert("org.thehoster.gitlab.trackrd.GetAssignedMergeRequests"@.len() == 53);
    assert("org.thehoster.gitlab.trackrd.RetryFailure"@.len() == 41);
    assert("org.thehoster.gitlab.trackrd.DismissFailure"@.len() == 43);
    assert("org.thehoster.gitlab.trackrd.Search"@.len() == 35);
    assert("org.thehoster.gitlab.trackrd.PostTime"@.len() == 37);
    assert("org.thehoster.gitlab.trackrd.Close"@.len() == 34);
    assert("org.thehoster.gitlab.trackrd.AssignSelf"@.len() == 39);
    assert("org.thehoster.gitlab.trackrd.UnassignSelf"@.len() == 41);
    assert("org.thehoster.gitlab.trackrd.Login"@.len() == 34);
    assert("org.thehoster.gitlab.trackrd.Logout"@.len() == 35);
    assert("org.thehoster.gitlab.trackrd.WhoAmI"@.len() == 35);
    assert("org.varlink.service.GetInterfaceDescription"@[4] != "org.thehoster.gitlab.trackrd.DismissFailure"@[4]);
    assert("org.thehoster.gitlab.trackrd.ClearCache"@[29] != "org.thehoster.gitlab.trackrd.GetHistory"@[29]);
    assert("org.thehoster.gitlab.trackrd.ClearCache"@[29] != "org.thehoster.gitlab.trackrd.AssignSelf"@[29]);
    assert("org.thehoster.gitlab.trackrd.GetHistory"@[29] != "org.thehoster.gitlab.trackrd.AssignSelf"@[29]);
    assert("org.thehoster.gitlab.trackrd.RetryFailure"@[29] != "org.thehoster.gitlab.trackrd.UnassignSelf"@[29]);
    assert("org.thehoster.gitlab.trackrd.Search"@[29] != "org.thehoster.gitlab.trackrd.Logout"@[29]);
    assert("org.thehoster.gitlab.trackrd.Search"@[29] != "org.thehoster.gitlab.trackrd.WhoAmI"@[29]);
    assert("org.thehoster.gitlab.trackrd.Close"@[29] != "org.thehoster.gitlab.trackrd.Login"@[29]);
    assert("org.thehoster.gitlab.trackrd.Logout"@[29] != "org.thehoster.gitlab.trackrd.WhoAmI"@[29]);
}

/// Every argument is found by its name in an object and by its place in an array,
/// and an array has to hold all of them.
pub proof fn law_arguments_by_name_or_place(
    m: Vec<(String, Json)>,
    a: Vec<Json>,
    key: Seq<char>,
    at: int,
    count: int,
)
    ensures
        has_shape(Json::Object(m), count),
        has_shape(Json::Array(a), count) <==> a@.len() == count,
        argument(Json::Object(m), key, at) == member(m@, key),
        0 <= at < a@.len() ==> argument(Json::Array(a), key, at) == Some(a@[at]),
        !has_shape(Json::Null, count),
        !has_shape(Json::Real, count),
{
}

proof fn lemma_all_texts(items: Seq<Json>)
    ensures
        match all_texts(items) {
            Some(l) => l.len() == items.len() && forall|i: int|
                0 <= i < items.len() ==> (#[trigger] items[i]) is Str && l[i] == items[i]->Str_0@,
            None => exists|i: int| 0 <= i < items.len() && !((#[trigger] items[i]) is Str),
        },
    decreases items.len(),
{
    if items.len() > 0 {
        let init = items.drop_last();
        lemma_all_texts(init);
        match all_texts(init) {
            Some(l) => {
                if items.last() is Str {
                    let all = all_texts(items)->0;
                    assert forall|i: int| 0 <= i < items.len() implies (#[trigger] items[i]) is Str
                        && all[i] == items[i]->Str_0@ by {
                        if i < init.len() {
                            assert(init[i] == items[i]);
                        }
                    }
                } else {
                    assert(!(items[items.len() - 1] is Str));
                }
            },
            None => {
                let i = choose|i: int| 0 <= i < init.len() && !((#[trigger] init[i]) is Str);
                assert(!(items[i] is Str));
            },
        }
    }
}

/// What may be left out may also be null; a list holds every text of the array, in
/// order, and anything else than texts is refused.
pub proof fn law_optional_arguments(v: Json)
    ensures
        maybe_int(None) == Some(None::<i64>),
        maybe_text(None) == Some(None::<Seq<char>>),
        maybe_list(None) == Some(None::<Seq<Seq<char>>>),
        v is Null ==> maybe_int(Some(v)) == Some(None::<i64>) && maybe_text(Some(v)) == Some(
            None::<Seq<char>>,
        ) && maybe_list(Some(v)) == Some(None::<Seq<Seq<char>>>),
        v matches Json::Int(n) ==> maybe_int(Some(v)) == Some(Some(n)),
        v matches Json::Str(s) ==> maybe_text(Some(v)) == Some(Some(s@)),
        v matches Json::Array(a) ==> match maybe_list(Some(v)) {
            Some(l) => l is Some && l->0.len() == a@.len() && forall|i: int|
                0 <= i < a@.len() ==> (#[trigger] a@[i]) is Str && l->0[i] == a@[i]->Str_0@,
            None => exists|i: int| 0 <= i < a@.len() && !((#[trigger] a@[i]) is Str),
        },
        !(v is Null || v is Int) ==> maybe_int(Some(v)) is None,
        !(v is Null || v is Str) ==> maybe_text(Some(v)) is None,
        !(v is Null || v is Array) ==> maybe_list(Some(v)) is None,
{
    if v is Array {
        lemma_all_texts(v->Array_0@);
    }
}

/// An issue and a merge request go by their names, and nothing else does.
pub proof fn law_kind_names(name: String)
    ensures
        name@ == "issue"@ ==> kind_in(Some(Json::Str(name))) == Some(IssuableKind::issue),
        name@ == "merge_request"@ ==> kind_in(Some(Json::Str(name))) == Some(
            IssuableKind::merge_request,
        ),
        name@ != "issue"@ && name@ != "merge_request"@ ==> kind_in(Some(Json::Str(name))) is None,
        kind_in(None) is None,
{
    reveal_strlit("issue");
    reveal_strlit("merge_request");
    assert("issue"@.len() == 5);
    assert("merge_request"@.len() == 13);
}

/// A request to log time asks for exactly what its arguments say: the project, the
/// number and the kind of the target, the duration, and the summary, if there is
/// one.
pub proof fn law_post_time_request(p: Json, more: bool)
    ensures
        ({
            let c = asked_for("org.thehoster.gitlab.trackrd.PostTime"@, Some(p), more);
            let project = int_in(argument(p, "project_id"@, 0));
            let iid = int_in(argument(p, "iid"@, 1));
            let kind = kind_in(argument(p, "kind"@, 2));
            let duration = text_in(argument(p, "duration"@, 3));
            let summary = maybe_text(argument(p, "summary"@, 4));
            if has_shape(p, 5) && project is Some && iid is Some && kind is Some && duration is Some
                && summary is Some {
                c == Asked::PostTime(project->0, iid->0, kind->0, duration->0, summary->0)
            } else {
                c == Asked::BadParameters
            }
        }),
{
    lemma_method_names_differ();
}

/// A request to close, to assign oneself or to unassign oneself asks for exactly
/// that, on the target that its arguments name.
pub proof fn law_target_requests(p: Json, more: bool)
    ensures
        ({
            let project = int_in(argument(p, "project_id"@, 0));
            let iid = int_in(argument(p, "iid"@, 1));
            let kind = kind_in(argument(p, "kind"@, 2));
            let fits = has_shape(p, 3) && project is Some && iid is Some && kind is Some;
            &&& asked_for("org.thehoster.gitlab.trackrd.Close"@, Some(p), more) == if fits {
                Asked::Close(project->0, iid->0, kind->0)
            } else {
                Asked::BadParameters
            }
            &&& asked_for("org.thehoster.gitlab.trackrd.AssignSelf"@, Some(p), more) == if fits {
                Asked::AssignSelf(project->0, iid->0, kind->0)
            } else {
                Asked::BadParameters
            }
            &&& asked_for("org.thehoster.gitlab.trackrd.UnassignSelf"@, Some(p), more) == if fits {
                Asked::UnassignSelf(project->0, iid->0, kind->0)
            } else {
                Asked::BadParameters
            }
        }),
{
    lemma_method_names_differ();
}

/// A search asks for its query, its kinds and its limit, and is streamed where the
/// caller takes more than one reply.
pub proof fn law_search_request(p: Json, more: bool)
    ensures
        ({
            let c = asked_for("org.thehoster.gitlab.trackrd.Search"@, Some(p), more);
            let query = text_in(argument(p, "query"@, 0));
            let kinds = maybe_list(argument(p, "kinds"@, 1));
            let limit = maybe_int(argument(p, "limit"@, 2));
            if has_shape(p, 3) && query is Some && kinds is Some && limit is Some {
                c == Asked::Search(query->0, kinds->0, limit->0, more)
            } else {
                c == Asked::BadParameters
            }
        }),
{
    lemma_method_names_differ();
}

/// The other requests ask for what their names say, with what their arguments say;
/// those that need none take none.
pub proof fn law_other_requests(p: Json, more: bool, params: Option<Json>)
    ensures
        ({
            let id = int_in(argument(p, "id"@, 0));
            let host = text_in(argument(p, "host"@, 0));
            let token = text_in(argument(p, "token"@, 1));
            let scope = maybe_list(argument(p, "scope"@, 0));
            let days = maybe_int(argument(p, "days"@, 0));
            let groups = maybe_list(argument(p, "groups"@, 0));
            &&& has_shape(p, 1) && id is Some ==> asked_for(
                "org.thehoster.gitlab.trackrd.RetryFailure"@,
                Some(p),
                more,
            ) == Asked::RetryFailure(id->0)
            &&& has_shape(p, 1) && id is Some ==> asked_for(
                "org.thehoster.gitlab.trackrd.DismissFailure"@,
                Some(p),
                more,
            ) == Asked::DismissFailure(id->0)
            &&& has_shape(p, 2) && host is Some && token is Some ==> asked_for(
                "org.thehoster.gitlab.trackrd.Login"@,
                Some(p),
                more,
            ) == Asked::Login(host->0, token->0)
            &&& has_shape(p, 1) && scope is Some ==> asked_for(
                "org.thehoster.gitlab.trackrd.ClearCache"@,
                Some(p),
                more,
            ) == Asked::ClearCache(scope->0)
            &&& has_shape(p, 1) && days is Some ==> asked_for(
                "org.thehoster.gitlab.trackrd.GetHistory"@,
                Some(p),
                more,
            ) == Asked::GetHistory(days->0)
            &&& has_shape(p, 1) && groups is Some ==> asked_for(
                "org.thehoster.gitlab.trackrd.GetAssignedIssues"@,
                Some(p),
                more,
            ) == Asked::GetAssignedIssues(groups->0)
            &&& has_shape(p, 1) && groups is Some ==> asked_for(
                "org.thehoster.gitlab.trackrd.GetAssignedMergeRequests"@,
                Some(p),
                more,
            ) == Asked::GetAssignedMergeRequests(groups->0)
        }),
        asked_for("org.thehoster.gitlab.trackrd.ClearCache"@, None, more) == Asked::ClearCache(
            None,
        ),
        asked_for("org.thehoster.gitlab.trackrd.GetHistory"@, None, more) == Asked::GetHistory(
            None,
        ),
        asked_for("org.thehoster.gitlab.trackrd.GetAssignedIssues"@, None, more)
            == Asked::GetAssignedIssues(None),
        asked_for("org.thehoster.gitlab.trackrd.GetAssignedMergeRequests"@, None, more)
            == Asked::GetAssignedMergeRequests(None),
        asked_for("org.thehoster.gitlab.trackrd.GetFailures"@, params, more) == Asked::GetFailures,
        asked_for("org.thehoster.gitlab.trackrd.ClearFailures"@, params, more)
            == Asked::ClearFailures,
        asked_for("org.thehoster.gitlab.trackrd.Logout"@, params, more) == Asked::Logout,
        asked_for("org.thehoster.gitlab.trackrd.WhoAmI"@, params, more) == Asked::WhoAmI,
        asked_for("org.varlink.service.GetInfo"@, params, more) == Asked::GetInfo,
{
    lemma_method_names_differ();
}

/// A call that reads changes nothing and is answered from what the daemon holds,
/// with what the caller gave.
pub proof fn law_reading_calls(
    before: Handlers,
    after: Handlers,
    c: Call,
    method: Seq<char>,
    now: u64,
    clock: nat,
    r: Next,
)
    requires
        performed(before, after, c, method, now, clock, r),
    ensures
        c is GetInfo || c is GetInterfaceDescription || c is GetHistory || c is GetFailures
            || c is GetAssignedIssues || c is GetAssignedMergeRequests || c is Search
            || c is WhoAmI || c is Login || c is DismissFailure || c is ClearFailures
            || c is MethodNotFound || c is MissingParameters || c is BadParameters ==> after
            == before,
        c matches Call::GetHistory { days } ==> r matches Next::History(events) && is_history(
            events@,
            before,
            history_start(days, now),
        ),
        c is GetFailures ==> (r matches Next::Failures(list) && is_failure_list(
            list@,
            before.queue@,
        )),
        c matches Call::GetAssignedIssues { groups } ==> r matches Next::Issues(reply)
            && is_issue_listing(
            reply,
            before,
            match groups {
                Some(g) => g@,
                None => Seq::empty(),
            },
        ),
        c matches Call::GetAssignedMergeRequests { groups } ==> r matches Next::MergeRequests(reply)
            && is_mr_listing(
            reply,
            before,
            match groups {
                Some(g) => g@,
                None => Seq::empty(),
            },
        ),
        c matches Call::Search { query, kinds, limit, streamed } ==> (!streamed
            ==> (r matches Next::Search(step) && search_started(
            before,
            step,
            query@,
            match kinds {
                Some(k) => k@,
                None => Seq::empty(),
            },
            limit,
            clock,
        ))),
        c matches Call::Search { query, kinds, limit, streamed } ==> (streamed
            ==> (r matches Next::Stream { first, query: q, kinds: k, limit: l } && q@ == query@ && l
            == limit && list_texts(k) == list_texts(kinds) && is_first_frame(
            first,
            before,
            query@,
            match kinds {
                Some(k) => k@,
                None => Seq::empty(),
            },
            limit,
        ))),
        c is WhoAmI ==> (r matches Next::User(reply) && is_user(reply, before.session)),
{
}

/// A call that writes starts the write that it names, with what the caller gave; a
/// login hands on its host and token, a logout ends the session and nothing else.
pub proof fn law_writing_calls(
    before: Handlers,
    after: Handlers,
    c: Call,
    method: Seq<char>,
    now: u64,
    clock: nat,
    r: Next,
)
    requires
        performed(before, after, c, method, now, clock, r),
    ensures
        c matches Call::PostTime { project_id, iid, kind, duration, summary }
            ==> r matches Next::Write(step) && post_time_started(
            before,
            after,
            step,
            project_id,
            iid,
            kind,
            duration,
            summary,
            now,
        ),
        c matches Call::Close { project_id, iid, kind } ==> r matches Next::Write(step)
            && close_started(before, after, step, project_id, iid, kind, now),
        c matches Call::AssignSelf { project_id, iid, kind } ==> r matches Next::Write(step)
            && assign_started(before, after, step, project_id, iid, kind, now),
        c matches Call::UnassignSelf { project_id, iid, kind } ==> r matches Next::Write(step)
            && unassign_started(before, after, step, project_id, iid, kind, now),
        c matches Call::RetryFailure { id } ==> r matches Next::Letters(step) && failure_retried(
            before,
            after,
            step,
            id,
        ),
        c matches Call::DismissFailure { id } ==> r matches Next::Letters(step)
            && failure_dismissed(before, step, id),
        c is ClearFailures ==> r == Next::Letters(LetterStep::Delete(Letters::All)),
        c matches Call::ClearCache { scope } ==> r matches Next::Clear(scopes) && scopes@
            == match scope {
            Some(s) => s@,
            None => Seq::empty(),
        } && issues_cleared(before, after, scopes@),
        c matches Call::Login { host, token } ==> r matches Next::Connect { host: h, token: t }
            && h@ == host@ && t@ == token@,
        c is Logout ==> r is Forget && after.session == ConnState::Dormant(
            DormancyReason::LoggedOut,
        ) && after.queue == before.queue && after.cache == before.cache && after.search
            == before.search && after.history == before.history,
{
}

/// The first frame of a streamed search says what the cache alone would, and
/// another follows exactly if it is no error.
pub proof fn law_first_frame_is_from_the_cache(
    first: Frame<SearchReply>,
    h: Handlers,
    query: Seq<char>,
    kinds: Seq<String>,
    limit: Option<i64>,
)
    requires
        is_first_frame(first, h, query, kinds, limit),
    ensures
        first.continues <==> first.reply is Success,
        args_error(query, kinds, limit) is None ==> cached_answer(
            first.reply,
            h,
            asked(query, kinds, limit),
        ),
        args_error(query, kinds, limit) matches Some(m) ==> first.reply.is_error(m),
{
}

/// What is refused is refused in the words of the varlink service: an unknown
/// method by its name, a missing parameter block or interface as an invalid
/// parameter.
pub proof fn law_refusals(
    before: Handlers,
    after: Handlers,
    c: Call,
    method: Seq<char>,
    now: u64,
    clock: nat,
    r: Next,
)
    requires
        performed(before, after, c, method, now, clock, r),
    ensures
        c is MethodNotFound ==> (r matches Next::Refused(f) && f.error@
            == "org.varlink.service.MethodNotFound"@ && f.key@ == "method"@ && f.value@ == method),
        c is MissingParameters ==> (r matches Next::Refused(f) && f.error@
            == "org.varlink.service.InvalidParameter"@ && f.key@ == "parameter"@ && f.value@
            == "parameters"@),
        c is BadParameters ==> r is Hangup,
        c matches Call::GetInterfaceDescription { interface } ==> match interface {
            Some(s) => {
                &&& s@ == "org.varlink.service"@ ==> r == Next::Description(Described::Service)
                &&& s@ == "org.thehoster.gitlab.trackrd"@ ==> r == Next::Description(
                    Described::Trackrd,
                )
                &&& s@ != "org.varlink.service"@ && s@ != "org.thehoster.gitlab.trackrd"@ ==> r
                    is Refused
            },
            None => r is Refused,
        },
{
    reveal_strlit("org.varlink.service");
    reveal_strlit("org.thehoster.gitlab.trackrd");
    assert("org.varlink.service"@.len() == 19);
    assert("org.thehoster.gitlab.trackrd"@.len() == 28);
}

/// The calls that may queue a task, and only those, are put off while the queue has
/// no id left.
pub proof fn law_what_may_queue(c: Call)
    ensures
        may_queue(c@) <==> c is PostTime || c is Close || c is AssignSelf || c is UnassignSelf
            || c is RetryFailure,
{
}

/// Calls that are seen alike ask for the same: the same method with the same
/// arguments.
pub proof fn law_calls_are_told_apart(a: Call, b: Call)
    requires
        a@ == b@,
    ensures
        a matches Call::PostTime { project_id, iid, kind, duration, summary } ==> b is PostTime
            && b->PostTime_project_id == project_id && b->PostTime_iid == iid && b->PostTime_kind
            == kind && b->duration@ == duration@ && crate::error::opt_text(b->summary)
            == crate::error::opt_text(summary),
        a matches Call::Close { project_id, iid, kind } ==> b is Close && b->Close_project_id
            == project_id && b->Close_iid == iid && b->Close_kind == kind,
        a matches Call::AssignSelf { project_id, iid, kind } ==> b is AssignSelf
            && b->AssignSelf_project_id == project_id && b->AssignSelf_iid == iid
            && b->AssignSelf_kind == kind,
        a matches Call::UnassignSelf { project_id, iid, kind } ==> b is UnassignSelf
            && b->UnassignSelf_project_id == project_id && b->UnassignSelf_iid == iid
            && b->UnassignSelf_kind == kind,
        a matches Call::RetryFailure { id } ==> b is RetryFailure && b->RetryFailure_id == id,
        a matches Call::DismissFailure { id } ==> b is DismissFailure && b->DismissFailure_id == id,
        a matches Call::GetHistory { days } ==> b is GetHistory && b->days == days,
        a matches Call::Search { query, kinds, limit, streamed } ==> b is Search && b->query@
            == query@ && list_texts(b->kinds) == list_texts(kinds) && b->limit == limit
            && b->streamed == streamed,
        a matches Call::GetAssignedIssues { groups } ==> b is GetAssignedIssues && list_texts(
            b->GetAssignedIssues_groups,
        ) == list_texts(groups),
        a matches Call::GetAssignedMergeRequests { groups } ==> b is GetAssignedMergeRequests
            && list_texts(b->GetAssignedMergeRequests_groups) == list_texts(groups),
        a matches Call::ClearCache { scope } ==> b is ClearCache && list_texts(b->scope)
            == list_texts(scope),
        a matches Call::Login { host, token } ==> b is Login && b->host@ == host@ && b->token@
            == token@,
        a is GetInfo ==> b is GetInfo,
        a is GetFailures ==> b is GetFailures,
        a is ClearFailures ==> b is ClearFailures,
        a is Logout ==> b is Logout,
        a is WhoAmI ==> b is WhoAmI,
{
}

/// A list that is given stands for its texts, in order.
pub proof fn law_lists_are_their_texts(v: Vec<String>, i: int)
    ensures
        list_texts(Some(v)) is Some,
        list_texts(Some(v))->0.len() == v@.len(),
        0 <= i < v@.len() ==> list_texts(Some(v))->0[i] == v@[i]@,
        list_texts(None) is None,
{
}

/// A kind may also be given as the one member of an object, with nothing under it.
pub proof fn law_kind_as_a_member(m: Vec<(String, Json)>)
    ensures
        m@.len() == 1 && m@[0].1 is Null ==> kind_in(Some(Json::Object(m))) == kind_in(
            Some(Json::Str(m@[0].0)),
        ),
        !(m@.len() == 1 && m@[0].1 is Null) ==> kind_in(Some(Json::Object(m))) is None,
{
}

/// A call is for what was asked: each one stands for the request of its own name,
/// with its own arguments.
pub proof fn law_calls_are_for_what_was_asked(c: Call)
    ensures
        c matches Call::PostTime { project_id, iid, kind, duration, summary } ==> c@
            == Asked::PostTime(
            project_id,
            iid,
            kind,
            duration@,
            crate::error::opt_text(summary),
        ),
        c matches Call::Close { project_id, iid, kind } ==> c@ == Asked::Close(
            project_id,
            iid,
            kind,
        ),
        c matches Call::AssignSelf { project_id, iid, kind } ==> c@ == Asked::AssignSelf(
            project_id,
            iid,
            kind,
        ),
        c matches Call::UnassignSelf { project_id, iid, kind } ==> c@ == Asked::UnassignSelf(
            project_id,
            iid,
            kind,
        ),
        c matches Call::RetryFailure { id } ==> c@ == Asked::RetryFailure(id),
        c matches Call::DismissFailure { id } ==> c@ == Asked::DismissFailure(id),
        c matches Call::GetHistory { days } ==> c@ == Asked::GetHistory(days),
        c matches Call::ClearCache { scope } ==> c@ == Asked::ClearCache(list_texts(scope)),
        c matches Call::GetAssignedIssues { groups } ==> c@ == Asked::GetAssignedIssues(
            list_texts(groups),
        ),
        c matches Call::GetAssignedMergeRequests { groups } ==> c@
            == Asked::GetAssignedMergeRequests(list_texts(groups)),
        c matches Call::Search { query, kinds, limit, streamed } ==> c@ == Asked::Search(
            query@,
            list_texts(kinds),
            limit,
            streamed,
        ),
        c matches Call::Login { host, token } ==> c@ == Asked::Login(host@, token@),
        c is GetInfo <==> c@ is GetInfo,
        c is GetFailures <==> c@ is GetFailures,
        c is ClearFailures <==> c@ is ClearFailures,
        c is Logout <==> c@ is Logout,
        c is WhoAmI <==> c@ is WhoAmI,
        c is MethodNotFound <==> c@ is MethodNotFound,
        c is MissingParameters <==> c@ is MissingParameters,
        c is BadParameters <==> c@ is BadParameters,
{
}

} // verus!
