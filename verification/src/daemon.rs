//! A small variant of the daemon: one list of assigned issues, kept for a fixed
//! time, and time posted straight through.

use vstd::prelude::*;
use vstd::string::*;

use crate::error::{error_text, opt_text, Error};
use crate::gitlab::{AddSpentTime, Issuable};
use crate::handlers::search::Reply;
use crate::json::{
    as_int, field, get, int_in, int_or_zero, integer, text, text_in, text_or_empty, Json,
};
use crate::service::{
    argument, asked_for, find_argument, fits_shape, handle_varlink_meta, has_shape, maybe_text,
    read_maybe_text, read_text, Call, Request, ServiceInfo,
};
use crate::text::{chars_of, joined, read_u64, str_eq, unsigned_in};

verus! {

/// How long the issue list is kept unless configured otherwise, in seconds.
pub const DEFAULT_CACHE_TTL: u64 = 300;

/// An assigned issue.
#[derive(Debug)]
pub struct AssignedIssue {
    pub id: i64,
    pub iid: i64,
    pub project_id: i64,
    pub title: String,
    pub web_url: String,
    pub state: String,
}

impl Clone for AssignedIssue {
    fn clone(&self) -> (r: Self)
        ensures
            r == *self,
    {
        AssignedIssue {
            id: self.id,
            iid: self.iid,
            project_id: self.project_id,
            title: self.title.clone(),
            web_url: self.web_url.clone(),
            state: self.state.clone(),
        }
    }
}

/// Whether `i` is the issue that `v` describes: what is missing or malformed is
/// zero or empty.
pub open spec fn is_issue_of(i: AssignedIssue, v: Json) -> bool {
    let o = Some(v);
    &&& i.id == int_or_zero(field(o, "id"@))
    &&& i.iid == int_or_zero(field(o, "iid"@))
    &&& i.project_id == int_or_zero(field(o, "project_id"@))
    &&& i.title@ == text_or_empty(field(o, "title"@))
    &&& i.web_url@ == text_or_empty(field(o, "web_url"@))
    &&& i.state@ == text_or_empty(field(o, "state"@))
}

/// The issue that `v` describes. What is missing or malformed falls back to zero
/// or the empty string, so that one bad entry does not spoil the list.
pub fn issue_from_value(v: &Json) -> (r: AssignedIssue)
    ensures
        is_issue_of(r, *v),
{
    let o = Some(v);
    AssignedIssue {
        id: integer(get(o, "id")),
        iid: integer(get(o, "iid")),
        project_id: integer(get(o, "project_id")),
        title: text(get(o, "title")),
        web_url: text(get(o, "web_url")),
        state: text(get(o, "state")),
    }
}

/// Whether `issues` are the ones that `raw` describes, one for one.
pub open spec fn are_issues_of(issues: Seq<AssignedIssue>, raw: Seq<Json>) -> bool {
    &&& issues.len() == raw.len()
    &&& forall|i: int| 0 <= i < raw.len() ==> is_issue_of(#[trigger] issues[i], raw[i])
}

fn issues_from_values(raw: &Vec<Json>) -> (r: Vec<AssignedIssue>)
    ensures
        are_issues_of(r@, raw@),
{
    let mut r: Vec<AssignedIssue> = Vec::new();
    let mut i: usize = 0;
    while i < raw.len()
        invariant
            i <= raw@.len(),
            are_issues_of(r@, raw@.take(i as int)),
        decreases raw@.len() - i,
    {
        r.push(issue_from_value(&raw[i]));
        i += 1;
    }
    proof {
        assert(raw@.take(raw@.len() as int) =~= raw@);
    }
    r
}

/// An issue list and when it was fetched.
#[derive(Debug)]
pub struct CachedData {
    /// Seconds since the epoch.
    pub timestamp: u64,
    pub issues: Vec<AssignedIssue>,
}

/// The daemon's state.
#[derive(Debug)]
pub struct Daemon {
    pub cache: Option<CachedData>,
    /// From which age on, in seconds, a list is fetched anew.
    pub cache_ttl: u64,
}

/// Whether a list fetched at `timestamp` is still served at `now`. One from the
/// future counts as just fetched.
pub open spec fn is_fresh(timestamp: u64, ttl: u64, now: u64) -> bool {
    if now >= timestamp {
        now - timestamp < ttl
    } else {
        ttl > 0
    }
}

/// The list that is served from the cache at `now`.
pub open spec fn served(d: Daemon, now: u64) -> Option<Seq<AssignedIssue>> {
    match d.cache {
        Some(c) => if is_fresh(c.timestamp, d.cache_ttl, now) {
            Some(c.issues@)
        } else {
            None
        },
        None => None,
    }
}

impl Daemon {
    /// The cached list, if it is young enough at `now`.
    pub fn read_cache(&self, now: u64) -> (r: Option<&Vec<AssignedIssue>>)
        ensures
            match r {
                Some(issues) => served(*self, now) == Some(issues@),
                None => served(*self, now) is None,
            },
    {
        match &self.cache {
            Some(c) => {
                let age: u64 = if now >= c.timestamp {
                    now - c.timestamp
                } else {
                    0
                };
                if age < self.cache_ttl {
                    Some(&c.issues)
                } else {
                    None
                }
            },
            None => None,
        }
    }

    /// Keeps `issues` as fetched at `now`.
    pub fn write_cache(&mut self, issues: Vec<AssignedIssue>, now: u64)
        ensures
            final(self).cache == Some(CachedData { timestamp: now, issues }),
            final(self).cache_ttl == old(self).cache_ttl,
    {
        self.cache = Some(CachedData { timestamp: now, issues });
    }

    /// Drops the cached list.
    pub fn invalidate_cache(&mut self)
        ensures
            final(self).cache is None,
            final(self).cache_ttl == old(self).cache_ttl,
    {
        self.cache = None;
    }

    /// Takes up what GitLab listed: the issues are kept and returned. After a
    /// failure the cache stays as it was.
    pub fn fetch_issues(&mut self, raw: Result<Vec<Json>, String>, now: u64) -> (r: Result<
        &Vec<AssignedIssue>,
        Error,
    >)
        ensures
            final(self).cache_ttl == old(self).cache_ttl,
            match raw {
                Ok(v) => r matches Ok(issues) && are_issues_of(issues@, v@) && final(self).cache
                    == Some(CachedData { timestamp: now, issues: *issues }),
                Err(e) => r == Err::<&Vec<AssignedIssue>, Error>(Error::Gitlab(e)) && *final(self)
                    == *old(self),
            },
    {
        match raw {
            Ok(v) => {
                let issues = issues_from_values(&v);
                self.write_cache(issues, now);
                match &self.cache {
                    Some(c) => Ok(&c.issues),
                    None => Err(Error::Gitlab(String::new())),
                }
            },
            Err(e) => Err(Error::Gitlab(e)),
        }
    }

    /// `GetAssignedIssues`, answered from the cache; `None` where the list has to
    /// be fetched first.
    pub fn get_assigned_issues(&self, now: u64) -> (r: Option<Reply<&Vec<AssignedIssue>>>)
        ensures
            match r {
                Some(reply) => reply matches Reply::Success(issues) && served(*self, now) == Some(
                    issues@,
                ),
                None => served(*self, now) is None,
            },
    {
        match self.read_cache(now) {
            Some(issues) => Some(Reply::Success(issues)),
            None => None,
        }
    }

    /// `GetAssignedIssues`, answered with what GitLab listed.
    pub fn issues_fetched(&mut self, raw: Result<Vec<Json>, String>, now: u64) -> (r: Reply<
        &Vec<AssignedIssue>,
    >)
        ensures
            final(self).cache_ttl == old(self).cache_ttl,
            match raw {
                Ok(v) => r matches Reply::Success(issues) && are_issues_of(issues@, v@)
                    && final(self).cache == Some(CachedData { timestamp: now, issues: *issues }),
                Err(e) => r.is_error(error_text(Error::Gitlab(e))) && *final(self) == *old(self),
            },
    {
        match self.fetch_issues(raw, now) {
            Ok(issues) => Reply::Success(issues),
            Err(e) => Reply::GitlabError(e.message()),
        }
    }

    /// `ClearCache`.
    pub fn clear_cache(&mut self) -> (r: Reply<()>)
        ensures
            r == Reply::Success(()),
            final(self).cache is None,
            final(self).cache_ttl == old(self).cache_ttl,
    {
        self.invalidate_cache();
        Reply::Success(())
    }

    /// `PostTime`: the call to make.
    pub fn post_time<'a>(
        &self,
        project_id: i64,
        issue_iid: i64,
        duration: &'a str,
        summary: Option<&'a str>,
    ) -> (r: AddSpentTime<'a>)
        ensures
            r == (AddSpentTime {
                kind: Issuable::Issue,
                project_id,
                iid: issue_iid,
                duration,
                summary,
            }),
    {
        AddSpentTime { kind: Issuable::Issue, project_id, iid: issue_iid, duration, summary }
    }

    /// `PostTime`, answered once the call was made.
    pub fn post_time_done(&self, outcome: Result<(), String>) -> (r: Reply<()>)
        ensures
            match outcome {
                Ok(_) => r == Reply::Success(()),
                Err(e) => r.is_error(error_text(Error::Gitlab(e))),
            },
    {
        match outcome {
            Ok(()) => Reply::Success(()),
            Err(e) => Reply::GitlabError(Error::Gitlab(e).message()),
        }
    }
}

/// What this variant of the daemon says of itself.
pub fn service_info(version: String) -> (r: ServiceInfo)
    ensures
        r.vendor@ == "org.thehoster"@,
        r.product@ == "gitlab_trackrd"@,
        r.version == version,
        r.url@ == "https://github.com/lordi/gitlab_trackrd"@,
        r.interfaces@.len() == 2,
        r.interfaces@[0]@ == "org.varlink.service"@,
        r.interfaces@[1]@ == "org.thehoster.gitlab.trackrd"@,
{
    let mut interfaces: Vec<&'static str> = Vec::new();
    interfaces.push("org.varlink.service");
    interfaces.push("org.thehoster.gitlab.trackrd");
    ServiceInfo {
        vendor: "org.thehoster",
        product: "gitlab_trackrd",
        version,
        url: "https://github.com/lordi/gitlab_trackrd",
        interfaces,
    }
}

// ── dispatch ─────────────────────────────────────────────────────────────────

/// What a request asks of this variant of the daemon.
#[derive(Debug)]
pub enum DaemonCall {
    /// A method of the varlink service interface.
    Service(Call),
    ClearCache,
    GetAssignedIssues,
    PostTime { project_id: i64, issue_iid: i64, duration: String, summary: Option<String> },
    /// The parameters do not fit the method: the connection ends.
    BadParameters,
}

/// Whether `c` is what `PostTime` is asked for with the parameters `p`.
pub open spec fn is_post_time(c: DaemonCall, p: Json) -> bool {
    match (
        int_in(argument(p, "project_id"@, 0)),
        int_in(argument(p, "issue_iid"@, 1)),
        text_in(argument(p, "duration"@, 2)),
        maybe_text(argument(p, "summary"@, 3)),
        has_shape(p, 4),
    ) {
        (Some(pid), Some(iid), Some(d), Some(s), true) => c matches DaemonCall::PostTime {
            project_id,
            issue_iid,
            duration,
            summary,
        } && project_id == pid && issue_iid == iid && duration@ == d && opt_text(summary) == s,
        _ => c is BadParameters,
    }
}

/// What a request asks for: a method that this variant lacks is not found, and
/// `PostTime` needs its parameters.
pub fn dispatch(request: &Request) -> (r: DaemonCall)
    ensures
        if request.method@ == "org.varlink.service.GetInfo"@ || request.method@
            == "org.varlink.service.GetInterfaceDescription"@ {
            r matches DaemonCall::Service(c) && c@ == asked_for(
                request.method@,
                request.parameters,
                false,
            )
        } else if request.method@ == "org.thehoster.gitlab.trackrd.ClearCache"@ {
            r is ClearCache
        } else if request.method@ == "org.thehoster.gitlab.trackrd.GetAssignedIssues"@ {
            r is GetAssignedIssues
        } else if request.method@ == "org.thehoster.gitlab.trackrd.PostTime"@ {
            match request.parameters {
                Some(p) => is_post_time(r, p),
                None => r == DaemonCall::Service(Call::MissingParameters),
            }
        } else {
            r == DaemonCall::Service(Call::MethodNotFound)
        },
{
    let method = request.method.as_str();
    let params = match &request.parameters {
        Some(p) => Some(p),
        None => None,
    };
    match handle_varlink_meta(method, params) {
        Some(c) => {
            return DaemonCall::Service(c);
        },
        None => {},
    }
    if str_eq(method, "org.thehoster.gitlab.trackrd.ClearCache") {
        DaemonCall::ClearCache
    } else if str_eq(method, "org.thehoster.gitlab.trackrd.GetAssignedIssues") {
        DaemonCall::GetAssignedIssues
    } else if str_eq(method, "org.thehoster.gitlab.trackrd.PostTime") {
        match params {
            Some(p) => {
                if !fits_shape(p, 4) {
                    return DaemonCall::BadParameters;
                }
                match (
                    as_int(find_argument(p, "project_id", 0)),
                    as_int(find_argument(p, "issue_iid", 1)),
                    read_text(find_argument(p, "duration", 2)),
                    read_maybe_text(find_argument(p, "summary", 3)),
                ) {
                    (
                        Some(project_id),
                        Some(issue_iid),
                        Some(duration),
                        Some(summary),
                    ) => DaemonCall::PostTime { project_id, issue_iid, duration, summary },
                    _ => DaemonCall::BadParameters,
                }
            },
            None => DaemonCall::Service(Call::MissingParameters),
        }
    } else {
        DaemonCall::Service(Call::MethodNotFound)
    }
}

// ── configuration ────────────────────────────────────────────────────────────

/// The GitLab host, `gitlab.com` unless one is set.
pub fn host_or_default(host: Option<String>) -> (r: String)
    ensures
        r@ == match opt_text(host) {
            Some(h) => h,
            None => "gitlab.com"@,
        },
{
    match host {
        Some(h) => h,
        None => "gitlab.com".to_owned(),
    }
}

/// The varlink address to serve: the one that is set, or a socket in the runtime
/// directory, or in `/tmp` without such a directory.
pub fn socket_address(socket: Option<String>, runtime_dir: Option<String>) -> (r: String)
    ensures
        r@ == match (opt_text(socket), opt_text(runtime_dir)) {
            (Some(s), _) => s,
            (None, Some(d)) => "unix:"@ + d + "/gitlab_trackrd.socket"@,
            (None, None) => "unix:/tmp/gitlab_trackrd.socket"@,
        },
{
    match (socket, runtime_dir) {
        (Some(s), _) => s,
        (None, Some(d)) => {
            let mut r = joined("unix:", d.as_str());
            r.append("/gitlab_trackrd.socket");
            r
        },
        (None, None) => "unix:/tmp/gitlab_trackrd.socket".to_owned(),
    }
}

/// The age limit in seconds that a setting stands for.
pub open spec fn ttl_of(setting: Option<Seq<char>>) -> nat {
    match setting {
        Some(s) => match unsigned_in(s, u64::MAX as nat) {
            Some(n) => n,
            None => DEFAULT_CACHE_TTL as nat,
        },
        None => DEFAULT_CACHE_TTL as nat,
    }
}

/// The age limit in seconds that a setting stands for; the default where it is
/// missing or no number.
pub fn cache_ttl(setting: Option<String>) -> (r: u64)
    ensures
        r == ttl_of(opt_text(setting)),
{
    match setting {
        Some(s) => match read_u64(&chars_of(s.as_str())) {
            Some(n) => n,
            None => DEFAULT_CACHE_TTL,
        },
        None => DEFAULT_CACHE_TTL,
    }
}

// ── laws ─────────────────────────────────────────────────────────────────────

/// A list is served back unchanged exactly until it reaches the age limit, and
/// never where the limit is zero.
pub proof fn law_served_until_the_limit(d: Daemon, c: CachedData, now: u64)
    requires
        d.cache == Some(c),
        now >= c.timestamp,
    ensures
        now < c.timestamp + d.cache_ttl ==> served(d, now) == Some(c.issues@),
        now >= c.timestamp + d.cache_ttl ==> served(d, now) is None,
        d.cache_ttl == 0 ==> served(d, now) is None,
{
}

/// Everything that is kept of an issue is read from the member of that name.
pub proof fn law_issue_is_read_from_its_members(i: AssignedIssue, v: Json)
    requires
        is_issue_of(i, v),
    ensures
        ({
            let o = Some(v);
            &&& crate::gitlab::reads_number(i.id, field(o, "id"@))
            &&& crate::gitlab::reads_number(i.iid, field(o, "iid"@))
            &&& crate::gitlab::reads_number(i.project_id, field(o, "project_id"@))
            &&& crate::gitlab::reads_text(i.title@, field(o, "title"@))
            &&& crate::gitlab::reads_text(i.web_url@, field(o, "web_url"@))
            &&& crate::gitlab::reads_text(i.state@, field(o, "state"@))
        }),
{
}

/// Every issue that GitLab lists is kept, in its place.
pub proof fn law_listed_issues_are_kept(issues: Seq<AssignedIssue>, raw: Seq<Json>, i: int)
    requires
        are_issues_of(issues, raw),
    ensures
        issues.len() == raw.len(),
        0 <= i < raw.len() ==> crate::gitlab::reads_number(
            issues[i].id,
            field(Some(raw[i]), "id"@),
        ) && crate::gitlab::reads_text(issues[i].title@, field(Some(raw[i]), "title"@)),
{
    if 0 <= i < raw.len() {
        assert(is_issue_of(issues[i], raw[i]));
    }
}

/// A request to log time asks for exactly what its arguments say.
pub proof fn law_post_time_arguments(c: DaemonCall, p: Json)
    requires
        is_post_time(c, p),
    ensures
        ({
            let project = int_in(argument(p, "project_id"@, 0));
            let iid = int_in(argument(p, "issue_iid"@, 1));
            let duration = text_in(argument(p, "duration"@, 2));
            let summary = maybe_text(argument(p, "summary"@, 3));
            if has_shape(p, 4) && project is Some && iid is Some && duration is Some && summary
                is Some {
                c is PostTime && c->project_id == project->0 && c->issue_iid == iid->0
                    && c->duration@ == duration->0 && opt_text(c->summary) == summary->0
            } else {
                c is BadParameters
            }
        }),
{
}

/// The age limit is the number that is set, and five minutes where none is set or
/// it is no number.
pub proof fn law_age_limit(n: nat)
    requires
        n <= u64::MAX,
    ensures
        ttl_of(Some(crate::text::decimal(n))) == n,
        ttl_of(None) == 300,
        ttl_of(Some(Seq::empty())) == 300,
{
    crate::text::law_decimal_reads_back(n);
    let d = crate::text::decimal(n);
    assert(crate::text::is_digit(d[0]));
}

/// A list is served until it is as old as the limit says; one that is dated in the
/// future counts as new, and a limit of zero serves nothing.
pub proof fn law_what_is_served(d: Daemon, now: u64)
    ensures
        d.cache is None ==> served(d, now) is None,
        d.cache_ttl == 0 ==> served(d, now) is None,
        d.cache matches Some(c) ==> (c.timestamp + d.cache_ttl > now && d.cache_ttl > 0 <==> served(
            d,
            now,
        ) == Some(c.issues@)),
{
}

} // verus!
