//! The types that the varlink interface carries.

use vstd::prelude::*;

verus! {

#[derive(Debug)]
pub struct Issue {
    pub id: i64,
    pub iid: i64,
    pub project_id: i64,
    pub title: String,
    pub web_url: String,
    pub state: String,
    pub parent: String,
    pub total_time: String,
    pub graph_status: String,
}

impl Clone for Issue {
    fn clone(&self) -> (r: Self)
        ensures
            r == *self,
    {
        Issue {
            id: self.id,
            iid: self.iid,
            project_id: self.project_id,
            title: self.title.clone(),
            web_url: self.web_url.clone(),
            state: self.state.clone(),
            parent: self.parent.clone(),
            total_time: self.total_time.clone(),
            graph_status: self.graph_status.clone(),
        }
    }
}

#[derive(Debug)]
pub struct MergeRequest {
    pub id: i64,
    pub iid: i64,
    pub project_id: i64,
    pub title: String,
    pub web_url: String,
    pub state: String,
    /// Usernames.
    pub assignees: Vec<String>,
}

#[derive(Debug)]
pub struct Project {
    pub id: i64,
    pub name: String,
    pub path: String,
    pub web_url: String,
}

#[derive(Debug)]
pub struct Group {
    pub id: i64,
    pub name: String,
    pub path: String,
    pub web_url: String,
}

/// The two kinds of things that time can be logged on.
#[derive(Clone, Copy, PartialEq, Eq, Structural, Debug)]
#[allow(non_camel_case_types)]
pub enum IssuableKind {
    issue,
    merge_request,
}

#[derive(Debug)]
pub struct HistoryEvent {
    pub timestamp: i64,
    /// `"queued"` or `"gitlab"`.
    pub source: String,
    pub kind: IssuableKind,
    pub project_id: i64,
    pub iid: i64,
    pub title: String,
    pub web_url: String,
    pub duration: String,
    pub summary: String,
}

#[derive(Debug)]
pub struct FailedTask {
    pub id: i64,
    pub op: String,
    pub kind: IssuableKind,
    pub project_id: i64,
    pub iid: i64,
    pub detail: String,
    pub error: String,
    pub queued_at: i64,
    pub failed_at: i64,
}

/// Why a caller is answered that the daemon has no session.
#[derive(Clone, Copy, PartialEq, Eq, Structural, Debug)]
#[allow(non_camel_case_types)]
pub enum NotAuthReason {
    no_credentials,
    keychain_error,
    unreachable,
    token_rejected,
    logged_out,
}

} // verus!
