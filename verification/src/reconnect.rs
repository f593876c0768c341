//! Re-establishing the session after GitLab was unreachable, at startup or
//! while the daemon was running.
//!
//! The caller connects, sleeps and reads the keychain; what to do about each
//! outcome is decided here. Only a session that is down because GitLab was
//! unreachable is retried: everything else needs the user.

use vstd::prelude::*;
use vstd::string::*;

use crate::config::{backoff_step, next_backoff, ReconnectConfig};
use crate::error::{error_text, is_connect_failure, DormancyReason, Error};
use crate::handlers::{ConnState, Session};
use crate::secrets::Credentials;
use crate::time::{seconds, Duration};

verus! {

// ── the session slot ─────────────────────────────────────────────────────────

/// Whether there is no session because GitLab was unreachable.
pub open spec fn retryable(s: ConnState) -> bool {
    s matches ConnState::Dormant(r) && r is Unreachable
}

/// Whether there is no session because GitLab was unreachable.
pub fn slot_is_retryable(session: &ConnState) -> (r: bool)
    ensures
        r == retryable(*session),
{
    match session {
        ConnState::Dormant(r) => r.is_auto_retryable(),
        ConnState::Connected(_) => false,
    }
}

/// Takes up a new session if the slot is still retryable, so that a login or
/// logout that came first is not overwritten; whether it did.
pub fn commit_connected(session: &mut ConnState, new_session: Session) -> (r: bool)
    ensures
        r == retryable(*old(session)),
        *final(session) == if r {
            ConnState::Connected(new_session)
        } else {
            *old(session)
        },
{
    if !slot_is_retryable(session) {
        return false;
    }
    *session = ConnState::Connected(new_session);
    true
}

/// Records why there is no session if the slot is still retryable.
pub fn commit_dormant(session: &mut ConnState, reason: DormancyReason)
    ensures
        *final(session) == if retryable(*old(session)) {
            ConnState::Dormant(reason)
        } else {
            *old(session)
        },
{
    if slot_is_retryable(session) {
        *session = ConnState::Dormant(reason);
    }
}

/// Whether the session uses this very client.
pub open spec fn uses_client(s: ConnState, client: u64) -> bool {
    s matches ConnState::Connected(c) && c.client == client
}

/// Whether `after` is `before` once `client` was found unreachable: down, with
/// the host of the session, if it used that client, and unchanged otherwise.
pub open spec fn demoted(
    before: ConnState,
    after: ConnState,
    client: u64,
    detail: Seq<char>,
) -> bool {
    if uses_client(before, client) {
        after matches ConnState::Dormant(DormancyReason::Unreachable { host, detail: d }) && before
            matches ConnState::Connected(s) && host == s.host && d@ == detail
    } else {
        after == before
    }
}

/// Ends a live session after a call through `failed_client` failed on the
/// network; whether it did, in which case the reconnect supervisor is to be
/// woken. A session that uses another client, or that is down already, is left
/// as it is.
pub fn commit_unreachable(session: &mut ConnState, failed_client: u64, detail: String) -> (r: bool)
    ensures
        r == uses_client(*old(session), failed_client),
        demoted(*old(session), *final(session), failed_client, detail@),
{
    let host: String = match session {
        ConnState::Connected(s) => {
            if s.client != failed_client {
                return false;
            }
            s.host.clone()
        },
        ConnState::Dormant(_) => {
            return false;
        },
    };
    *session = ConnState::Dormant(DormancyReason::Unreachable { host, detail });
    true
}

// ── startup ──────────────────────────────────────────────────────────────────

/// What to start with, going by what the keychain held.
#[derive(Debug)]
pub enum Startup {
    /// Serve without a session.
    Dormant(ConnState),
    /// Connect with these first.
    Connect(Credentials),
}

/// What to start with. No failure keeps the daemon from starting: without usable
/// credentials it serves dormant and says why.
pub fn start(loaded: Result<Option<Credentials>, Error>) -> (r: Startup)
    ensures
        match loaded {
            Ok(Some(c)) => r == Startup::Connect(c),
            Ok(None) => r == Startup::Dormant(ConnState::Dormant(DormancyReason::NoCredentials)),
            Err(e) => r matches Startup::Dormant(
                ConnState::Dormant(DormancyReason::KeychainError(d)),
            ) && d@ == error_text(e),
        },
{
    match loaded {
        Ok(Some(c)) => Startup::Connect(c),
        Ok(None) => Startup::Dormant(ConnState::Dormant(DormancyReason::NoCredentials)),
        Err(e) => Startup::Dormant(ConnState::Dormant(DormancyReason::KeychainError(e.message()))),
    }
}

/// The state that the daemon starts in after its first connect to `host`.
pub fn started(host: &str, outcome: Result<Session, Error>) -> (r: ConnState)
    ensures
        match outcome {
            Ok(s) => r == ConnState::Connected(s),
            Err(e) => r matches ConnState::Dormant(d) && is_connect_failure(d, host@, e),
        },
{
    match outcome {
        Ok(s) => ConnState::Connected(s),
        Err(e) => ConnState::Dormant(DormancyReason::from_connect_error(host, &e)),
    }
}

// ── one engagement ───────────────────────────────────────────────────────────

/// Whether to read the keychain and try to reconnect.
pub fn engagement_wanted(session: &ConnState, cfg: &ReconnectConfig) -> (r: bool)
    ensures
        r == (retryable(*session) && cfg.enabled),
{
    slot_is_retryable(session) && cfg.enabled
}

/// The credentials to reconnect with. Where there are none, or the keychain
/// could not be read, that is recorded as the reason for having no session, if
/// the slot is still retryable.
pub fn resolve_credentials(
    loaded: Result<Option<Credentials>, Error>,
    session: &mut ConnState,
) -> (r: Option<Credentials>)
    ensures
        match loaded {
            Ok(Some(c)) => r == Some(c) && *final(session) == *old(session),
            Ok(None) => r is None && *final(session) == if retryable(*old(session)) {
                ConnState::Dormant(DormancyReason::NoCredentials)
            } else {
                *old(session)
            },
            Err(e) => r is None && if retryable(*old(session)) {
                *final(session) matches ConnState::Dormant(DormancyReason::KeychainError(d)) && d@
                    == error_text(e)
            } else {
                *final(session) == *old(session)
            },
        },
{
    match loaded {
        Ok(Some(c)) => Some(c),
        Ok(None) => {
            commit_dormant(session, DormancyReason::NoCredentials);
            None
        },
        Err(e) => {
            commit_dormant(session, DormancyReason::KeychainError(e.message()));
            None
        },
    }
}

/// How one attempt to connect ended.
#[derive(Debug)]
pub enum Attempt {
    Connected(Session),
    /// A network failure: try again.
    Transient(String),
    /// Final: record the reason and stop.
    Permanent(DormancyReason),
}

/// How an attempt to connect to `host` ended. What is no network failure is a
/// rejected token.
pub fn connect_once(host: &str, outcome: Result<Session, Error>) -> (r: Attempt)
    ensures
        match outcome {
            Ok(s) => r == Attempt::Connected(s),
            Err(Error::Transient(d)) => r == Attempt::Transient(d),
            Err(e) => r matches Attempt::Permanent(
                DormancyReason::TokenRejected { host: h, detail },
            ) && h@ == host@ && detail@ == error_text(e),
        },
{
    match outcome {
        Ok(s) => Attempt::Connected(s),
        Err(e) => match e {
            Error::Transient(d) => Attempt::Transient(d),
            other => Attempt::Permanent(
                DormancyReason::TokenRejected { host: host.to_owned(), detail: other.message() },
            ),
        },
    }
}

/// The retries of one engagement.
pub struct ReconnectLoop {
    delay: Option<Duration>,
}

/// What follows an attempt.
#[derive(Debug)]
pub enum LoopStep {
    /// The engagement is over; whether it established a session.
    Stop(bool),
    /// Wait this long, then look at the slot again.
    Sleep(Duration),
}

impl ReconnectLoop {
    /// The wait after the next failed attempt, in nanoseconds, where one is
    /// settled already.
    pub closed spec fn settled(&self) -> Option<nat> {
        match self.delay {
            Some(d) => Some(d@),
            None => None,
        }
    }

    pub fn new() -> (r: Self)
        ensures
            r.settled() is None,
    {
        ReconnectLoop { delay: None }
    }

    /// Whether to make another attempt: not once a login, a logout or an earlier
    /// success changed the slot, nor once reconnecting was switched off.
    pub fn goes_on(&self, session: &ConnState, cfg: &ReconnectConfig) -> (r: bool)
        ensures
            r == (retryable(*session) && cfg.enabled),
    {
        slot_is_retryable(session) && cfg.enabled
    }

    /// Takes note of how an attempt ended. A session is taken up, and a final
    /// failure recorded, only if the slot is still retryable; after a network
    /// failure the next wait is twice as long, up to the cap.
    pub fn attempted(
        &mut self,
        session: &mut ConnState,
        attempt: Attempt,
        cfg: &ReconnectConfig,
    ) -> (r: LoopStep)
        ensures
            match attempt {
                Attempt::Connected(s) => r == LoopStep::Stop(retryable(*old(session)))
                    && *final(session) == (if retryable(*old(session)) {
                    ConnState::Connected(s)
                } else {
                    *old(session)
                }),
                Attempt::Permanent(d) => r == LoopStep::Stop(false) && *final(session) == (
                if retryable(*old(session)) {
                    ConnState::Dormant(d)
                } else {
                    *old(session)
                }),
                Attempt::Transient(_) => {
                    let d = match old(self).settled() {
                        Some(d) => d,
                        None => seconds(cfg.base_delay_secs as nat),
                    };
                    &&& r matches LoopStep::Sleep(s) && s@ == d
                    &&& final(self).settled() == Some(
                        backoff_step(d, seconds(cfg.max_delay_secs as nat)),
                    )
                    &&& *final(session) == *old(session)
                },
            },
    {
        match attempt {
            Attempt::Connected(s) => LoopStep::Stop(commit_connected(session, s)),
            Attempt::Permanent(reason) => {
                commit_dormant(session, reason);
                LoopStep::Stop(false)
            },
            Attempt::Transient(_) => {
                let d = match self.delay {
                    Some(d) => d,
                    None => cfg.base_delay(),
                };
                self.delay = Some(next_backoff(d, cfg.max_delay()));
                LoopStep::Sleep(d)
            },
        }
    }
}

// ── the supervisor ───────────────────────────────────────────────────────────

/// How an engagement ended.
#[derive(Clone, Copy, PartialEq, Eq, Structural, Debug)]
pub enum Engaged {
    /// Nothing to do, reconnected for good, or deliberately stopped.
    Stable,
    /// Reconnected, but the warm-up that followed ended the session again.
    Flapping,
}

/// How an engagement ended that `committed` a session or did not, seen after the
/// warm-up.
pub fn engage_once(committed: bool, session: &ConnState) -> (r: Engaged)
    ensures
        r == if committed && retryable(*session) {
            Engaged::Flapping
        } else {
            Engaged::Stable
        },
{
    if committed && slot_is_retryable(session) {
        Engaged::Flapping
    } else {
        Engaged::Stable
    }
}

/// The supervisor's memory between engagements.
pub struct Supervisor {
    flap_delay: Option<Duration>,
}

/// How the supervisor waits for the next engagement.
#[derive(Debug)]
pub enum Wait {
    /// Sleep this long, then engage again.
    Sleep(Duration),
    /// Wait for a wake-up, but no longer than this.
    Park(Duration),
}

impl Supervisor {
    /// The sleep after the next flapping engagement, in nanoseconds, where one
    /// is settled already.
    pub closed spec fn settled(&self) -> Option<nat> {
        match self.flap_delay {
            Some(d) => Some(d@),
            None => None,
        }
    }

    pub fn new() -> (r: Self)
        ensures
            r.settled() is None,
    {
        Supervisor { flap_delay: None }
    }

    /// How to wait after an engagement: flapping backs off exponentially, a
    /// stable outcome resets the backoff and parks.
    pub fn supervise(&mut self, engaged: Engaged, cfg: &ReconnectConfig) -> (r: Wait)
        ensures
            match engaged {
                Engaged::Flapping => {
                    let d = match old(self).settled() {
                        Some(d) => d,
                        None => seconds(cfg.base_delay_secs as nat),
                    };
                    &&& r matches Wait::Sleep(s) && s@ == d
                    &&& final(self).settled() == Some(
                        backoff_step(d, seconds(cfg.max_delay_secs as nat)),
                    )
                },
                Engaged::Stable => {
                    &&& r matches Wait::Park(t) && t@ == seconds(cfg.max_delay_secs as nat)
                    &&& final(self).settled() is None
                },
            },
    {
        match engaged {
            Engaged::Flapping => {
                let d = match self.flap_delay {
                    Some(d) => d,
                    None => cfg.base_delay(),
                };
                self.flap_delay = Some(next_backoff(d, cfg.max_delay()));
                Wait::Sleep(d)
            },
            Engaged::Stable => {
                self.flap_delay = None;
                Wait::Park(cfg.max_delay())
            },
        }
    }
}

// ── laws ─────────────────────────────────────────────────────────────────────

/// Finding a client unreachable twice ends the session once: the second time
/// nothing changes, whichever client it was.
pub proof fn law_demotion_is_idempotent(
    s0: ConnState,
    s1: ConnState,
    s2: ConnState,
    client: u64,
    other: u64,
    d1: Seq<char>,
    d2: Seq<char>,
)
    requires
        uses_client(s0, client),
        demoted(s0, s1, client, d1),
        demoted(s1, s2, other, d2),
    ensures
        retryable(s1),
        !uses_client(s1, other),
        s2 == s1,
{
}

/// A daemon that could not reach GitLab at startup is one whose session the
/// reconnect loop takes up, and any other failure to start waits for the user.
pub proof fn law_startup_failure_retries(r: ConnState, d: DormancyReason, host: Seq<char>, e: Error)
    requires
        r == ConnState::Dormant(d),
        is_connect_failure(d, host, e),
    ensures
        retryable(r) <==> e is Transient,
{
}

/// A stale client never ends a session that uses another one, and no reason that
/// the user has to act on is ever replaced by a demotion.
pub proof fn law_demotion_never_clobbers(s0: ConnState, s1: ConnState, client: u64, d: Seq<char>)
    requires
        demoted(s0, s1, client, d),
        !uses_client(s0, client),
    ensures
        s1 == s0,
{
}

/// Only a session that was lost to the network is taken up again without the user:
/// not a live one, and none that was ended by a logout, never had credentials, or
/// was refused.
pub proof fn law_what_is_retried(s: ConnState)
    ensures
        s is Connected ==> !retryable(s),
        s matches ConnState::Dormant(d) ==> (retryable(s) <==> d is Unreachable),
{
}

/// A network failure of the client that a session uses ends that session, with its
/// host and the cause as the reason; the reconnect loop takes it up from there.
pub proof fn law_network_failure_ends_the_session(
    before: ConnState,
    after: ConnState,
    client: u64,
    cause: Seq<char>,
)
    requires
        demoted(before, after, client, cause),
        before is Connected,
    ensures
        before->Connected_0.client == client ==> retryable(after) && crate::error::reason_detail(
            after->Dormant_0,
        ) == Some(before->Connected_0.host@ + ": "@ + cause),
        before->Connected_0.client != client ==> after == before,
{
}

} // verus!
