//! The accept loop's decisions: where the socket comes from, and when a daemon
//! that nobody uses exits.

use vstd::prelude::*;
use vstd::string::*;

use crate::text::str_eq;
use crate::time::Duration;

verus! {

/// Whether the value of `LISTEN_FDS` says that the socket was passed in.
pub open spec fn activated(listen_fds: Option<String>) -> bool {
    match listen_fds {
        Some(v) => v@ == "1"@,
        None => false,
    }
}

/// Whether the process was socket-activated, going by the value of `LISTEN_FDS`.
pub fn is_socket_activated(listen_fds: &Option<String>) -> (r: bool)
    ensures
        r == activated(*listen_fds),
{
    match listen_fds {
        Some(v) => str_eq(v.as_str(), "1"),
        None => false,
    }
}

/// Where the listening socket comes from.
#[derive(Debug)]
pub enum Listener {
    /// From this descriptor, which the process was started with.
    Inherited(i32),
    /// It is bound at this path, and removed on the way out.
    Bound(String),
}

/// Where the listening socket comes from.
pub fn make_listener(listen_fds: &Option<String>, socket_path: String) -> (r: Listener)
    ensures
        r == if activated(*listen_fds) {
            Listener::Inherited(3)
        } else {
            Listener::Bound(socket_path)
        },
{
    if is_socket_activated(listen_fds) {
        Listener::Inherited(3)
    } else {
        Listener::Bound(socket_path)
    }
}

/// Counts open connections and since when there have been none.
#[derive(Clone, Copy, Debug)]
pub struct IdleTimer {
    timeout: Duration,
    active: usize,
    since: Duration,
}

impl IdleTimer {
    /// How long the daemon waits for the next connection.
    pub closed spec fn timeout(self) -> nat {
        self.timeout@
    }

    /// How many connections are open.
    pub closed spec fn active(self) -> nat {
        self.active as nat
    }

    /// When the idle window last started over.
    pub closed spec fn since(self) -> nat {
        self.since@
    }

    /// A timer whose window starts at `now`, with no connection open.
    pub fn new(timeout: Duration, now: Duration) -> (r: IdleTimer)
        ensures
            r.timeout() == timeout@,
            r.active() == 0,
            r.since() == now@,
    {
        IdleTimer { timeout, active: 0, since: now }
    }

    /// A connection was accepted: the window starts over.
    pub fn accepted(&mut self, now: Duration)
        requires
            old(self).active() < usize::MAX,
        ensures
            final(self).timeout() == old(self).timeout(),
            final(self).active() == old(self).active() + 1,
            final(self).since() == now@,
    {
        self.active = self.active + 1;
        self.since = now;
    }

    /// A connection ended. If it was the last one the window starts over.
    pub fn finished(&mut self, now: Duration)
        requires
            old(self).active() > 0,
        ensures
            final(self).timeout() == old(self).timeout(),
            final(self).active() == old(self).active() - 1,
            final(self).since() == if old(self).active() == 1 {
                now@
            } else {
                old(self).since()
            },
    {
        self.active = self.active - 1;
        if self.active == 0 {
            self.since = now;
        }
    }

    /// Whether to exit at `now`: no connection is open, and none was for a whole
    /// window.
    pub fn expired(&self, now: Duration) -> (r: bool)
        ensures
            r == self.expires(now@),
    {
        self.active == 0 && !now.saturating_sub(self.since).is_below(&self.timeout)
    }

    /// Whether no connection is open, and none was for a whole window.
    pub open spec fn expires(self, now: nat) -> bool {
        let waited = if now >= self.since() {
            now - self.since()
        } else {
            0
        };
        self.active() == 0 && waited >= self.timeout()
    }

    /// How long is left of the window at `now`.
    pub fn remaining(&self, now: Duration) -> (r: Duration)
        ensures
            r@ == {
                let waited = if now@ >= self.since() {
                    now@ - self.since()
                } else {
                    0
                };
                if waited >= self.timeout() {
                    0
                } else {
                    (self.timeout() - waited) as nat
                }
            },
    {
        self.timeout.saturating_sub(now.saturating_sub(self.since))
    }
}

/// While a request is in flight the daemon does not exit, however long the
/// request takes.
pub proof fn law_no_exit_in_flight(t: IdleTimer, now: nat)
    requires
        t.active() > 0,
    ensures
        !t.expires(now),
{
}

/// After the last request completes the daemon serves for a whole window more.
pub proof fn law_full_window_after_last(
    before: IdleTimer,
    after: IdleTimer,
    ended: nat,
    now: nat,
)
    requires
        before.active() == 1,
        after.active() == 0,
        after.since() == ended,
        after.timeout() == before.timeout(),
        ended <= now < ended + before.timeout(),
    ensures
        !after.expires(now),
        after.expires(ended + before.timeout()),
{
}

/// The socket is taken over exactly where one descriptor was passed in.
pub proof fn law_socket_activation(v: String)
    ensures
        activated(Some(v)) <==> v@ == seq!['1'],
        !activated(None),
{
    reveal_strlit("1");
    assert("1"@ =~= seq!['1']);
}

/// A daemon without connections exits once a whole window has passed, and not a
/// moment before.
pub proof fn law_exit_after_a_window(t: IdleTimer, now: nat)
    requires
        t.active() == 0,
        now >= t.since(),
    ensures
        t.expires(now) <==> now >= t.since() + t.timeout(),
{
}

} // verus!
