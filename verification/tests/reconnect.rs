use gitlab_trackrd::config::{defaults, ReconnectConfig};
use gitlab_trackrd::error::{DormancyReason, Error};
use gitlab_trackrd::handlers::{ConnState, Session};
use gitlab_trackrd::reconnect::{
    commit_connected, commit_dormant, commit_unreachable, connect_once, engage_once,
    engagement_wanted, resolve_credentials, slot_is_retryable, start, started, Attempt, Engaged,
    LoopStep, ReconnectLoop, Startup, Supervisor, Wait,
};
use gitlab_trackrd::secrets::Credentials;
use gitlab_trackrd::time::Duration;

fn unreachable_slot() -> ConnState {
    ConnState::Dormant(DormancyReason::Unreachable {
        host: "gitlab.example.com".into(),
        detail: "connection refused".into(),
    })
}

/// Defaults with the back-off zeroed.
fn instant_config() -> ReconnectConfig {
    let mut cfg = defaults().reconnect;
    cfg.base_delay_secs = 0;
    cfg.max_delay_secs = 0;
    cfg
}

fn session_with(client: u64) -> Session {
    Session {
        client,
        host: "gitlab.example.com".into(),
        user_id: 42,
    }
}

fn token_rejected() -> DormancyReason {
    DormancyReason::TokenRejected {
        host: "gitlab.example.com".into(),
        detail: "401".into(),
    }
}

/// Runs one engagement against `connect`; whether it established a session.
fn reconnect_loop(
    session: &mut ConnState,
    cfg: &ReconnectConfig,
    mut connect: impl FnMut() -> Attempt,
) -> bool {
    let mut run = ReconnectLoop::new();
    while run.goes_on(session, cfg) {
        match run.attempted(session, connect(), cfg) {
            LoopStep::Stop(committed) => return committed,
            LoopStep::Sleep(_) => {}
        }
    }
    false
}

#[test]
fn stops_without_connecting_when_not_retryable() {
    let mut session = ConnState::Dormant(token_rejected());
    let committed = reconnect_loop(&mut session, &instant_config(), || {
        panic!("connect must not run when the slot is not auto-retryable")
    });
    assert!(!committed);
}

#[test]
fn permanent_error_commits_token_rejected_and_stops() {
    let mut session = unreachable_slot();
    let committed = reconnect_loop(&mut session, &instant_config(), || {
        Attempt::Permanent(token_rejected())
    });
    assert!(!committed);
    assert!(matches!(
        &session,
        ConnState::Dormant(DormancyReason::TokenRejected { .. })
    ));
}

#[test]
fn missing_credentials_commits_no_credentials_and_stops() {
    let mut session = unreachable_slot();
    let creds = resolve_credentials(Ok(None), &mut session);
    assert!(creds.is_none());
    assert!(matches!(
        &session,
        ConnState::Dormant(DormancyReason::NoCredentials)
    ));
}

#[test]
fn keychain_error_commits_keychain_error_and_stops() {
    let mut session = unreachable_slot();
    let creds = resolve_credentials(Err(Error::Secrets("keyring locked".into())), &mut session);
    assert!(creds.is_none());
    assert!(matches!(
        &session,
        ConnState::Dormant(DormancyReason::KeychainError(_))
    ));
}

#[test]
fn resolve_credentials_passes_through_and_leaves_slot_when_present() {
    let mut session = unreachable_slot();
    let creds = resolve_credentials(
        Ok(Some(Credentials {
            host: "gitlab.example.com".into(),
            token: "t".into(),
        })),
        &mut session,
    );
    assert!(creds.is_some());
    assert!(matches!(
        &session,
        ConnState::Dormant(r) if r.is_auto_retryable()
    ));
}

#[test]
fn retries_transient_then_reconnects() {
    let mut session = unreachable_slot();
    let mut calls = 0;
    let committed = reconnect_loop(&mut session, &instant_config(), || {
        calls += 1;
        if calls < 3 {
            Attempt::Transient("connection refused".into())
        } else {
            Attempt::Connected(session_with(1))
        }
    });
    assert!(committed);
    assert_eq!(calls, 3, "two transient failures then success");
    assert!(matches!(&session, ConnState::Connected(_)));
}

#[test]
fn disabled_config_stops_without_connecting() {
    let mut session = unreachable_slot();
    let mut cfg = defaults().reconnect;
    cfg.enabled = false;
    let committed = reconnect_loop(&mut session, &cfg, || {
        panic!("connect must not run when auto-reconnect is disabled")
    });
    assert!(!committed);
    assert!(matches!(
        &session,
        ConnState::Dormant(r) if r.is_auto_retryable()
    ));
    assert!(!engagement_wanted(&session, &cfg));
    assert!(engagement_wanted(&session, &instant_config()));
}

#[test]
fn commit_unreachable_demotes_connected_and_signals() {
    let mut session = ConnState::Connected(session_with(1));
    let signal = commit_unreachable(&mut session, 1, "connection refused".into());
    let ConnState::Dormant(DormancyReason::Unreachable { host, detail }) = &session else {
        panic!("expected Dormant(Unreachable)");
    };
    assert_eq!(
        host, "gitlab.example.com",
        "captures the live session's host"
    );
    assert_eq!(detail, "connection refused");
    assert!(signal, "commit_unreachable notifies the supervisor");
}

#[test]
fn commit_unreachable_noop_when_not_connected() {
    for reason in [
        DormancyReason::NoCredentials,
        DormancyReason::LoggedOut,
        DormancyReason::TokenRejected {
            host: "h".into(),
            detail: "401".into(),
        },
        DormancyReason::Unreachable {
            host: "h".into(),
            detail: "first".into(),
        },
    ] {
        let mut session = ConnState::Dormant(reason);
        let signal = commit_unreachable(&mut session, 1, "second".into());
        match &session {
            ConnState::Dormant(DormancyReason::Unreachable { detail, .. }) => {
                assert_eq!(detail, "first", "existing Unreachable detail is retained");
            }
            ConnState::Dormant(_) => {}
            ConnState::Connected(_) => panic!("a dormant slot must not become Connected"),
        }
        assert!(!signal, "no wakeup for a non-Connected slot");
    }
}

#[test]
fn commit_unreachable_noop_when_client_superseded() {
    let mut session = ConnState::Connected(session_with(2));
    let signal = commit_unreachable(&mut session, 1, "stale error".into());
    assert!(
        matches!(&session, ConnState::Connected(s) if s.client == 2),
        "a stale client's error must not demote the newer session"
    );
    assert!(!signal, "no wakeup when the failing client was superseded");
}

#[test]
fn supervisor_engages_at_boot_then_on_each_signal() {
    let cfg = defaults().reconnect;
    let mut s = Supervisor::new();
    // After each stable engagement it parks until a signal or the periodic tick.
    for _ in 0..3 {
        assert!(matches!(
            s.supervise(Engaged::Stable, &cfg),
            Wait::Park(d) if d == Duration::from_secs(60)
        ));
    }
}

#[test]
fn supervise_backs_off_on_flapping() {
    let mut cfg = defaults().reconnect;
    cfg.base_delay_secs = 0;
    cfg.max_delay_secs = 3600;
    let mut s = Supervisor::new();
    // The first two engagements flap, then it stabilizes: no signal is needed
    // until then.
    assert!(matches!(s.supervise(Engaged::Flapping, &cfg), Wait::Sleep(d) if d.is_zero()));
    assert!(matches!(s.supervise(Engaged::Flapping, &cfg), Wait::Sleep(d) if d.is_zero()));
    assert!(
        matches!(s.supervise(Engaged::Stable, &cfg), Wait::Park(_)),
        "supervisor parks once it stops flapping"
    );
}

#[test]
fn supervisor_re_engages_on_periodic_tick() {
    let mut cfg = defaults().reconnect;
    cfg.max_delay_secs = 1;
    let mut s = Supervisor::new();
    assert!(matches!(
        s.supervise(Engaged::Stable, &cfg),
        Wait::Park(d) if d == Duration::from_secs(1)
    ));
}

#[test]
fn flapping_doubles_and_a_stable_engagement_resets() {
    let cfg = defaults().reconnect;
    let mut s = Supervisor::new();
    let mut sleeps = vec![];
    for _ in 0..7 {
        match s.supervise(Engaged::Flapping, &cfg) {
            Wait::Sleep(d) => sleeps.push(d.as_secs()),
            Wait::Park(_) => panic!("flapping never parks"),
        }
    }
    assert_eq!(sleeps, vec![2, 4, 8, 16, 32, 60, 60]);
    s.supervise(Engaged::Stable, &cfg);
    assert!(matches!(
        s.supervise(Engaged::Flapping, &cfg),
        Wait::Sleep(d) if d == Duration::from_secs(2)
    ));
}

#[test]
fn attempts_back_off_and_leave_the_slot_to_others() {
    let cfg = defaults().reconnect;
    let mut slot = unreachable_slot();
    let mut run = ReconnectLoop::new();
    let mut sleeps = vec![];
    for _ in 0..3 {
        match run.attempted(&mut slot, Attempt::Transient("x".into()), &cfg) {
            LoopStep::Sleep(d) => sleeps.push(d.as_secs()),
            LoopStep::Stop(_) => panic!("a network failure is retried"),
        }
    }
    assert_eq!(sleeps, vec![2, 4, 8]);
    // A logout came first: neither a session nor a reason is recorded.
    let mut slot = ConnState::Dormant(DormancyReason::LoggedOut);
    assert!(!run.goes_on(&slot, &cfg));
    assert!(matches!(
        run.attempted(&mut slot, Attempt::Connected(session_with(3)), &cfg),
        LoopStep::Stop(false)
    ));
    assert!(matches!(&slot, ConnState::Dormant(DormancyReason::LoggedOut)));
    assert!(!commit_connected(&mut slot, session_with(4)));
    commit_dormant(&mut slot, token_rejected());
    assert!(matches!(&slot, ConnState::Dormant(DormancyReason::LoggedOut)));
}

#[test]
fn an_attempt_is_classified_by_its_error() {
    assert!(matches!(
        connect_once("h", Ok(session_with(1))),
        Attempt::Connected(s) if s.client == 1
    ));
    assert!(matches!(
        connect_once("h", Err(Error::Transient("refused".into()))),
        Attempt::Transient(d) if d == "refused"
    ));
    assert!(matches!(
        connect_once("h", Err(Error::Gitlab("401".into()))),
        Attempt::Permanent(DormancyReason::TokenRejected { host, detail })
            if host == "h" && detail == "GitLab error: 401"
    ));
}

#[test]
fn an_engagement_that_lost_its_session_again_is_flapping() {
    assert_eq!(engage_once(true, &unreachable_slot()), Engaged::Flapping);
    assert_eq!(
        engage_once(true, &ConnState::Connected(session_with(1))),
        Engaged::Stable
    );
    assert_eq!(engage_once(false, &unreachable_slot()), Engaged::Stable);
}

#[test]
fn no_failure_keeps_the_daemon_from_starting() {
    assert!(matches!(
        start(Ok(None)),
        Startup::Dormant(ConnState::Dormant(DormancyReason::NoCredentials))
    ));
    assert!(matches!(
        start(Err(Error::Secrets("locked".into()))),
        Startup::Dormant(ConnState::Dormant(DormancyReason::KeychainError(d)))
            if d == "secret store: locked"
    ));
    let c = Credentials { host: "h".into(), token: "t".into() };
    assert!(matches!(start(Ok(Some(c))), Startup::Connect(c) if c.token == "t"));
    assert!(matches!(
        started("h", Ok(session_with(9))),
        ConnState::Connected(s) if s.client == 9
    ));
    let down = started("h", Err(Error::Transient("refused".into())));
    assert!(slot_is_retryable(&down));
    let rejected = started("h", Err(Error::Gitlab("401".into())));
    assert!(!slot_is_retryable(&rejected));
}
