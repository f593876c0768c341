use gitlab_trackrd::config::{defaults, load_shared};
use gitlab_trackrd::error::Error;
use gitlab_trackrd::reload::{apply, concerns, debounce, Reloaded};
use gitlab_trackrd::server::{is_socket_activated, make_listener, IdleTimer, Listener};
use gitlab_trackrd::time::Duration;

#[test]
fn only_one_passed_descriptor_is_socket_activation() {
    let var = |s: &str| Some(s.to_string());
    assert!(is_socket_activated(&var("1")));
    assert!(!is_socket_activated(&var("2")));
    assert!(!is_socket_activated(&var("")));
    assert!(!is_socket_activated(&None));
    assert!(matches!(make_listener(&var("1"), "/p".to_string()), Listener::Inherited(3)));
    assert!(matches!(make_listener(&None, "/p".to_string()), Listener::Bound(p) if p == "/p"));
}

#[test]
fn the_idle_window_starts_over_with_the_last_connection() {
    let s = Duration::from_secs;
    let mut t = IdleTimer::new(s(10), s(100));
    assert!(!t.expired(s(109)));
    assert!(t.expired(s(110)));
    t.accepted(s(105));
    t.accepted(s(106));
    assert!(!t.expired(s(1000)), "requests in flight");
    t.finished(s(1000));
    assert!(!t.expired(s(2000)), "one is still in flight");
    t.finished(s(2000));
    assert!(!t.expired(s(2009)), "a full window after the last");
    assert_eq!(t.remaining(s(2004)), s(6));
    assert!(t.expired(s(2010)));
    assert!(t.remaining(s(2011)).is_zero());
}

#[test]
fn reload_asks_for_a_restart_only_when_the_socket_changed() {
    let mut shared = load_shared(Ok(defaults())).unwrap();
    let run = Some("/run/user/7".to_string());
    assert!(matches!(apply(&mut shared, Ok(defaults()), &run), Reloaded::Applied));

    let mut same = defaults();
    same.server.socket = Some("/run/user/7/gitlab-trackrd.socket".to_string());
    same.history.retention_hours = 5;
    assert!(matches!(apply(&mut shared, Ok(same), &run), Reloaded::Applied));
    assert_eq!(shared.current.history.retention_hours, 5);

    let mut moved = defaults();
    moved.server.socket = Some("/x".to_string());
    match apply(&mut shared, Ok(moved), &run) {
        Reloaded::RestartForSocket { old_socket, new_socket } => {
            assert_eq!(old_socket, "/run/user/7/gitlab-trackrd.socket");
            assert_eq!(new_socket, "/x");
        }
        other => panic!("{other:?}"),
    }

    let kept = apply(&mut shared, Err(Error::Io("bad".to_string())), &run);
    assert!(matches!(kept, Reloaded::Kept(Error::Io(m)) if m == "bad"));
    assert_eq!(shared.current.server.socket.as_deref(), Some("/x"));
}

#[test]
fn only_events_about_the_file_are_reloads() {
    let paths = vec!["/c/other".to_string(), "/c/config.toml".to_string()];
    assert!(concerns(&paths, "/c/config.toml"));
    assert!(!concerns(&paths, "/c/config.tom"));
    assert!(!concerns(&vec![], "/c/config.toml"));
    assert_eq!(debounce(), Duration::from_millis(400));
}
