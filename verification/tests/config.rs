use gitlab_trackrd::config::{
    config_path, defaults, load, load_shared, next_backoff, normalize_backoff, normalize_search,
    reload, SearchPopulation, ServerConfig,
};
use gitlab_trackrd::error::Error;
use gitlab_trackrd::time::Duration;

#[test]
fn reconnect_defaults_are_short_and_enabled() {
    let c = defaults();
    assert!(c.reconnect.enabled);
    assert_eq!(c.reconnect.base_delay(), Duration::from_secs(2));
    assert_eq!(c.reconnect.max_delay(), Duration::from_secs(60));
}

#[test]
fn search_defaults() {
    let c = defaults();
    assert_eq!(c.search.population, SearchPopulation::Auto);
    assert_eq!(c.search.partial_interval(), Duration::from_secs(1800));
    assert_eq!(c.search.full_interval(), Duration::from_secs(604800));
    assert_eq!(c.search.live_deadline(), Duration::from_millis(3000));
    assert_eq!(c.search.live_limit, 100);
    assert_eq!(c.search.live_debounce(), Duration::from_secs(30));
    assert_eq!(c.search.tracked_retention(), Duration::from_hours(2160));
}

#[test]
fn search_population_parses_tracked() {
    assert_eq!(
        SearchPopulation::parse("tracked"),
        Some(SearchPopulation::TrackedProjects)
    );
}

#[test]
fn every_population_has_its_name_and_others_have_none() {
    assert_eq!(SearchPopulation::parse("auto"), Some(SearchPopulation::Auto));
    assert_eq!(SearchPopulation::parse("all"), Some(SearchPopulation::All));
    assert_eq!(SearchPopulation::parse("member"), Some(SearchPopulation::Member));
    assert_eq!(SearchPopulation::parse("Tracked"), None);
    assert_eq!(SearchPopulation::parse(""), None);
}

#[test]
fn next_backoff_doubles_saturating_and_never_exceeds_the_cap() {
    let s = Duration::from_secs;
    assert_eq!(next_backoff(s(1), s(60)), s(2));
    assert_eq!(next_backoff(s(31), s(60)), s(60));
    assert_eq!(next_backoff(s(30), s(60)), s(60));
    assert_eq!(next_backoff(s(90), s(60)), s(60));
    assert_eq!(next_backoff(s(0), s(60)), s(0));
    assert_eq!(
        next_backoff(Duration::from_millis(1700), s(60)),
        Duration::from_millis(3400)
    );
    // Doubling would overflow: saturate, don't panic.
    assert_eq!(next_backoff(s(u64::MAX), s(60)), s(60));
    assert_eq!(next_backoff(s(u64::MAX), s(u64::MAX)), s(u64::MAX));
}

#[test]
fn normalize_backoff_floors_the_base_and_orders_the_pair() {
    for (base_in, max_in, base_out, max_out) in [
        (0u64, 0u64, 1u64, 1u64),
        (0, 60, 1, 60),
        (10, 5, 10, 10),
        (2, 60, 2, 60),
        (u64::MAX, 0, u64::MAX, u64::MAX),
    ] {
        let (mut base, mut max) = (base_in, max_in);
        normalize_backoff(&mut base, &mut max);
        assert_eq!((base, max), (base_out, max_out));
    }
}

#[test]
fn normalize_search_floors_the_partial_and_orders_the_pair() {
    for (partial_in, full_in, partial_out, full_out) in [
        (0u64, 0u64, 60u64, 60u64),
        (59, 1000, 60, 1000),
        (1800, 10, 1800, 1800),
        (60, 60, 60, 60),
    ] {
        let mut s = defaults().search;
        s.partial_interval_secs = partial_in;
        s.full_interval_secs = full_in;
        normalize_search(&mut s);
        assert_eq!(
            (s.partial_interval_secs, s.full_interval_secs),
            (partial_out, full_out)
        );
    }
}

#[test]
fn normalize_search_clamps_the_live_and_tracked_knobs() {
    let mut s = defaults().search;
    s.live_deadline_ms = 0;
    s.live_limit = 0;
    s.live_debounce_secs = 0;
    s.tracked_retention_hours = 23;
    normalize_search(&mut s);
    assert_eq!(s.live_deadline_ms, 50);
    assert_eq!(s.live_limit, 1);
    assert_eq!(s.live_debounce_secs, 0, "0 is a valid off switch");
    assert_eq!(s.tracked_retention_hours, 24);

    let mut s = defaults().search;
    s.live_limit = 501;
    normalize_search(&mut s);
    assert_eq!(s.live_limit, 500);

    let mut s = defaults().search;
    s.live_deadline_ms = 50;
    s.live_limit = 500;
    s.tracked_retention_hours = 24;
    let before = s;
    normalize_search(&mut s);
    assert_eq!(s, before, "in-range values are left untouched");
}

#[test]
fn socket_falls_back_to_the_runtime_directory() {
    let server = ServerConfig { socket: None };
    assert_eq!(
        server.resolved_socket(Some("/run/user/7".to_string())),
        "/run/user/7/gitlab-trackrd.socket"
    );
    assert_eq!(
        server.resolved_socket(Some("/run/user/7/".to_string())),
        "/run/user/7/gitlab-trackrd.socket"
    );
    assert_eq!(server.resolved_socket(None), "/tmp/gitlab-trackrd.socket");
    let server = ServerConfig { socket: Some("/x.sock".to_string()) };
    assert_eq!(server.resolved_socket(Some("/run/user/7".to_string())), "/x.sock");
}

#[test]
fn config_lives_in_the_configuration_directory() {
    assert_eq!(
        config_path(Some("/home/u/.config".to_string())),
        "/home/u/.config/gitlab-trackrd/config.toml"
    );
    assert_eq!(config_path(None), "./gitlab-trackrd/config.toml");
}

#[test]
fn load_normalizes_and_a_failed_reload_keeps_the_last_good() {
    let mut c = defaults();
    c.reconnect.base_delay_secs = 0;
    c.queue.max_delay_secs = 0;
    c.search.live_limit = 9999;
    let c = load(Ok(c)).unwrap();
    assert_eq!(c.reconnect.base_delay_secs, 1);
    assert_eq!(c.queue.max_delay_secs, c.queue.base_delay_secs);
    assert_eq!(c.search.live_limit, 500);

    let mut shared = load_shared(Ok(c)).unwrap();
    let mut next = defaults();
    next.history.retention_hours = 7;
    assert!(reload(&mut shared, Ok(next)).is_ok());
    assert_eq!(shared.current.history.retention_hours, 7);
    let e = reload(&mut shared, Err(Error::Io("bad toml".to_string())));
    assert!(matches!(e, Err(Error::Io(m)) if m == "bad toml"));
    assert_eq!(shared.current.history.retention_hours, 7);
}

#[test]
fn spans_in_hours_that_do_not_fit_are_told_apart() {
    let mut c = defaults();
    assert!(c.check_spans());
    c.history.retention_hours = u64::MAX / 3600;
    assert!(c.check_spans());
    c.history.retention_hours = u64::MAX / 3600 + 1;
    assert!(!c.check_spans());
}
