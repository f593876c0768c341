//! Daemon configuration: the sections, their defaults and how hand-edited
//! values are brought into range.

use vstd::prelude::*;
use vstd::string::*;

use crate::error::Error;
use crate::text::joined;
use crate::time::{hours, seconds, Duration};

verus! {

/// The configuration, one field per section.
#[derive(Debug)]
pub struct Config {
    /// Varlink server and listening socket.
    pub server: ServerConfig,
    /// Background refresh tiers.
    pub refresh: RefreshConfig,
    /// Timelog history retention.
    pub history: HistoryConfig,
    /// Retry-queue backoff and lifetime.
    pub queue: QueueConfig,
    /// Background reconnect backoff.
    pub reconnect: ReconnectConfig,
    /// Search-cache population and sync cadence.
    pub search: SearchConfig,
}

#[derive(Debug)]
pub struct ServerConfig {
    /// Unix socket the daemon listens on. Ignored under socket activation.
    pub socket: Option<String>,
}

/// The path `dir` followed by the relative path `name`.
pub open spec fn path_join(dir: Seq<char>, name: Seq<char>) -> Seq<char> {
    if dir.len() == 0 || dir.last() == '/' {
        dir + name
    } else {
        dir + "/"@ + name
    }
}

fn join_path(dir: &str, name: &str) -> (r: String)
    ensures
        r@ == path_join(dir@, name@),
{
    let n: usize = dir.unicode_len();
    if n == 0 || dir.get_char(n - 1) == '/' {
        joined(dir, name)
    } else {
        let mut r = joined(dir, "/");
        r.append(name);
        r
    }
}

/// Where the daemon listens: the configured path, or one in the runtime
/// directory.
pub open spec fn socket_text(server: ServerConfig, runtime_dir: Option<String>) -> Seq<char> {
    match (server.socket, runtime_dir) {
        (Some(s), _) => s@,
        (None, Some(d)) => path_join(d@, "gitlab-trackrd.socket"@),
        (None, None) => "/tmp/gitlab-trackrd.socket"@,
    }
}

impl ServerConfig {
    /// The configured socket; where there is none, `gitlab-trackrd.socket` in
    /// the user's runtime directory, or in `/tmp` without such a directory.
    pub fn resolved_socket(&self, runtime_dir: Option<String>) -> (r: String)
        ensures
            r@ == socket_text(*self, runtime_dir),
    {
        match &self.socket {
            Some(s) => s.clone(),
            None => match runtime_dir {
                Some(d) => join_path(d.as_str(), "gitlab-trackrd.socket"),
                None => "/tmp/gitlab-trackrd.socket".to_owned(),
            },
        }
    }
}

/// Background refresh tiers. Each owns its cadence and how far back its timelog
/// pull reaches.
#[derive(Debug)]
pub struct RefreshConfig {
    /// Assigned issues, boards, and recent timelogs.
    pub quick: QuickRefreshConfig,
    /// The bulk of the timelog history.
    pub slow: SlowRefreshConfig,
}

#[derive(Clone, Copy, PartialEq, Eq, Structural, Debug)]
pub struct QuickRefreshConfig {
    /// Seconds between quick refreshes.
    pub interval_secs: u64,
    /// How far back, in hours, the quick timelog pull reaches.
    pub window_hours: u64,
}

impl QuickRefreshConfig {
    /// Cadence between refreshes.
    pub fn interval(&self) -> (r: Duration)
        ensures
            r@ == seconds(self.interval_secs as nat),
    {
        Duration::from_secs(self.interval_secs)
    }

    /// Timelog look-back span.
    pub fn window(&self) -> (r: Duration)
        requires
            self.window_hours * 3600 <= u64::MAX,
        ensures
            r@ == hours(self.window_hours as nat),
    {
        Duration::from_hours(self.window_hours)
    }
}

#[derive(Clone, Copy, PartialEq, Eq, Structural, Debug)]
pub struct SlowRefreshConfig {
    /// Seconds between slow refreshes of the bulk history.
    pub interval_secs: u64,
    /// How far back, in hours, the slow timelog pull reaches.
    pub window_hours: u64,
}

impl SlowRefreshConfig {
    /// Cadence between refreshes.
    pub fn interval(&self) -> (r: Duration)
        ensures
            r@ == seconds(self.interval_secs as nat),
    {
        Duration::from_secs(self.interval_secs)
    }

    /// Timelog look-back span.
    pub fn window(&self) -> (r: Duration)
        requires
            self.window_hours * 3600 <= u64::MAX,
        ensures
            r@ == hours(self.window_hours as nat),
    {
        Duration::from_hours(self.window_hours)
    }
}

#[derive(Clone, Copy, PartialEq, Eq, Structural, Debug)]
pub struct HistoryConfig {
    /// Total timelog history to keep, in hours.
    pub retention_hours: u64,
}

impl HistoryConfig {
    /// Retention horizon: the oldest timelog kept.
    pub fn retention(&self) -> (r: Duration)
        requires
            self.retention_hours * 3600 <= u64::MAX,
        ensures
            r@ == hours(self.retention_hours as nat),
    {
        Duration::from_hours(self.retention_hours)
    }
}

#[derive(Clone, Copy, PartialEq, Eq, Structural, Debug)]
pub struct QueueConfig {
    /// Exponential backoff: initial delay, in seconds.
    pub base_delay_secs: u64,
    /// Exponential backoff: maximum delay, in seconds.
    pub max_delay_secs: u64,
    /// How long, in seconds, a queued task keeps retrying before it is
    /// dead-lettered.
    pub max_lifetime_secs: u64,
    /// How long, in seconds, the worker waits while there is no session.
    pub session_wait_secs: u64,
}

impl QueueConfig {
    /// Initial exponential-backoff delay.
    pub fn base_delay(&self) -> (r: Duration)
        ensures
            r@ == seconds(self.base_delay_secs as nat),
    {
        Duration::from_secs(self.base_delay_secs)
    }

    /// Exponential-backoff cap.
    pub fn max_delay(&self) -> (r: Duration)
        ensures
            r@ == seconds(self.max_delay_secs as nat),
    {
        Duration::from_secs(self.max_delay_secs)
    }

    /// How long a task keeps retrying before it is dead-lettered.
    pub fn max_lifetime(&self) -> (r: Duration)
        ensures
            r@ == seconds(self.max_lifetime_secs as nat),
    {
        Duration::from_secs(self.max_lifetime_secs)
    }

    /// How long the worker waits without a session before it looks again.
    pub fn session_wait(&self) -> (r: Duration)
        ensures
            r@ == seconds(self.session_wait_secs as nat),
    {
        Duration::from_secs(self.session_wait_secs)
    }
}

#[derive(Clone, Copy, PartialEq, Eq, Structural, Debug)]
pub struct ReconnectConfig {
    /// Whether the daemon reconnects on its own after GitLab was unreachable.
    pub enabled: bool,
    /// Exponential backoff: initial delay, in seconds.
    pub base_delay_secs: u64,
    /// Exponential backoff: maximum delay between attempts, in seconds.
    pub max_delay_secs: u64,
}

impl ReconnectConfig {
    /// Initial exponential-backoff delay.
    pub fn base_delay(&self) -> (r: Duration)
        ensures
            r@ == seconds(self.base_delay_secs as nat),
    {
        Duration::from_secs(self.base_delay_secs)
    }

    /// Exponential-backoff cap.
    pub fn max_delay(&self) -> (r: Duration)
        ensures
            r@ == seconds(self.max_delay_secs as nat),
    {
        Duration::from_secs(self.max_delay_secs)
    }
}

/// Which issues and merge requests the search cache is populated with.
#[derive(Clone, Copy, PartialEq, Eq, Structural, Debug)]
pub enum SearchPopulation {
    /// What the daemon thinks is best; resolves to `TrackedProjects`.
    Auto,
    /// Everything the token can see.
    All,
    /// Only projects the user is a member of.
    Member,
    /// Projects with recent evidence of relevance, and what live lookups find.
    TrackedProjects,
}

/// The population that a name in a configuration file stands for.
pub open spec fn population_named(name: Seq<char>) -> Option<SearchPopulation> {
    if name == "auto"@ {
        Some(SearchPopulation::Auto)
    } else if name == "all"@ {
        Some(SearchPopulation::All)
    } else if name == "member"@ {
        Some(SearchPopulation::Member)
    } else if name == "tracked"@ {
        Some(SearchPopulation::TrackedProjects)
    } else {
        None
    }
}

impl SearchPopulation {
    /// The population that `name` stands for, or `None` where it stands for none.
    pub fn parse(name: &str) -> (r: Option<SearchPopulation>)
        ensures
            r == population_named(name@),
    {
        if crate::text::str_eq(name, "auto") {
            Some(SearchPopulation::Auto)
        } else if crate::text::str_eq(name, "all") {
            Some(SearchPopulation::All)
        } else if crate::text::str_eq(name, "member") {
            Some(SearchPopulation::Member)
        } else if crate::text::str_eq(name, "tracked") {
            Some(SearchPopulation::TrackedProjects)
        } else {
            None
        }
    }
}

#[derive(Clone, Copy, PartialEq, Eq, Structural, Debug)]
pub struct SearchConfig {
    /// What the search cache holds for issues and merge requests.
    pub population: SearchPopulation,
    /// Minimum seconds between incremental syncs.
    pub partial_interval_secs: u64,
    /// Seconds between full resyncs.
    pub full_interval_secs: u64,
    /// Time budget in milliseconds for the live lookup of one search.
    pub live_deadline_ms: u64,
    /// Per-kind cap on results of a live lookup.
    pub live_limit: u64,
    /// Seconds during which an identical search skips the live lookup.
    pub live_debounce_secs: u64,
    /// Hours a project stays tracked after the last evidence of relevance.
    pub tracked_retention_hours: u64,
}

impl SearchConfig {
    /// Minimum gap between incremental syncs.
    pub fn partial_interval(&self) -> (r: Duration)
        ensures
            r@ == seconds(self.partial_interval_secs as nat),
    {
        Duration::from_secs(self.partial_interval_secs)
    }

    /// Gap between full resyncs.
    pub fn full_interval(&self) -> (r: Duration)
        ensures
            r@ == seconds(self.full_interval_secs as nat),
    {
        Duration::from_secs(self.full_interval_secs)
    }

    /// Time budget for the live lookup of one search.
    pub fn live_deadline(&self) -> (r: Duration)
        ensures
            r@ == self.live_deadline_ms * 1_000_000,
    {
        Duration::from_millis(self.live_deadline_ms)
    }

    /// Window during which an identical search skips the live lookup.
    pub fn live_debounce(&self) -> (r: Duration)
        ensures
            r@ == seconds(self.live_debounce_secs as nat),
    {
        Duration::from_secs(self.live_debounce_secs)
    }

    /// How long a project stays tracked without evidence.
    pub fn tracked_retention(&self) -> (r: Duration)
        requires
            self.tracked_retention_hours * 3600 <= u64::MAX,
        ensures
            r@ == hours(self.tracked_retention_hours as nat),
    {
        Duration::from_hours(self.tracked_retention_hours)
    }
}

impl Config {
    /// Whether every span that the configuration gives in hours is representable.
    pub open spec fn spans_fit(&self) -> bool {
        &&& self.refresh.quick.window_hours * 3600 <= u64::MAX
        &&& self.refresh.slow.window_hours * 3600 <= u64::MAX
        &&& self.history.retention_hours * 3600 <= u64::MAX
        &&& self.search.tracked_retention_hours * 3600 <= u64::MAX
    }

    /// Whether every span that the configuration gives in hours is representable.
    pub fn check_spans(&self) -> (r: bool)
        ensures
            r == self.spans_fit(),
    {
        let max: u64 = u64::MAX / 3600;
        self.refresh.quick.window_hours <= max && self.refresh.slow.window_hours <= max
            && self.history.retention_hours <= max && self.search.tracked_retention_hours <= max
    }
}

/// `gitlab-trackrd/config.toml` in the user's configuration directory, or in
/// the working directory without one.
pub fn config_path(config_dir: Option<String>) -> (r: String)
    ensures
        r@ == match config_dir {
            Some(d) => path_join(d@, "gitlab-trackrd/config.toml"@),
            None => path_join("."@, "gitlab-trackrd/config.toml"@),
        },
{
    match config_dir {
        Some(d) => join_path(d.as_str(), "gitlab-trackrd/config.toml"),
        None => join_path(".", "gitlab-trackrd/config.toml"),
    }
}

/// Twice `current`, capped at `max`: the exponential-backoff step shared by the
/// retry queue and the reconnect loop.
pub fn next_backoff(current: Duration, max: Duration) -> (r: Duration)
    ensures
        r@ == backoff_step(current@, max@),
{
    current.double_up_to(max)
}

/// The exponential-backoff step: twice `current`, capped at `max`.
pub open spec fn backoff_step(current: nat, max: nat) -> nat {
    if 2 * current <= max {
        2 * current
    } else {
        max
    }
}

/// A backoff pair with a base of at least one second and a cap of at least the
/// base.
pub open spec fn backoff_in_range(base_secs: u64, max_secs: u64) -> (u64, u64) {
    let base = if base_secs == 0 {
        1
    } else {
        base_secs
    };
    (
        base,
        if max_secs < base {
            base
        } else {
            max_secs
        },
    )
}

/// Brings a backoff pair into range: a base of zero would spin, a cap below the
/// base would collapse the schedule.
pub fn normalize_backoff(base_secs: &mut u64, max_secs: &mut u64)
    ensures
        (*final(base_secs), *final(max_secs)) == backoff_in_range(*old(base_secs), *old(max_secs)),
{
    if *base_secs == 0 {
        *base_secs = 1;
    }
    if *max_secs < *base_secs {
        *max_secs = *base_secs;
    }
}

pub open spec fn at_least(x: u64, floor: u64) -> u64 {
    if x < floor {
        floor
    } else {
        x
    }
}

/// The search section with its cadences, budget, cap and retention in range.
pub open spec fn search_in_range(s: SearchConfig) -> SearchConfig {
    SearchConfig {
        population: s.population,
        partial_interval_secs: at_least(s.partial_interval_secs, 60),
        full_interval_secs: at_least(s.full_interval_secs, at_least(s.partial_interval_secs, 60)),
        live_deadline_ms: at_least(s.live_deadline_ms, 50),
        live_limit: if s.live_limit > 500 {
            500
        } else {
            at_least(s.live_limit, 1)
        },
        live_debounce_secs: s.live_debounce_secs,
        tracked_retention_hours: at_least(s.tracked_retention_hours, 24),
    }
}

/// Brings the search section into range.
pub fn normalize_search(search: &mut SearchConfig)
    ensures
        *final(search) == search_in_range(*old(search)),
{
    if search.partial_interval_secs < 60 {
        search.partial_interval_secs = 60;
    }
    if search.full_interval_secs < search.partial_interval_secs {
        search.full_interval_secs = search.partial_interval_secs;
    }
    if search.live_deadline_ms < 50 {
        search.live_deadline_ms = 50;
    }
    if search.live_limit == 0 {
        search.live_limit = 1;
    }
    if search.live_limit > 500 {
        search.live_limit = 500;
    }
    if search.tracked_retention_hours < 24 {
        search.tracked_retention_hours = 24;
    }
}

/// The configuration with both backoff pairs and the search section in range,
/// everything else as it is.
pub open spec fn in_range(c: Config) -> Config {
    let r = backoff_in_range(c.reconnect.base_delay_secs, c.reconnect.max_delay_secs);
    let q = backoff_in_range(c.queue.base_delay_secs, c.queue.max_delay_secs);
    Config {
        reconnect: ReconnectConfig {
            enabled: c.reconnect.enabled,
            base_delay_secs: r.0,
            max_delay_secs: r.1,
        },
        queue: QueueConfig {
            base_delay_secs: q.0,
            max_delay_secs: q.1,
            max_lifetime_secs: c.queue.max_lifetime_secs,
            session_wait_secs: c.queue.session_wait_secs,
        },
        search: search_in_range(c.search),
        ..c
    }
}

/// The configuration to run with, from what reading the layered files gave: the
/// values brought into range, or the error of the read.
pub fn load(layers: Result<Config, Error>) -> (r: Result<Config, Error>)
    ensures
        match layers {
            Ok(c) => r matches Ok(d) && d == in_range(c),
            Err(e) => r matches Err(f) && f == e,
        },
{
    match layers {
        Ok(c) => {
            let mut config = c;
            let mut base: u64 = config.reconnect.base_delay_secs;
            let mut max: u64 = config.reconnect.max_delay_secs;
            normalize_backoff(&mut base, &mut max);
            config.reconnect.base_delay_secs = base;
            config.reconnect.max_delay_secs = max;
            let mut base: u64 = config.queue.base_delay_secs;
            let mut max: u64 = config.queue.max_delay_secs;
            normalize_backoff(&mut base, &mut max);
            config.queue.base_delay_secs = base;
            config.queue.max_delay_secs = max;
            let mut search = config.search;
            normalize_search(&mut search);
            config.search = search;
            Ok(config)
        },
        Err(e) => Err(e),
    }
}

/// The configuration in force, swapped as a whole on a reload.
#[derive(Debug)]
pub struct SharedConfig {
    pub current: Config,
}

/// Loads once, for sharing. A failed read propagates: there is no earlier
/// configuration to go on with.
pub fn load_shared(layers: Result<Config, Error>) -> (r: Result<SharedConfig, Error>)
    ensures
        match layers {
            Ok(c) => r matches Ok(s) && s.current == in_range(c),
            Err(e) => r matches Err(f) && f == e,
        },
{
    match load(layers) {
        Ok(current) => Ok(SharedConfig { current }),
        Err(e) => Err(e),
    }
}

/// Loads again and swaps the configuration in place. On a failed read the one
/// in force stays untouched, and the error is returned.
pub fn reload(shared: &mut SharedConfig, layers: Result<Config, Error>) -> (r: Result<(), Error>)
    ensures
        match layers {
            Ok(c) => r is Ok && final(shared).current == in_range(c),
            Err(e) => r matches Err(f) && f == e && *final(shared) == *old(shared),
        },
{
    match load(layers) {
        Ok(fresh) => {
            shared.current = fresh;
            Ok(())
        },
        Err(e) => Err(e),
    }
}

/// A configuration with every key at its default.
pub fn defaults() -> (r: Config)
    ensures
        r.server.socket is None,
        r.refresh.quick == (QuickRefreshConfig { interval_secs: 300, window_hours: 24 }),
        r.refresh.slow == (SlowRefreshConfig { interval_secs: 86400, window_hours: 720 }),
        r.history == (HistoryConfig { retention_hours: 2160 }),
        r.queue == (QueueConfig {
            base_delay_secs: 1,
            max_delay_secs: 1800,
            max_lifetime_secs: 604800,
            session_wait_secs: 30,
        }),
        r.reconnect == (ReconnectConfig { enabled: true, base_delay_secs: 2, max_delay_secs: 60 }),
        r.search == (SearchConfig {
            population: SearchPopulation::Auto,
            partial_interval_secs: 1800,
            full_interval_secs: 604800,
            live_deadline_ms: 3000,
            live_limit: 100,
            live_debounce_secs: 30,
            tracked_retention_hours: 2160,
        }),
        r.spans_fit(),
        in_range(r) == r,
{
    Config {
        server: ServerConfig { socket: None },
        refresh: RefreshConfig {
            quick: QuickRefreshConfig { interval_secs: 300, window_hours: 24 },
            slow: SlowRefreshConfig { interval_secs: 86400, window_hours: 720 },
        },
        history: HistoryConfig { retention_hours: 2160 },
        queue: QueueConfig {
            base_delay_secs: 1,
            max_delay_secs: 1800,
            max_lifetime_secs: 604800,
            session_wait_secs: 30,
        },
        reconnect: ReconnectConfig { enabled: true, base_delay_secs: 2, max_delay_secs: 60 },
        search: SearchConfig {
            population: SearchPopulation::Auto,
            partial_interval_secs: 1800,
            full_interval_secs: 604800,
            live_deadline_ms: 3000,
            live_limit: 100,
            live_debounce_secs: 30,
            tracked_retention_hours: 2160,
        },
    }
}

// ── laws ─────────────────────────────────────────────────────────────────────

/// The backoff never exceeds its cap, never shrinks below a cap-respecting
/// delay, and doubles exactly while that stays within the cap.
pub proof fn law_backoff_is_capped_doubling(current: nat, max: nat)
    ensures
        backoff_step(current, max) <= max,
        current <= max ==> backoff_step(current, max) >= current,
        2 * current <= max ==> backoff_step(current, max) == 2 * current,
        backoff_step(max, max) == max,
{
}

/// The delay after `n` steps of backoff.
pub open spec fn backoff_after(base: nat, max: nat, n: nat) -> nat
    decreases n,
{
    if n == 0 {
        base
    } else {
        backoff_step(backoff_after(base, max, (n - 1) as nat), max)
    }
}

/// A backoff schedule that starts above zero never comes to a zero delay, and
/// one that starts within its cap stays within it.
pub proof fn law_backoff_never_spins(base: nat, max: nat, n: nat)
    requires
        0 < base <= max,
    ensures
        0 < backoff_after(base, max, n) <= max,
    decreases n,
{
    if n > 0 {
        law_backoff_never_spins(base, max, (n - 1) as nat);
    }
}

/// Bringing a configuration into range twice is bringing it into range once;
/// the result has no zero base delay, no cap below its base, and a full resync
/// no more often than a partial one.
pub proof fn law_normalization(c: Config)
    ensures
        in_range(in_range(c)) == in_range(c),
        in_range(c).queue.base_delay_secs > 0,
        in_range(c).queue.max_delay_secs >= in_range(c).queue.base_delay_secs,
        in_range(c).reconnect.base_delay_secs > 0,
        in_range(c).reconnect.max_delay_secs >= in_range(c).reconnect.base_delay_secs,
        in_range(c).search.partial_interval_secs >= 60,
        in_range(c).search.full_interval_secs >= in_range(c).search.partial_interval_secs,
        in_range(c).search.live_deadline_ms >= 50,
        1 <= in_range(c).search.live_limit <= 500,
        in_range(c).search.tracked_retention_hours >= 24,
        in_range(c).server == c.server,
        in_range(c).refresh == c.refresh,
        in_range(c).history == c.history,
{
}

/// Values that are in range are left as they are.
pub proof fn law_in_range_values_untouched(c: Config)
    requires
        0 < c.queue.base_delay_secs <= c.queue.max_delay_secs,
        0 < c.reconnect.base_delay_secs <= c.reconnect.max_delay_secs,
        60 <= c.search.partial_interval_secs <= c.search.full_interval_secs,
        c.search.live_deadline_ms >= 50,
        1 <= c.search.live_limit <= 500,
        c.search.tracked_retention_hours >= 24,
    ensures
        in_range(c) == c,
{
}

/// The backoff doubles while that stays within the cap, and is at the cap from
/// then on.
pub proof fn law_backoff_reaches_its_cap(current: nat, max: nat)
    ensures
        2 * current > max ==> backoff_step(current, max) == max,
        2 * current <= max ==> backoff_step(current, max) == current + current,
{
}

/// Each value is brought into range on its own: one that is in range stays as it
/// is whatever the others are, and one that is out of range goes to the nearest
/// bound. What has no range is never changed.
pub proof fn law_each_value_is_normalised_alone(c: Config)
    ensures
        ({
            let d = in_range(c);
            &&& c.queue.base_delay_secs > 0 ==> d.queue.base_delay_secs == c.queue.base_delay_secs
            &&& c.queue.base_delay_secs == 0 ==> d.queue.base_delay_secs == 1
            &&& c.queue.max_delay_secs >= d.queue.base_delay_secs ==> d.queue.max_delay_secs
                == c.queue.max_delay_secs
            &&& c.queue.max_delay_secs < d.queue.base_delay_secs ==> d.queue.max_delay_secs
                == d.queue.base_delay_secs
            &&& d.queue.max_lifetime_secs == c.queue.max_lifetime_secs
            &&& d.queue.session_wait_secs == c.queue.session_wait_secs
            &&& c.reconnect.base_delay_secs > 0 ==> d.reconnect.base_delay_secs
                == c.reconnect.base_delay_secs
            &&& c.reconnect.base_delay_secs == 0 ==> d.reconnect.base_delay_secs == 1
            &&& c.reconnect.max_delay_secs >= d.reconnect.base_delay_secs
                ==> d.reconnect.max_delay_secs == c.reconnect.max_delay_secs
            &&& c.reconnect.max_delay_secs < d.reconnect.base_delay_secs
                ==> d.reconnect.max_delay_secs == d.reconnect.base_delay_secs
            &&& d.reconnect.enabled == c.reconnect.enabled
            &&& d.search.population == c.search.population
            &&& d.search.live_debounce_secs == c.search.live_debounce_secs
            &&& c.search.partial_interval_secs >= 60 ==> d.search.partial_interval_secs
                == c.search.partial_interval_secs
            &&& c.search.partial_interval_secs < 60 ==> d.search.partial_interval_secs == 60
            &&& c.search.full_interval_secs >= d.search.partial_interval_secs
                ==> d.search.full_interval_secs == c.search.full_interval_secs
            &&& c.search.full_interval_secs < d.search.partial_interval_secs
                ==> d.search.full_interval_secs == d.search.partial_interval_secs
            &&& c.search.live_deadline_ms >= 50 ==> d.search.live_deadline_ms
                == c.search.live_deadline_ms
            &&& c.search.live_deadline_ms < 50 ==> d.search.live_deadline_ms == 50
            &&& 1 <= c.search.live_limit <= 500 ==> d.search.live_limit == c.search.live_limit
            &&& c.search.live_limit == 0 ==> d.search.live_limit == 1
            &&& c.search.live_limit > 500 ==> d.search.live_limit == 500
            &&& c.search.tracked_retention_hours >= 24 ==> d.search.tracked_retention_hours
                == c.search.tracked_retention_hours
            &&& c.search.tracked_retention_hours < 24 ==> d.search.tracked_retention_hours == 24
            &&& d.server == c.server
            &&& d.refresh == c.refresh
            &&& d.history == c.history
        }),
{
}

/// Every population has one name, and no other name stands for one.
pub proof fn law_population_names(name: Seq<char>)
    ensures
        population_named("auto"@) == Some(SearchPopulation::Auto),
        population_named("all"@) == Some(SearchPopulation::All),
        population_named("member"@) == Some(SearchPopulation::Member),
        population_named("tracked"@) == Some(SearchPopulation::TrackedProjects),
        population_named(name) is Some ==> name == "auto"@ || name == "all"@ || name == "member"@
            || name == "tracked"@,
{
    reveal_strlit("auto");
    reveal_strlit("all");
    reveal_strlit("member");
    reveal_strlit("tracked");
    assert("all"@.len() == 3);
    assert("auto"@.len() == 4);
    assert("member"@.len() == 6);
    assert("tracked"@.len() == 7);
}

/// A configured socket is used as it is; otherwise the socket lies directly in the
/// runtime directory, with one slash after a directory that does not end in one,
/// or in `/tmp` without such a directory.
pub proof fn law_socket_path(server: ServerConfig, runtime_dir: Option<String>)
    ensures
        server.socket matches Some(s) ==> socket_text(server, runtime_dir) == s@,
        server.socket is None && runtime_dir is None ==> socket_text(server, runtime_dir)
            == "/tmp/gitlab-trackrd.socket"@,
        server.socket is None && runtime_dir is Some && runtime_dir->0@.len() > 0
            && runtime_dir->0@.last() != '/' ==> socket_text(server, runtime_dir)
            == runtime_dir->0@ + "/"@ + "gitlab-trackrd.socket"@,
        server.socket is None && runtime_dir is Some && runtime_dir->0@.len() > 0
            && runtime_dir->0@.last() == '/' ==> socket_text(server, runtime_dir)
            == runtime_dir->0@ + "gitlab-trackrd.socket"@,
{
}

} // verus!
