//! Hot-reloading the configuration after its file changed.
//!
//! A malformed file is ignored: the daemon keeps the last good configuration.
//! The socket cannot change while the daemon runs, so a change to it only asks
//! for a restart.

use vstd::prelude::*;
use vstd::string::*;

use crate::config::{in_range, reload, socket_text, Config, SharedConfig};
use crate::error::Error;
use crate::text::{contains_text, has_text, str_eq};
use crate::time::Duration;

verus! {

/// How long the events of one save are given to settle.
pub fn debounce() -> (r: Duration)
    ensures
        r@ == 400 * 1_000_000,
{
    Duration::from_millis(400)
}

/// Whether an event in the watched directory is about the configuration file.
pub fn concerns(paths: &Vec<String>, config_path: &str) -> (r: bool)
    ensures
        r == has_text(paths@, config_path@),
{
    contains_text(paths, config_path)
}

/// What became of a reload.
#[derive(Debug)]
pub enum Reloaded {
    /// The new configuration is in force.
    Applied,
    /// It is in force, but its socket takes a restart.
    RestartForSocket { old_socket: String, new_socket: String },
    /// The file could not be read; the previous configuration stays.
    Kept(Error),
}

/// Takes up what was read from the changed file.
pub fn apply(
    shared: &mut SharedConfig,
    layers: Result<Config, Error>,
    runtime_dir: &Option<String>,
) -> (r: Reloaded)
    ensures
        match layers {
            Err(e) => r == Reloaded::Kept(e) && *final(shared) == *old(shared),
            Ok(c) => {
                let before = socket_text(old(shared).current.server, *runtime_dir);
                let after = socket_text(c.server, *runtime_dir);
                &&& final(shared).current == in_range(c)
                &&& if before == after {
                    r is Applied
                } else {
                    r matches Reloaded::RestartForSocket { old_socket, new_socket } && old_socket@
                        == before && new_socket@ == after
                }
            },
        },
{
    let old_socket: String = shared.current.server.resolved_socket(runtime_dir.clone());
    match reload(shared, layers) {
        Err(e) => Reloaded::Kept(e),
        Ok(()) => {
            let new_socket: String = shared.current.server.resolved_socket(runtime_dir.clone());
            if str_eq(old_socket.as_str(), new_socket.as_str()) {
                Reloaded::Applied
            } else {
                Reloaded::RestartForSocket { old_socket, new_socket }
            }
        },
    }
}

} // verus!
