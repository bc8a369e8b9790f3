//! The configuration of a server.

use vstd::prelude::*;

verus! {

/// How a server runs: whom it follows, if anyone, and how long it waits
/// between two cycles of synchronisation, in microseconds.
#[derive(Debug)]
pub struct Config {
    pub leader_url: Option<String>,
    pub sync_interval: u64,
}

/// The text of an optional text.
pub open spec fn optional_text(text: Option<String>) -> Option<Seq<char>> {
    match text {
        Some(t) => Some(t@),
        None => None,
    }
}

impl Default for Config {
    fn default() -> (config: Config)
        ensures
            config.leader_url is None,
            config.sync_interval == 0,
    {
        Config { leader_url: None, sync_interval: 0 }
    }
}

impl Config {
    /// The time between two cycles of synchronisation in whole milliseconds.
    pub fn sync_period_millis(&self) -> (millis: u64)
        ensures
            millis == self.sync_interval / 1000,
    {
        self.sync_interval / 1000
    }
}

/// The configuration of a server from what the command line names and what
/// the configuration file holds: the leader of the command line goes before
/// the leader of the file, and everything else is as in the file. Without a
/// file, the server follows the leader of the command line and never waits.
pub fn read_config(leader_url: Option<String>, from_file: Option<Config>) -> (config: Config)
    ensures
        optional_text(config.leader_url) == (match leader_url {
            Some(url) => Some(url@),
            None => match from_file {
                Some(file) => optional_text(file.leader_url),
                None => None,
            },
        }),
        config.sync_interval == (match from_file {
            Some(file) => file.sync_interval,
            None => 0,
        }),
{
    let file = match from_file {
        Some(file) => file,
        None => Config::default(),
    };
    let leader = match leader_url {
        Some(url) => Some(url),
        None => file.leader_url,
    };
    Config { leader_url: leader, sync_interval: file.sync_interval }
}

} // verus!
