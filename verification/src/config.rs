//! What the relay is started with.

use vstd::prelude::*;
use crate::direction::Direction;
use crate::transfer::{Action, ActionView, State, Transfer};

verus! {

/// The settings of a relay. They are read once, at startup, and never
/// change.
#[derive(Debug, PartialEq, Eq)]
pub struct Config {
    /// The address to listen on, as `host:port`.
    pub listen: String,
    /// The address to forward to, as `host:port`.
    pub target: String,
    /// Whether traffic from client to server is dumped.
    pub dump_c2s: bool,
    /// Whether traffic from server to client is dumped.
    pub dump_s2c: bool,
    /// The file that dumps are appended to; without one they go to the
    /// console alone.
    pub dump_file: Option<String>,
}

/// What each connection needs to know of dumping.
#[derive(Clone, Copy, Debug, PartialEq, Eq, Structural)]
pub struct DumpConfig {
    /// Whether traffic from client to server is dumped.
    pub client_to_server: bool,
    /// Whether traffic from server to client is dumped.
    pub server_to_client: bool,
    /// Whether dumps are appended to the sink as well.
    pub to_sink: bool,
}

impl DumpConfig {
    /// Whether `direction` is dumped. Each direction has its own switch.
    pub open spec fn dumps(self, direction: Direction) -> bool {
        match direction {
            Direction::ClientToServer => self.client_to_server,
            Direction::ServerToClient => self.server_to_client,
        }
    }

    /// Whether `direction` is dumped.
    pub fn enabled(&self, direction: Direction) -> (dump: bool)
        ensures
            dump == self.dumps(direction),
    {
        match direction {
            Direction::ClientToServer => self.client_to_server,
            Direction::ServerToClient => self.server_to_client,
        }
    }

    /// Opens the transfer of `direction` under these settings.
    pub fn transfer(&self, direction: Direction) -> (opened: (Transfer, Action))
        ensures
            opened.0@ == State::opened(direction, self.dumps(direction), self.to_sink),
            opened.1@ == ActionView::Read,
    {
        Transfer::open(direction, self.enabled(direction), self.to_sink)
    }
}

impl Config {
    /// What the connections of this relay need to know of dumping.
    pub open spec fn dumping(self) -> DumpConfig {
        DumpConfig {
            client_to_server: self.dump_c2s,
            server_to_client: self.dump_s2c,
            to_sink: self.dump_file is Some,
        }
    }

    /// What the connections of this relay need to know of dumping: the two
    /// switches, and that dumps go to the sink where a file is named.
    pub fn dump_config(&self) -> (dumping: DumpConfig)
        ensures
            dumping == self.dumping(),
    {
        DumpConfig {
            client_to_server: self.dump_c2s,
            server_to_client: self.dump_s2c,
            to_sink: self.dump_file.is_some(),
        }
    }
}

} // verus!
