//! The result of relaying one connection, put together from the results of
//! its two directions.

use vstd::prelude::*;
use crate::direction::Direction;
use crate::trace::{actions_of, lemma_count_is_bytes_written, written};
use crate::transfer::{Action, EventView, Failure, State};

verus! {

/// Why relaying a connection failed: the direction that failed, and how.
#[derive(Clone, Copy, Debug, PartialEq, Eq, Structural)]
pub struct RelayError {
    /// The direction whose failure is reported.
    pub direction: Direction,
    /// What stopped that direction.
    pub failure: Failure,
}

/// The result of a connection whose directions ended with `client_to_server`
/// and `server_to_client`: both counts where both directions came to the end
/// of their source, else the failure of the first direction that failed,
/// client to server before server to client.
pub open spec fn outcome_of(
    client_to_server: Result<u64, Failure>,
    server_to_client: Result<u64, Failure>,
) -> Result<(u64, u64), RelayError> {
    match (client_to_server, server_to_client) {
        (Ok(up), Ok(down)) => Ok((up, down)),
        (Err(failure), _) => Err(RelayError { direction: Direction::ClientToServer, failure }),
        (Ok(_), Err(failure)) => Err(RelayError { direction: Direction::ServerToClient, failure }),
    }
}

/// Puts the results of the two directions together, once both have ended.
/// Neither direction's end is waited for here or cut short: each result is
/// what its own transfer finished with.
pub fn relay_outcome(
    client_to_server: Result<u64, Failure>,
    server_to_client: Result<u64, Failure>,
) -> (outcome: Result<(u64, u64), RelayError>)
    ensures
        outcome == outcome_of(client_to_server, server_to_client),
{
    match (client_to_server, server_to_client) {
        (Ok(up), Ok(down)) => Ok((up, down)),
        (Err(failure), _) => Err(RelayError { direction: Direction::ClientToServer, failure }),
        (Ok(_), Err(failure)) => Err(RelayError { direction: Direction::ServerToClient, failure }),
    }
}

/// Counts are reported only where both directions succeeded, and then they
/// are the two directions' own counts; any failure is reported as one, under
/// the direction it belongs to.
pub proof fn lemma_outcome(
    client_to_server: Result<u64, Failure>,
    server_to_client: Result<u64, Failure>,
)
    ensures
        outcome_of(client_to_server, server_to_client) is Ok <==> client_to_server is Ok
            && server_to_client is Ok,
        outcome_of(client_to_server, server_to_client) matches Ok(counts) ==> client_to_server
            == Ok::<u64, Failure>(counts.0) && server_to_client == Ok::<u64, Failure>(counts.1),
        outcome_of(client_to_server, server_to_client) matches Err(error) ==> match error.direction {
            Direction::ClientToServer => client_to_server == Err::<u64, Failure>(error.failure),
            Direction::ServerToClient => server_to_client == Err::<u64, Failure>(error.failure)
                && client_to_server is Ok,
        },
{
}

/// The counts that a connection reports are the bytes that were written.
/// Take the two directions of a connection, each opened and then driven by
/// its own events until it ended, and the results that they ended with. The
/// counts in the connection's result are, for each direction, the length of
/// the bytes whose write was carried out in that direction.
pub proof fn lemma_reported_counts(
    dump_up: bool,
    dump_down: bool,
    to_sink: bool,
    up_events: Seq<EventView>,
    down_events: Seq<EventView>,
    up: Result<u64, Failure>,
    down: Result<u64, Failure>,
)
    requires
        up_events.len() > 0,
        down_events.len() > 0,
        actions_of(State::opened(Direction::ClientToServer, dump_up, to_sink), up_events).last()
            == Action::Finish(up)@,
        actions_of(
            State::opened(Direction::ServerToClient, dump_down, to_sink),
            down_events,
        ).last() == Action::Finish(down)@,
    ensures
        outcome_of(up, down) matches Ok(counts) ==> {
            &&& counts.0 == written(
                up_events,
                actions_of(State::opened(Direction::ClientToServer, dump_up, to_sink), up_events),
            ).len()
            &&& counts.1 == written(
                down_events,
                actions_of(
                    State::opened(Direction::ServerToClient, dump_down, to_sink),
                    down_events,
                ),
            ).len()
        },
{
    lemma_count_is_bytes_written(Direction::ClientToServer, dump_up, to_sink, up_events);
    lemma_count_is_bytes_written(Direction::ServerToClient, dump_down, to_sink, down_events);
}

} // verus!
