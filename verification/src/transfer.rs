//! One direction of a relayed connection, as a machine that is told what
//! happened and says what to do next.
//!
//! The machine never touches a socket. Whoever drives it performs each
//! [`Action`] and reports the outcome as an [`Event`]; the machine keeps the
//! byte count and decides when a chunk is dumped, when it is forwarded and
//! when the direction ends.
//!
//! Dumping is for looking on and never stands in the way of the relay: a
//! chunk whose dump failed is forwarded like any other, and only a failed
//! read or write ends a direction.

use vstd::prelude::*;
use crate::direction::Direction;
use crate::hexdump::{format_hex_dump, hex_dump};

verus! {

/// The most bytes that one read may return.
pub const BUFFER_SIZE: usize = 8192;

/// Why a direction ended before its source was exhausted.
#[derive(Clone, Copy, Debug, PartialEq, Eq, Structural)]
pub enum Failure {
    /// Reading from the source failed.
    Read,
    /// Writing to the destination failed.
    Write,
    /// The driver reported what the pending action cannot have given: an
    /// answer out of turn, or more bytes than a read was allowed.
    Protocol,
}

/// What the driver reports after it performed an action.
#[derive(Debug, PartialEq, Eq)]
pub enum Event {
    /// The read returned these bytes; none at all means that the source has
    /// ended.
    Read(Vec<u8>),
    /// The dump or the write was carried out in full.
    Done,
    /// The pending action failed. Of a dump this is taken note of and
    /// nothing more: its chunk is forwarded all the same.
    Failed,
}

/// What the driver is to do next.
#[derive(Debug, PartialEq, Eq)]
pub enum Action {
    /// Read up to [`BUFFER_SIZE`] bytes from the source and report them.
    Read,
    /// Emit `text` on the console and, where `to_sink` is set, append it to
    /// the sink in one piece. Whether that worked or not, the chunk is
    /// forwarded next.
    Dump { text: String, to_sink: bool },
    /// Write all of these bytes to the destination.
    Write(Vec<u8>),
    /// The direction has ended, with the number of bytes it relayed or with
    /// the failure that stopped it.
    Finish(Result<u64, Failure>),
}

/// An [`Event`] as contracts see it.
pub enum EventView {
    Read(Seq<u8>),
    Done,
    Failed,
}

/// An [`Action`] as contracts see it.
pub enum ActionView {
    Read,
    Dump { text: Seq<char>, to_sink: bool },
    Write(Seq<u8>),
    Finish(Result<nat, Failure>),
}

/// What a direction is waiting for.
pub enum Phase {
    /// A read is pending.
    Reading,
    /// The dump of this chunk is pending; the chunk is yet to be forwarded.
    Dumping(Seq<u8>),
    /// The write of a chunk of this many bytes is pending.
    Writing(nat),
    /// The direction has ended.
    Finished(Result<nat, Failure>),
}

/// A [`Transfer`] as contracts see it.
pub struct State {
    /// The direction that is being relayed.
    pub direction: Direction,
    /// Whether each chunk is dumped before it is forwarded.
    pub dump: bool,
    /// Whether dumps go to the sink as well as to the console.
    pub to_sink: bool,
    /// The bytes whose write was confirmed.
    pub total: nat,
    /// What the direction is waiting for.
    pub phase: Phase,
}

impl View for Event {
    type V = EventView;

    open spec fn view(&self) -> EventView {
        match self {
            Event::Read(chunk) => EventView::Read(chunk@),
            Event::Done => EventView::Done,
            Event::Failed => EventView::Failed,
        }
    }
}

impl View for Action {
    type V = ActionView;

    open spec fn view(&self) -> ActionView {
        match self {
            Action::Read => ActionView::Read,
            Action::Dump { text, to_sink } => ActionView::Dump { text: text@, to_sink: *to_sink },
            Action::Write(chunk) => ActionView::Write(chunk@),
            Action::Finish(Ok(total)) => ActionView::Finish(Ok(*total as nat)),
            Action::Finish(Err(failure)) => ActionView::Finish(Err(*failure)),
        }
    }
}

impl State {
    /// A direction that has relayed nothing yet and waits for its first
    /// read.
    pub open spec fn opened(direction: Direction, dump: bool, to_sink: bool) -> State {
        State { direction, dump, to_sink, total: 0, phase: Phase::Reading }
    }

    /// This state in another phase.
    pub open spec fn at(self, phase: Phase) -> State {
        State { phase, ..self }
    }

    /// The end of the direction with `result`.
    pub open spec fn finish(self, result: Result<nat, Failure>) -> (State, ActionView) {
        (self.at(Phase::Finished(result)), ActionView::Finish(result))
    }

    /// The state after `event`, and what is to be done then.
    ///
    /// While a read is pending: no bytes end the direction with its count; a
    /// chunk is dumped first where dumping is on, and forwarded at once where
    /// it is off. When the dump is over, done or failed, the chunk is
    /// forwarded. When the write is done the chunk's length is added to the
    /// count and the next read is asked for. A failed read or write ends the
    /// direction with the kind of the action that failed; so does an answer
    /// that the pending action cannot have given. Once ended, the direction
    /// stays as it is.
    pub open spec fn next(self, event: EventView) -> (State, ActionView) {
        match self.phase {
            Phase::Reading => match event {
                EventView::Read(chunk) => {
                    if chunk.len() == 0 {
                        self.finish(Ok(self.total))
                    } else if chunk.len() > BUFFER_SIZE {
                        self.finish(Err(Failure::Protocol))
                    } else if self.dump {
                        (
                            self.at(Phase::Dumping(chunk)),
                            ActionView::Dump {
                                text: hex_dump(chunk, self.direction.label()),
                                to_sink: self.to_sink,
                            },
                        )
                    } else {
                        (self.at(Phase::Writing(chunk.len())), ActionView::Write(chunk))
                    }
                },
                EventView::Failed => self.finish(Err(Failure::Read)),
                EventView::Done => self.finish(Err(Failure::Protocol)),
            },
            Phase::Dumping(chunk) => match event {
                EventView::Done | EventView::Failed => (
                    self.at(Phase::Writing(chunk.len())),
                    ActionView::Write(chunk),
                ),
                EventView::Read(_) => self.finish(Err(Failure::Protocol)),
            },
            Phase::Writing(len) => match event {
                EventView::Done => (
                    State { total: self.total + len, phase: Phase::Reading, ..self },
                    ActionView::Read,
                ),
                EventView::Failed => self.finish(Err(Failure::Write)),
                EventView::Read(_) => self.finish(Err(Failure::Protocol)),
            },
            Phase::Finished(result) => (self, ActionView::Finish(result)),
        }
    }

    /// Whether the count still fits its 64 bits once `event` is taken in.
    /// Only a chunk that will be forwarded can fail this.
    pub open spec fn admits(self, event: EventView) -> bool {
        match (self.phase, event) {
            (Phase::Reading, EventView::Read(chunk)) => 0 < chunk.len() <= BUFFER_SIZE
                ==> self.total + chunk.len() <= u64::MAX,
            _ => true,
        }
    }
}

/// What the machine holds while it waits.
#[derive(Debug)]
enum Stage {
    Reading,
    Dumping(Vec<u8>),
    Writing(usize),
    Finished(Result<u64, Failure>),
}

/// One direction of a relayed connection: where it stands and how many bytes
/// it has relayed.
#[derive(Debug)]
pub struct Transfer {
    direction: Direction,
    dump: bool,
    to_sink: bool,
    total: u64,
    stage: Stage,
}

impl View for Transfer {
    type V = State;

    closed spec fn view(&self) -> State {
        State {
            direction: self.direction,
            dump: self.dump,
            to_sink: self.to_sink,
            total: self.total as nat,
            phase: match self.stage {
                Stage::Reading => Phase::Reading,
                Stage::Dumping(chunk) => Phase::Dumping(chunk@),
                Stage::Writing(len) => Phase::Writing(len as nat),
                Stage::Finished(Ok(total)) => Phase::Finished(Ok(total as nat)),
                Stage::Finished(Err(failure)) => Phase::Finished(Err(failure)),
            },
        }
    }
}

impl Transfer {
    /// The count never runs ahead of what 64 bits hold, not even with the
    /// chunk that is under way.
    #[verifier::type_invariant]
    spec fn counted(self) -> bool {
        match self.stage {
            Stage::Dumping(chunk) => self.total + chunk@.len() <= u64::MAX,
            Stage::Writing(len) => self.total + len <= u64::MAX,
            _ => true,
        }
    }

    /// Opens a direction: nothing relayed yet, and the first thing to do is
    /// to read.
    pub fn open(direction: Direction, dump: bool, to_sink: bool) -> (opened: (Transfer, Action))
        ensures
            opened.0@ == State::opened(direction, dump, to_sink),
            opened.1@ == ActionView::Read,
    {
        (Transfer { direction, dump, to_sink, total: 0, stage: Stage::Reading }, Action::Read)
    }

    /// The direction that is being relayed.
    pub fn direction(&self) -> (direction: Direction)
        ensures
            direction == self@.direction,
    {
        self.direction
    }

    /// Whether each chunk is dumped before it is forwarded.
    pub fn dumps(&self) -> (dump: bool)
        ensures
            dump == self@.dump,
    {
        self.dump
    }

    /// The bytes relayed so far: those whose write was confirmed.
    pub fn total(&self) -> (total: u64)
        ensures
            total == self@.total,
    {
        self.total
    }

    /// Whether the direction has ended.
    pub fn is_finished(&self) -> (finished: bool)
        ensures
            finished == (self@.phase is Finished),
    {
        match self.stage {
            Stage::Finished(_) => true,
            _ => false,
        }
    }

    /// Whether `step` may be given `event`: whether the count would still
    /// fit its 64 bits.
    pub fn admits(&self, event: &Event) -> (ok: bool)
        ensures
            ok == self@.admits(event@),
    {
        match (&self.stage, event) {
            (Stage::Reading, Event::Read(chunk)) => {
                chunk.len() == 0 || chunk.len() > BUFFER_SIZE || chunk.len() as u64 <= u64::MAX
                    - self.total
            },
            _ => true,
        }
    }

    /// Takes in what the driver reports and says what to do next, as
    /// [`State::next`] lays down.
    pub fn step(self, event: Event) -> (stepped: (Transfer, Action))
        requires
            self@.admits(event@),
        ensures
            (stepped.0@, stepped.1@) == self@.next(event@),
    {
        proof {
            use_type_invariant(&self);
        }
        let Transfer { direction, dump, to_sink, total, stage } = self;
        match stage {
            Stage::Reading => match event {
                Event::Read(chunk) => {
                    if chunk.len() == 0 {
                        Self::end(direction, dump, to_sink, total, Ok(total))
                    } else if chunk.len() > BUFFER_SIZE {
                        Self::end(direction, dump, to_sink, total, Err(Failure::Protocol))
                    } else if dump {
                        let prefix = direction.dump_prefix();
                        let text = format_hex_dump(chunk.as_slice(), prefix.as_str());
                        (
                            Transfer { direction, dump, to_sink, total, stage: Stage::Dumping(chunk) },
                            Action::Dump { text, to_sink },
                        )
                    } else {
                        (
                            Transfer {
                                direction,
                                dump,
                                to_sink,
                                total,
                                stage: Stage::Writing(chunk.len()),
                            },
                            Action::Write(chunk),
                        )
                    }
                },
                Event::Failed => Self::end(direction, dump, to_sink, total, Err(Failure::Read)),
                Event::Done => Self::end(direction, dump, to_sink, total, Err(Failure::Protocol)),
            },
            Stage::Dumping(chunk) => match event {
                Event::Done | Event::Failed => (
                    Transfer { direction, dump, to_sink, total, stage: Stage::Writing(chunk.len()) },
                    Action::Write(chunk),
                ),
                Event::Read(_) => Self::end(direction, dump, to_sink, total, Err(Failure::Protocol)),
            },
            Stage::Writing(len) => match event {
                Event::Done => (
                    Transfer {
                        direction,
                        dump,
                        to_sink,
                        total: total + len as u64,
                        stage: Stage::Reading,
                    },
                    Action::Read,
                ),
                Event::Failed => Self::end(direction, dump, to_sink, total, Err(Failure::Write)),
                Event::Read(_) => Self::end(direction, dump, to_sink, total, Err(Failure::Protocol)),
            },
            Stage::Finished(result) => (
                Transfer { direction, dump, to_sink, total, stage: Stage::Finished(result) },
                Action::Finish(result),
            ),
        }
    }

    /// Ends a direction with `result`.
    fn end(
        direction: Direction,
        dump: bool,
        to_sink: bool,
        total: u64,
        result: Result<u64, Failure>,
    ) -> (ended: (Transfer, Action))
        ensures
            ended.0.direction == direction,
            ended.0.dump == dump,
            ended.0.to_sink == to_sink,
            ended.0.total == total,
            ended.0.stage == Stage::Finished(result),
            ended.1 == Action::Finish(result),
    {
        (
            Transfer { direction, dump, to_sink, total, stage: Stage::Finished(result) },
            Action::Finish(result),
        )
    }
}

} // verus!
