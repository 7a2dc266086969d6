//! Whole runs of a transfer: what holds of the bytes that it takes in, the
//! bytes that it hands on and the count that it keeps, whatever the driver
//! reports.

use vstd::prelude::*;
use crate::direction::Direction;
use crate::hexdump::hex_dump;
use crate::transfer::{ActionView, EventView, Failure, Phase, State, BUFFER_SIZE};

verus! {

/// The state in which `events`, taken in order, leave a transfer that was in
/// `start`.
pub open spec fn state_after(start: State, events: Seq<EventView>) -> State
    decreases events.len(),
{
    if events.len() == 0 {
        start
    } else {
        state_after(start, events.drop_last()).next(events.last()).0
    }
}

/// The actions with which a transfer that was in `start` answers `events`,
/// one for each event.
pub open spec fn actions_of(start: State, events: Seq<EventView>) -> Seq<ActionView>
    decreases events.len(),
{
    if events.len() == 0 {
        Seq::empty()
    } else {
        actions_of(start, events.drop_last()).push(
            state_after(start, events.drop_last()).next(events.last()).1,
        )
    }
}

/// The bytes that the reads among `events` returned, in the order of their
/// arrival.
pub open spec fn received(events: Seq<EventView>) -> Seq<u8>
    decreases events.len(),
{
    if events.len() == 0 {
        Seq::empty()
    } else {
        match events.last() {
            EventView::Read(chunk) => received(events.drop_last()) + chunk,
            _ => received(events.drop_last()),
        }
    }
}

/// The bytes that the writes among `actions` hand to the destination, in
/// their order.
pub open spec fn forwarded(actions: Seq<ActionView>) -> Seq<u8>
    decreases actions.len(),
{
    if actions.len() == 0 {
        Seq::empty()
    } else {
        match actions.last() {
            ActionView::Write(chunk) => forwarded(actions.drop_last()) + chunk,
            _ => forwarded(actions.drop_last()),
        }
    }
}

/// The bytes whose write was carried out: those of each write among
/// `actions` that the event behind it reports as done. The action at
/// position `i` answers the event at `i`, so the event at `i + 1` reports
/// on it.
pub open spec fn written(events: Seq<EventView>, actions: Seq<ActionView>) -> Seq<u8>
    recommends
        events.len() == actions.len(),
    decreases events.len(),
{
    if events.len() <= 1 || actions.len() != events.len() {
        Seq::empty()
    } else {
        let before = written(events.drop_last(), actions.drop_last());
        match (actions[actions.len() - 2], events.last()) {
            (ActionView::Write(chunk), EventView::Done) => before + chunk,
            _ => before,
        }
    }
}

impl State {
    /// Whether `event` can be the outcome of what this state waits for: a
    /// read gives bytes, no more than it may, or fails; a dump and a write
    /// are done or fail; an ended direction waits for nothing.
    pub open spec fn expects(self, event: EventView) -> bool {
        match self.phase {
            Phase::Reading => match event {
                EventView::Read(chunk) => chunk.len() <= BUFFER_SIZE,
                EventView::Failed => true,
                EventView::Done => false,
            },
            Phase::Dumping(_) | Phase::Writing(_) => !(event is Read),
            Phase::Finished(_) => false,
        }
    }
}

/// Whether each of `events` is an outcome of the action that was pending
/// when it came, for a transfer that was in `start`.
pub open spec fn in_turn(start: State, events: Seq<EventView>) -> bool
    decreases events.len(),
{
    events.len() == 0 || (in_turn(start, events.drop_last()) && state_after(
        start,
        events.drop_last(),
    ).expects(events.last()))
}

/// `actions` less the dumps among them.
pub open spec fn without_dumps(actions: Seq<ActionView>) -> Seq<ActionView>
    decreases actions.len(),
{
    if actions.len() == 0 {
        Seq::empty()
    } else if actions.last() is Dump {
        without_dumps(actions.drop_last())
    } else {
        without_dumps(actions.drop_last()).push(actions.last())
    }
}

/// `events` less those that answer a dump, for a transfer that was in
/// `start`.
pub open spec fn without_dump_answers(start: State, events: Seq<EventView>) -> Seq<EventView>
    decreases events.len(),
{
    if events.len() == 0 {
        Seq::empty()
    } else if state_after(start, events.drop_last()).phase is Dumping {
        without_dump_answers(start, events.drop_last())
    } else {
        without_dump_answers(start, events.drop_last()).push(events.last())
    }
}

impl State {
    /// This state with dumping switched off.
    pub open spec fn quiet(self) -> State {
        State { dump: false, ..self }
    }
}

/// The events of a relay that goes well: each of `chunks` is read, dumped
/// where dumping is on, and written. `dumped` says of each chunk whether its
/// dump was carried out or failed; every write is done.
pub open spec fn relay_events(dump: bool, chunks: Seq<Seq<u8>>, dumped: Seq<bool>) -> Seq<
    EventView,
>
    decreases chunks.len(),
{
    if chunks.len() == 0 {
        Seq::empty()
    } else {
        let read = relay_events(dump, chunks.drop_last(), dumped.drop_last()).push(
            EventView::Read(chunks.last()),
        );
        if !dump {
            read.push(EventView::Done)
        } else if dumped.last() {
            read.push(EventView::Done).push(EventView::Done)
        } else {
            read.push(EventView::Failed).push(EventView::Done)
        }
    }
}

/// What ties a run's bytes to its state, for a transfer that was opened and
/// then given `events`.
spec fn coherent(start: State, events: Seq<EventView>) -> bool {
    let end = state_after(start, events);
    let actions = actions_of(start, events);
    let taken = received(events);
    let given = forwarded(actions);
    let kept = written(events, actions);
    &&& actions.len() == events.len()
    &&& end.direction == start.direction
    &&& end.dump == start.dump
    &&& end.to_sink == start.to_sink
    &&& end.total == kept.len()
    &&& given.is_prefix_of(taken)
    &&& kept.is_prefix_of(given)
    &&& match end.phase {
        Phase::Reading => {
            &&& in_turn(start, events)
            &&& taken == given
            &&& given == kept
            &&& events.len() > 0 ==> actions.last() == ActionView::Read
        },
        Phase::Dumping(chunk) => {
            &&& in_turn(start, events)
            &&& taken == given + chunk
            &&& given == kept
            &&& 0 < chunk.len() <= BUFFER_SIZE
            &&& start.dump
            &&& events.len() > 0
            &&& actions.last() == ActionView::Dump {
                text: hex_dump(chunk, start.direction.label()),
                to_sink: start.to_sink,
            }
        },
        Phase::Writing(len) => {
            &&& in_turn(start, events)
            &&& taken == given
            &&& events.len() > 0
            &&& actions.last() matches ActionView::Write(chunk)
            &&& chunk.len() == len
            &&& 0 < len <= BUFFER_SIZE
            &&& given == kept + chunk
            &&& start.dump ==> events.len() > 1 && actions[actions.len() - 2] == ActionView::Dump {
                text: hex_dump(chunk, start.direction.label()),
                to_sink: start.to_sink,
            }
        },
        Phase::Finished(result) => {
            &&& events.len() > 0
            &&& actions.last() == ActionView::Finish(result)
            &&& result matches Ok(total) ==> total == end.total
            &&& in_turn(start, events) ==> {
                &&& result != Err::<nat, Failure>(Failure::Protocol)
                &&& result is Ok ==> taken == given && given == kept
                &&& result == Err::<nat, Failure>(Failure::Read) ==> taken == given && given == kept
                &&& result == Err::<nat, Failure>(Failure::Write) ==> taken == given
                    && given.len() > kept.len()
            }
        },
    }
}

/// A sequence that is a prefix stays one when the other grows.
proof fn lemma_prefix_grows(short: Seq<u8>, long: Seq<u8>, more: Seq<u8>)
    requires
        short.is_prefix_of(long),
    ensures
        short.is_prefix_of(long + more),
        short == long ==> (short + more).is_prefix_of(long + more),
        short.is_prefix_of(short + more),
{
}

/// A run has one action for each event.
proof fn lemma_one_action_each(start: State, events: Seq<EventView>)
    ensures
        actions_of(start, events).len() == events.len(),
    decreases events.len(),
{
    if events.len() > 0 {
        lemma_one_action_each(start, events.drop_last());
    }
}

/// How one more event moves the run's sequences.
proof fn lemma_unfold(start: State, events: Seq<EventView>)
    requires
        events.len() > 0,
    ensures
        ({
            let before = events.drop_last();
            let mid = state_after(start, before);
            let earlier = actions_of(start, before);
            let action = mid.next(events.last()).1;
            let actions = actions_of(start, events);
            &&& state_after(start, events) == mid.next(events.last()).0
            &&& actions == earlier.push(action)
            &&& actions.len() == events.len()
            &&& actions.last() == action
            &&& actions.drop_last() == earlier
            &&& before.len() > 0 ==> actions[actions.len() - 2] == earlier.last()
            &&& received(events) == match events.last() {
                EventView::Read(chunk) => received(before) + chunk,
                _ => received(before),
            }
            &&& forwarded(actions) == match action {
                ActionView::Write(chunk) => forwarded(earlier) + chunk,
                _ => forwarded(earlier),
            }
            &&& written(events, actions) == if before.len() == 0 {
                Seq::<u8>::empty()
            } else {
                match (earlier.last(), events.last()) {
                    (ActionView::Write(chunk), EventView::Done) => written(before, earlier)
                        + chunk,
                    _ => written(before, earlier),
                }
            }
        }),
{
    lemma_one_action_each(start, events.drop_last());
}

/// One more event keeps a run coherent.
proof fn lemma_coherent_step(start: State, events: Seq<EventView>)
    requires
        events.len() > 0,
        coherent(start, events.drop_last()),
    ensures
        coherent(start, events),
{
    let before = events.drop_last();
    let mid = state_after(start, before);
    let earlier = actions_of(start, before);
    let taken = received(before);
    let given = forwarded(earlier);
    let kept = written(before, earlier);
    lemma_unfold(start, events);
    match (mid.phase, events.last()) {
        (Phase::Reading, EventView::Read(chunk)) => {
            // A chunk that is forwarded at once joins both what was taken in
            // and what was handed on; any other only what was taken in.
            lemma_prefix_grows(given, taken, chunk);
            lemma_prefix_grows(kept, given, chunk);
        },
        (Phase::Dumping(chunk), EventView::Done) | (Phase::Dumping(chunk), EventView::Failed) => {
            // The chunk that was held back is handed on, whether it was
            // dumped or not.
            lemma_prefix_grows(kept, given, chunk);
        },
        (_, EventView::Read(more)) => {
            // Bytes that were not asked for are taken in and go nowhere.
            lemma_prefix_grows(given, taken, more);
        },
        _ => {},
    }
}

/// Every run of a transfer that starts with a read, at a count of zero, is
/// coherent.
proof fn lemma_coherent(start: State, events: Seq<EventView>)
    requires
        start.phase is Reading,
        start.total == 0,
    ensures
        coherent(start, events),
    decreases events.len(),
{
    if events.len() == 0 {
    } else {
        lemma_coherent(start, events.drop_last());
        lemma_coherent_step(start, events);
    }
}

/// What a transfer without dumping does with the events of a dumping one,
/// less the answers to the dumps: the same, unless the dumping one was ended
/// by an answer that its pending action cannot have given.
spec fn mirrored(start: State, events: Seq<EventView>) -> bool {
    let others = without_dump_answers(start, events);
    let end = state_after(start, events);
    let actions = actions_of(start, events);
    let quiet_end = state_after(start.quiet(), others);
    let quiet_actions = actions_of(start.quiet(), others);
    end.phase != Phase::Finished(Err(Failure::Protocol)) ==> {
        &&& received(others) == received(events)
        &&& match end.phase {
            Phase::Dumping(chunk) => {
                &&& quiet_end == end.quiet().at(Phase::Writing(chunk.len()))
                &&& quiet_actions == without_dumps(actions).push(ActionView::Write(chunk))
            },
            _ => {
                &&& quiet_end == end.quiet()
                &&& quiet_actions == without_dumps(actions)
            },
        }
    }
}

/// One more event keeps the two runs in step.
proof fn lemma_mirrored_step(start: State, events: Seq<EventView>)
    requires
        events.len() > 0,
        mirrored(start, events.drop_last()),
    ensures
        mirrored(start, events),
{
    let before = events.drop_last();
    let mid = state_after(start, before);
    let earlier = actions_of(start, before);
    let actions = actions_of(start, events);
    let others = without_dump_answers(start, events);
    lemma_unfold(start, events);
    match mid.phase {
        Phase::Finished(Err(Failure::Protocol)) => {
            // What was ended so stays so.
        },
        Phase::Dumping(chunk) => {
            // The answer to the dump is left out: the other transfer stays
            // where it is, one write ahead, and this one catches up.
            if !(events.last() is Read) {
                assert(without_dumps(actions) == without_dumps(earlier).push(
                    ActionView::Write(chunk),
                ));
            }
        },
        _ => {
            // Both transfers take the event in.
            assert(others.drop_last() == without_dump_answers(start, before));
            lemma_unfold(start.quiet(), others);
        },
    }
}

/// The two runs are in step from the start.
proof fn lemma_mirrored(start: State, events: Seq<EventView>)
    requires
        !(start.phase is Dumping),
    ensures
        mirrored(start, events),
    decreases events.len(),
{
    if events.len() > 0 {
        lemma_mirrored(start, events.drop_last());
        lemma_mirrored_step(start, events);
    }
}

/// Dropping the dumps from a run's actions drops none of its writes.
proof fn lemma_dumps_carry_no_bytes(actions: Seq<ActionView>)
    ensures
        forwarded(without_dumps(actions)) == forwarded(actions),
    decreases actions.len(),
{
    if actions.len() > 0 {
        lemma_dumps_carry_no_bytes(actions.drop_last());
        if !(actions.last() is Dump) {
            let kept = without_dumps(actions);
            assert(kept.drop_last() == without_dumps(actions.drop_last()));
        }
    }
}

/// The relay is the identity on the bytes it carries. Whatever the driver
/// reports, the bytes handed to the destination are, in order, the first of
/// the bytes that the reads returned, and the bytes whose write was carried
/// out are the first of those. Where every event came in turn, the direction
/// never ends for an answer out of turn, and nothing is held back but the
/// chunk that is under way: all that was read has been handed on and written
/// once the direction waits for a read again or has ended at the end of its
/// source. A failed write leaves unwritten the chunk that was being written;
/// a failed dump leaves nothing unwritten.
pub proof fn lemma_round_trip(
    direction: Direction,
    dump: bool,
    to_sink: bool,
    events: Seq<EventView>,
)
    ensures
        ({
            let start = State::opened(direction, dump, to_sink);
            let end = state_after(start, events);
            let actions = actions_of(start, events);
            let taken = received(events);
            let given = forwarded(actions);
            let kept = written(events, actions);
            &&& given.is_prefix_of(taken)
            &&& kept.is_prefix_of(given)
            &&& in_turn(start, events) ==> end.phase != Phase::Finished(Err(Failure::Protocol))
            &&& in_turn(start, events) ==> match end.phase {
                Phase::Reading => taken == given && given == kept,
                Phase::Dumping(chunk) => taken == given + chunk && given == kept,
                Phase::Writing(len) => taken == given && given.len() == kept.len() + len,
                Phase::Finished(Ok(_)) => taken == given && given == kept,
                Phase::Finished(Err(Failure::Read)) => taken == given && given == kept,
                Phase::Finished(Err(Failure::Write)) => taken == given && given.len()
                    > kept.len(),
                Phase::Finished(Err(Failure::Protocol)) => true,
            }
        }),
{
    lemma_coherent(State::opened(direction, dump, to_sink), events);
}

/// The count is the number of bytes written. After any events the count
/// of a transfer is the length of the bytes whose write was carried out, and
/// a direction that ends at the end of its source reports just that count.
pub proof fn lemma_count_is_bytes_written(
    direction: Direction,
    dump: bool,
    to_sink: bool,
    events: Seq<EventView>,
)
    ensures
        ({
            let start = State::opened(direction, dump, to_sink);
            let end = state_after(start, events);
            let actions = actions_of(start, events);
            &&& end.total == written(events, actions).len()
            &&& end.phase matches Phase::Finished(Ok(total)) ==> total == written(
                events,
                actions,
            ).len()
            &&& events.len() > 0 ==> (actions.last() matches ActionView::Finish(Ok(total))
                ==> total == written(events, actions).len())
        }),
{
    lemma_coherent(State::opened(direction, dump, to_sink), events);
}

/// A chunk is dumped before it is forwarded. Where dumping is on, the action
/// before each write is the dump of the very bytes that the write carries,
/// under the direction's label.
pub proof fn lemma_dump_precedes_write(
    direction: Direction,
    to_sink: bool,
    events: Seq<EventView>,
)
    requires
        events.len() > 0,
        actions_of(State::opened(direction, true, to_sink), events).last() is Write,
    ensures
        ({
            let start = State::opened(direction, true, to_sink);
            let actions = actions_of(start, events);
            &&& actions.len() == events.len()
            &&& events.len() >= 2
            &&& actions[actions.len() - 2] == ActionView::Dump {
                text: hex_dump(actions.last()->Write_0, direction.label()),
                to_sink,
            }
        }),
{
    lemma_coherent(State::opened(direction, true, to_sink), events);
}

/// Dumping changes nothing of what is relayed, whether the dumps are carried
/// out or fail. Take any run of a transfer that dumps. A transfer that does
/// not dump, given the same events less the answers to the dumps, takes in
/// the same bytes, answers with the same actions less the dumps, and ends in
/// the same state with the same count. (While a dump is under way, the other
/// transfer is one action ahead: it has asked for the write already.) This
/// holds of every run but those that the driver broke by an answer that the
/// pending action cannot have given, and so of every run in which each event
/// came in turn.
pub proof fn lemma_dumping_is_transparent(
    direction: Direction,
    to_sink: bool,
    events: Seq<EventView>,
)
    ensures
        ({
            let loud = State::opened(direction, true, to_sink);
            let plain = State::opened(direction, false, to_sink);
            let others = without_dump_answers(loud, events);
            let end = state_after(loud, events);
            let actions = actions_of(loud, events);
            let plain_end = state_after(plain, others);
            let plain_actions = actions_of(plain, others);
            &&& in_turn(loud, events) ==> end.phase != Phase::Finished(Err(Failure::Protocol))
            &&& end.phase != Phase::Finished(Err(Failure::Protocol)) ==> {
                &&& received(others) == received(events)
                &&& plain_end.total == end.total
                &&& match end.phase {
                    Phase::Dumping(chunk) => {
                        &&& plain_end == end.quiet().at(Phase::Writing(chunk.len()))
                        &&& plain_actions == without_dumps(actions).push(
                            ActionView::Write(chunk),
                        )
                        &&& forwarded(plain_actions) == forwarded(actions) + chunk
                    },
                    _ => {
                        &&& plain_end == end.quiet()
                        &&& plain_actions == without_dumps(actions)
                        &&& forwarded(plain_actions) == forwarded(actions)
                    },
                }
            }
        }),
{
    let loud = State::opened(direction, true, to_sink);
    lemma_coherent(loud, events);
    lemma_mirrored(loud, events);
    let actions = actions_of(loud, events);
    lemma_dumps_carry_no_bytes(actions);
    match state_after(loud, events).phase {
        Phase::Dumping(chunk) => {
            let ahead = without_dumps(actions).push(ActionView::Write(chunk));
            assert(ahead.drop_last() == without_dumps(actions));
        },
        _ => {},
    }
}

/// How a run goes on with one more event.
proof fn lemma_push(start: State, before: Seq<EventView>, event: EventView)
    ensures
        ({
            let events = before.push(event);
            let mid = state_after(start, before);
            let earlier = actions_of(start, before);
            let actions = actions_of(start, events);
            &&& state_after(start, events) == mid.next(event).0
            &&& actions == earlier.push(mid.next(event).1)
            &&& actions.len() == events.len()
            &&& in_turn(start, events) == (in_turn(start, before) && mid.expects(event))
            &&& received(events) == match event {
                EventView::Read(chunk) => received(before) + chunk,
                _ => received(before),
            }
            &&& forwarded(actions) == match mid.next(event).1 {
                ActionView::Write(chunk) => forwarded(earlier) + chunk,
                _ => forwarded(earlier),
            }
            &&& written(events, actions) == if before.len() == 0 {
                Seq::<u8>::empty()
            } else {
                match (earlier.last(), event) {
                    (ActionView::Write(chunk), EventView::Done) => written(before, earlier)
                        + chunk,
                    _ => written(before, earlier),
                }
            }
        }),
{
    let events = before.push(event);
    assert(events.drop_last() == before);
    lemma_unfold(start, events);
}

/// Whether `events` have left a transfer waiting for its next read, with
/// `bytes` taken in, handed on and written, and nothing else.
spec fn relayed(start: State, events: Seq<EventView>, bytes: Seq<u8>) -> bool {
    let actions = actions_of(start, events);
    &&& in_turn(start, events)
    &&& received(events) == bytes
    &&& forwarded(actions) == bytes
    &&& written(events, actions) == bytes
    &&& state_after(start, events) == State { total: bytes.len(), phase: Phase::Reading, ..start }
}

/// What the answer to a dump is in the events of a relay.
spec fn dump_answer(done: bool) -> EventView {
    if done {
        EventView::Done
    } else {
        EventView::Failed
    }
}

/// A chunk is read and written, without a dump.
proof fn lemma_round_plain(start: State, before: Seq<EventView>, bytes: Seq<u8>, chunk: Seq<u8>)
    requires
        !start.dump,
        relayed(start, before, bytes),
        0 < chunk.len() <= BUFFER_SIZE,
    ensures
        relayed(start, before.push(EventView::Read(chunk)).push(EventView::Done), bytes + chunk),
{
    let read = before.push(EventView::Read(chunk));
    lemma_push(start, before, EventView::Read(chunk));
    assert(state_after(start, read).phase == Phase::Writing(chunk.len()));
    assert(actions_of(start, read).last() == ActionView::Write(chunk));
    lemma_push(start, read, EventView::Done);
}

/// A chunk is read, dumped with or without success, and written.
proof fn lemma_round_dumped(
    start: State,
    before: Seq<EventView>,
    bytes: Seq<u8>,
    chunk: Seq<u8>,
    done: bool,
)
    requires
        start.dump,
        relayed(start, before, bytes),
        0 < chunk.len() <= BUFFER_SIZE,
    ensures
        relayed(
            start,
            before.push(EventView::Read(chunk)).push(dump_answer(done)).push(EventView::Done),
            bytes + chunk,
        ),
{
    let read = before.push(EventView::Read(chunk));
    let answered = read.push(dump_answer(done));
    lemma_push(start, before, EventView::Read(chunk));
    assert(state_after(start, read).phase == Phase::Dumping(chunk));
    assert(actions_of(start, read).last() is Dump);
    lemma_push(start, read, dump_answer(done));
    assert(state_after(start, answered).phase == Phase::Writing(chunk.len()));
    assert(actions_of(start, answered).last() == ActionView::Write(chunk));
    lemma_push(start, answered, EventView::Done);
}

/// The events of a relay that goes well leave all the chunks relayed.
proof fn lemma_relay_events(start: State, chunks: Seq<Seq<u8>>, dumped: Seq<bool>)
    requires
        start.phase is Reading,
        start.total == 0,
        dumped.len() == chunks.len(),
        forall|i: int| 0 <= i < chunks.len() ==> 0 < (#[trigger] chunks[i]).len() <= BUFFER_SIZE,
    ensures
        relayed(start, relay_events(start.dump, chunks, dumped), chunks.flatten()),
    decreases chunks.len(),
{
    if chunks.len() > 0 {
        let rest = chunks.drop_last();
        let chunk = chunks.last();
        let before = relay_events(start.dump, rest, dumped.drop_last());
        lemma_relay_events(start, rest, dumped.drop_last());
        assert(chunks == rest.push(chunk));
        rest.lemma_flatten_push(chunk);
        if start.dump {
            lemma_round_dumped(start, before, rest.flatten(), chunk, dumped.last());
        } else {
            lemma_round_plain(start, before, rest.flatten(), chunk);
        }
    }
}

/// What is read is relayed, whatever becomes of the dumps. Let a transfer
/// read `chunks`, each of at least one byte and of no more than a buffer
/// holds, and let every write be done. Then all the chunks have been handed
/// to the destination, in their order and nothing else, and the count is
/// their length together; and when the source ends, the direction ends with
/// that count. This holds with dumping off and with dumping on, and with
/// any of the dumps failing: the stream and the count are the same in all
/// these cases.
pub proof fn lemma_relay_of_chunks(
    direction: Direction,
    dump: bool,
    to_sink: bool,
    chunks: Seq<Seq<u8>>,
    dumped: Seq<bool>,
)
    requires
        dumped.len() == chunks.len(),
        forall|i: int| 0 <= i < chunks.len() ==> 0 < (#[trigger] chunks[i]).len() <= BUFFER_SIZE,
    ensures
        ({
            let start = State::opened(direction, dump, to_sink);
            let events = relay_events(dump, chunks, dumped);
            let closing = events.push(EventView::Read(Seq::empty()));
            let count = chunks.flatten().len();
            &&& in_turn(start, events)
            &&& received(events) == chunks.flatten()
            &&& forwarded(actions_of(start, events)) == chunks.flatten()
            &&& written(events, actions_of(start, events)) == chunks.flatten()
            &&& state_after(start, events) == State { total: count, ..start }
            &&& in_turn(start, closing)
            &&& forwarded(actions_of(start, closing)) == chunks.flatten()
            &&& state_after(start, closing).phase == Phase::Finished(Ok(count))
            &&& actions_of(start, closing).last() == ActionView::Finish(Ok(count))
        }),
{
    let start = State::opened(direction, dump, to_sink);
    let events = relay_events(dump, chunks, dumped);
    lemma_relay_events(start, chunks, dumped);
    lemma_push(start, events, EventView::Read(Seq::empty()));
}

impl State {
    /// Nothing but a chunk that was read is ever dumped, and never an empty
    /// one: a dump is asked for only in answer to a read that returned
    /// between one byte and a buffer's worth, by a transfer that dumps, and
    /// its text is the dump of just those bytes under the direction's label.
    pub proof fn lemma_dump_input(self, event: EventView)
        requires
            self.next(event).1 is Dump,
        ensures
            self.phase is Reading,
            self.dump,
            event is Read,
            0 < event->Read_0.len() <= BUFFER_SIZE,
            self.next(event).1 == (ActionView::Dump {
                text: hex_dump(event->Read_0, self.direction.label()),
                to_sink: self.to_sink,
            }),
            self.next(event).0.phase == Phase::Dumping(event->Read_0),
    {
    }

    /// A dump that failed holds nothing up: the chunk is forwarded next, just
    /// as after a dump that was carried out.
    pub proof fn lemma_failed_dump_is_passed_over(self)
        requires
            self.phase is Dumping,
        ensures
            self.next(EventView::Failed) == self.next(EventView::Done),
            self.next(EventView::Failed) == (
                self.at(Phase::Writing(self.phase->Dumping_0.len())),
                ActionView::Write(self.phase->Dumping_0),
            ),
    {
    }

    /// The count only grows, and grows only when a write is reported done,
    /// by the length of the chunk that was written. What the transfer was
    /// opened with stays.
    pub proof fn lemma_count_grows(self, event: EventView)
        ensures
            self.next(event).0.total >= self.total,
            self.next(event).0.total != self.total ==> self.phase is Writing && event is Done,
            self.phase is Writing && event is Done ==> self.next(event).0.total == self.total
                + self.phase->Writing_0,
            self.next(event).0.direction == self.direction,
            self.next(event).0.dump == self.dump,
            self.next(event).0.to_sink == self.to_sink,
    {
    }

    /// A direction that has ended stays ended, with the result it ended
    /// with, and asks for nothing more.
    pub proof fn lemma_finished_stays(self, event: EventView)
        requires
            self.phase is Finished,
        ensures
            self.next(event).0 == self,
            self.next(event).1 == ActionView::Finish(self.phase->Finished_0),
    {
    }

    /// Only a failed read, a failed write or an answer that the pending
    /// action cannot have given ends a direction early; the end of the source
    /// ends it with its count. A failed dump ends nothing.
    pub proof fn lemma_how_a_direction_ends(self, event: EventView)
        requires
            !(self.phase is Finished),
            self.next(event).0.phase is Finished,
        ensures
            self.next(event).1 == ActionView::Finish(self.next(event).0.phase->Finished_0),
            match self.next(event).0.phase->Finished_0 {
                Ok(total) => total == self.total && self.phase is Reading && event
                    == EventView::Read(Seq::<u8>::empty()),
                Err(Failure::Read) => self.phase is Reading && event is Failed,
                Err(Failure::Write) => self.phase is Writing && event is Failed,
                Err(Failure::Protocol) => !self.expects(event),
            },
    {
        if self.phase is Reading && event is Read {
            assert(event->Read_0.len() == 0 ==> event->Read_0 =~= Seq::<u8>::empty());
        }
    }
}

} // verus!
