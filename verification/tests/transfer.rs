use rustproxy::config::DumpConfig;
use rustproxy::direction::Direction;
use rustproxy::hexdump::format_hex_dump;
use rustproxy::relay::{relay_outcome, RelayError};
use rustproxy::transfer::{Action, Event, Failure, Transfer, BUFFER_SIZE};

/// Feeds `events` to a freshly opened transfer and collects its answers.
fn run(direction: Direction, dump: bool, to_sink: bool, events: Vec<Event>) -> (Transfer, Vec<Action>) {
    let (mut transfer, first) = Transfer::open(direction, dump, to_sink);
    assert_eq!(first, Action::Read);
    let mut actions = Vec::new();
    for event in events {
        assert!(transfer.admits(&event));
        let (next, action) = transfer.step(event);
        transfer = next;
        actions.push(action);
    }
    (transfer, actions)
}

fn copy_of(action: &Action) -> Action {
    match action {
        Action::Read => Action::Read,
        Action::Dump { text, to_sink } => Action::Dump { text: text.clone(), to_sink: *to_sink },
        Action::Write(chunk) => Action::Write(chunk.clone()),
        Action::Finish(result) => Action::Finish(*result),
    }
}

/// Plays the part of the sockets: hands `chunks` to the transfer one read at
/// a time, carries out every dump and write, and returns what was written,
/// what was dumped and the result.
fn relay(
    direction: Direction,
    dump: bool,
    to_sink: bool,
    chunks: &[&[u8]],
) -> (Vec<u8>, String, Result<u64, Failure>, Vec<Action>) {
    let (mut transfer, mut action) = Transfer::open(direction, dump, to_sink);
    let mut written = Vec::new();
    let mut dumped = String::new();
    let mut log = Vec::new();
    let mut reads = chunks.iter();
    loop {
        let event = match &action {
            Action::Read => Event::Read(reads.next().map(|c| c.to_vec()).unwrap_or_default()),
            Action::Dump { text, .. } => {
                dumped.push_str(text);
                Event::Done
            }
            Action::Write(chunk) => {
                written.extend_from_slice(chunk);
                Event::Done
            }
            Action::Finish(result) => return (written, dumped, *result, log),
        };
        assert!(transfer.admits(&event));
        let (next, answer) = transfer.step(event);
        transfer = next;
        action = copy_of(&answer);
        log.push(answer);
    }
}

#[test]
fn opened_transfer_has_relayed_nothing() {
    let (transfer, action) = Transfer::open(Direction::ServerToClient, true, false);
    assert_eq!(action, Action::Read);
    assert_eq!(transfer.total(), 0);
    assert_eq!(transfer.direction(), Direction::ServerToClient);
    assert!(transfer.dumps());
    assert!(!transfer.is_finished());
}

#[test]
fn chunk_is_forwarded_at_once_without_dumping() {
    let (transfer, actions) = run(
        Direction::ClientToServer,
        false,
        true,
        vec![Event::Read(b"abc".to_vec())],
    );
    assert_eq!(actions, vec![Action::Write(b"abc".to_vec())]);
    assert_eq!(transfer.total(), 0);
}

#[test]
fn count_grows_when_the_write_is_done() {
    let (transfer, actions) = run(
        Direction::ClientToServer,
        false,
        false,
        vec![Event::Read(b"abc".to_vec()), Event::Done],
    );
    assert_eq!(actions, vec![Action::Write(b"abc".to_vec()), Action::Read]);
    assert_eq!(transfer.total(), 3);
    assert!(!transfer.is_finished());
}

#[test]
fn chunk_is_dumped_before_it_is_forwarded() {
    let (transfer, actions) = run(
        Direction::ServerToClient,
        true,
        true,
        vec![Event::Read(b"hi".to_vec()), Event::Done, Event::Done],
    );
    let text = format!("[SERVER \u{2192} CLIENT] 0000  68 69 {} |hi|\n", " ".repeat(43));
    assert_eq!(
        actions,
        vec![
            Action::Dump { text, to_sink: true },
            Action::Write(b"hi".to_vec()),
            Action::Read,
        ]
    );
    assert_eq!(transfer.total(), 2);
}

#[test]
fn dump_goes_to_the_console_alone_without_a_sink() {
    let (_, actions) = run(Direction::ClientToServer, true, false, vec![Event::Read(vec![0])]);
    match &actions[0] {
        Action::Dump { text, to_sink } => {
            assert!(!to_sink);
            assert_eq!(text, &format_hex_dump(&[0], "[CLIENT \u{2192} SERVER] "));
        }
        other => panic!("expected a dump, got {:?}", other),
    }
}

#[test]
fn end_of_source_finishes_with_the_count() {
    let (transfer, actions) = run(
        Direction::ClientToServer,
        false,
        false,
        vec![
            Event::Read(vec![1, 2, 3]),
            Event::Done,
            Event::Read(vec![4, 5]),
            Event::Done,
            Event::Read(vec![]),
        ],
    );
    assert_eq!(actions.last(), Some(&Action::Finish(Ok(5))));
    assert!(transfer.is_finished());
    assert_eq!(transfer.total(), 5);
}

#[test]
fn empty_read_is_never_dumped() {
    let (transfer, actions) = run(Direction::ClientToServer, true, true, vec![Event::Read(vec![])]);
    assert_eq!(actions, vec![Action::Finish(Ok(0))]);
    assert!(transfer.is_finished());
    let (_, dumped, result, log) = relay(Direction::ClientToServer, true, true, &[b"a", b"bc"]);
    assert_eq!(result, Ok(3));
    assert_eq!(log.iter().filter(|a| matches!(a, Action::Dump { .. })).count(), 2);
    assert_eq!(dumped.lines().count(), 2);
}

#[test]
fn failed_read_ends_the_direction() {
    let (transfer, actions) = run(
        Direction::ClientToServer,
        true,
        false,
        vec![Event::Read(vec![9]), Event::Done, Event::Done, Event::Failed],
    );
    assert_eq!(actions.last(), Some(&Action::Finish(Err(Failure::Read))));
    assert!(transfer.is_finished());
    assert_eq!(transfer.total(), 1);
}

#[test]
fn failed_dump_does_not_hold_the_chunk_back() {
    let (transfer, actions) = run(
        Direction::ClientToServer,
        true,
        true,
        vec![Event::Read(vec![9]), Event::Failed, Event::Done],
    );
    assert_eq!(actions.len(), 3);
    assert!(matches!(actions[0], Action::Dump { .. }));
    assert_eq!(actions[1], Action::Write(vec![9]));
    assert_eq!(actions[2], Action::Read);
    assert!(!transfer.is_finished());
    assert_eq!(transfer.total(), 1);
}

#[test]
fn failed_dump_is_answered_like_a_dump_that_was_done() {
    let (_, after_failure) = run(
        Direction::ServerToClient,
        true,
        false,
        vec![Event::Read(b"abc".to_vec()), Event::Failed],
    );
    let (_, after_success) = run(
        Direction::ServerToClient,
        true,
        false,
        vec![Event::Read(b"abc".to_vec()), Event::Done],
    );
    assert_eq!(after_failure, after_success);
    assert_eq!(after_failure[1], Action::Write(b"abc".to_vec()));
}

#[test]
fn failing_dumps_alter_neither_the_stream_nor_the_count() {
    let chunks: Vec<Vec<u8>> = vec![
        b"GET / HTTP/1.1\r\n".to_vec(),
        vec![0xaa; 4096],
        b"\r\n".to_vec(),
        vec![0x00; BUFFER_SIZE],
        b"tail".to_vec(),
    ];
    let all: Vec<u8> = chunks.concat();
    let borrowed: Vec<&[u8]> = chunks.iter().map(|c| c.as_slice()).collect();
    let (plain_written, _, plain_result, plain_log) =
        relay(Direction::ClientToServer, false, false, &borrowed);
    assert_eq!(plain_written, all);
    assert_eq!(plain_result, Ok(all.len() as u64));

    // Every way in which the five appends can fail or work.
    for failing in 0u32..32 {
        let (mut transfer, mut action) = Transfer::open(Direction::ClientToServer, true, true);
        let mut written = Vec::new();
        let mut log = Vec::new();
        let mut reads = chunks.iter();
        let mut dumps = 0;
        let result = loop {
            let event = match &action {
                Action::Read => Event::Read(reads.next().cloned().unwrap_or_default()),
                Action::Dump { .. } => {
                    dumps += 1;
                    if failing & (1 << (dumps - 1)) != 0 {
                        Event::Failed
                    } else {
                        Event::Done
                    }
                }
                Action::Write(chunk) => {
                    written.extend_from_slice(chunk);
                    Event::Done
                }
                Action::Finish(result) => break *result,
            };
            assert!(transfer.admits(&event));
            let (next, answer) = transfer.step(event);
            transfer = next;
            action = copy_of(&answer);
            log.push(answer);
        };
        assert_eq!(dumps, 5);
        assert_eq!(written, all);
        assert_eq!(result, Ok(all.len() as u64));
        assert_eq!(transfer.total(), all.len() as u64);
        let without_dumps: Vec<Action> =
            log.into_iter().filter(|a| !matches!(a, Action::Dump { .. })).collect();
        assert_eq!(without_dumps, plain_log);
    }
}

#[test]
fn failed_write_ends_the_direction_without_counting() {
    let (transfer, actions) = run(
        Direction::ServerToClient,
        false,
        false,
        vec![Event::Read(vec![1, 2]), Event::Done, Event::Read(vec![3]), Event::Failed],
    );
    assert_eq!(actions.last(), Some(&Action::Finish(Err(Failure::Write))));
    assert_eq!(transfer.total(), 2);
}

#[test]
fn answer_out_of_turn_ends_the_direction() {
    let (_, actions) = run(Direction::ClientToServer, false, false, vec![Event::Done]);
    assert_eq!(actions, vec![Action::Finish(Err(Failure::Protocol))]);
    let (_, actions) = run(
        Direction::ClientToServer,
        false,
        false,
        vec![Event::Read(vec![1]), Event::Read(vec![2])],
    );
    assert_eq!(actions[1], Action::Finish(Err(Failure::Protocol)));
    let (_, actions) = run(
        Direction::ClientToServer,
        true,
        false,
        vec![Event::Read(vec![1]), Event::Read(vec![2])],
    );
    assert_eq!(actions[1], Action::Finish(Err(Failure::Protocol)));
}

#[test]
fn read_may_fill_the_buffer_and_no_more() {
    assert_eq!(BUFFER_SIZE, 8192);
    let (_, actions) = run(
        Direction::ClientToServer,
        false,
        false,
        vec![Event::Read(vec![0; BUFFER_SIZE]), Event::Done],
    );
    assert_eq!(actions, vec![Action::Write(vec![0; BUFFER_SIZE]), Action::Read]);
    let (transfer, actions) = run(
        Direction::ClientToServer,
        false,
        false,
        vec![Event::Read(vec![0; BUFFER_SIZE + 1])],
    );
    assert_eq!(actions, vec![Action::Finish(Err(Failure::Protocol))]);
    assert_eq!(transfer.total(), 0);
}

#[test]
fn finished_direction_stays_finished() {
    let (transfer, _) = run(
        Direction::ClientToServer,
        false,
        false,
        vec![Event::Read(vec![7]), Event::Done, Event::Read(vec![])],
    );
    let (transfer, action) = transfer.step(Event::Read(vec![1, 2, 3]));
    assert_eq!(action, Action::Finish(Ok(1)));
    let (transfer, action) = transfer.step(Event::Done);
    assert_eq!(action, Action::Finish(Ok(1)));
    let (transfer, action) = transfer.step(Event::Failed);
    assert_eq!(action, Action::Finish(Ok(1)));
    assert_eq!(transfer.total(), 1);

    let (failed, _) = run(Direction::ClientToServer, false, false, vec![Event::Failed]);
    let (failed, action) = failed.step(Event::Read(vec![]));
    assert_eq!(action, Action::Finish(Err(Failure::Read)));
    assert!(failed.is_finished());
}

#[test]
fn written_bytes_are_the_bytes_read() {
    let chunks: Vec<Vec<u8>> = vec![
        (0u8..=255).collect(),
        vec![0xff; 17],
        b"\r\n".to_vec(),
        vec![0; BUFFER_SIZE],
    ];
    let borrowed: Vec<&[u8]> = chunks.iter().map(|c| c.as_slice()).collect();
    let all: Vec<u8> = chunks.concat();
    for dump in [false, true] {
        let (written, _, result, _) = relay(Direction::ClientToServer, dump, dump, &borrowed);
        assert_eq!(written, all);
        assert_eq!(result, Ok(all.len() as u64));
    }
}

#[test]
fn dumping_changes_nothing_of_what_is_relayed() {
    let chunks: [&[u8]; 3] = [b"GET / HTTP/1.1\r\n", b"Host: example\r\n", b"\r\n"];
    let (plain_written, plain_dump, plain_result, plain_log) =
        relay(Direction::ClientToServer, false, false, &chunks);
    let (loud_written, loud_dump, loud_result, loud_log) =
        relay(Direction::ClientToServer, true, true, &chunks);
    assert_eq!(plain_written, loud_written);
    assert_eq!(plain_result, loud_result);
    assert_eq!(plain_result, Ok(33));
    assert!(plain_dump.is_empty());
    assert!(!loud_dump.is_empty());
    let without_dumps: Vec<Action> =
        loud_log.into_iter().filter(|a| !matches!(a, Action::Dump { .. })).collect();
    assert_eq!(without_dumps, plain_log);
}

#[test]
fn count_is_the_sum_of_the_chunks_written() {
    let lengths = [1usize, 16, 17, 4096, 8192, 5];
    let chunks: Vec<Vec<u8>> = lengths.iter().map(|&n| vec![0x55; n]).collect();
    let borrowed: Vec<&[u8]> = chunks.iter().map(|c| c.as_slice()).collect();
    let (written, _, result, log) = relay(Direction::ServerToClient, false, false, &borrowed);
    let sum: usize = log
        .iter()
        .map(|a| match a {
            Action::Write(chunk) => chunk.len(),
            _ => 0,
        })
        .sum();
    assert_eq!(sum, lengths.iter().sum::<usize>());
    assert_eq!(result, Ok(sum as u64));
    assert_eq!(written.len(), sum);
}

#[test]
fn count_never_decreases() {
    let events = vec![
        Event::Read(vec![1; 10]),
        Event::Done,
        Event::Done,
        Event::Read(vec![2; 20]),
        Event::Done,
        Event::Failed,
        Event::Done,
        Event::Read(vec![3; 30]),
    ];
    let (mut transfer, _) = Transfer::open(Direction::ClientToServer, true, true);
    let mut seen = vec![transfer.total()];
    for event in events {
        let (next, _) = transfer.step(event);
        transfer = next;
        seen.push(transfer.total());
    }
    assert_eq!(seen, vec![0, 0, 0, 10, 10, 10, 10, 10, 10]);
}

#[test]
fn plain_request_and_response_are_relayed_and_counted() {
    let dumping = DumpConfig { client_to_server: false, server_to_client: false, to_sink: false };
    let (up, first_up) = dumping.transfer(Direction::ClientToServer);
    let (down, first_down) = dumping.transfer(Direction::ServerToClient);
    assert_eq!(first_up, Action::Read);
    assert_eq!(first_down, Action::Read);
    assert!(!up.dumps() && !down.dumps());

    let (written_up, dumped_up, result_up, log_up) =
        relay(Direction::ClientToServer, dumping.enabled(Direction::ClientToServer), false, &[b"GET /\r\n"]);
    let (written_down, dumped_down, result_down, log_down) = relay(
        Direction::ServerToClient,
        dumping.enabled(Direction::ServerToClient),
        false,
        &[b"HTTP/1.1 200 OK\r\n"],
    );
    assert_eq!(written_up, b"GET /\r\n");
    assert_eq!(written_down, b"HTTP/1.1 200 OK\r\n");
    assert!(dumped_up.is_empty() && dumped_down.is_empty());
    assert!(log_up.iter().chain(log_down.iter()).all(|a| !matches!(a, Action::Dump { .. })));
    assert_eq!(relay_outcome(result_up, result_down), Ok((7, 17)));
}

#[test]
fn twenty_bytes_are_dumped_client_to_server_only() {
    let dumping = DumpConfig { client_to_server: true, server_to_client: false, to_sink: false };
    let data: Vec<u8> = (0x00u8..=0x13u8).collect();
    let (written, dumped, result, _) = relay(
        Direction::ClientToServer,
        dumping.enabled(Direction::ClientToServer),
        dumping.to_sink,
        &[&data],
    );
    let lines: Vec<&str> = dumped.lines().collect();
    assert_eq!(lines.len(), 2);
    assert_eq!(
        lines[0],
        "[CLIENT \u{2192} SERVER] 0000  00 01 02 03 04 05 06 07  08 09 0a 0b 0c 0d 0e 0f  |................|"
    );
    assert_eq!(
        lines[1],
        format!("[CLIENT \u{2192} SERVER] 0010  10 11 12 13 {} |....|", " ".repeat(37))
    );
    assert!(dumped.ends_with("|\n"));
    assert_eq!(written, data);
    assert_eq!(result, Ok(20));

    let (_, dumped_back, result_back, _) = relay(
        Direction::ServerToClient,
        dumping.enabled(Direction::ServerToClient),
        dumping.to_sink,
        &[&data],
    );
    assert!(dumped_back.is_empty());
    assert_eq!(result_back, Ok(20));
}

#[test]
fn two_connections_share_one_sink() {
    let first: Vec<u8> = (0u8..40).collect();
    let second: Vec<u8> = (100u8..140).collect();
    let (mut a, _) = Transfer::open(Direction::ClientToServer, true, true);
    let (mut b, _) = Transfer::open(Direction::ServerToClient, true, true);
    let mut sink = String::new();
    let mut appended = Vec::new();

    // Both connections read before either dump is carried out, and the
    // second one's dump reaches the sink first.
    let (next_a, dump_a) = a.step(Event::Read(first.clone()));
    a = next_a;
    let (next_b, dump_b) = b.step(Event::Read(second.clone()));
    b = next_b;
    for action in [dump_b, dump_a] {
        match action {
            Action::Dump { text, to_sink } => {
                assert!(to_sink);
                sink.push_str(&text);
                appended.push(text);
            }
            other => panic!("expected a dump, got {:?}", other),
        }
    }
    let (_, write_b) = b.step(Event::Done);
    let (_, write_a) = a.step(Event::Done);
    assert_eq!(write_a, Action::Write(first.clone()));
    assert_eq!(write_b, Action::Write(second.clone()));

    let from_a = format_hex_dump(&first, "[CLIENT \u{2192} SERVER] ");
    let from_b = format_hex_dump(&second, "[SERVER \u{2192} CLIENT] ");
    assert_eq!(appended, vec![from_b.clone(), from_a.clone()]);
    assert_eq!(sink, format!("{}{}", from_b, from_a));
    let labels: Vec<&str> = sink.lines().map(|l| &l[..l.find(']').unwrap() + 1]).collect();
    assert_eq!(
        labels,
        vec![
            "[SERVER \u{2192} CLIENT]",
            "[SERVER \u{2192} CLIENT]",
            "[SERVER \u{2192} CLIENT]",
            "[CLIENT \u{2192} SERVER]",
            "[CLIENT \u{2192} SERVER]",
            "[CLIENT \u{2192} SERVER]",
        ]
    );
    for text in &appended {
        assert!(text.ends_with("|\n"));
    }
}

#[test]
fn one_direction_ends_without_ending_the_other() {
    let (up, _) = Transfer::open(Direction::ClientToServer, false, false);
    let (down, _) = Transfer::open(Direction::ServerToClient, false, false);
    let (up, ended) = up.step(Event::Failed);
    assert_eq!(ended, Action::Finish(Err(Failure::Read)));
    assert!(up.is_finished());
    assert!(!down.is_finished());
    let (down, action) = down.step(Event::Read(b"late".to_vec()));
    assert_eq!(action, Action::Write(b"late".to_vec()));
    let (down, _) = down.step(Event::Done);
    let (down, finished) = down.step(Event::Read(vec![]));
    assert_eq!(finished, Action::Finish(Ok(4)));
    assert!(down.is_finished());
    assert_eq!(
        relay_outcome(Err(Failure::Read), Ok(down.total())),
        Err(RelayError { direction: Direction::ClientToServer, failure: Failure::Read })
    );
}
