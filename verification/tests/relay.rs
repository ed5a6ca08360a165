use sni_proxy::reverse_proxy::{
    pipe_stream, CopyAction, CopyEvent, CopyFault, CopyState, Direction, RelayError, RelayState,
    BUFFER_SIZE,
};

const FORTH: Direction = Direction::ClientToBackend;
const BACK: Direction = Direction::BackendToClient;

fn feed(relay: RelayState, events: &[(Direction, CopyEvent)]) -> RelayState {
    let mut relay = relay;
    for (direction, event) in events {
        relay = pipe_stream(relay, *direction, *event).0;
    }
    relay
}

#[test]
fn the_buffer_holds_1024_bytes() {
    assert_eq!(BUFFER_SIZE, 1024);
}

#[test]
fn a_new_relay_reads_in_both_directions() {
    let relay = RelayState::new();
    assert_eq!(relay.client_to_backend, CopyState::Reading);
    assert_eq!(relay.backend_to_client, CopyState::Reading);
    assert_eq!(relay.pending(FORTH), CopyAction::Read { max: 1024 });
    assert_eq!(relay.pending(BACK), CopyAction::Read { max: 1024 });
    assert_eq!(relay.result(), None);
}

#[test]
fn what_was_read_is_written_before_the_next_read() {
    let relay = RelayState::new();
    let (relay, action) = pipe_stream(relay, FORTH, CopyEvent::Read { len: 4 });
    assert_eq!(action, CopyAction::Write { len: 4 });
    assert_eq!(relay.client_to_backend, CopyState::Writing { len: 4 });
    assert_eq!(relay.pending(FORTH), CopyAction::Write { len: 4 });
    let (relay, action) = pipe_stream(relay, FORTH, CopyEvent::Written);
    assert_eq!(action, CopyAction::Read { max: 1024 });
    assert_eq!(relay.client_to_backend, CopyState::Reading);
    let (relay, action) = pipe_stream(relay, FORTH, CopyEvent::Read { len: 1024 });
    assert_eq!(action, CopyAction::Write { len: 1024 });
    assert_eq!(relay.client_to_backend, CopyState::Writing { len: 1024 });
}

#[test]
fn a_read_of_one_byte_is_written_as_one_byte() {
    let (relay, action) = pipe_stream(RelayState::new(), BACK, CopyEvent::Read { len: 1 });
    assert_eq!(action, CopyAction::Write { len: 1 });
    assert_eq!(relay.backend_to_client, CopyState::Writing { len: 1 });
}

#[test]
fn the_end_of_the_source_stops_the_direction_without_a_fault() {
    let (relay, action) = pipe_stream(RelayState::new(), FORTH, CopyEvent::Read { len: 0 });
    assert_eq!(action, CopyAction::Stop);
    assert_eq!(relay.client_to_backend, CopyState::Stopped { fault: None });
    assert_eq!(relay.backend_to_client, CopyState::Reading);
    assert_eq!(relay.result(), None);
}

#[test]
fn a_failed_read_stops_the_direction_with_a_fault() {
    let (relay, action) = pipe_stream(RelayState::new(), BACK, CopyEvent::ReadFailed);
    assert_eq!(action, CopyAction::Stop);
    assert_eq!(relay.backend_to_client, CopyState::Stopped { fault: Some(CopyFault::Read) });
    assert_eq!(relay.client_to_backend, CopyState::Reading);
}

#[test]
fn a_failed_write_stops_the_direction_with_a_fault() {
    let relay = feed(RelayState::new(), &[(FORTH, CopyEvent::Read { len: 10 })]);
    let (relay, action) = pipe_stream(relay, FORTH, CopyEvent::WriteFailed);
    assert_eq!(action, CopyAction::Stop);
    assert_eq!(relay.client_to_backend, CopyState::Stopped { fault: Some(CopyFault::Write) });
}

#[test]
fn a_read_of_more_than_the_buffer_holds_is_unexpected() {
    let (relay, action) = pipe_stream(RelayState::new(), FORTH, CopyEvent::Read { len: 1025 });
    assert_eq!(action, CopyAction::Stop);
    assert_eq!(
        relay.client_to_backend,
        CopyState::Stopped { fault: Some(CopyFault::Unexpected) }
    );
    let (_, action) = pipe_stream(RelayState::new(), FORTH, CopyEvent::Read { len: usize::MAX });
    assert_eq!(action, CopyAction::Stop);
}

#[test]
fn an_event_out_of_turn_is_unexpected() {
    let unexpected = CopyState::Stopped { fault: Some(CopyFault::Unexpected) };
    let relay = RelayState::new();
    assert_eq!(pipe_stream(relay, FORTH, CopyEvent::Written).0.client_to_backend, unexpected);
    assert_eq!(pipe_stream(relay, FORTH, CopyEvent::WriteFailed).0.client_to_backend, unexpected);
    let writing = feed(relay, &[(BACK, CopyEvent::Read { len: 3 })]);
    assert_eq!(
        pipe_stream(writing, BACK, CopyEvent::Read { len: 3 }).0.backend_to_client,
        unexpected
    );
    assert_eq!(pipe_stream(writing, BACK, CopyEvent::Read { len: 0 }).0.backend_to_client, unexpected);
    assert_eq!(pipe_stream(writing, BACK, CopyEvent::ReadFailed).0.backend_to_client, unexpected);
}

#[test]
fn a_stopped_direction_stays_as_it_is() {
    let stopped = feed(RelayState::new(), &[(FORTH, CopyEvent::Read { len: 0 })]);
    for event in [
        CopyEvent::Read { len: 7 },
        CopyEvent::Read { len: 0 },
        CopyEvent::ReadFailed,
        CopyEvent::Written,
        CopyEvent::WriteFailed,
    ] {
        let (relay, action) = pipe_stream(stopped, FORTH, event);
        assert_eq!(relay, stopped);
        assert_eq!(action, CopyAction::Stop);
    }
    let failed = feed(RelayState::new(), &[(BACK, CopyEvent::ReadFailed)]);
    let (relay, action) = pipe_stream(failed, BACK, CopyEvent::Read { len: 5 });
    assert_eq!(relay, failed);
    assert_eq!(action, CopyAction::Stop);
}

#[test]
fn one_direction_does_not_move_the_other() {
    let relay = feed(RelayState::new(), &[(FORTH, CopyEvent::Read { len: 5 })]);
    let (relay, _) = pipe_stream(relay, BACK, CopyEvent::Read { len: 9 });
    assert_eq!(relay.client_to_backend, CopyState::Writing { len: 5 });
    assert_eq!(relay.backend_to_client, CopyState::Writing { len: 9 });
    let (relay, _) = pipe_stream(relay, BACK, CopyEvent::WriteFailed);
    assert_eq!(relay.client_to_backend, CopyState::Writing { len: 5 });
    let (relay, action) = pipe_stream(relay, FORTH, CopyEvent::Written);
    assert_eq!(action, CopyAction::Read { max: 1024 });
    assert_eq!(relay.backend_to_client, CopyState::Stopped { fault: Some(CopyFault::Write) });
}

#[test]
fn the_relay_is_over_only_when_both_directions_are() {
    let relay = RelayState::new();
    assert_eq!(relay.result(), None);
    let relay = feed(relay, &[(FORTH, CopyEvent::Read { len: 0 })]);
    assert_eq!(relay.result(), None);
    let relay = feed(relay, &[(BACK, CopyEvent::Read { len: 2 })]);
    assert_eq!(relay.result(), None);
    let relay = feed(relay, &[(BACK, CopyEvent::Written)]);
    assert_eq!(relay.result(), None);
    let relay = feed(relay, &[(BACK, CopyEvent::Read { len: 0 })]);
    assert_eq!(relay.result(), Some(Ok(())));
}

#[test]
fn a_fault_in_either_direction_fails_the_relay() {
    let forth_failed = feed(
        RelayState::new(),
        &[(FORTH, CopyEvent::Read { len: 8 }), (FORTH, CopyEvent::WriteFailed)],
    );
    assert_eq!(forth_failed.result(), None);
    let over = feed(forth_failed, &[(BACK, CopyEvent::Read { len: 0 })]);
    assert_eq!(
        over.result(),
        Some(Err(RelayError { direction: Direction::ClientToBackend, fault: CopyFault::Write }))
    );

    let back_failed = feed(
        RelayState::new(),
        &[(FORTH, CopyEvent::Read { len: 0 }), (BACK, CopyEvent::ReadFailed)],
    );
    assert_eq!(
        back_failed.result(),
        Some(Err(RelayError { direction: Direction::BackendToClient, fault: CopyFault::Read }))
    );
}

#[test]
fn of_two_faults_the_one_from_the_client_side_is_reported() {
    let relay = feed(
        RelayState::new(),
        &[
            (BACK, CopyEvent::Read { len: 8 }),
            (BACK, CopyEvent::WriteFailed),
            (FORTH, CopyEvent::ReadFailed),
        ],
    );
    assert_eq!(
        relay.result(),
        Some(Err(RelayError { direction: Direction::ClientToBackend, fault: CopyFault::Read }))
    );
}

#[test]
fn an_echo_of_ping_passes_four_bytes_each_way() {
    let mut writes: Vec<(Direction, usize)> = Vec::new();
    let mut relay = RelayState::new();
    let script = [
        (FORTH, CopyEvent::Read { len: 4 }),
        (FORTH, CopyEvent::Written),
        (BACK, CopyEvent::Read { len: 4 }),
        (BACK, CopyEvent::Written),
        (FORTH, CopyEvent::Read { len: 0 }),
        (BACK, CopyEvent::Read { len: 0 }),
    ];
    for (direction, event) in script {
        let (next, action) = pipe_stream(relay, direction, event);
        if let CopyAction::Write { len } = action {
            writes.push((direction, len));
        }
        relay = next;
    }
    assert_eq!(writes, vec![(FORTH, 4), (BACK, 4)]);
    assert_eq!(relay.result(), Some(Ok(())));
}

#[test]
fn a_long_stream_is_passed_on_chunk_by_chunk() {
    let chunks: [usize; 6] = [1024, 1024, 1, 512, 1023, 7];
    let mut relay = RelayState::new();
    let mut written: usize = 0;
    for len in chunks {
        let (next, action) = pipe_stream(relay, FORTH, CopyEvent::Read { len });
        assert_eq!(action, CopyAction::Write { len });
        written += len;
        let (next, action) = pipe_stream(next, FORTH, CopyEvent::Written);
        assert_eq!(action, CopyAction::Read { max: BUFFER_SIZE });
        relay = next;
    }
    assert_eq!(written, 3591);
    let (relay, action) = pipe_stream(relay, FORTH, CopyEvent::Read { len: 0 });
    assert_eq!(action, CopyAction::Stop);
    assert_eq!(relay.client_to_backend, CopyState::Stopped { fault: None });
}

/// Plays the driver of one direction over streams held in memory: the source
/// hands out `source` in reads of the sizes in `reads` (and then ends), and
/// the sink fails at the write numbered `failing_write`, if any.
fn pump(
    direction: Direction,
    source: &[u8],
    reads: &[usize],
    failing_write: Option<usize>,
) -> (Vec<u8>, RelayState) {
    let mut sink: Vec<u8> = Vec::new();
    let mut buffer = [0u8; BUFFER_SIZE];
    let mut offset = 0;
    let mut reads = reads.iter();
    let mut writes = 0;
    let mut relay = RelayState::new();
    for _ in 0..10_000 {
        let event = match relay.pending(direction) {
            CopyAction::Read { max } => {
                let wanted = reads.next().copied().unwrap_or(max);
                let len = wanted.min(max).min(source.len() - offset);
                buffer[..len].copy_from_slice(&source[offset..offset + len]);
                offset += len;
                CopyEvent::Read { len }
            }
            CopyAction::Write { len } => {
                writes += 1;
                if failing_write == Some(writes) {
                    CopyEvent::WriteFailed
                } else {
                    sink.extend_from_slice(&buffer[..len]);
                    CopyEvent::Written
                }
            }
            CopyAction::Stop => return (sink, relay),
        };
        relay = pipe_stream(relay, direction, event).0;
    }
    panic!("the direction did not stop");
}

fn sample(len: usize) -> Vec<u8> {
    (0..len).map(|i| (i * 31 % 251) as u8).collect()
}

#[test]
fn every_byte_arrives_once_and_in_order() {
    let source = sample(5000);
    let (sink, relay) = pump(FORTH, &source, &[1, 2, 3, 1024, 700, 1, 1024], None);
    assert_eq!(sink, source);
    assert_eq!(relay.client_to_backend, CopyState::Stopped { fault: None });

    let (sink, relay) = pump(BACK, &source, &[], None);
    assert_eq!(sink, source);
    assert_eq!(relay.backend_to_client, CopyState::Stopped { fault: None });
    assert_eq!(relay.client_to_backend, CopyState::Reading);
}

#[test]
fn an_empty_stream_passes_on_nothing() {
    let (sink, relay) = pump(FORTH, &[], &[], None);
    assert!(sink.is_empty());
    assert_eq!(relay.client_to_backend, CopyState::Stopped { fault: None });
}

#[test]
fn a_stream_of_exactly_one_buffer_is_passed_on_whole() {
    let source = sample(1024);
    let (sink, _) = pump(FORTH, &source, &[], None);
    assert_eq!(sink, source);
}

#[test]
fn after_a_failed_write_the_sink_holds_the_first_bytes_only() {
    let source = sample(3000);
    let (sink, relay) = pump(FORTH, &source, &[1000, 1000, 1000], Some(3));
    assert_eq!(sink, source[..2000].to_vec());
    assert_eq!(relay.client_to_backend, CopyState::Stopped { fault: Some(CopyFault::Write) });

    let (sink, _) = pump(FORTH, &source, &[], Some(1));
    assert!(sink.is_empty());
}
