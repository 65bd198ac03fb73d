use chunk_transfer::sink::transition;
use chunk_transfer::sink::Notification;
use chunk_transfer::sink::ReassemblySink;
use chunk_transfer::sink::TransferState;
use chunk_transfer::sink::settle;
use chunk_transfer::sink::SHORT_PAYLOAD;
use chunk_transfer::wire::encode_chunk;
use chunk_transfer::wire::encode_end_marker;
use chunk_transfer::wire::DecodedChunk;

fn short_payload() -> Notification {
    Notification::TransferError { message: String::from("short payload") }
}

#[test]
fn error_message_is_short_payload() {
    assert_eq!(SHORT_PAYLOAD, "short payload");
}

#[test]
fn a_completed_transfer_settles_to_idle() {
    assert_eq!(settle(TransferState::Completed), TransferState::Idle);
    assert_eq!(settle(TransferState::Idle), TransferState::Idle);
    assert_eq!(settle(TransferState::Accumulating), TransferState::Accumulating);
}

#[test]
fn new_sink_is_idle_and_empty() {
    let sink = ReassemblySink::new();
    assert_eq!(sink.state(), TransferState::Idle);
    assert_eq!(sink.buffered_len(), 0);
    assert!(sink.buffered().is_empty());
}

#[test]
fn concrete_scenario_yields_abcd() {
    let mut sink = ReassemblySink::new();
    let datagrams: Vec<Vec<u8>> = vec![
        vec![0x00, 0x00, 0x00, 0x00, 0x41, 0x42],
        vec![0x00, 0x00, 0x00, 0x01, 0x43, 0x44],
        vec![0xFF, 0xFF, 0xFF, 0xFF],
    ];
    let notifications = sink.process_all(&datagrams);
    assert_eq!(
        notifications,
        vec![
            Notification::ChunkReceived { sequence_number: 0, byte_length: 2 },
            Notification::ChunkReceived { sequence_number: 1, byte_length: 2 },
            Notification::TransferComplete { data: b"ABCD".to_vec() },
        ]
    );
    assert_eq!(sink.state(), TransferState::Idle);
    assert_eq!(sink.buffered_len(), 0);
}

#[test]
fn concrete_scenario_with_a_two_byte_datagram_in_between() {
    let mut sink = ReassemblySink::new();
    let datagrams: Vec<Vec<u8>> = vec![
        vec![0x00, 0x00, 0x00, 0x00, 0x41, 0x42],
        vec![0x00, 0x00, 0x00, 0x01, 0x43, 0x44],
        vec![0x00, 0x03],
        vec![0xFF, 0xFF, 0xFF, 0xFF],
    ];
    let notifications = sink.process_all(&datagrams);
    assert_eq!(notifications.len(), 4);
    assert_eq!(notifications[2], short_payload());
    assert_eq!(notifications[3], Notification::TransferComplete { data: b"ABCD".to_vec() });
}

#[test]
fn round_trip_joins_payloads_in_arrival_order() {
    let payloads: Vec<Vec<u8>> =
        vec![b"first ".to_vec(), vec![], b"second".to_vec(), vec![0, 255, 7]];
    let mut datagrams: Vec<Vec<u8>> = Vec::new();
    let mut expected: Vec<u8> = Vec::new();
    for (i, p) in payloads.iter().enumerate() {
        datagrams.push(encode_chunk(i as u32, p));
        expected.extend_from_slice(p);
    }
    datagrams.push(encode_end_marker());
    let mut sink = ReassemblySink::new();
    let notifications = sink.process_all(&datagrams);
    assert_eq!(notifications.len(), payloads.len() + 1);
    for (i, p) in payloads.iter().enumerate() {
        assert_eq!(
            notifications[i],
            Notification::ChunkReceived { sequence_number: i as u32, byte_length: p.len() }
        );
    }
    assert_eq!(notifications[payloads.len()], Notification::TransferComplete { data: expected });
}

#[test]
fn arrival_order_decides_not_the_sequence_number() {
    let mut sink = ReassemblySink::new();
    let datagrams =
        vec![encode_chunk(5, b"late"), encode_chunk(0, b"early"), encode_end_marker()];
    let notifications = sink.process_all(&datagrams);
    assert_eq!(notifications[2], Notification::TransferComplete { data: b"lateearly".to_vec() });
}

#[test]
fn duplicate_chunks_are_appended_twice() {
    let mut sink = ReassemblySink::new();
    let datagrams = vec![encode_chunk(1, b"x"), encode_chunk(1, b"x"), encode_end_marker()];
    let notifications = sink.process_all(&datagrams);
    assert_eq!(notifications[2], Notification::TransferComplete { data: b"xx".to_vec() });
}

#[test]
fn empty_transfer_completes_with_no_bytes() {
    let mut sink = ReassemblySink::new();
    let notification = sink.accept(&encode_end_marker());
    assert_eq!(notification, Notification::TransferComplete { data: vec![] });
    assert_eq!(sink.state(), TransferState::Idle);
}

#[test]
fn malformed_datagram_leaves_buffer_and_state_alone() {
    let mut sink = ReassemblySink::new();
    assert_eq!(sink.accept(&[1, 2, 3]), short_payload());
    assert_eq!(sink.state(), TransferState::Idle);
    assert_eq!(sink.buffered_len(), 0);
    sink.accept(&encode_chunk(0, b"AB"));
    assert_eq!(sink.accept(&[]), short_payload());
    assert_eq!(sink.state(), TransferState::Accumulating);
    assert_eq!(sink.buffered(), b"AB");
    sink.accept(&encode_chunk(1, b"CD"));
    assert_eq!(
        sink.accept(&encode_end_marker()),
        Notification::TransferComplete { data: b"ABCD".to_vec() }
    );
}

#[test]
fn one_error_for_each_malformed_datagram() {
    let mut sink = ReassemblySink::new();
    let datagrams: Vec<Vec<u8>> = vec![
        vec![9],
        encode_chunk(0, b"a"),
        vec![],
        vec![1, 2, 3],
        encode_chunk(1, b"b"),
        encode_end_marker(),
        vec![0xFF, 0xFF, 0xFF],
    ];
    let notifications = sink.process_all(&datagrams);
    assert_eq!(notifications.len(), datagrams.len());
    let errors = notifications.iter().filter(|n| **n == short_payload()).count();
    assert_eq!(errors, 4);
    for (d, n) in datagrams.iter().zip(notifications.iter()) {
        assert_eq!(d.len() < 4, matches!(n, Notification::TransferError { .. }));
    }
    assert_eq!(notifications[5], Notification::TransferComplete { data: b"ab".to_vec() });
}

#[test]
fn second_transfer_holds_only_its_own_data() {
    let mut sink = ReassemblySink::new();
    let first = vec![encode_chunk(0, b"old"), encode_chunk(1, b"data"), encode_end_marker()];
    let second = vec![encode_chunk(0, b"new"), encode_end_marker()];
    let a = sink.process_all(&first);
    assert_eq!(a[2], Notification::TransferComplete { data: b"olddata".to_vec() });
    let b = sink.process_all(&second);
    assert_eq!(
        b,
        vec![
            Notification::ChunkReceived { sequence_number: 0, byte_length: 3 },
            Notification::TransferComplete { data: b"new".to_vec() },
        ]
    );
    let mut fresh = ReassemblySink::new();
    assert_eq!(fresh.process_all(&second), b);
}

#[test]
fn two_end_markers_in_a_row_give_an_empty_second_transfer() {
    let mut sink = ReassemblySink::new();
    let datagrams = vec![encode_chunk(0, b"z"), encode_end_marker(), encode_end_marker()];
    let notifications = sink.process_all(&datagrams);
    assert_eq!(notifications[1], Notification::TransferComplete { data: b"z".to_vec() });
    assert_eq!(notifications[2], Notification::TransferComplete { data: vec![] });
}

#[test]
fn state_follows_the_chunks() {
    let mut sink = ReassemblySink::new();
    assert_eq!(sink.state(), TransferState::Idle);
    sink.accept(&encode_chunk(0, &[]));
    assert_eq!(sink.state(), TransferState::Accumulating);
    assert_eq!(sink.buffered_len(), 0);
    sink.accept(&encode_chunk(1, b"abc"));
    assert_eq!(sink.state(), TransferState::Accumulating);
    assert_eq!(sink.buffered_len(), 3);
    sink.accept(&encode_end_marker());
    assert_eq!(sink.state(), TransferState::Idle);
    assert_eq!(sink.buffered_len(), 0);
}

#[test]
fn transition_table() {
    let data = DecodedChunk::DataChunk { sequence_number: 0, payload: vec![1] };
    let end = DecodedChunk::EndOfTransmission;
    let bad = DecodedChunk::MalformedChunk;
    assert_eq!(transition(TransferState::Idle, &data), TransferState::Accumulating);
    assert_eq!(transition(TransferState::Accumulating, &data), TransferState::Accumulating);
    assert_eq!(transition(TransferState::Idle, &end), TransferState::Completed);
    assert_eq!(transition(TransferState::Accumulating, &end), TransferState::Completed);
    assert_eq!(transition(TransferState::Idle, &bad), TransferState::Idle);
    assert_eq!(transition(TransferState::Accumulating, &bad), TransferState::Accumulating);
}

#[test]
fn handle_image_chunks_appends_at_the_end() {
    let mut sink = ReassemblySink::new();
    sink.handle_image_chunks(b"ab");
    sink.handle_image_chunks(b"");
    sink.handle_image_chunks(b"cd");
    assert_eq!(sink.buffered(), b"abcd");
    assert_eq!(sink.state(), TransferState::Accumulating);
    assert_eq!(sink.complete(), b"abcd".to_vec());
    assert_eq!(sink.buffered_len(), 0);
    assert_eq!(sink.state(), TransferState::Idle);
}

#[test]
fn consume_reports_the_length_of_the_payload() {
    let mut sink = ReassemblySink::new();
    let n = sink.consume(DecodedChunk::DataChunk { sequence_number: 42, payload: vec![0; 1000] });
    assert_eq!(n, Notification::ChunkReceived { sequence_number: 42, byte_length: 1000 });
    assert_eq!(sink.buffered_len(), 1000);
}

#[test]
fn process_all_of_nothing_changes_nothing() {
    let mut sink = ReassemblySink::new();
    sink.accept(&encode_chunk(0, b"keep"));
    let notifications = sink.process_all(&Vec::new());
    assert!(notifications.is_empty());
    assert_eq!(sink.buffered(), b"keep");
}

#[test]
fn buffer_holds_the_payloads_since_the_last_end_marker() {
    let mut sink = ReassemblySink::new();
    let datagrams: Vec<Vec<u8>> = vec![
        encode_chunk(0, b"gone"),
        encode_end_marker(),
        encode_chunk(0, b"ab"),
        vec![1],
        encode_chunk(1, b""),
        encode_chunk(2, b"cde"),
    ];
    sink.process_all(&datagrams);
    assert_eq!(sink.buffered(), b"abcde");
    assert_eq!(sink.buffered_len(), 2 + 0 + 3);
    assert_eq!(sink.state(), TransferState::Accumulating);
}
