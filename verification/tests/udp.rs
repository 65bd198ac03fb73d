use chunk_transfer::sink::Notification;
use chunk_transfer::sink::ReassemblySink;
use chunk_transfer::udp::datagram_for_port;
use chunk_transfer::udp::poll_udp_packets;
use chunk_transfer::udp::UdpListenPort;
use chunk_transfer::udp::UDP_HEADER_LEN;

fn segment(destination: u16, payload: &[u8]) -> Vec<u8> {
    let length = (8 + payload.len()) as u16;
    let mut bytes = vec![0xC0, 0x01];
    bytes.extend_from_slice(&destination.to_be_bytes());
    bytes.extend_from_slice(&length.to_be_bytes());
    bytes.extend_from_slice(&[0, 0]);
    bytes.extend_from_slice(payload);
    bytes
}

#[test]
fn header_is_eight_bytes() {
    assert_eq!(UDP_HEADER_LEN, 8);
}

#[test]
fn datagram_is_what_follows_the_header() {
    let bytes = segment(12345, &[0, 0, 0, 0, 0x41, 0x42]);
    assert_eq!(
        datagram_for_port(&bytes, UdpListenPort(12345)),
        Some(vec![0, 0, 0, 0, 0x41, 0x42])
    );
}

#[test]
fn destination_is_read_big_endian() {
    let bytes = segment(0x0102, &[7]);
    assert_eq!(datagram_for_port(&bytes, UdpListenPort(0x0102)), Some(vec![7]));
    assert_eq!(datagram_for_port(&bytes, UdpListenPort(0x0201)), None);
}

#[test]
fn segment_for_another_port_is_passed_over() {
    let bytes = segment(8080, &[1, 2, 3, 4, 5]);
    assert_eq!(datagram_for_port(&bytes, UdpListenPort(12345)), None);
}

#[test]
fn segment_without_a_whole_header_is_passed_over() {
    assert_eq!(datagram_for_port(&[], UdpListenPort(0)), None);
    assert_eq!(datagram_for_port(&[0, 0, 0, 0, 0, 0, 0], UdpListenPort(0)), None);
}

#[test]
fn header_alone_carries_an_empty_datagram() {
    let bytes = segment(9, &[]);
    assert_eq!(bytes.len(), 8);
    assert_eq!(datagram_for_port(&bytes, UdpListenPort(9)), Some(vec![]));
}

#[test]
fn length_field_plays_no_part() {
    let mut bytes = segment(9, &[1, 2, 3]);
    bytes[4] = 0;
    bytes[5] = 8;
    assert_eq!(datagram_for_port(&bytes, UdpListenPort(9)), Some(vec![1, 2, 3]));
}

#[test]
fn poll_hands_the_addressed_datagrams_to_the_sink() {
    let port = UdpListenPort(12345);
    let segments = vec![
        segment(12345, &[0, 0, 0, 0, 0x41, 0x42]),
        segment(8080, &[0, 0, 0, 9, 0x58]),
        vec![1, 2, 3],
        segment(12345, &[0, 0]),
        segment(12345, &[0, 0, 0, 1, 0x43, 0x44]),
        segment(12345, &[0xFF, 0xFF, 0xFF, 0xFF]),
    ];
    let mut sink = ReassemblySink::new();
    let notifications = poll_udp_packets(&mut sink, &segments, port);
    assert_eq!(
        notifications,
        vec![
            Notification::ChunkReceived { sequence_number: 0, byte_length: 2 },
            Notification::TransferError { message: String::from("short payload") },
            Notification::ChunkReceived { sequence_number: 1, byte_length: 2 },
            Notification::TransferComplete { data: b"ABCD".to_vec() },
        ]
    );
}

#[test]
fn poll_goes_on_after_an_end_marker() {
    let port = UdpListenPort(1);
    let segments = vec![
        segment(1, &[0, 0, 0, 0, 1]),
        segment(1, &[0xFF, 0xFF, 0xFF, 0xFF]),
        segment(1, &[0, 0, 0, 0, 2]),
    ];
    let mut sink = ReassemblySink::new();
    let notifications = poll_udp_packets(&mut sink, &segments, port);
    assert_eq!(notifications.len(), 3);
    assert_eq!(notifications[1], Notification::TransferComplete { data: vec![1] });
    assert_eq!(sink.buffered(), &[2]);
}
