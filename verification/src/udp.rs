//! Datagrams that arrive as raw UDP segments: the segment's header is read
//! with `pnet`, segments for other ports are passed over, and the payload of
//! each of the others goes to the sink.

use crate::sink::spec_notifications;
use crate::sink::spec_notified;
use crate::sink::spec_sink_after;
use crate::sink::Notification;
use crate::sink::NotificationModel;
use crate::sink::ReassemblySink;
use pnet::packet::udp::UdpPacket;
use pnet::packet::Packet;
use vstd::prelude::*;
use vstd::slice::slice_to_vec;

verus! {

/// Number of bytes in the header of a UDP segment.
pub const UDP_HEADER_LEN: usize = 8;

/// The port on which chunks are expected.
#[derive(Clone, Copy, Debug, PartialEq, Eq, Structural)]
pub struct UdpListenPort(pub u16);

/// `pnet::packet::udp::UdpPacket`: a UDP segment laid over a byte buffer.
#[verifier::external_type_specification]
#[verifier::external_body]
pub struct ExUdpPacket<'a>(UdpPacket<'a>);

/// The bytes of the buffer that a packet was laid over.
pub uninterp spec fn spec_packet_bytes(packet: UdpPacket<'_>) -> Seq<u8>;

/// `UdpPacket::new`: a packet over `segment` if it holds at least the eight
/// bytes of a UDP header, and nothing if it is shorter.
#[verifier::external_body]
fn udp_packet_new<'a>(segment: &'a [u8]) -> (packet: Option<UdpPacket<'a>>)
    ensures
        packet is Some <==> segment@.len() >= 8,
        packet is Some ==> spec_packet_bytes(packet->0) == segment@,
{
    UdpPacket::new(segment)
}

/// `UdpPacket::get_destination`: the third and fourth byte of the segment,
/// read as a big-endian number.
#[verifier::external_body]
fn udp_packet_destination(packet: &UdpPacket<'_>) -> (port: u16)
    requires
        spec_packet_bytes(*packet).len() >= 8,
    ensures
        port == spec_packet_bytes(*packet)[2] * 0x100 + spec_packet_bytes(*packet)[3],
{
    packet.get_destination()
}

/// `Packet::payload` on a `UdpPacket`: every byte of the segment after the
/// eight bytes of the header. The length field of the header plays no part.
#[verifier::external_body]
fn udp_packet_payload<'a>(packet: &'a UdpPacket<'_>) -> (payload: &'a [u8])
    requires
        spec_packet_bytes(*packet).len() >= 8,
    ensures
        payload@ == spec_packet_bytes(*packet).skip(8),
{
    packet.payload()
}

/// The destination port that the header of a segment names.
pub open spec fn spec_destination(segment: Seq<u8>) -> int
    recommends
        segment.len() >= UDP_HEADER_LEN,
{
    segment[2] * 0x100 + segment[3]
}

/// The datagram that a segment carries for `port`: what follows the header,
/// if the segment has a whole header and is addressed to `port`.
pub open spec fn spec_datagram_for_port(segment: Seq<u8>, port: u16) -> Option<Seq<u8>> {
    if segment.len() >= UDP_HEADER_LEN && spec_destination(segment) == port {
        Some(segment.skip(UDP_HEADER_LEN as int))
    } else {
        None
    }
}

/// The datagrams that `segments` carry for `port`, in the order of arrival.
pub open spec fn spec_addressed(segments: Seq<Seq<u8>>, port: u16) -> Seq<Seq<u8>>
    decreases segments.len(),
{
    if segments.len() == 0 {
        Seq::empty()
    } else {
        let earlier = spec_addressed(segments.drop_last(), port);
        match spec_datagram_for_port(segments.last(), port) {
            Some(datagram) => earlier.push(datagram),
            None => earlier,
        }
    }
}

/// The byte sequences that a list of segments holds.
pub open spec fn spec_segments(segments: Seq<Vec<u8>>) -> Seq<Seq<u8>> {
    segments.map_values(|s: Vec<u8>| s@)
}

/// Picks the datagram out of one raw UDP segment, if it is meant for `port`.
pub fn datagram_for_port(segment: &[u8], port: UdpListenPort) -> (datagram: Option<Vec<u8>>)
    ensures
        datagram is Some <==> spec_datagram_for_port(segment@, port.0) is Some,
        datagram is Some ==> (datagram->0)@ == spec_datagram_for_port(segment@, port.0)->0,
{
    match udp_packet_new(segment) {
        Some(packet) => {
            if udp_packet_destination(&packet) == port.0 {
                Some(slice_to_vec(udp_packet_payload(&packet)))
            } else {
                None
            }
        },
        None => None,
    }
}

/// Takes the raw UDP segments that arrived, in order: those that are too
/// short for a header or are addressed to another port are passed over, and
/// the datagram of each of the others is handed to the sink. Returns the
/// sink's notifications, one for each datagram that was handed over.
pub fn poll_udp_packets(
    sink: &mut ReassemblySink,
    segments: &Vec<Vec<u8>>,
    udp_listen_port: UdpListenPort,
) -> (notifications: Vec<Notification>)
    ensures
        final(sink)@ == spec_sink_after(
            old(sink)@,
            spec_addressed(spec_segments(segments@), udp_listen_port.0),
        ),
        spec_notified(notifications@) == spec_notifications(
            old(sink)@,
            spec_addressed(spec_segments(segments@), udp_listen_port.0),
        ),
{
    let ghost all = spec_segments(segments@);
    let ghost start = sink@;
    let ghost port = udp_listen_port.0;
    let mut notifications: Vec<Notification> = Vec::new();
    let mut i: usize = 0;
    assert(all.take(0) =~= Seq::<Seq<u8>>::empty());
    assert(spec_notified(notifications@) =~= Seq::<NotificationModel>::empty());
    while i < segments.len()
        invariant
            i <= segments@.len(),
            all == spec_segments(segments@),
            port == udp_listen_port.0,
            sink@ == spec_sink_after(start, spec_addressed(all.take(i as int), port)),
            spec_notified(notifications@) == spec_notifications(
                start,
                spec_addressed(all.take(i as int), port),
            ),
        decreases segments@.len() - i,
    {
        let ghost before = notifications@;
        let ghost earlier = spec_addressed(all.take(i as int), port);
        proof {
            let next = all.take(i + 1);
            assert(next.drop_last() =~= all.take(i as int));
            assert(next.last() == segments@[i as int]@);
        }
        match datagram_for_port(segments[i].as_slice(), udp_listen_port) {
            Some(datagram) => {
                let notification = sink.accept(datagram.as_slice());
                notifications.push(notification);
                proof {
                    let later = spec_addressed(all.take(i + 1), port);
                    assert(later == earlier.push(datagram@));
                    assert(later.drop_last() =~= earlier);
                    assert(later.last() == datagram@);
                    assert(spec_notified(notifications@) =~= spec_notified(before).push(
                        notification@,
                    ));
                }
            },
            None => {},
        }
        i = i + 1;
    }
    assert(all.take(i as int) =~= all);
    notifications
}

} // verus!
