//! The hand-off queue between the listener and the sink: a bounded channel
//! of `tokio`. The listener is its only writer, the sink its only reader.

use crate::sink::spec_notifications;
use crate::sink::spec_notified;
use crate::sink::spec_sink_after;
use crate::sink::Notification;
use crate::sink::NotificationModel;
use crate::sink::ReassemblySink;
use tokio::sync::mpsc::Receiver;
use vstd::prelude::*;

verus! {

/// Number of datagrams that the hand-off queue holds before the listener has to wait.
pub const HANDOFF_QUEUE_CAPACITY: usize = 100;

/// One datagram as the listener received it, with the address it came from.
#[derive(Debug, PartialEq, Eq)]
pub struct P2pUdpPacketReceived {
    pub data: Vec<u8>,
    pub sender: String,
}

/// `tokio::sync::mpsc::Receiver`: the reading end of a bounded channel.
#[verifier::external_type_specification]
#[verifier::external_body]
#[verifier::reject_recursive_types(T)]
pub struct ExReceiver<T>(Receiver<T>);

/// `Receiver::try_recv`: the next value of the channel if one is waiting,
/// nothing if the channel is empty or closed. What is waiting depends on
/// the writer, so nothing is said of the result.
#[verifier::external_body]
fn try_recv_packet(receiver: &mut Receiver<P2pUdpPacketReceived>) -> (packet: Option<
    P2pUdpPacketReceived,
>) {
    match receiver.try_recv() {
        Ok(packet) => Some(packet),
        Err(_) => None,
    }
}

/// The bytes of each packet, in the same order.
pub open spec fn spec_packet_data(packets: Seq<P2pUdpPacketReceived>) -> Seq<Seq<u8>> {
    packets.map_values(|p: P2pUdpPacketReceived| p.data@)
}

/// Takes the packets that wait in the queue, first in first out, and stops
/// when the queue is empty or `limit` packets were taken, so that a call
/// ends even while the listener keeps the queue filled.
pub fn poll_p2p_udp_packets(receiver: &mut Receiver<P2pUdpPacketReceived>, limit: usize) -> (packets:
    Vec<P2pUdpPacketReceived>)
    ensures
        packets@.len() <= limit,
{
    let mut packets: Vec<P2pUdpPacketReceived> = Vec::new();
    while packets.len() < limit
        invariant
            packets@.len() <= limit,
        decreases limit - packets@.len(),
    {
        match try_recv_packet(receiver) {
            Some(packet) => {
                packets.push(packet);
            },
            None => {
                break;
            },
        }
    }
    packets
}

/// Hands the bytes of each packet to the sink, in the order given, and
/// returns one notification for each.
pub fn process_packets(sink: &mut ReassemblySink, packets: &Vec<P2pUdpPacketReceived>) -> (notifications:
    Vec<Notification>)
    ensures
        final(sink)@ == spec_sink_after(old(sink)@, spec_packet_data(packets@)),
        spec_notified(notifications@) == spec_notifications(
            old(sink)@,
            spec_packet_data(packets@),
        ),
        notifications@.len() == packets@.len(),
{
    let ghost all = spec_packet_data(packets@);
    let ghost start = sink@;
    let mut notifications: Vec<Notification> = Vec::new();
    let mut i: usize = 0;
    assert(all.take(0) =~= Seq::<Seq<u8>>::empty());
    assert(spec_notified(notifications@) =~= Seq::<NotificationModel>::empty());
    while i < packets.len()
        invariant
            i <= packets@.len(),
            all == spec_packet_data(packets@),
            notifications@.len() == i,
            sink@ == spec_sink_after(start, all.take(i as int)),
            spec_notified(notifications@) == spec_notifications(start, all.take(i as int)),
        decreases packets@.len() - i,
    {
        let ghost before = notifications@;
        let notification = sink.accept(packets[i].data.as_slice());
        notifications.push(notification);
        proof {
            let next = all.take(i + 1);
            assert(next.drop_last() =~= all.take(i as int));
            assert(next.last() == packets@[i as int].data@);
            assert(spec_notified(notifications@) =~= spec_notified(before).push(notification@));
        }
        i = i + 1;
    }
    assert(all.take(i as int) =~= all);
    notifications
}

/// Drains the hand-off queue into the sink: takes at most `limit` waiting
/// packets and has the sink consume them in the order in which they were
/// queued. Whatever was waiting, the sink ends up as after some run of at
/// most `limit` datagrams, and the notifications are those of that run.
pub fn drain_into_sink(
    receiver: &mut Receiver<P2pUdpPacketReceived>,
    sink: &mut ReassemblySink,
    limit: usize,
) -> (notifications: Vec<Notification>)
    ensures
        notifications@.len() <= limit,
        exists|datagrams: Seq<Seq<u8>>|
            datagrams.len() == notifications@.len() && final(sink)@ == #[trigger] spec_sink_after(
                old(sink)@,
                datagrams,
            ) && spec_notified(notifications@) == spec_notifications(old(sink)@, datagrams),
{
    let packets = poll_p2p_udp_packets(receiver, limit);
    let notifications = process_packets(sink, &packets);
    assert(spec_packet_data(packets@).len() == notifications@.len());
    notifications
}

} // verus!
