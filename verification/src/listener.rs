//! The decisions of the datagram listener. The listener reads the socket
//! and writes the hand-off queue; what it does after each of the two is
//! decided here. It never looks into a datagram.

use crate::queue::P2pUdpPacketReceived;
use vstd::prelude::*;
use vstd::slice::slice_subrange;
use vstd::slice::slice_to_vec;

verus! {

/// What happened to the listener.
#[derive(Debug, PartialEq, Eq)]
pub enum ListenerEvent {
    /// The socket delivered a datagram.
    Received { data: Vec<u8>, sender: String },
    /// Reading the socket failed.
    ReadFailed,
    /// The last datagram was queued.
    Queued,
    /// The queue has no reader any more.
    QueueClosed,
}

/// What the listener does next.
#[derive(Debug, PartialEq, Eq)]
pub enum ListenerAction {
    /// Put the packet on the hand-off queue, waiting while the queue is full.
    Forward(P2pUdpPacketReceived),
    /// Read the socket again.
    Receive,
    /// End the receive loop. Nothing restarts it.
    Stop,
}

/// The mathematical value of a [`ListenerAction`].
pub ghost enum ActionModel {
    Forward { data: Seq<u8>, sender: Seq<char> },
    Receive,
    Stop,
}

impl View for ListenerAction {
    type V = ActionModel;

    open spec fn view(&self) -> ActionModel {
        match *self {
            ListenerAction::Forward(packet) => ActionModel::Forward {
                data: packet.data@,
                sender: packet.sender@,
            },
            ListenerAction::Receive => ActionModel::Receive,
            ListenerAction::Stop => ActionModel::Stop,
        }
    }
}

/// The mathematical value of a [`ListenerEvent`].
pub ghost enum EventModel {
    Received { data: Seq<u8>, sender: Seq<char> },
    ReadFailed,
    Queued,
    QueueClosed,
}

impl View for ListenerEvent {
    type V = EventModel;

    open spec fn view(&self) -> EventModel {
        match *self {
            ListenerEvent::Received { data, sender } => EventModel::Received {
                data: data@,
                sender: sender@,
            },
            ListenerEvent::ReadFailed => EventModel::ReadFailed,
            ListenerEvent::Queued => EventModel::Queued,
            ListenerEvent::QueueClosed => EventModel::QueueClosed,
        }
    }
}

/// The action that follows an event: every datagram received is forwarded
/// as it is, with its sender; after it is queued the socket is read again;
/// a failed read or a closed queue ends the loop.
pub open spec fn spec_listener_step(event: EventModel) -> ActionModel {
    match event {
        EventModel::Received { data, sender } => ActionModel::Forward { data, sender },
        EventModel::Queued => ActionModel::Receive,
        EventModel::ReadFailed => ActionModel::Stop,
        EventModel::QueueClosed => ActionModel::Stop,
    }
}

/// Decides what the listener does after `event`.
pub fn listener_step(event: ListenerEvent) -> (action: ListenerAction)
    ensures
        action@ == spec_listener_step(event@),
{
    match event {
        ListenerEvent::Received { data, sender } => ListenerAction::Forward(
            P2pUdpPacketReceived { data, sender },
        ),
        ListenerEvent::Queued => ListenerAction::Receive,
        ListenerEvent::ReadFailed => ListenerAction::Stop,
        ListenerEvent::QueueClosed => ListenerAction::Stop,
    }
}

/// Copies the first `len` bytes of the receive buffer into a datagram of its own.
pub fn received_datagram(buffer: &[u8], len: usize) -> (data: Vec<u8>)
    requires
        len <= buffer@.len(),
    ensures
        data@ == buffer@.take(len as int),
{
    let data = slice_to_vec(slice_subrange(buffer, 0, len));
    assert(buffer@.subrange(0, len as int) =~= buffer@.take(len as int));
    data
}

} // verus!
