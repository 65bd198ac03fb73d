//! The reassembly sink: it consumes datagrams in arrival order, appends each
//! payload to the buffer of the current transfer, and hands the buffer out
//! when the end marker arrives.

use crate::wire::decode_chunk;
use crate::wire::spec_decode;
use crate::wire::ChunkModel;
use crate::wire::DecodedChunk;
use vstd::prelude::*;

verus! {

/// Where a transfer stands.
#[derive(Clone, Copy, Debug, PartialEq, Eq, Structural)]
pub enum TransferState {
    /// Nothing has been appended since the last completion.
    Idle,
    /// At least one data chunk has been appended.
    Accumulating,
    /// The end marker was seen and the buffer was handed out. A sink passes
    /// through this state and is idle again at once.
    Completed,
}

/// What the sink reports for each datagram it consumes.
#[derive(Debug, PartialEq, Eq)]
pub enum Notification {
    /// A data chunk was appended.
    ChunkReceived { sequence_number: u32, byte_length: usize },
    /// The transfer ended; `data` is everything that was appended, in arrival order.
    TransferComplete { data: Vec<u8> },
    /// A datagram was dropped.
    TransferError { message: String },
}

/// The mathematical value of a [`Notification`].
pub ghost enum NotificationModel {
    ChunkReceived { sequence_number: u32, byte_length: nat },
    TransferComplete { data: Seq<u8> },
    TransferError { message: Seq<char> },
}

impl View for Notification {
    type V = NotificationModel;

    open spec fn view(&self) -> NotificationModel {
        match *self {
            Notification::ChunkReceived { sequence_number, byte_length } => {
                NotificationModel::ChunkReceived {
                    sequence_number,
                    byte_length: byte_length as nat,
                }
            },
            Notification::TransferComplete { data } => NotificationModel::TransferComplete {
                data: data@,
            },
            Notification::TransferError { message } => NotificationModel::TransferError {
                message: message@,
            },
        }
    }
}

/// The mathematical value of a [`ReassemblySink`].
pub ghost struct SinkModel {
    pub buffer: Seq<u8>,
    pub state: TransferState,
}

impl SinkModel {
    /// The sink between transfers: an empty buffer, idle.
    pub open spec fn idle() -> SinkModel {
        SinkModel { buffer: Seq::empty(), state: TransferState::Idle }
    }

    /// What holds of every sink at rest: it is never left in `Completed`,
    /// and an idle sink holds no bytes.
    pub open spec fn wf(self) -> bool {
        &&& !(self.state is Completed)
        &&& self.state is Idle ==> self.buffer.len() == 0
    }
}

/// The message of the error that a datagram without a full header gives.
pub const SHORT_PAYLOAD: &'static str = "short payload";

/// The characters of [`SHORT_PAYLOAD`].
pub open spec fn spec_short_payload() -> Seq<char> {
    SHORT_PAYLOAD@
}

/// The state that a chunk leads to: data starts or continues accumulation,
/// the end marker completes the transfer, a malformed chunk changes nothing.
pub open spec fn spec_transition(state: TransferState, chunk: ChunkModel) -> TransferState {
    match chunk {
        ChunkModel::Data { .. } => TransferState::Accumulating,
        ChunkModel::End => TransferState::Completed,
        ChunkModel::Malformed => state,
    }
}

/// The state in which a sink rests: a completed transfer is idle again.
pub open spec fn spec_settle(state: TransferState) -> TransferState {
    if state is Completed {
        TransferState::Idle
    } else {
        state
    }
}

/// The buffer after a chunk: data is appended at the end, whatever its number;
/// the end marker empties the buffer; a malformed chunk leaves it alone.
pub open spec fn spec_buffer_after(buffer: Seq<u8>, chunk: ChunkModel) -> Seq<u8> {
    match chunk {
        ChunkModel::Data { payload, .. } => buffer + payload,
        ChunkModel::End => Seq::empty(),
        ChunkModel::Malformed => buffer,
    }
}

/// The notification that a chunk gives from a sink that holds `buffer`.
pub open spec fn spec_notification(buffer: Seq<u8>, chunk: ChunkModel) -> NotificationModel {
    match chunk {
        ChunkModel::Data { sequence_number, payload } => NotificationModel::ChunkReceived {
            sequence_number,
            byte_length: payload.len(),
        },
        ChunkModel::End => NotificationModel::TransferComplete { data: buffer },
        ChunkModel::Malformed => NotificationModel::TransferError {
            message: spec_short_payload(),
        },
    }
}

/// The sink after it has consumed one decoded chunk.
pub open spec fn spec_step(sink: SinkModel, chunk: ChunkModel) -> SinkModel {
    SinkModel {
        buffer: spec_buffer_after(sink.buffer, chunk),
        state: spec_settle(spec_transition(sink.state, chunk)),
    }
}

/// The sink after it has consumed `datagrams`, first to last.
pub open spec fn spec_sink_after(start: SinkModel, datagrams: Seq<Seq<u8>>) -> SinkModel
    decreases datagrams.len(),
{
    if datagrams.len() == 0 {
        start
    } else {
        spec_step(spec_sink_after(start, datagrams.drop_last()), spec_decode(datagrams.last()))
    }
}

/// The notifications that `datagrams` give, one for each, in the same order.
pub open spec fn spec_notifications(start: SinkModel, datagrams: Seq<Seq<u8>>) -> Seq<
    NotificationModel,
>
    decreases datagrams.len(),
{
    if datagrams.len() == 0 {
        Seq::empty()
    } else {
        spec_notifications(start, datagrams.drop_last()).push(
            spec_notification(
                spec_sink_after(start, datagrams.drop_last()).buffer,
                spec_decode(datagrams.last()),
            ),
        )
    }
}

/// The byte sequences that a list of datagrams holds.
pub open spec fn spec_datagrams(datagrams: Seq<Vec<u8>>) -> Seq<Seq<u8>> {
    datagrams.map_values(|d: Vec<u8>| d@)
}

/// The values of a list of notifications.
pub open spec fn spec_notified(notifications: Seq<Notification>) -> Seq<NotificationModel> {
    notifications.map_values(|n: Notification| n@)
}

/// Computes the state that `chunk` leads to from `state`.
pub fn transition(state: TransferState, chunk: &DecodedChunk) -> (next: TransferState)
    ensures
        next == spec_transition(state, chunk@),
{
    match chunk {
        DecodedChunk::DataChunk { .. } => TransferState::Accumulating,
        DecodedChunk::EndOfTransmission => TransferState::Completed,
        DecodedChunk::MalformedChunk => state,
    }
}

/// Computes the state in which a sink rests after passing through `state`.
pub fn settle(state: TransferState) -> (rest: TransferState)
    ensures
        rest == spec_settle(state),
{
    match state {
        TransferState::Completed => TransferState::Idle,
        _ => state,
    }
}

/// Accumulates the bytes of one transfer at a time.
pub struct ReassemblySink {
    buffer: Vec<u8>,
    state: TransferState,
}

impl View for ReassemblySink {
    type V = SinkModel;

    closed spec fn view(&self) -> SinkModel {
        SinkModel { buffer: self.buffer@, state: self.state }
    }
}

impl ReassemblySink {
    #[verifier::type_invariant]
    spec fn inv(self) -> bool {
        self@.wf()
    }

    /// A sink that has received nothing.
    pub fn new() -> (sink: ReassemblySink)
        ensures
            sink@ == SinkModel::idle(),
    {
        ReassemblySink { buffer: Vec::new(), state: TransferState::Idle }
    }

    /// The state of the current transfer: `Idle` or `Accumulating`.
    pub fn state(&self) -> (state: TransferState)
        ensures
            state == self@.state,
            self@.wf(),
    {
        proof {
            use_type_invariant(self);
        }
        self.state
    }

    /// The bytes appended so far in the current transfer.
    pub fn buffered(&self) -> (bytes: &[u8])
        ensures
            bytes@ == self@.buffer,
    {
        self.buffer.as_slice()
    }

    /// The number of bytes appended so far in the current transfer.
    pub fn buffered_len(&self) -> (n: usize)
        ensures
            n == self@.buffer.len(),
    {
        self.buffer.len()
    }

    /// Appends `data` to the buffer of a sink that is accumulating.
    fn append_bytes(&mut self, data: &[u8])
        requires
            old(self)@.state is Accumulating,
        ensures
            final(self)@.buffer == old(self)@.buffer + data@,
            final(self)@.state == old(self)@.state,
    {
        let mut buffer: Vec<u8> = Vec::new();
        std::mem::swap(&mut self.buffer, &mut buffer);
        buffer.extend_from_slice(data);
        assert(buffer@ =~= old(self).buffer@ + data@);
        std::mem::swap(&mut self.buffer, &mut buffer);
    }

    /// Moves the buffer out and leaves an empty one.
    fn take_buffer(&mut self) -> (data: Vec<u8>)
        ensures
            data@ == old(self)@.buffer,
            final(self)@.buffer == Seq::<u8>::empty(),
            final(self)@.state == old(self)@.state,
    {
        proof {
            use_type_invariant(&*self);
        }
        let mut data: Vec<u8> = Vec::new();
        std::mem::swap(&mut self.buffer, &mut data);
        data
    }

    /// Appends the bytes of a data chunk at the end of the buffer. The
    /// sequence number plays no part in where they go.
    pub fn handle_image_chunks(&mut self, data: &[u8])
        ensures
            final(self)@.buffer == old(self)@.buffer + data@,
            final(self)@.state == TransferState::Accumulating,
    {
        self.state = TransferState::Accumulating;
        self.append_bytes(data);
    }

    /// Hands out the buffer of the current transfer and leaves the sink idle
    /// and empty for the next one.
    pub fn complete(&mut self) -> (data: Vec<u8>)
        ensures
            data@ == old(self)@.buffer,
            final(self)@ == SinkModel::idle(),
    {
        let data = self.take_buffer();
        self.state = TransferState::Idle;
        data
    }

    /// Consumes one decoded chunk and reports what happened.
    pub fn consume(&mut self, chunk: DecodedChunk) -> (notification: Notification)
        ensures
            final(self)@ == spec_step(old(self)@, chunk@),
            notification@ == spec_notification(old(self)@.buffer, chunk@),
            old(self)@.wf(),
            final(self)@.wf(),
    {
        proof {
            use_type_invariant(&*self);
        }
        let next = settle(transition(self.state, &chunk));
        match chunk {
            DecodedChunk::DataChunk { sequence_number, payload } => {
                self.state = next;
                self.append_bytes(payload.as_slice());
                Notification::ChunkReceived { sequence_number, byte_length: payload.len() }
            },
            DecodedChunk::EndOfTransmission => {
                let data = self.take_buffer();
                self.state = next;
                Notification::TransferComplete { data }
            },
            DecodedChunk::MalformedChunk => Notification::TransferError {
                message: SHORT_PAYLOAD.to_owned(),
            },
        }
    }

    /// Decodes one raw datagram and consumes it.
    pub fn accept(&mut self, datagram: &[u8]) -> (notification: Notification)
        ensures
            final(self)@ == spec_step(old(self)@, spec_decode(datagram@)),
            notification@ == spec_notification(old(self)@.buffer, spec_decode(datagram@)),
            old(self)@.wf(),
            final(self)@.wf(),
    {
        let chunk = decode_chunk(datagram);
        self.consume(chunk)
    }

    /// Consumes a run of datagrams in the order given and returns one
    /// notification for each.
    pub fn process_all(&mut self, datagrams: &Vec<Vec<u8>>) -> (notifications: Vec<Notification>)
        ensures
            final(self)@ == spec_sink_after(old(self)@, spec_datagrams(datagrams@)),
            spec_notified(notifications@) == spec_notifications(
                old(self)@,
                spec_datagrams(datagrams@),
            ),
            notifications@.len() == datagrams@.len(),
    {
        let ghost all = spec_datagrams(datagrams@);
        let ghost start = self@;
        let mut notifications: Vec<Notification> = Vec::new();
        let mut i: usize = 0;
        while i < datagrams.len()
            invariant
                i <= datagrams@.len(),
                all == spec_datagrams(datagrams@),
                notifications@.len() == i,
                self@ == spec_sink_after(start, all.take(i as int)),
                spec_notified(notifications@) == spec_notifications(start, all.take(i as int)),
            decreases datagrams@.len() - i,
        {
            let ghost before = notifications@;
            let notification = self.accept(datagrams[i].as_slice());
            notifications.push(notification);
            proof {
                let next = all.take(i + 1);
                assert(next.drop_last() =~= all.take(i as int));
                assert(next.last() == datagrams@[i as int]@);
                assert(spec_notified(notifications@) =~= spec_notified(before).push(
                    notification@,
                ));
            }
            i = i + 1;
        }
        assert(all.take(i as int) =~= all);
        notifications
    }
}

} // verus!
