//! What holds of the sink over whole runs of datagrams.

use crate::sink::spec_notification;
use crate::sink::spec_notifications;
use crate::sink::spec_short_payload;
use crate::sink::spec_sink_after;
use crate::sink::spec_step;
use crate::sink::NotificationModel;
use crate::sink::SinkModel;
use crate::sink::TransferState;
use crate::wire::lemma_decode_encode;
use crate::wire::lemma_decode_end_marker;
use crate::wire::spec_decode;
use crate::wire::spec_encode;
use crate::wire::spec_end_marker;
use crate::wire::ChunkModel;
use crate::wire::END_SIG;
use vstd::prelude::*;

verus! {

/// The payloads of `payloads` joined end to end, first to last.
pub open spec fn spec_concat(payloads: Seq<Seq<u8>>) -> Seq<u8>
    decreases payloads.len(),
{
    if payloads.len() == 0 {
        Seq::empty()
    } else {
        spec_concat(payloads.drop_last()) + payloads.last()
    }
}

/// The datagrams that carry `chunks`, each a sequence number with its payload.
pub open spec fn spec_encode_all(chunks: Seq<(u32, Seq<u8>)>) -> Seq<Seq<u8>> {
    chunks.map_values(|c: (u32, Seq<u8>)| spec_encode(c.0, c.1))
}

/// The payloads of `chunks`, in the same order.
pub open spec fn spec_payloads(chunks: Seq<(u32, Seq<u8>)>) -> Seq<Seq<u8>> {
    chunks.map_values(|c: (u32, Seq<u8>)| c.1)
}

/// A sink at rest stays at rest: it is never left in `Completed`, and it is
/// idle only while its buffer is empty.
pub proof fn lemma_step_keeps_wf(sink: SinkModel, chunk: ChunkModel)
    requires
        sink.wf(),
    ensures
        spec_step(sink, chunk).wf(),
{
}

/// Whatever datagrams arrive, the sink is well formed after them and has
/// given one notification for each.
pub proof fn lemma_run_keeps_wf(start: SinkModel, datagrams: Seq<Seq<u8>>)
    requires
        start.wf(),
    ensures
        spec_sink_after(start, datagrams).wf(),
        spec_notifications(start, datagrams).len() == datagrams.len(),
    decreases datagrams.len(),
{
    if datagrams.len() > 0 {
        lemma_run_keeps_wf(start, datagrams.drop_last());
    }
}

/// One notification comes out for each datagram that goes in.
pub proof fn lemma_one_notification_each(start: SinkModel, datagrams: Seq<Seq<u8>>)
    ensures
        spec_notifications(start, datagrams).len() == datagrams.len(),
    decreases datagrams.len(),
{
    if datagrams.len() > 0 {
        lemma_one_notification_each(start, datagrams.drop_last());
    }
}

/// Consuming `first` and then `second` is consuming them joined: the sink
/// ends up the same, and the notifications of the two runs follow each other.
pub proof fn lemma_run_concat(start: SinkModel, first: Seq<Seq<u8>>, second: Seq<Seq<u8>>)
    ensures
        spec_sink_after(start, first + second) == spec_sink_after(
            spec_sink_after(start, first),
            second,
        ),
        spec_notifications(start, first + second) == spec_notifications(start, first)
            + spec_notifications(spec_sink_after(start, first), second),
    decreases second.len(),
{
    let middle = spec_sink_after(start, first);
    if second.len() == 0 {
        assert(first + second =~= first);
        assert(spec_notifications(start, first) + spec_notifications(middle, second)
            =~= spec_notifications(start, first));
    } else {
        let joined = first + second;
        assert(joined.drop_last() =~= first + second.drop_last());
        assert(joined.last() == second.last());
        lemma_run_concat(start, first, second.drop_last());
        assert(spec_notifications(start, joined) =~= spec_notifications(start, first)
            + spec_notifications(middle, second));
    }
}

/// The notification at place `k` is the one that datagram `k` gives from the
/// sink as the datagrams before it left it.
pub proof fn lemma_notification_at(start: SinkModel, datagrams: Seq<Seq<u8>>, k: int)
    requires
        0 <= k < datagrams.len(),
    ensures
        spec_notifications(start, datagrams).len() == datagrams.len(),
        spec_notifications(start, datagrams)[k] == spec_notification(
            spec_sink_after(start, datagrams.take(k)).buffer,
            spec_decode(datagrams[k]),
        ),
    decreases datagrams.len(),
{
    lemma_one_notification_each(start, datagrams);
    lemma_one_notification_each(start, datagrams.drop_last());
    if k == datagrams.len() - 1 {
        assert(datagrams.take(k) =~= datagrams.drop_last());
    } else {
        lemma_notification_at(start, datagrams.drop_last(), k);
        assert(datagrams.drop_last().take(k) =~= datagrams.take(k));
    }
}

/// The buffer holds the payloads in arrival order: after the datagrams of
/// `chunks`, none of them under the reserved number, the sink holds what it
/// held before, then the payloads joined, and it is accumulating unless no
/// chunk came.
pub proof fn lemma_buffer_is_concatenation(start: SinkModel, chunks: Seq<(u32, Seq<u8>)>)
    requires
        forall|i: int| 0 <= i < chunks.len() ==> (#[trigger] chunks[i]).0 != END_SIG,
    ensures
        spec_sink_after(start, spec_encode_all(chunks)).buffer == start.buffer + spec_concat(
            spec_payloads(chunks),
        ),
        chunks.len() > 0 ==> spec_sink_after(start, spec_encode_all(chunks)).state
            == TransferState::Accumulating,
        chunks.len() == 0 ==> spec_sink_after(start, spec_encode_all(chunks)) == start,
    decreases chunks.len(),
{
    if chunks.len() == 0 {
        assert(start.buffer + spec_concat(spec_payloads(chunks)) =~= start.buffer);
    } else {
        let rest = chunks.drop_last();
        let last = chunks.last();
        lemma_buffer_is_concatenation(start, rest);
        lemma_decode_encode(last.0, last.1);
        assert(spec_encode_all(chunks).drop_last() =~= spec_encode_all(rest));
        assert(spec_encode_all(chunks).last() == spec_encode(last.0, last.1));
        assert(spec_payloads(chunks).drop_last() =~= spec_payloads(rest));
        assert(spec_payloads(chunks).last() == last.1);
        assert((start.buffer + spec_concat(spec_payloads(rest))) + last.1 =~= start.buffer
            + spec_concat(spec_payloads(chunks)));
    }
}

/// The bytes that a datagram adds to the buffer: the payload of a data
/// chunk, and nothing for an end marker or a malformed datagram.
pub open spec fn spec_payload_of(datagram: Seq<u8>) -> Seq<u8> {
    match spec_decode(datagram) {
        ChunkModel::Data { payload, .. } => payload,
        _ => Seq::empty(),
    }
}

/// The datagrams of the current transfer: those that came after the last
/// end marker, or all of them if none came.
pub open spec fn spec_since_last_end(datagrams: Seq<Seq<u8>>) -> Seq<Seq<u8>>
    decreases datagrams.len(),
{
    if datagrams.len() == 0 {
        Seq::empty()
    } else if spec_decode(datagrams.last()) == ChunkModel::End {
        Seq::empty()
    } else {
        spec_since_last_end(datagrams.drop_last()).push(datagrams.last())
    }
}

/// The lengths of `payloads` added up.
pub open spec fn spec_total_len(payloads: Seq<Seq<u8>>) -> nat
    decreases payloads.len(),
{
    if payloads.len() == 0 {
        0
    } else {
        spec_total_len(payloads.drop_last()) + payloads.last().len()
    }
}

/// Payloads joined end to end are as long as their lengths added up.
pub proof fn lemma_concat_len(payloads: Seq<Seq<u8>>)
    ensures
        spec_concat(payloads).len() == spec_total_len(payloads),
    decreases payloads.len(),
{
    if payloads.len() > 0 {
        lemma_concat_len(payloads.drop_last());
    }
}

/// The buffer of a sink that started empty holds the payloads of the
/// current transfer, in arrival order and nothing else, whatever came
/// before the last end marker and whatever malformed datagrams came in
/// between; so its length is the sum of the lengths of those payloads.
pub proof fn lemma_buffer_holds_current_payloads(datagrams: Seq<Seq<u8>>)
    ensures
        spec_sink_after(SinkModel::idle(), datagrams).buffer == spec_concat(
            spec_since_last_end(datagrams).map_values(|d: Seq<u8>| spec_payload_of(d)),
        ),
        spec_sink_after(SinkModel::idle(), datagrams).buffer.len() == spec_total_len(
            spec_since_last_end(datagrams).map_values(|d: Seq<u8>| spec_payload_of(d)),
        ),
    decreases datagrams.len(),
{
    let payloads = spec_since_last_end(datagrams).map_values(|d: Seq<u8>| spec_payload_of(d));
    if datagrams.len() > 0 {
        let earlier = datagrams.drop_last();
        let earlier_payloads = spec_since_last_end(earlier).map_values(
            |d: Seq<u8>| spec_payload_of(d),
        );
        lemma_buffer_holds_current_payloads(earlier);
        if spec_decode(datagrams.last()) != ChunkModel::End {
            assert(payloads.drop_last() =~= earlier_payloads);
            assert(payloads.last() == spec_payload_of(datagrams.last()));
            assert(spec_concat(earlier_payloads) + Seq::<u8>::empty() =~= spec_concat(
                earlier_payloads,
            ));
        }
    }
    lemma_concat_len(payloads);
}

/// Round trip: the datagrams of `chunks`, none of them under the reserved
/// number, followed by one end marker, give a notification for each chunk
/// with its number and length, then `TransferComplete` with the payloads
/// joined in arrival order behind what the sink held, and leave the sink
/// idle and empty.
pub proof fn lemma_round_trip(start: SinkModel, chunks: Seq<(u32, Seq<u8>)>)
    requires
        forall|i: int| 0 <= i < chunks.len() ==> (#[trigger] chunks[i]).0 != END_SIG,
    ensures
        spec_sink_after(start, spec_encode_all(chunks).push(spec_end_marker()))
            == SinkModel::idle(),
        spec_notifications(start, spec_encode_all(chunks).push(spec_end_marker())).len()
            == chunks.len() + 1,
        spec_notifications(start, spec_encode_all(chunks).push(spec_end_marker())).last() == (
        NotificationModel::TransferComplete {
            data: start.buffer + spec_concat(spec_payloads(chunks)),
        }),
        forall|i: int|
            0 <= i < chunks.len() ==> #[trigger] spec_notifications(
                start,
                spec_encode_all(chunks).push(spec_end_marker()),
            )[i] == (NotificationModel::ChunkReceived {
                sequence_number: chunks[i].0,
                byte_length: chunks[i].1.len(),
            }),
{
    let data = spec_encode_all(chunks);
    let all = data.push(spec_end_marker());
    lemma_buffer_is_concatenation(start, chunks);
    lemma_decode_end_marker();
    lemma_one_notification_each(start, all);
    assert(all.drop_last() =~= data);
    assert(all.last() == spec_end_marker());
    assert forall|i: int| 0 <= i < chunks.len() implies #[trigger] spec_notifications(
        start,
        all,
    )[i] == (NotificationModel::ChunkReceived {
        sequence_number: chunks[i].0,
        byte_length: chunks[i].1.len(),
    }) by {
        lemma_notification_at(start, all, i);
        lemma_decode_encode(chunks[i].0, chunks[i].1);
        assert(all[i] == spec_encode(chunks[i].0, chunks[i].1));
    }
}

/// Empty transfer: an end marker alone completes a transfer with no bytes.
pub proof fn lemma_empty_transfer()
    ensures
        spec_notifications(SinkModel::idle(), seq![spec_end_marker()]) == seq![
            NotificationModel::TransferComplete { data: Seq::<u8>::empty() },
        ],
        spec_sink_after(SinkModel::idle(), seq![spec_end_marker()]) == SinkModel::idle(),
{
    let only = seq![spec_end_marker()];
    lemma_decode_end_marker();
    assert(only.drop_last() =~= Seq::<Seq<u8>>::empty());
    assert(only.last() == spec_end_marker());
    assert(spec_sink_after(SinkModel::idle(), only.drop_last()) == SinkModel::idle());
    assert(spec_notifications(SinkModel::idle(), only.drop_last()).len() == 0);
    assert(spec_notifications(SinkModel::idle(), only) =~= seq![
        NotificationModel::TransferComplete { data: Seq::<u8>::empty() },
    ]);
}

/// Malformed resilience: a datagram shorter than the header, put anywhere
/// among others, changes neither the buffer nor the state at the end, and
/// adds exactly one `TransferError` at its own place among the notifications.
pub proof fn lemma_malformed_is_skipped(
    start: SinkModel,
    datagrams: Seq<Seq<u8>>,
    at: int,
    short: Seq<u8>,
)
    requires
        start.wf(),
        0 <= at <= datagrams.len(),
        short.len() < 4,
    ensures
        spec_sink_after(start, datagrams.insert(at, short)) == spec_sink_after(start, datagrams),
        spec_notifications(start, datagrams.insert(at, short)) == spec_notifications(
            start,
            datagrams,
        ).insert(at, NotificationModel::TransferError { message: spec_short_payload() }),
{
    let before = datagrams.take(at);
    let after = datagrams.skip(at);
    let with_short = before.push(short);
    let error = NotificationModel::TransferError { message: spec_short_payload() };
    let reached = spec_sink_after(start, before);
    lemma_run_keeps_wf(start, before);
    assert(with_short.drop_last() =~= before);
    assert(with_short.last() == short);
    assert(spec_sink_after(start, with_short) == reached);
    assert(datagrams.insert(at, short) =~= with_short + after);
    assert(datagrams =~= before + after);
    lemma_run_concat(start, with_short, after);
    lemma_run_concat(start, before, after);
    lemma_one_notification_each(start, before);
    lemma_one_notification_each(reached, after);
    assert(spec_notifications(start, before).push(error) + spec_notifications(reached, after)
        =~= (spec_notifications(start, before) + spec_notifications(reached, after)).insert(
        at,
        error,
    ));
}

/// Exactly the malformed datagrams give a `TransferError`, each one its own.
pub proof fn lemma_errors_match_malformed(start: SinkModel, datagrams: Seq<Seq<u8>>, k: int)
    requires
        0 <= k < datagrams.len(),
    ensures
        spec_notifications(start, datagrams).len() == datagrams.len(),
        spec_notifications(start, datagrams)[k] is TransferError <==> datagrams[k].len() < 4,
{
    lemma_notification_at(start, datagrams, k);
}

/// State reset: once a run has ended in an end marker, the sink is idle and
/// empty, so what follows is handled as by a new sink: nothing of the
/// earlier transfer shows in the later notifications.
pub proof fn lemma_completion_resets(
    start: SinkModel,
    earlier: Seq<Seq<u8>>,
    later: Seq<Seq<u8>>,
)
    requires
        earlier.len() > 0,
        spec_decode(earlier.last()) == ChunkModel::End,
    ensures
        spec_sink_after(start, earlier) == SinkModel::idle(),
        spec_sink_after(start, earlier + later) == spec_sink_after(SinkModel::idle(), later),
        spec_notifications(start, earlier + later) == spec_notifications(start, earlier)
            + spec_notifications(SinkModel::idle(), later),
{
    lemma_run_concat(start, earlier, later);
}

} // verus!
