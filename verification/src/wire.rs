//! The wire format of a chunk: a big-endian sequence number, then the payload.
//!
//! A datagram is `[4 bytes: sequence number, most significant byte first][payload]`.
//! The sequence number `0xFFFF_FFFF` is reserved: it marks the end of a transfer.

use vstd::prelude::*;
use vstd::slice::slice_subrange;
use vstd::slice::slice_to_vec;

verus! {

/// Number of bytes that the sequence number occupies at the start of a datagram.
pub const SEQUENCE_HEADER_LEN: usize = 4;

/// Sequence number reserved to signal that no further chunk belongs to the transfer.
pub const END_SIG: u32 = 0xFFFF_FFFF;

/// Largest payload that a single UDP datagram can carry.
pub const MAX_DATAGRAM_SIZE: usize = 65507;

/// What one datagram decodes to.
#[derive(Debug, PartialEq, Eq)]
pub enum DecodedChunk {
    /// A numbered piece of the transfer.
    DataChunk { sequence_number: u32, payload: Vec<u8> },
    /// The reserved marker: the transfer is over.
    EndOfTransmission,
    /// The datagram is too short to hold a sequence number.
    MalformedChunk,
}

/// The mathematical value of a [`DecodedChunk`].
pub ghost enum ChunkModel {
    Data { sequence_number: u32, payload: Seq<u8> },
    End,
    Malformed,
}

impl View for DecodedChunk {
    type V = ChunkModel;

    open spec fn view(&self) -> ChunkModel {
        match *self {
            DecodedChunk::DataChunk { sequence_number, payload } => ChunkModel::Data {
                sequence_number,
                payload: payload@,
            },
            DecodedChunk::EndOfTransmission => ChunkModel::End,
            DecodedChunk::MalformedChunk => ChunkModel::Malformed,
        }
    }
}

/// The number that four bytes spell when read most significant byte first.
pub open spec fn spec_be_u32(b0: u8, b1: u8, b2: u8, b3: u8) -> int {
    b0 * 0x100_0000 + b1 * 0x1_0000 + b2 * 0x100 + b3
}

/// The four bytes that spell `n`, most significant byte first.
pub open spec fn spec_be_bytes(n: u32) -> Seq<u8> {
    seq![
        (n / 0x100_0000) as u8,
        (n / 0x1_0000 % 0x100) as u8,
        (n / 0x100 % 0x100) as u8,
        (n % 0x100) as u8,
    ]
}

/// The sequence number at the head of a datagram of at least four bytes.
pub open spec fn spec_sequence_number(datagram: Seq<u8>) -> int
    recommends
        datagram.len() >= SEQUENCE_HEADER_LEN,
{
    spec_be_u32(datagram[0], datagram[1], datagram[2], datagram[3])
}

/// What a datagram means: malformed when shorter than the header, the end
/// marker when its number is the reserved one (whatever follows is ignored),
/// and otherwise a data chunk whose payload is everything after the header.
pub open spec fn spec_decode(datagram: Seq<u8>) -> ChunkModel {
    if datagram.len() < SEQUENCE_HEADER_LEN {
        ChunkModel::Malformed
    } else if spec_sequence_number(datagram) == END_SIG {
        ChunkModel::End
    } else {
        ChunkModel::Data {
            sequence_number: spec_sequence_number(datagram) as u32,
            payload: datagram.skip(SEQUENCE_HEADER_LEN as int),
        }
    }
}

/// The datagram that carries `payload` under `sequence_number`.
pub open spec fn spec_encode(sequence_number: u32, payload: Seq<u8>) -> Seq<u8> {
    spec_be_bytes(sequence_number) + payload
}

/// The datagram that ends a transfer: the reserved number and no payload.
pub open spec fn spec_end_marker() -> Seq<u8> {
    spec_be_bytes(END_SIG)
}

/// Reads four bytes as a big-endian unsigned number.
pub fn be_u32(b0: u8, b1: u8, b2: u8, b3: u8) -> (n: u32)
    ensures
        n == spec_be_u32(b0, b1, b2, b3),
{
    let h0: u32 = b0 as u32;
    let h1: u32 = b1 as u32;
    let h2: u32 = b2 as u32;
    let h3: u32 = b3 as u32;
    h0 * 0x100_0000 + h1 * 0x1_0000 + h2 * 0x100 + h3
}

/// Classifies one raw datagram. Total: every byte sequence gets a result.
pub fn decode_chunk(datagram: &[u8]) -> (chunk: DecodedChunk)
    ensures
        chunk@ == spec_decode(datagram@),
{
    if datagram.len() < SEQUENCE_HEADER_LEN {
        return DecodedChunk::MalformedChunk;
    }
    let sequence_number = be_u32(datagram[0], datagram[1], datagram[2], datagram[3]);
    if sequence_number == END_SIG {
        return DecodedChunk::EndOfTransmission;
    }
    let payload = slice_to_vec(slice_subrange(datagram, SEQUENCE_HEADER_LEN, datagram.len()));
    assert(payload@ == datagram@.skip(4));
    DecodedChunk::DataChunk { sequence_number, payload }
}

/// Appends to `out` the four bytes of `n`, most significant first.
fn push_be_u32(out: &mut Vec<u8>, n: u32)
    ensures
        final(out)@ == old(out)@ + spec_be_bytes(n),
{
    out.push((n / 0x100_0000) as u8);
    out.push((n / 0x1_0000 % 0x100) as u8);
    out.push((n / 0x100 % 0x100) as u8);
    out.push((n % 0x100) as u8);
    assert(out@ =~= old(out)@ + spec_be_bytes(n));
}

/// Builds the datagram for one chunk. With the reserved number the result is
/// read back as an end marker, so senders keep data below it.
pub fn encode_chunk(sequence_number: u32, payload: &[u8]) -> (datagram: Vec<u8>)
    ensures
        datagram@ == spec_encode(sequence_number, payload@),
{
    let mut datagram: Vec<u8> = Vec::new();
    push_be_u32(&mut datagram, sequence_number);
    let mut i: usize = 0;
    while i < payload.len()
        invariant
            i <= payload@.len(),
            datagram@ == spec_be_bytes(sequence_number) + payload@.take(i as int),
        decreases payload@.len() - i,
    {
        datagram.push(payload[i]);
        assert(payload@.take(i + 1) =~= payload@.take(i as int).push(payload@[i as int]));
        assert(datagram@ =~= spec_be_bytes(sequence_number) + payload@.take(i + 1));
        i = i + 1;
    }
    assert(payload@.take(i as int) =~= payload@);
    datagram
}

/// Builds the datagram that ends a transfer.
pub fn encode_end_marker() -> (datagram: Vec<u8>)
    ensures
        datagram@ == spec_end_marker(),
{
    let mut datagram: Vec<u8> = Vec::new();
    push_be_u32(&mut datagram, END_SIG);
    assert(datagram@ =~= spec_end_marker());
    datagram
}

/// Reading the four bytes of `n` back gives `n`.
pub proof fn lemma_be_bytes_roundtrip(n: u32)
    ensures
        spec_be_bytes(n).len() == 4,
        spec_sequence_number(spec_be_bytes(n)) == n,
{
    let b = spec_be_bytes(n);
    assert(b[0] == n / 0x100_0000);
    assert(b[1] == n / 0x1_0000 % 0x100);
    assert(b[2] == n / 0x100 % 0x100);
    assert(b[3] == n % 0x100);
}

/// A chunk that is encoded under any number but the reserved one decodes to
/// the same number and payload.
pub proof fn lemma_decode_encode(sequence_number: u32, payload: Seq<u8>)
    requires
        sequence_number != END_SIG,
    ensures
        spec_decode(spec_encode(sequence_number, payload)) == (ChunkModel::Data {
            sequence_number,
            payload,
        }),
{
    lemma_be_bytes_roundtrip(sequence_number);
    let d = spec_encode(sequence_number, payload);
    let h = spec_be_bytes(sequence_number);
    assert(d.len() == 4 + payload.len());
    assert(d[0] == h[0] && d[1] == h[1] && d[2] == h[2] && d[3] == h[3]);
    assert(d.skip(4) =~= payload);
}

/// The end marker decodes to the end of the transmission.
pub proof fn lemma_decode_end_marker()
    ensures
        spec_end_marker().len() == 4,
        spec_decode(spec_end_marker()) == ChunkModel::End,
{
    lemma_be_bytes_roundtrip(END_SIG);
}

} // verus!
