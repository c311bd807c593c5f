//! Framing of the socket protocol: an 8-byte little-endian length (of what
//! follows it), an 8-byte correlation id, a 4-byte message-kind tag, then the
//! payload.
use crate::error::{LairError, LairResult};
use vstd::prelude::*;

verus! {

/// Bytes before the payload: length, correlation id and tag.
pub const HEADER_LEN: usize = 20;

/// The part of the header that the length counts: correlation id and tag.
pub const COUNTED_HEADER_LEN: u64 = 12;

/// One message on the wire.
pub struct Frame {
    /// Matches a reply to its request.
    pub id: u64,
    /// The message kind.
    pub tag: u32,
    /// The kind-specific body.
    pub payload: Vec<u8>,
}

impl View for Frame {
    type V = (u64, u32, Seq<u8>);

    open spec fn view(&self) -> (u64, u32, Seq<u8>) {
        (self.id, self.tag, self.payload@)
    }
}

/// Eight little-endian bytes of a 64-bit integer.
pub open spec fn u64_le(n: u64) -> Seq<u8> {
    seq![
        n as u8,
        (n >> 8u64) as u8,
        (n >> 16u64) as u8,
        (n >> 24u64) as u8,
        (n >> 32u64) as u8,
        (n >> 40u64) as u8,
        (n >> 48u64) as u8,
        (n >> 56u64) as u8,
    ]
}

/// Four little-endian bytes of a 32-bit integer.
pub open spec fn u32_le(n: u32) -> Seq<u8> {
    seq![n as u8, (n >> 8u32) as u8, (n >> 16u32) as u8, (n >> 24u32) as u8]
}

/// The 64-bit integer of eight little-endian bytes.
pub open spec fn u64_of_le(b0: u8, b1: u8, b2: u8, b3: u8, b4: u8, b5: u8, b6: u8, b7: u8) -> u64 {
    (b0 as u64) | ((b1 as u64) << 8u64) | ((b2 as u64) << 16u64) | ((b3 as u64) << 24u64) | ((
    b4 as u64) << 32u64) | ((b5 as u64) << 40u64) | ((b6 as u64) << 48u64) | ((b7 as u64)
        << 56u64)
}

/// The 32-bit integer of four little-endian bytes.
pub open spec fn u32_of_le(b0: u8, b1: u8, b2: u8, b3: u8) -> u32 {
    (b0 as u32) | ((b1 as u32) << 8u32) | ((b2 as u32) << 16u32) | ((b3 as u32) << 24u32)
}

/// The 64-bit integer at an offset of a byte string.
pub open spec fn u64_at(b: Seq<u8>, at: int) -> u64 {
    u64_of_le(b[at], b[at + 1], b[at + 2], b[at + 3], b[at + 4], b[at + 5], b[at + 6], b[at + 7])
}

/// The 32-bit integer at an offset of a byte string.
pub open spec fn u32_at(b: Seq<u8>, at: int) -> u32 {
    u32_of_le(b[at], b[at + 1], b[at + 2], b[at + 3])
}

/// The bytes of a frame.
pub open spec fn frame_bytes(f: (u64, u32, Seq<u8>)) -> Seq<u8> {
    u64_le((f.2.len() + COUNTED_HEADER_LEN) as u64) + u64_le(f.0) + u32_le(f.1) + f.2
}

/// What reading a frame from the front of a buffer yields: `None` while the
/// buffer holds less than one whole frame, `ProtocolViolation` when the length
/// cannot even cover the id and tag, else the frame and how many bytes it took.
pub open spec fn decoded(b: Seq<u8>) -> LairResult<Option<((u64, u32, Seq<u8>), nat)>> {
    if b.len() < 8 {
        Ok(None)
    } else if u64_at(b, 0) < COUNTED_HEADER_LEN {
        Err(LairError::ProtocolViolation)
    } else if b.len() - 8 < u64_at(b, 0) {
        Ok(None)
    } else {
        let end = 8 + u64_at(b, 0);
        Ok(Some(((u64_at(b, 8), u32_at(b, 16), b.subrange(HEADER_LEN as int, end)), end as nat)))
    }
}

/// Eight little-endian bytes read back give the integer they were made of.
pub proof fn lemma_u64_round_trip(n: u64)
    ensures
        u64_at(u64_le(n), 0) == n,
{
    assert(u64_of_le(
        n as u8,
        (n >> 8u64) as u8,
        (n >> 16u64) as u8,
        (n >> 24u64) as u8,
        (n >> 32u64) as u8,
        (n >> 40u64) as u8,
        (n >> 48u64) as u8,
        (n >> 56u64) as u8,
    ) == n) by (bit_vector);
}

proof fn lemma_u32_round_trip(n: u32)
    ensures
        u32_at(u32_le(n), 0) == n,
{
    assert(u32_of_le(n as u8, (n >> 8u32) as u8, (n >> 16u32) as u8, (n >> 24u32) as u8) == n)
        by (bit_vector);
}

fn push_u64_le(out: &mut Vec<u8>, n: u64)
    ensures
        final(out)@ == old(out)@ + u64_le(n),
{
    out.push(n as u8);
    out.push((n >> 8u64) as u8);
    out.push((n >> 16u64) as u8);
    out.push((n >> 24u64) as u8);
    out.push((n >> 32u64) as u8);
    out.push((n >> 40u64) as u8);
    out.push((n >> 48u64) as u8);
    out.push((n >> 56u64) as u8);
    assert(final(out)@ =~= old(out)@ + u64_le(n));
}

fn read_u64_le(b: &[u8], at: usize) -> (r: u64)
    requires
        at + 8 <= b@.len(),
    ensures
        r == u64_at(b@, at as int),
{
    (b[at] as u64) | ((b[at + 1] as u64) << 8u64) | ((b[at + 2] as u64) << 16u64) | ((b[at
        + 3] as u64) << 24u64) | ((b[at + 4] as u64) << 32u64) | ((b[at + 5] as u64) << 40u64)
        | ((b[at + 6] as u64) << 48u64) | ((b[at + 7] as u64) << 56u64)
}

/// Encode a frame for the wire.
pub fn encode_frame(frame: &Frame) -> (r: Vec<u8>)
    requires
        frame.payload@.len() + HEADER_LEN <= u64::MAX,
    ensures
        r@ == frame_bytes(frame@),
{
    let mut out: Vec<u8> = Vec::new();
    push_u64_le(&mut out, frame.payload.len() as u64 + COUNTED_HEADER_LEN);
    push_u64_le(&mut out, frame.id);
    let t = frame.tag;
    out.push(t as u8);
    out.push((t >> 8u32) as u8);
    out.push((t >> 16u32) as u8);
    out.push((t >> 24u32) as u8);
    let mut i: usize = 0;
    let ghost head = out@;
    while i < frame.payload.len()
        invariant
            i <= frame.payload@.len(),
            out@ == head + frame.payload@.subrange(0, i as int),
        decreases frame.payload@.len() - i,
    {
        out.push(frame.payload[i]);
        i = i + 1;
        assert(out@ =~= head + frame.payload@.subrange(0, i as int));
    }
    assert(out@ =~= frame_bytes(frame@));
    out
}

/// Read one frame from the front of a buffer.
pub fn decode_frame(buf: &[u8]) -> (r: LairResult<Option<(Frame, usize)>>)
    ensures
        match (r, decoded(buf@)) {
            (Ok(None), Ok(None)) => true,
            (Ok(Some((f, n))), Ok(Some((g, m)))) => f@ == g && n == m,
            (Err(e), Err(d)) => e == d,
            _ => false,
        },
{
    if buf.len() < 8 {
        return Ok(None);
    }
    let len = read_u64_le(buf, 0);
    if len < COUNTED_HEADER_LEN {
        return Err(LairError::ProtocolViolation);
    }
    if ((buf.len() - 8) as u64) < len {
        return Ok(None);
    }
    let end: usize = 8 + len as usize;
    let id = read_u64_le(buf, 8);
    let tag = (buf[16] as u32) | ((buf[17] as u32) << 8u32) | ((buf[18] as u32) << 16u32) | ((
    buf[19] as u32) << 24u32);
    let mut payload: Vec<u8> = Vec::new();
    let mut i: usize = HEADER_LEN;
    while i < end
        invariant
            HEADER_LEN <= i <= end <= buf@.len(),
            payload@ == buf@.subrange(HEADER_LEN as int, i as int),
        decreases end - i,
    {
        payload.push(buf[i]);
        i = i + 1;
        assert(payload@ =~= buf@.subrange(HEADER_LEN as int, i as int));
    }
    Ok(Some((Frame { id, tag, payload }, end)))
}

/// A frame read back from its own bytes, whatever follows them, is the frame
/// that was written, and reading takes exactly its bytes.
pub proof fn lemma_frame_round_trip(f: (u64, u32, Seq<u8>), rest: Seq<u8>)
    requires
        f.2.len() + HEADER_LEN <= u64::MAX,
    ensures
        decoded(frame_bytes(f) + rest) == Ok::<Option<((u64, u32, Seq<u8>), nat)>, LairError>(
            Some((f, frame_bytes(f).len()))),
{
    let b = frame_bytes(f) + rest;
    let n = (f.2.len() + COUNTED_HEADER_LEN) as u64;
    lemma_u64_round_trip(n);
    lemma_u64_round_trip(f.0);
    lemma_u32_round_trip(f.1);
    assert(u64_at(b, 0) == u64_at(u64_le(n), 0));
    assert(u64_at(b, 8) == u64_at(u64_le(f.0), 0));
    assert(u32_at(b, 16) == u32_at(u32_le(f.1), 0));
    assert(b.subrange(HEADER_LEN as int, 8 + n) =~= f.2);
}

} // verus!
