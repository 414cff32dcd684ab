//! Length framing: each frame is a 4-byte big-endian length followed by that
//! many payload bytes.
use vstd::prelude::*;
use crate::bytes::{copy_range, push_all};

verus! {

/// The largest payload a frame may carry: 8 MiB.
pub const MAX_FRAME_LEN: usize = 8388608;

/// The four big-endian bytes of `n`.
pub open spec fn be32_bytes(n: u32) -> Seq<u8> {
    seq![(n >> 24u32) as u8, (n >> 16u32) as u8, (n >> 8u32) as u8, n as u8]
}

/// The number whose big-endian bytes are `b[0..4]`.
pub open spec fn be32_value(b: Seq<u8>) -> u32
    recommends
        b.len() >= 4,
{
    ((b[0] as u32) << 24u32) | ((b[1] as u32) << 16u32) | ((b[2] as u32) << 8u32) | (b[3] as u32)
}

/// Reading back the bytes of `n` gives `n`.
pub proof fn lemma_be32_round_trip(n: u32)
    ensures
        be32_value(be32_bytes(n)) == n,
{
    let b0 = (n >> 24u32) as u8;
    let b1 = (n >> 16u32) as u8;
    let b2 = (n >> 8u32) as u8;
    let b3 = n as u8;
    assert(((b0 as u32) << 24u32) | ((b1 as u32) << 16u32) | ((b2 as u32) << 8u32) | (b3 as u32)
        == n) by (bit_vector)
        requires
            b0 == (n >> 24u32) as u8,
            b1 == (n >> 16u32) as u8,
            b2 == (n >> 8u32) as u8,
            b3 == n as u8,
    ;
}

/// The on-wire form of a frame carrying `payload`.
pub open spec fn frame_of(payload: Seq<u8>) -> Seq<u8> {
    be32_bytes(payload.len() as u32) + payload
}

/// Why a payload cannot be framed.
#[derive(Debug, Clone, Copy, PartialEq, Eq)]
pub enum FrameError {
    /// The payload is longer than [`MAX_FRAME_LEN`].
    TooLarge,
}

/// What the front of a receive buffer holds.
#[derive(Debug)]
pub enum FrameDecode {
    /// Not enough bytes yet for a whole frame.
    NeedMore,
    /// The length prefix announces a payload above [`MAX_FRAME_LEN`]: a
    /// protocol error that ends the session.
    TooLarge,
    /// A whole frame: its payload, and how many buffer bytes it took.
    Frame { payload: Vec<u8>, consumed: usize },
}

/// Frames `payload`, or refuses a payload above the size cap.
pub fn encode_frame(payload: &[u8]) -> (r: Result<Vec<u8>, FrameError>)
    ensures
        payload@.len() > MAX_FRAME_LEN ==> r == Err::<Vec<u8>, FrameError>(FrameError::TooLarge),
        payload@.len() <= MAX_FRAME_LEN ==> (r matches Ok(v) && v@ == frame_of(payload@)),
{
    if payload.len() > MAX_FRAME_LEN {
        return Err(FrameError::TooLarge);
    }
    let n = payload.len() as u32;
    let mut out: Vec<u8> = Vec::with_capacity(payload.len() + 4);
    out.push((n >> 24u32) as u8);
    out.push((n >> 16u32) as u8);
    out.push((n >> 8u32) as u8);
    out.push(n as u8);
    push_all(&mut out, payload);
    assert(out@ == frame_of(payload@));
    Ok(out)
}

/// Splits the first frame off the front of `buf`.
///
/// The length prefix is judged as soon as its four bytes are there, so an
/// oversized frame is refused before its payload arrives.
pub fn decode_frame(buf: &[u8]) -> (r: FrameDecode)
    ensures
        buf@.len() < 4 ==> r is NeedMore,
        buf@.len() >= 4 && be32_value(buf@) > MAX_FRAME_LEN ==> r is TooLarge,
        buf@.len() >= 4 && be32_value(buf@) <= MAX_FRAME_LEN && buf@.len() < 4 + be32_value(buf@)
            ==> r is NeedMore,
        buf@.len() >= 4 && be32_value(buf@) <= MAX_FRAME_LEN && buf@.len() >= 4 + be32_value(
            buf@,
        ) ==> (r matches FrameDecode::Frame { payload, consumed } && consumed == 4 + be32_value(
            buf@,
        ) && payload@ == buf@.subrange(4, consumed as int)),
{
    if buf.len() < 4 {
        return FrameDecode::NeedMore;
    }
    let n: u32 = ((buf[0] as u32) << 24u32) | ((buf[1] as u32) << 16u32) | ((buf[2] as u32) << 8u32)
        | (buf[3] as u32);
    assert(n == be32_value(buf@));
    if n as usize > MAX_FRAME_LEN {
        return FrameDecode::TooLarge;
    }
    let len = n as usize;
    if buf.len() - 4 < len {
        return FrameDecode::NeedMore;
    }
    let payload = copy_range(buf, 4, 4 + len);
    FrameDecode::Frame { payload, consumed: 4 + len }
}

/// Decoding the wire form of a frame, whatever follows it in the buffer,
/// gives back its payload and consumes exactly the frame.
pub proof fn lemma_frame_round_trip(payload: Seq<u8>, rest: Seq<u8>)
    requires
        payload.len() <= MAX_FRAME_LEN,
    ensures
        be32_value(frame_of(payload) + rest) == payload.len(),
        (frame_of(payload) + rest).subrange(4, 4 + payload.len() as int) == payload,
{
    let buf = frame_of(payload) + rest;
    lemma_be32_round_trip(payload.len() as u32);
    assert(buf.subrange(0, 4) == be32_bytes(payload.len() as u32));
    assert(buf[0] == be32_bytes(payload.len() as u32)[0]);
    assert(buf[1] == be32_bytes(payload.len() as u32)[1]);
    assert(buf[2] == be32_bytes(payload.len() as u32)[2]);
    assert(buf[3] == be32_bytes(payload.len() as u32)[3]);
    assert(buf.subrange(4, 4 + payload.len() as int) =~= payload);
}

} // verus!
