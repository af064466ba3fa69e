//! Length-prefixed message framing.
//!
//! One frame on the wire is `[4-byte big-endian length][payload]`.
//! Encoding fails only when the payload is longer than a `u32` can
//! describe.  Decoding demands the declared length exactly: a buffer
//! that ends before the declared length is a protocol violation and
//! yields an error, never an empty or default payload.

use vstd::prelude::*;
use vstd::slice::{slice_subrange, slice_to_vec};

use crate::wire::{
    lemma_u32_be_bytes_round_trip, push_u32_be, read_u32_be, spec_u32_from_be_bytes,
    spec_u32_to_be_bytes,
};

verus! {

/// Why a frame could not be encoded or decoded.
#[derive(Clone, Copy, Debug, PartialEq, Eq, Structural)]
pub enum FrameError {
    /// The payload is longer than the 4-byte length prefix can say.
    Oversize,
    /// The buffer ends before the length prefix, or before the
    /// declared number of payload bytes.
    Incomplete,
}

/// The number of bytes of the length prefix.
pub const FRAME_HEADER_LEN: usize = 4;

/// The frame that carries `payload`: its length, big-endian, then itself.
pub open spec fn spec_encode_frame(payload: Seq<u8>) -> Seq<u8>
    recommends
        payload.len() <= u32::MAX,
{
    spec_u32_to_be_bytes(payload.len() as u32) + payload
}

/// What decoding one frame at position `pos` of `bytes` yields:
/// the payload and the position just after it, or nothing if the
/// buffer ends too early.
pub open spec fn spec_decode_frame(bytes: Seq<u8>, pos: int) -> Option<(Seq<u8>, int)> {
    if pos + 4 > bytes.len() {
        None
    } else {
        let len = spec_u32_from_be_bytes(bytes.subrange(pos, pos + 4)) as int;
        if pos + 4 + len > bytes.len() {
            None
        } else {
            Some((bytes.subrange(pos + 4, pos + 4 + len), pos + 4 + len))
        }
    }
}

/// Encodes `payload` as one frame.
pub fn encode_frame(payload: &Vec<u8>) -> (r: Result<Vec<u8>, FrameError>)
    ensures
        payload@.len() <= u32::MAX ==> (r matches Ok(frame) && frame@ == spec_encode_frame(
            payload@,
        )),
        payload@.len() > u32::MAX ==> r == Err::<Vec<u8>, FrameError>(FrameError::Oversize),
{
    let len = payload.len();
    if len as u64 > u32::MAX as u64 {
        return Err(FrameError::Oversize);
    }
    let mut frame: Vec<u8> = Vec::new();
    push_u32_be(&mut frame, len as u32);
    frame.extend_from_slice(payload.as_slice());
    assert(frame@ =~= spec_encode_frame(payload@));
    Ok(frame)
}

/// Decodes the frame at position `pos` of `bytes`.
///
/// Returns the payload and the position just after the frame, or
/// `Incomplete` when the buffer ends before the declared length.
pub fn decode_frame(bytes: &Vec<u8>, pos: usize) -> (r: Result<(Vec<u8>, usize), FrameError>)
    ensures
        match spec_decode_frame(bytes@, pos as int) {
            Some((payload, next)) => r matches Ok(p) && p.0@ == payload && p.1 == next,
            None => r == Err::<(Vec<u8>, usize), FrameError>(FrameError::Incomplete),
        },
{
    let n = bytes.len();
    if n < 4 || pos > n - 4 {
        return Err(FrameError::Incomplete);
    }
    let len = read_u32_be(bytes, pos);
    if (len as u64) > (n - pos - 4) as u64 {
        return Err(FrameError::Incomplete);
    }
    let start = pos + 4;
    let end = start + len as usize;
    let payload = slice_to_vec(slice_subrange(bytes.as_slice(), start, end));
    Ok((payload, end))
}

/// Framing round-trip: decoding an encoded frame, at the front of any
/// buffer that continues with `rest`, yields the payload unchanged and
/// consumes exactly the frame.
pub proof fn lemma_frame_round_trip(payload: Seq<u8>, rest: Seq<u8>)
    requires
        payload.len() <= u32::MAX,
    ensures
        spec_decode_frame(spec_encode_frame(payload) + rest, 0) == Some(
            (payload, 4 + payload.len() as int),
        ),
{
    let frame = spec_encode_frame(payload) + rest;
    lemma_u32_be_bytes_round_trip(payload.len() as u32);
    assert(frame.subrange(0, 4) =~= spec_u32_to_be_bytes(payload.len() as u32));
    assert(frame.subrange(4, 4 + payload.len() as int) =~= payload);
}

/// A truncated frame never decodes: any strict prefix of an encoded
/// frame yields an error, not a default or partial payload.
pub proof fn lemma_frame_truncation(payload: Seq<u8>, cut: int)
    requires
        payload.len() <= u32::MAX,
        0 <= cut < spec_encode_frame(payload).len(),
    ensures
        spec_decode_frame(spec_encode_frame(payload).subrange(0, cut), 0) is None,
{
    let frame = spec_encode_frame(payload);
    let prefix = frame.subrange(0, cut);
    if cut >= 4 {
        lemma_u32_be_bytes_round_trip(payload.len() as u32);
        assert(prefix.subrange(0, 4) =~= spec_u32_to_be_bytes(payload.len() as u32));
    }
}

} // verus!
