//! The peer-to-peer payload: a tagged union of document sync bytes and
//! ephemeral cursor state.
//!
//! The byte-level encoding is an internal contract between this
//! system's own peers, so it is defined here, once, as spec functions,
//! and the executable encoder and decoder are proved against them:
//! one tag byte, then the variant's fields; strings as
//! `u32`-length-prefixed UTF-8; counters as big-endian `u64`;
//! sequences as a `u32` count and the items in order.

use vstd::prelude::*;
use vstd::slice::{slice_subrange, slice_to_vec};
use vstd::utf8::{
    decode_utf8, encode_utf8, encode_utf8_decode_utf8, encode_utf8_valid_utf8, valid_utf8,
};

use crate::text::string_from_utf8;
use crate::wire::{
    lemma_u32_be_bytes_round_trip, lemma_u64_be_bytes_round_trip, push_u32_be, push_u64_be,
    read_u32_be, read_u64_be, spec_u32_from_be_bytes, spec_u32_to_be_bytes,
    spec_u64_from_be_bytes, spec_u64_to_be_bytes,
};

verus! {

/// A caret position inside a text file.
#[derive(Debug, Clone, PartialEq, Eq, Structural)]
pub struct Position {
    pub line: usize,
    pub character: usize,
}

/// A selected span inside a text file.
#[derive(Debug, Clone, PartialEq, Eq, Structural)]
pub struct Range {
    pub start: Position,
    pub end: Position,
}

/// A path relative to the shared directory.
#[derive(Debug, Clone, PartialEq, Eq)]
pub struct RelativePath(pub String);

/// One user's named cursor: where they are in which file.
#[derive(Debug, Clone, PartialEq, Eq)]
pub struct CursorState {
    pub name: Option<String>,
    pub file_path: RelativePath,
    pub ranges: Vec<Range>,
}

/// A cursor update that should be delivered but never persisted.
#[derive(Debug, Clone, PartialEq, Eq)]
pub struct EphemeralMessage {
    pub cursor_id: String,
    pub sequence_number: usize,
    pub cursor_state: CursorState,
}

/// One unit of peer-to-peer data exchange.
#[derive(Debug, Clone, PartialEq, Eq)]
pub enum PeerMessage {
    /// An encoded CRDT sync message: the changes a peer still needs.
    Sync(Vec<u8>),
    /// Cursor state, delivered to whoever is connected right now.
    Ephemeral(EphemeralMessage),
}

/// Mathematical model of a `CursorState`.
pub struct CursorStateView {
    pub name: Option<Seq<char>>,
    pub file_path: Seq<char>,
    pub ranges: Seq<Range>,
}

/// Mathematical model of an `EphemeralMessage`.
pub struct EphemeralMessageView {
    pub cursor_id: Seq<char>,
    pub sequence_number: usize,
    pub cursor_state: CursorStateView,
}

/// Mathematical model of a `PeerMessage`.
pub enum PeerMessageView {
    Sync(Seq<u8>),
    Ephemeral(EphemeralMessageView),
}

impl View for CursorState {
    type V = CursorStateView;

    open spec fn view(&self) -> CursorStateView {
        CursorStateView {
            name: match self.name {
                Some(s) => Some(s@),
                None => None,
            },
            file_path: self.file_path.0@,
            ranges: self.ranges@,
        }
    }
}

impl View for EphemeralMessage {
    type V = EphemeralMessageView;

    open spec fn view(&self) -> EphemeralMessageView {
        EphemeralMessageView {
            cursor_id: self.cursor_id@,
            sequence_number: self.sequence_number,
            cursor_state: self.cursor_state@,
        }
    }
}

impl View for PeerMessage {
    type V = PeerMessageView;

    open spec fn view(&self) -> PeerMessageView {
        match self {
            PeerMessage::Sync(b) => PeerMessageView::Sync(b@),
            PeerMessage::Ephemeral(e) => PeerMessageView::Ephemeral(e@),
        }
    }
}

/// The tag byte of a sync payload.
pub const TAG_SYNC: u8 = 0;

/// The tag byte of an ephemeral payload.
pub const TAG_EPHEMERAL: u8 = 1;

/// Why a peer message could not be encoded or decoded.
#[derive(Clone, Copy, Debug, PartialEq, Eq, Structural)]
pub enum PeerMessageError {
    /// A string or sequence is longer than its length prefix can say.
    Oversize,
    /// The bytes are not a well-formed encoding of any peer message.
    Malformed,
}

// ---------------------------------------------------------------------
// Specification: encoding
// ---------------------------------------------------------------------
/// Whether a string fits behind its `u32` length prefix.
pub open spec fn spec_string_encodable(s: Seq<char>) -> bool {
    encode_utf8(s).len() <= u32::MAX
}

/// A string on the wire: UTF-8 byte length, then the UTF-8 bytes.
pub open spec fn spec_encode_string(s: Seq<char>) -> Seq<u8>
    recommends
        spec_string_encodable(s),
{
    spec_u32_to_be_bytes(encode_utf8(s).len() as u32) + encode_utf8(s)
}

/// An optional string: one presence byte, then the string if present.
pub open spec fn spec_encode_opt_string(o: Option<Seq<char>>) -> Seq<u8> {
    match o {
        None => seq![0u8],
        Some(s) => seq![1u8] + spec_encode_string(s),
    }
}

/// A position: line then character, both as big-endian `u64`.
pub open spec fn spec_encode_position(p: Position) -> Seq<u8> {
    spec_u64_to_be_bytes(p.line as u64) + spec_u64_to_be_bytes(p.character as u64)
}

/// A range: its start, then its end.
pub open spec fn spec_encode_range(r: Range) -> Seq<u8> {
    spec_encode_position(r.start) + spec_encode_position(r.end)
}

/// The items of a range sequence, in order, without a count.
pub open spec fn spec_encode_range_items(rs: Seq<Range>) -> Seq<u8>
    decreases rs.len(),
{
    if rs.len() == 0 {
        seq![]
    } else {
        spec_encode_range(rs[0]) + spec_encode_range_items(rs.drop_first())
    }
}

/// Whether a cursor state fits its length prefixes.
pub open spec fn spec_cursor_state_encodable(cs: CursorStateView) -> bool {
    &&& (cs.name matches Some(s) ==> spec_string_encodable(s))
    &&& spec_string_encodable(cs.file_path)
    &&& cs.ranges.len() <= u32::MAX
}

/// A cursor state: optional name, file path, range count, ranges.
pub open spec fn spec_encode_cursor_state(cs: CursorStateView) -> Seq<u8>
    recommends
        spec_cursor_state_encodable(cs),
{
    spec_encode_opt_string(cs.name) + spec_encode_string(cs.file_path) + spec_u32_to_be_bytes(
        cs.ranges.len() as u32,
    ) + spec_encode_range_items(cs.ranges)
}

/// Whether an ephemeral message fits its length prefixes.
pub open spec fn spec_ephemeral_encodable(e: EphemeralMessageView) -> bool {
    spec_string_encodable(e.cursor_id) && spec_cursor_state_encodable(e.cursor_state)
}

/// An ephemeral message: cursor id, sequence number, cursor state.
pub open spec fn spec_encode_ephemeral(e: EphemeralMessageView) -> Seq<u8>
    recommends
        spec_ephemeral_encodable(e),
{
    spec_encode_string(e.cursor_id) + spec_u64_to_be_bytes(e.sequence_number as u64)
        + spec_encode_cursor_state(e.cursor_state)
}

/// Whether a peer message fits its length prefixes.
pub open spec fn spec_peer_message_encodable(m: PeerMessageView) -> bool {
    match m {
        PeerMessageView::Sync(_) => true,
        PeerMessageView::Ephemeral(e) => spec_ephemeral_encodable(e),
    }
}

/// A peer message: one tag byte, then the variant's fields.
pub open spec fn spec_encode_peer_message(m: PeerMessageView) -> Seq<u8>
    recommends
        spec_peer_message_encodable(m),
{
    match m {
        PeerMessageView::Sync(b) => seq![TAG_SYNC] + b,
        PeerMessageView::Ephemeral(e) => seq![TAG_EPHEMERAL] + spec_encode_ephemeral(e),
    }
}

// ---------------------------------------------------------------------
// Specification: decoding
// ---------------------------------------------------------------------
/// Decodes a string at `pos`: its characters and the position after.
pub open spec fn spec_decode_string(bytes: Seq<u8>, pos: int) -> Option<(Seq<char>, int)> {
    if !(0 <= pos && pos + 4 <= bytes.len()) {
        None
    } else {
        let n = spec_u32_from_be_bytes(bytes.subrange(pos, pos + 4)) as int;
        if pos + 4 + n > bytes.len() {
            None
        } else {
            let b = bytes.subrange(pos + 4, pos + 4 + n);
            if valid_utf8(b) {
                Some((decode_utf8(b), pos + 4 + n))
            } else {
                None
            }
        }
    }
}

/// Decodes an optional string at `pos`.
pub open spec fn spec_decode_opt_string(bytes: Seq<u8>, pos: int) -> Option<
    (Option<Seq<char>>, int),
> {
    if !(0 <= pos && pos + 1 <= bytes.len()) {
        None
    } else if bytes[pos] == 0u8 {
        Some((None, pos + 1))
    } else if bytes[pos] == 1u8 {
        match spec_decode_string(bytes, pos + 1) {
            Some((s, p)) => Some((Some(s), p)),
            None => None,
        }
    } else {
        None
    }
}

/// Decodes a big-endian `u64` at `pos` that must fit in `usize`.
pub open spec fn spec_decode_usize(bytes: Seq<u8>, pos: int) -> Option<(usize, int)> {
    if !(0 <= pos && pos + 8 <= bytes.len()) {
        None
    } else {
        let v = spec_u64_from_be_bytes(bytes.subrange(pos, pos + 8));
        if v <= usize::MAX as u64 {
            Some((v as usize, pos + 8))
        } else {
            None
        }
    }
}

/// Decodes a position at `pos`.
pub open spec fn spec_decode_position(bytes: Seq<u8>, pos: int) -> Option<(Position, int)> {
    match spec_decode_usize(bytes, pos) {
        None => None,
        Some((line, p1)) => match spec_decode_usize(bytes, p1) {
            None => None,
            Some((character, p2)) => Some((Position { line, character }, p2)),
        },
    }
}

/// Decodes a range at `pos`.
pub open spec fn spec_decode_range(bytes: Seq<u8>, pos: int) -> Option<(Range, int)> {
    match spec_decode_position(bytes, pos) {
        None => None,
        Some((start, p1)) => match spec_decode_position(bytes, p1) {
            None => None,
            Some((end, p2)) => Some((Range { start, end }, p2)),
        },
    }
}

/// Decodes `count` ranges in order, starting at `pos`.
pub open spec fn spec_decode_range_items(bytes: Seq<u8>, pos: int, count: int) -> Option<
    (Seq<Range>, int),
>
    decreases count,
{
    if count <= 0 {
        Some((seq![], pos))
    } else {
        match spec_decode_range(bytes, pos) {
            None => None,
            Some((r, p1)) => match spec_decode_range_items(bytes, p1, count - 1) {
                None => None,
                Some((rest, p2)) => Some((seq![r] + rest, p2)),
            },
        }
    }
}

/// Decodes a cursor state at `pos`.
pub open spec fn spec_decode_cursor_state(bytes: Seq<u8>, pos: int) -> Option<
    (CursorStateView, int),
> {
    match spec_decode_opt_string(bytes, pos) {
        None => None,
        Some((name, p1)) => match spec_decode_string(bytes, p1) {
            None => None,
            Some((file_path, p2)) => {
                if !(p2 + 4 <= bytes.len()) {
                    None
                } else {
                    let count = spec_u32_from_be_bytes(bytes.subrange(p2, p2 + 4)) as int;
                    match spec_decode_range_items(bytes, p2 + 4, count) {
                        None => None,
                        Some((ranges, p3)) => Some(
                            (CursorStateView { name, file_path, ranges }, p3),
                        ),
                    }
                }
            },
        },
    }
}

/// Decodes an ephemeral message at `pos`.
pub open spec fn spec_decode_ephemeral(bytes: Seq<u8>, pos: int) -> Option<
    (EphemeralMessageView, int),
> {
    match spec_decode_string(bytes, pos) {
        None => None,
        Some((cursor_id, p1)) => match spec_decode_usize(bytes, p1) {
            None => None,
            Some((sequence_number, p2)) => match spec_decode_cursor_state(bytes, p2) {
                None => None,
                Some((cursor_state, p3)) => Some(
                    (EphemeralMessageView { cursor_id, sequence_number, cursor_state }, p3),
                ),
            },
        },
    }
}

/// Decodes a whole peer-message payload.
///
/// A sync payload is the rest of the buffer after the tag; an
/// ephemeral payload must consume the buffer exactly.
pub open spec fn spec_decode_peer_message(bytes: Seq<u8>) -> Option<PeerMessageView> {
    if bytes.len() == 0 {
        None
    } else if bytes[0] == TAG_SYNC {
        Some(PeerMessageView::Sync(bytes.skip(1)))
    } else if bytes[0] == TAG_EPHEMERAL {
        match spec_decode_ephemeral(bytes, 1) {
            Some((e, p)) => if p == bytes.len() {
                Some(PeerMessageView::Ephemeral(e))
            } else {
                None
            },
            None => None,
        }
    } else {
        None
    }
}

// ---------------------------------------------------------------------
// Executable encoding
// ---------------------------------------------------------------------
/// Appending one range to a sequence appends its encoding.
proof fn lemma_range_items_snoc(rs: Seq<Range>, x: Range)
    ensures
        spec_encode_range_items(rs.push(x)) == spec_encode_range_items(rs) + spec_encode_range(x),
    decreases rs.len(),
{
    if rs.len() == 0 {
        let empty8: Seq<u8> = seq![];
        assert(rs.push(x)[0] == x);
        assert(rs.push(x).drop_first() =~= rs);
        assert(spec_encode_range_items(rs) == empty8);
        assert(spec_encode_range_items(rs.push(x)) == spec_encode_range(x)
            + spec_encode_range_items(rs));
        assert(spec_encode_range(x) + empty8 =~= empty8 + spec_encode_range(x));
    } else {
        assert(rs.push(x)[0] == rs[0]);
        assert(rs.push(x).drop_first() =~= rs.drop_first().push(x));
        lemma_range_items_snoc(rs.drop_first(), x);
        assert(spec_encode_range_items(rs.push(x)) =~= spec_encode_range_items(rs)
            + spec_encode_range(x));
    }
}

/// Appends the encoding of `s`; false when it cannot fit.
fn push_string(out: &mut Vec<u8>, s: &String) -> (ok: bool)
    ensures
        ok == spec_string_encodable(s@),
        ok ==> final(out)@ == old(out)@ + spec_encode_string(s@),
{
    let bytes = s.as_str().as_bytes();
    let n = bytes.len();
    if n as u64 > u32::MAX as u64 {
        return false;
    }
    push_u32_be(out, n as u32);
    out.extend_from_slice(bytes);
    assert(out@ =~= old(out)@ + spec_encode_string(s@));
    true
}

/// Appends the encoding of an optional string.
fn push_opt_string(out: &mut Vec<u8>, o: &Option<String>) -> (ok: bool)
    ensures
        ok == (match *o {
            Some(s) => spec_string_encodable(s@),
            None => true,
        }),
        ok ==> final(out)@ == old(out)@ + spec_encode_opt_string(
            match *o {
                Some(s) => Some(s@),
                None => None,
            },
        ),
{
    match o {
        None => {
            out.push(0u8);
            assert(out@ =~= old(out)@ + seq![0u8]);
            true
        },
        Some(s) => {
            out.push(1u8);
            let ok = push_string(out, s);
            proof {
                if ok {
                    assert(out@ =~= old(out)@ + (seq![1u8] + spec_encode_string(s@)));
                }
            }
            ok
        },
    }
}

/// Appends the encoding of a position.
fn push_position(out: &mut Vec<u8>, p: &Position)
    ensures
        final(out)@ == old(out)@ + spec_encode_position(*p),
{
    push_u64_be(out, p.line as u64);
    push_u64_be(out, p.character as u64);
    assert(out@ =~= old(out)@ + spec_encode_position(*p));
}

/// Appends the encoding of a range.
fn push_range(out: &mut Vec<u8>, r: &Range)
    ensures
        final(out)@ == old(out)@ + spec_encode_range(*r),
{
    push_position(out, &r.start);
    push_position(out, &r.end);
    assert(out@ =~= old(out)@ + spec_encode_range(*r));
}

/// Appends the count and items of a range sequence; false when the
/// count cannot fit.
fn push_ranges(out: &mut Vec<u8>, rs: &Vec<Range>) -> (ok: bool)
    ensures
        ok == (rs@.len() <= u32::MAX),
        ok ==> final(out)@ == old(out)@ + spec_u32_to_be_bytes(rs@.len() as u32)
            + spec_encode_range_items(rs@),
{
    let count = rs.len();
    if count as u64 > u32::MAX as u64 {
        return false;
    }
    push_u32_be(out, count as u32);
    let ghost base = out@;
    for i in 0..count
        invariant
            count == rs@.len(),
            out@ == base + spec_encode_range_items(rs@.take(i as int)),
    {
        push_range(out, &rs[i]);
        proof {
            lemma_range_items_snoc(rs@.take(i as int), rs@[i as int]);
            assert(rs@.take(i as int).push(rs@[i as int]) =~= rs@.take(i + 1 as int));
            assert(out@ =~= base + spec_encode_range_items(rs@.take(i + 1 as int)));
        }
    }
    proof {
        assert(rs@.take(count as int) =~= rs@);
    }
    true
}

/// Appends the encoding of a cursor state; false when a field cannot fit.
fn push_cursor_state(out: &mut Vec<u8>, cs: &CursorState) -> (ok: bool)
    ensures
        ok == spec_cursor_state_encodable(cs@),
        ok ==> final(out)@ == old(out)@ + spec_encode_cursor_state(cs@),
{
    if !push_opt_string(out, &cs.name) {
        return false;
    }
    if !push_string(out, &cs.file_path.0) {
        return false;
    }
    let ok = push_ranges(out, &cs.ranges);
    proof {
        if ok {
            assert(out@ =~= old(out)@ + spec_encode_cursor_state(cs@));
        }
    }
    ok
}

/// Appends the encoding of an ephemeral message; false when a field
/// cannot fit.
fn push_ephemeral(out: &mut Vec<u8>, e: &EphemeralMessage) -> (ok: bool)
    ensures
        ok == spec_ephemeral_encodable(e@),
        ok ==> final(out)@ == old(out)@ + spec_encode_ephemeral(e@),
{
    if !push_string(out, &e.cursor_id) {
        return false;
    }
    push_u64_be(out, e.sequence_number as u64);
    let ok = push_cursor_state(out, &e.cursor_state);
    proof {
        if ok {
            assert(out@ =~= old(out)@ + spec_encode_ephemeral(e@));
        }
    }
    ok
}

/// Encodes one peer message as payload bytes.
///
/// Fails only when a string or sequence inside an ephemeral message is
/// longer than its `u32` length prefix can describe.
pub fn encode_peer_message(m: &PeerMessage) -> (r: Result<Vec<u8>, PeerMessageError>)
    ensures
        spec_peer_message_encodable(m@) ==> (r matches Ok(b) && b@ == spec_encode_peer_message(
            m@,
        )),
        !spec_peer_message_encodable(m@) ==> r == Err::<Vec<u8>, PeerMessageError>(
            PeerMessageError::Oversize,
        ),
{
    let mut out: Vec<u8> = Vec::new();
    match m {
        PeerMessage::Sync(b) => {
            out.push(TAG_SYNC);
            out.extend_from_slice(b.as_slice());
            assert(out@ =~= seq![TAG_SYNC] + b@);
            Ok(out)
        },
        PeerMessage::Ephemeral(e) => {
            out.push(TAG_EPHEMERAL);
            if push_ephemeral(&mut out, e) {
                assert(out@ =~= seq![TAG_EPHEMERAL] + spec_encode_ephemeral(e@));
                Ok(out)
            } else {
                Err(PeerMessageError::Oversize)
            }
        },
    }
}

// ---------------------------------------------------------------------
// Executable decoding
// ---------------------------------------------------------------------
/// A successful usize decode lands inside the buffer.
proof fn lemma_decode_usize_pos(bytes: Seq<u8>, pos: int)
    ensures
        spec_decode_usize(bytes, pos) matches Some((v, p)) ==> 0 <= p <= bytes.len(),
{
}

/// A successful position decode lands inside the buffer.
proof fn lemma_decode_position_pos(bytes: Seq<u8>, pos: int)
    ensures
        spec_decode_position(bytes, pos) matches Some((v, p)) ==> 0 <= p <= bytes.len(),
{
    lemma_decode_usize_pos(bytes, pos);
    match spec_decode_usize(bytes, pos) {
        Some((v1, p1)) => lemma_decode_usize_pos(bytes, p1),
        None => {},
    }
}

/// A successful range decode lands inside the buffer.
proof fn lemma_decode_range_pos(bytes: Seq<u8>, pos: int)
    ensures
        spec_decode_range(bytes, pos) matches Some((v, p)) ==> 0 <= p <= bytes.len(),
{
    lemma_decode_position_pos(bytes, pos);
    match spec_decode_position(bytes, pos) {
        Some((v1, p1)) => lemma_decode_position_pos(bytes, p1),
        None => {},
    }
}

/// Decodes a length-prefixed UTF-8 string at `pos`.
fn decode_string(bytes: &Vec<u8>, pos: usize) -> (r: Option<(String, usize)>)
    ensures
        match spec_decode_string(bytes@, pos as int) {
            Some((s, p)) => r matches Some(t) && t.0@ == s && t.1 == p,
            None => r is None,
        },
{
    let n = bytes.len();
    if n < 4 || pos > n - 4 {
        return None;
    }
    let len = read_u32_be(bytes, pos) as usize;
    if len > n - (pos + 4) {
        return None;
    }
    let sub = slice_to_vec(slice_subrange(bytes.as_slice(), pos + 4, pos + 4 + len));
    match string_from_utf8(sub) {
        Some(s) => Some((s, pos + 4 + len)),
        None => None,
    }
}

/// Decodes a presence byte and, if present, a string at `pos`.
fn decode_opt_string(bytes: &Vec<u8>, pos: usize) -> (r: Option<(Option<String>, usize)>)
    ensures
        match spec_decode_opt_string(bytes@, pos as int) {
            Some((o, p)) => r matches Some(t) && t.1 == p && (match (t.0, o) {
                (Some(s), Some(v)) => s@ == v,
                (None, None) => true,
                _ => false,
            }),
            None => r is None,
        },
{
    let n = bytes.len();
    if pos >= n {
        return None;
    }
    let tag = bytes[pos];
    if tag == 0u8 {
        Some((None, pos + 1))
    } else if tag == 1u8 {
        match decode_string(bytes, pos + 1) {
            Some((s, p)) => Some((Some(s), p)),
            None => None,
        }
    } else {
        None
    }
}

/// Decodes a big-endian `u64` at `pos` that must fit in `usize`.
fn decode_usize(bytes: &Vec<u8>, pos: usize) -> (r: Option<(usize, usize)>)
    ensures
        match spec_decode_usize(bytes@, pos as int) {
            Some((v, p)) => r == Some((v, p as usize)),
            None => r is None,
        },
{
    let n = bytes.len();
    if n < 8 || pos > n - 8 {
        return None;
    }
    let v = read_u64_be(bytes, pos);
    if v > usize::MAX as u64 {
        return None;
    }
    Some((v as usize, pos + 8))
}

/// Decodes a position at `pos`.
fn decode_position(bytes: &Vec<u8>, pos: usize) -> (r: Option<(Position, usize)>)
    ensures
        match spec_decode_position(bytes@, pos as int) {
            Some((v, p)) => r == Some((v, p as usize)),
            None => r is None,
        },
{
    let _n = bytes.len();
    let (line, p1) = match decode_usize(bytes, pos) {
        Some(t) => t,
        None => {
            return None;
        },
    };
    let (character, p2) = match decode_usize(bytes, p1) {
        Some(t) => t,
        None => {
            return None;
        },
    };
    Some((Position { line, character }, p2))
}

/// Decodes a range at `pos`.
fn decode_range(bytes: &Vec<u8>, pos: usize) -> (r: Option<(Range, usize)>)
    ensures
        match spec_decode_range(bytes@, pos as int) {
            Some((v, p)) => r == Some((v, p as usize)),
            None => r is None,
        },
{
    let _n = bytes.len();
    let (start, p1) = match decode_position(bytes, pos) {
        Some(t) => t,
        None => {
            return None;
        },
    };
    let (end, p2) = match decode_position(bytes, p1) {
        Some(t) => t,
        None => {
            return None;
        },
    };
    Some((Range { start, end }, p2))
}

/// Decodes `count` ranges in order, starting at `pos`.
fn decode_range_items(bytes: &Vec<u8>, pos: usize, count: u32) -> (r: Option<(Vec<Range>, usize)>)
    ensures
        match spec_decode_range_items(bytes@, pos as int, count as int) {
            Some((v, p)) => r matches Some(t) && t.0@ == v && t.1 == p,
            None => r is None,
        },
{
    let _n = bytes.len();
    let mut acc: Vec<Range> = Vec::new();
    let mut p = pos;
    let mut i: u32 = 0;
    while i < count
        invariant
            i <= count,
            bytes@.len() <= usize::MAX,
            spec_decode_range_items(bytes@, pos as int, count as int) == (match
                spec_decode_range_items(bytes@, p as int, count - i) {
                None => None::<(Seq<Range>, int)>,
                Some((rest, fin)) => Some((acc@ + rest, fin)),
            }),
        decreases count - i,
    {
        let (r, p2) = match decode_range(bytes, p) {
            Some(t) => t,
            None => {
                return None;
            },
        };
        proof {
            let k = (count - i) as int;
            assert(k > 0);
            lemma_decode_range_pos(bytes@, p as int);
            assert(spec_decode_range(bytes@, p as int) == Some::<(Range, int)>((r, p2 as int)));
            assert(spec_decode_range_items(bytes@, p as int, k as int) == (match
                spec_decode_range_items(bytes@, p2 as int, k - 1) {
                None => None::<(Seq<Range>, int)>,
                Some((rest, fin)) => Some((seq![r] + rest, fin)),
            }));
            match spec_decode_range_items(bytes@, p2 as int, k - 1) {
                Some((rest, fin)) => {
                    assert(acc@ + (seq![r] + rest) =~= acc@.push(r) + rest);
                },
                None => {},
            }
        }
        acc.push(r);
        p = p2;
        i = i + 1;
    }
    proof {
        assert(acc@ + Seq::<Range>::empty() =~= acc@);
    }
    Some((acc, p))
}

/// Decodes a cursor state at `pos`.
fn decode_cursor_state(bytes: &Vec<u8>, pos: usize) -> (r: Option<(CursorState, usize)>)
    ensures
        match spec_decode_cursor_state(bytes@, pos as int) {
            Some((v, p)) => r matches Some(t) && t.0@ == v && t.1 == p,
            None => r is None,
        },
{
    let n = bytes.len();
    let (name, p1) = match decode_opt_string(bytes, pos) {
        Some(t) => t,
        None => {
            return None;
        },
    };
    let (file_path, p2) = match decode_string(bytes, p1) {
        Some(t) => t,
        None => {
            return None;
        },
    };
    if n < 4 || p2 > n - 4 {
        return None;
    }
    let count = read_u32_be(bytes, p2);
    let (ranges, p3) = match decode_range_items(bytes, p2 + 4, count) {
        Some(t) => t,
        None => {
            return None;
        },
    };
    Some((CursorState { name, file_path: RelativePath(file_path), ranges }, p3))
}

/// Decodes an ephemeral message at `pos`.
fn decode_ephemeral(bytes: &Vec<u8>, pos: usize) -> (r: Option<(EphemeralMessage, usize)>)
    ensures
        match spec_decode_ephemeral(bytes@, pos as int) {
            Some((v, p)) => r matches Some(t) && t.0@ == v && t.1 == p,
            None => r is None,
        },
{
    let _n = bytes.len();
    let (cursor_id, p1) = match decode_string(bytes, pos) {
        Some(t) => t,
        None => {
            return None;
        },
    };
    let (sequence_number, p2) = match decode_usize(bytes, p1) {
        Some(t) => t,
        None => {
            return None;
        },
    };
    let (cursor_state, p3) = match decode_cursor_state(bytes, p2) {
        Some(t) => t,
        None => {
            return None;
        },
    };
    Some((EphemeralMessage { cursor_id, sequence_number, cursor_state }, p3))
}

// ---------------------------------------------------------------------
// Round trip: decoding an encoding yields the original message
// ---------------------------------------------------------------------
/// An embedded encoding can be read byte by byte.
proof fn lemma_subrange_index(bytes: Seq<u8>, pos: int, enc: Seq<u8>)
    requires
        0 <= pos,
        pos + enc.len() <= bytes.len(),
        bytes.subrange(pos, pos + enc.len() as int) == enc,
    ensures
        forall|i: int| 0 <= i < enc.len() ==> bytes[pos + i] == #[trigger] enc[i],
{
    assert forall|i: int| 0 <= i < enc.len() implies bytes[pos + i] == #[trigger] enc[i] by {
        assert(enc[i] == bytes.subrange(pos, pos + enc.len() as int)[i]);
    }
}

/// A chunk of an embedded encoding is the matching chunk of the buffer.
proof fn lemma_subrange_chunk(bytes: Seq<u8>, pos: int, enc: Seq<u8>, a: int, b: int)
    requires
        0 <= pos,
        pos + enc.len() <= bytes.len(),
        bytes.subrange(pos, pos + enc.len() as int) == enc,
        0 <= a <= b <= enc.len(),
    ensures
        bytes.subrange(pos + a, pos + b) == enc.subrange(a, b),
{
    lemma_subrange_index(bytes, pos, enc);
    assert(bytes.subrange(pos + a, pos + b) =~= enc.subrange(a, b));
}

/// Decoding an embedded string encoding yields the string.
proof fn lemma_decode_string_encoded(bytes: Seq<u8>, pos: int, s: Seq<char>)
    requires
        spec_string_encodable(s),
        0 <= pos,
        pos + spec_encode_string(s).len() <= bytes.len(),
        bytes.subrange(pos, pos + spec_encode_string(s).len() as int) == spec_encode_string(s),
    ensures
        spec_decode_string(bytes, pos) == Some(
            (s, pos + spec_encode_string(s).len() as int),
        ),
{
    let enc = spec_encode_string(s);
    let u = encode_utf8(s);
    let n = u.len() as int;
    assert(enc.subrange(0, 4) =~= spec_u32_to_be_bytes(n as u32));
    lemma_subrange_chunk(bytes, pos, enc, 0, 4);
    lemma_u32_be_bytes_round_trip(n as u32);
    assert(enc.subrange(4, 4 + n) =~= u);
    lemma_subrange_chunk(bytes, pos, enc, 4, 4 + n);
    encode_utf8_valid_utf8(s);
    encode_utf8_decode_utf8(s);
}

/// Decoding an embedded optional-string encoding yields the option.
proof fn lemma_decode_opt_string_encoded(bytes: Seq<u8>, pos: int, o: Option<Seq<char>>)
    requires
        o matches Some(s) ==> spec_string_encodable(s),
        0 <= pos,
        pos + spec_encode_opt_string(o).len() <= bytes.len(),
        bytes.subrange(pos, pos + spec_encode_opt_string(o).len() as int)
            == spec_encode_opt_string(o),
    ensures
        spec_decode_opt_string(bytes, pos) == Some(
            (o, pos + spec_encode_opt_string(o).len() as int),
        ),
{
    let enc = spec_encode_opt_string(o);
    lemma_subrange_index(bytes, pos, enc);
    match o {
        None => {
            assert(enc[0] == 0u8);
            assert(bytes[pos + 0] == enc[0]);
            assert(bytes[pos] == 0u8);
        },
        Some(s) => {
            assert(enc[0] == 1u8);
            assert(bytes[pos + 0] == enc[0]);
            assert(bytes[pos] == 1u8);
            let es = spec_encode_string(s);
            assert(enc.subrange(1, 1 + es.len() as int) =~= es);
            lemma_subrange_chunk(bytes, pos, enc, 1, 1 + es.len() as int);
            lemma_decode_string_encoded(bytes, pos + 1, s);
        },
    }
}

/// Decoding an embedded counter encoding yields the value.
proof fn lemma_decode_usize_encoded(bytes: Seq<u8>, pos: int, v: usize)
    requires
        0 <= pos,
        pos + 8 <= bytes.len(),
        bytes.subrange(pos, pos + 8) == spec_u64_to_be_bytes(v as u64),
    ensures
        spec_decode_usize(bytes, pos) == Some((v, pos + 8)),
{
    lemma_u64_be_bytes_round_trip(v as u64);
}

/// Decoding an embedded position encoding yields the position.
proof fn lemma_decode_position_encoded(bytes: Seq<u8>, pos: int, p: Position)
    requires
        0 <= pos,
        pos + 16 <= bytes.len(),
        bytes.subrange(pos, pos + 16) == spec_encode_position(p),
    ensures
        spec_decode_position(bytes, pos) == Some((p, pos + 16)),
{
    let enc = spec_encode_position(p);
    assert(enc.subrange(0, 8) =~= spec_u64_to_be_bytes(p.line as u64));
    assert(enc.subrange(8, 16) =~= spec_u64_to_be_bytes(p.character as u64));
    lemma_subrange_chunk(bytes, pos, enc, 0, 8);
    lemma_subrange_chunk(bytes, pos, enc, 8, 16);
    lemma_decode_usize_encoded(bytes, pos, p.line);
    lemma_decode_usize_encoded(bytes, pos + 8, p.character);
}

/// Decoding an embedded range encoding yields the range.
proof fn lemma_decode_range_encoded(bytes: Seq<u8>, pos: int, r: Range)
    requires
        0 <= pos,
        pos + 32 <= bytes.len(),
        bytes.subrange(pos, pos + 32) == spec_encode_range(r),
    ensures
        spec_decode_range(bytes, pos) == Some((r, pos + 32)),
{
    let enc = spec_encode_range(r);
    assert(enc.subrange(0, 16) =~= spec_encode_position(r.start));
    assert(enc.subrange(16, 32) =~= spec_encode_position(r.end));
    lemma_subrange_chunk(bytes, pos, enc, 0, 16);
    lemma_subrange_chunk(bytes, pos, enc, 16, 32);
    lemma_decode_position_encoded(bytes, pos, r.start);
    lemma_decode_position_encoded(bytes, pos + 16, r.end);
}

/// The items encoding of a range sequence is 32 bytes per item.
proof fn lemma_range_items_len(rs: Seq<Range>)
    ensures
        spec_encode_range_items(rs).len() == 32 * rs.len(),
    decreases rs.len(),
{
    if rs.len() > 0 {
        lemma_range_items_len(rs.drop_first());
    }
}

/// Decoding an embedded items encoding yields the ranges.
proof fn lemma_decode_range_items_encoded(bytes: Seq<u8>, pos: int, rs: Seq<Range>)
    requires
        0 <= pos,
        pos + spec_encode_range_items(rs).len() <= bytes.len(),
        bytes.subrange(pos, pos + spec_encode_range_items(rs).len() as int)
            == spec_encode_range_items(rs),
    ensures
        spec_decode_range_items(bytes, pos, rs.len() as int) == Some(
            (rs, pos + spec_encode_range_items(rs).len() as int),
        ),
    decreases rs.len(),
{
    let enc = spec_encode_range_items(rs);
    if rs.len() == 0 {
        assert(spec_decode_range_items(bytes, pos, 0) == Some((Seq::<Range>::empty(), pos)));
        assert(rs =~= Seq::<Range>::empty());
    } else {
        let head = spec_encode_range(rs[0]);
        let tail = spec_encode_range_items(rs.drop_first());
        lemma_range_items_len(rs);
        lemma_range_items_len(rs.drop_first());
        assert(enc.subrange(0, 32) =~= head);
        assert(enc.subrange(32, enc.len() as int) =~= tail);
        lemma_subrange_chunk(bytes, pos, enc, 0, 32);
        lemma_subrange_chunk(bytes, pos, enc, 32, enc.len() as int);
        lemma_decode_range_encoded(bytes, pos, rs[0]);
        lemma_decode_range_items_encoded(bytes, pos + 32, rs.drop_first());
        assert(seq![rs[0]] + rs.drop_first() =~= rs);
    }
}

/// Decoding an embedded cursor-state encoding yields the state.
proof fn lemma_decode_cursor_state_encoded(bytes: Seq<u8>, pos: int, cs: CursorStateView)
    requires
        spec_cursor_state_encodable(cs),
        0 <= pos,
        pos + spec_encode_cursor_state(cs).len() <= bytes.len(),
        bytes.subrange(pos, pos + spec_encode_cursor_state(cs).len() as int)
            == spec_encode_cursor_state(cs),
    ensures
        spec_decode_cursor_state(bytes, pos) == Some(
            (cs, pos + spec_encode_cursor_state(cs).len() as int),
        ),
{
    let enc = spec_encode_cursor_state(cs);
    let e1 = spec_encode_opt_string(cs.name);
    let e2 = spec_encode_string(cs.file_path);
    let e3 = spec_u32_to_be_bytes(cs.ranges.len() as u32);
    let e4 = spec_encode_range_items(cs.ranges);
    let n1 = e1.len() as int;
    let n2 = e2.len() as int;
    let n4 = e4.len() as int;
    assert(enc.subrange(0, n1) =~= e1);
    assert(enc.subrange(n1, n1 + n2) =~= e2);
    assert(enc.subrange(n1 + n2, n1 + n2 + 4) =~= e3);
    assert(enc.subrange(n1 + n2 + 4, n1 + n2 + 4 + n4) =~= e4);
    lemma_subrange_chunk(bytes, pos, enc, 0, n1);
    lemma_subrange_chunk(bytes, pos, enc, n1, n1 + n2);
    lemma_subrange_chunk(bytes, pos, enc, n1 + n2, n1 + n2 + 4);
    lemma_subrange_chunk(bytes, pos, enc, n1 + n2 + 4, n1 + n2 + 4 + n4);
    lemma_decode_opt_string_encoded(bytes, pos, cs.name);
    lemma_decode_string_encoded(bytes, pos + n1, cs.file_path);
    lemma_u32_be_bytes_round_trip(cs.ranges.len() as u32);
    lemma_decode_range_items_encoded(bytes, pos + n1 + n2 + 4, cs.ranges);
}

/// Decoding an embedded ephemeral-message encoding yields the message.
proof fn lemma_decode_ephemeral_encoded(bytes: Seq<u8>, pos: int, e: EphemeralMessageView)
    requires
        spec_ephemeral_encodable(e),
        0 <= pos,
        pos + spec_encode_ephemeral(e).len() <= bytes.len(),
        bytes.subrange(pos, pos + spec_encode_ephemeral(e).len() as int)
            == spec_encode_ephemeral(e),
    ensures
        spec_decode_ephemeral(bytes, pos) == Some(
            (e, pos + spec_encode_ephemeral(e).len() as int),
        ),
{
    let enc = spec_encode_ephemeral(e);
    let e1 = spec_encode_string(e.cursor_id);
    let e2 = spec_u64_to_be_bytes(e.sequence_number as u64);
    let e3 = spec_encode_cursor_state(e.cursor_state);
    let n1 = e1.len() as int;
    let n3 = e3.len() as int;
    assert(enc.subrange(0, n1) =~= e1);
    assert(enc.subrange(n1, n1 + 8) =~= e2);
    assert(enc.subrange(n1 + 8, n1 + 8 + n3) =~= e3);
    lemma_subrange_chunk(bytes, pos, enc, 0, n1);
    lemma_subrange_chunk(bytes, pos, enc, n1, n1 + 8);
    lemma_subrange_chunk(bytes, pos, enc, n1 + 8, n1 + 8 + n3);
    lemma_decode_string_encoded(bytes, pos, e.cursor_id);
    lemma_decode_usize_encoded(bytes, pos + n1, e.sequence_number);
    lemma_decode_cursor_state_encoded(bytes, pos + n1 + 8, e.cursor_state);
}

/// Codec round trip: decoding an encoded peer message yields the
/// message unchanged.
pub proof fn lemma_peer_message_round_trip(m: PeerMessageView)
    requires
        spec_peer_message_encodable(m),
    ensures
        spec_decode_peer_message(spec_encode_peer_message(m)) == Some(m),
{
    let enc = spec_encode_peer_message(m);
    match m {
        PeerMessageView::Sync(b) => {
            assert(enc[0] == TAG_SYNC);
            assert(enc.skip(1) =~= b);
        },
        PeerMessageView::Ephemeral(e) => {
            let ee = spec_encode_ephemeral(e);
            assert(enc[0] == TAG_EPHEMERAL);
            assert(enc.subrange(1, 1 + ee.len() as int) =~= ee);
            lemma_decode_ephemeral_encoded(enc, 1, e);
        },
    }
}

/// Decodes one peer-message payload.
///
/// Returns `Malformed` exactly when the bytes are not a well-formed
/// encoding: empty input, an unknown tag, a field that ends past the
/// buffer, ill-formed UTF-8, or trailing bytes after an ephemeral
/// message.
pub fn decode_peer_message(bytes: &Vec<u8>) -> (r: Result<PeerMessage, PeerMessageError>)
    ensures
        match spec_decode_peer_message(bytes@) {
            Some(v) => r matches Ok(m) && m@ == v,
            None => r == Err::<PeerMessage, PeerMessageError>(PeerMessageError::Malformed),
        },
{
    let n = bytes.len();
    if n == 0 {
        return Err(PeerMessageError::Malformed);
    }
    let tag = bytes[0];
    if tag == TAG_SYNC {
        let payload = slice_to_vec(slice_subrange(bytes.as_slice(), 1, n));
        assert(payload@ =~= bytes@.skip(1));
        Ok(PeerMessage::Sync(payload))
    } else if tag == TAG_EPHEMERAL {
        match decode_ephemeral(bytes, 1) {
            Some((e, p)) => {
                if p == n {
                    Ok(PeerMessage::Ephemeral(e))
                } else {
                    Err(PeerMessageError::Malformed)
                }
            },
            None => Err(PeerMessageError::Malformed),
        }
    } else {
        Err(PeerMessageError::Malformed)
    }
}

} // verus!
