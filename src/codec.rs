//! The remote-console wire frame.
//!
//! A frame is `length || request_id || kind || payload || 0x00 || 0x00`, each
//! integer four bytes little-endian, where `length` counts every byte after it.
use vstd::prelude::*;
use vstd::utf8::*;

use crate::error::RelayError;

verus! {

broadcast use vstd::utf8::group_utf8_lib;

/// Kind of the frame that logs into the console.
pub const LOGIN: i32 = 3;

/// Kind of the frame that carries a console command.
pub const COMMAND: i32 = 2;

/// Largest payload, in bytes, that a reader accepts.
pub const MAX_PAYLOAD: usize = 4096;

/// Bytes before the payload: length, request id and kind.
pub const HEADER_LEN: usize = 12;

/// Bytes a reader examines before it rejects an unterminated payload.
pub const SCAN_LIMIT: usize = 4109;

/// One unit of the console protocol.
#[derive(Debug)]
pub struct Packet {
    pub request_id: i32,
    pub request_type: i32,
    pub payload: String,
}

/// What a packet means: its two integers and the characters of its payload.
pub struct PacketView {
    pub request_id: i32,
    pub request_type: i32,
    pub payload: Seq<char>,
}

impl View for Packet {
    type V = PacketView;

    open spec fn view(&self) -> PacketView {
        PacketView {
            request_id: self.request_id,
            request_type: self.request_type,
            payload: self.payload@,
        }
    }
}

/// What a reader makes of the bytes it has so far.
pub enum Decoded {
    /// A whole frame: the packet and how many bytes it took.
    Frame(PacketView, nat),
    /// The bytes end before the frame does.
    NeedMore,
    /// The bytes cannot start a valid frame.
    Invalid,
}

/// The four little-endian bytes of `x`.
pub open spec fn le_bytes(x: i32) -> Seq<u8> {
    let u: u32 = x as u32;
    seq![(u & 0xff) as u8, ((u >> 8u32) & 0xff) as u8, ((u >> 16u32) & 0xff) as u8, (u >> 24u32) as u8]
}

/// The integer that four little-endian bytes stand for.
pub open spec fn le_value(b0: u8, b1: u8, b2: u8, b3: u8) -> i32 {
    ((b0 as u32) | ((b1 as u32) << 8u32) | ((b2 as u32) << 16u32) | ((b3 as u32) << 24u32)) as i32
}

/// The integer stored at `at` in `b`.
pub open spec fn le_at(b: Seq<u8>, at: int) -> i32 {
    le_value(b[at], b[at + 1], b[at + 2], b[at + 3])
}

/// The payload's bytes on the wire.
pub open spec fn payload_bytes(p: PacketView) -> Seq<u8> {
    encode_utf8(p.payload)
}

/// No byte of `s` is the terminator.
pub open spec fn nul_free(s: Seq<u8>) -> bool {
    forall|i: int| 0 <= i < s.len() ==> s[i] != 0
}

/// The length field of a frame fits its signed 32-bit slot.
pub open spec fn fits_frame(p: PacketView) -> bool {
    payload_bytes(p).len() + 10 <= i32::MAX
}

/// A packet that a reader gets back whole: a bounded payload without terminator.
pub open spec fn well_formed(p: PacketView) -> bool {
    payload_bytes(p).len() <= MAX_PAYLOAD && nul_free(payload_bytes(p))
}

/// The bytes of the frame that carries `p`.
pub open spec fn frame_of(p: PacketView) -> Seq<u8> {
    le_bytes((payload_bytes(p).len() + 10) as i32) + le_bytes(p.request_id) + le_bytes(
        p.request_type,
    ) + payload_bytes(p) + seq![0u8, 0u8]
}

/// The first index from `i` on, before `end`, that holds the terminator; `end` if none does.
pub open spec fn scan(b: Seq<u8>, i: int, end: int) -> int
    decreases end - i,
{
    if i >= end || b[i] == 0 {
        i
    } else {
        scan(b, i + 1, end)
    }
}

/// Where a reader stops looking for the terminator in `b`.
pub open spec fn scan_end(b: Seq<u8>) -> int {
    if b.len() < SCAN_LIMIT {
        b.len() as int
    } else {
        SCAN_LIMIT as int
    }
}

/// How a reader decodes the start of `b`: skip the length, take request id and
/// kind, take payload bytes up to the terminator (at most `MAX_PAYLOAD` of them),
/// then skip one more byte; the payload must be valid UTF-8.
pub open spec fn decode_spec(b: Seq<u8>) -> Decoded {
    if b.len() < HEADER_LEN {
        Decoded::NeedMore
    } else {
        let end: int = scan_end(b);
        let k: int = scan(b, HEADER_LEN as int, end);
        if k < end {
            if b.len() < k + 2 {
                Decoded::NeedMore
            } else {
                let pb = b.subrange(HEADER_LEN as int, k);
                if valid_utf8(pb) {
                    Decoded::Frame(
                        PacketView {
                            request_id: le_at(b, 4),
                            request_type: le_at(b, 8),
                            payload: decode_utf8(pb),
                        },
                        (k + 2) as nat,
                    )
                } else {
                    Decoded::Invalid
                }
            }
        } else if end == SCAN_LIMIT {
            Decoded::Invalid
        } else {
            Decoded::NeedMore
        }
    }
}

/// Relies on `String::from_utf8`: it succeeds exactly on valid UTF-8, and the
/// string it returns holds those bytes.
#[verifier::external_body]
fn string_from_utf8(bytes: Vec<u8>) -> (r: Option<String>)
    ensures
        r.is_some() == valid_utf8(bytes@),
        r matches Some(s) ==> s@ == decode_utf8(bytes@),
{
    String::from_utf8(bytes).ok()
}

/// Appends the four little-endian bytes of `x`.
fn push_le(out: &mut Vec<u8>, x: i32)
    ensures
        final(out)@ == old(out)@ + le_bytes(x),
{
    let u: u32 = x as u32;
    out.push((u & 0xff) as u8);
    out.push(((u >> 8u32) & 0xff) as u8);
    out.push(((u >> 16u32) & 0xff) as u8);
    out.push((u >> 24u32) as u8);
    assert(out@ =~= old(out)@ + le_bytes(x));
}

/// The integer stored little-endian at `at`.
fn read_le(b: &[u8], at: usize) -> (r: i32)
    requires
        at + 4 <= b@.len(),
    ensures
        r == le_at(b@, at as int),
{
    let b0: u8 = b[at];
    let b1: u8 = b[at + 1];
    let b2: u8 = b[at + 2];
    let b3: u8 = b[at + 3];
    ((b0 as u32) | ((b1 as u32) << 8u32) | ((b2 as u32) << 16u32) | ((b3 as u32) << 24u32)) as i32
}

impl Packet {
    /// The frame that carries this packet; fails with `ProtocolViolation` only
    /// when the length field cannot hold the frame's size.
    pub fn write(&self) -> (r: Result<Vec<u8>, RelayError>)
        ensures
            fits_frame(self@) ==> (r matches Ok(v) && v@ == frame_of(self@)),
            !fits_frame(self@) ==> r == Err::<Vec<u8>, RelayError>(RelayError::ProtocolViolation),
    {
        let bytes = self.payload.as_str().as_bytes();
        let n: usize = bytes.len();
        if n > (i32::MAX as usize) - 10 {
            return Err(RelayError::ProtocolViolation);
        }
        let mut out: Vec<u8> = Vec::new();
        push_le(&mut out, (n + 10) as i32);
        push_le(&mut out, self.request_id);
        push_le(&mut out, self.request_type);
        let ghost head = out@;
        let mut i: usize = 0;
        while i < n
            invariant
                i <= n,
                n == bytes@.len(),
                bytes@ == payload_bytes(self@),
                out@ == head + bytes@.take(i as int),
            decreases n - i,
        {
            out.push(bytes[i]);
            i = i + 1;
            assert(out@ =~= head + bytes@.take(i as int));
        }
        out.push(0u8);
        out.push(0u8);
        assert(bytes@.take(n as int) =~= bytes@);
        assert(out@ =~= frame_of(self@));
        Ok(out)
    }

    /// Decodes the frame at the start of `buf`: `Ok(Some((packet, used)))` for a
    /// whole frame of `used` bytes, `Ok(None)` when more bytes are needed, and
    /// `ProtocolViolation` for an oversized payload or one that is not UTF-8.
    pub fn read(buf: &[u8]) -> (r: Result<Option<(Packet, usize)>, RelayError>)
        ensures
            decode_spec(buf@) == Decoded::NeedMore <==> r matches Ok(None),
            decode_spec(buf@) == Decoded::Invalid <==> r == Err::<Option<(Packet, usize)>, RelayError>(
                RelayError::ProtocolViolation,
            ),
            r matches Ok(Some((p, used))) ==> decode_spec(buf@) == Decoded::Frame(p@, used as nat),
            r is Err ==> r == Err::<Option<(Packet, usize)>, RelayError>(RelayError::ProtocolViolation),
    {
        let len: usize = buf.len();
        if len < HEADER_LEN {
            return Ok(None);
        }
        let end: usize = if len < SCAN_LIMIT { len } else { SCAN_LIMIT };
        let mut k: usize = HEADER_LEN;
        while k < end && buf[k] != 0
            invariant
                HEADER_LEN <= k <= end,
                end == scan_end(buf@),
                end <= len == buf@.len(),
                scan(buf@, k as int, end as int) == scan(buf@, HEADER_LEN as int, end as int),
            decreases end - k,
        {
            k = k + 1;
        }
        if k == end {
            if end == SCAN_LIMIT {
                return Err(RelayError::ProtocolViolation);
            }
            return Ok(None);
        }
        if len < k + 2 {
            return Ok(None);
        }
        let mut body: Vec<u8> = Vec::new();
        let mut i: usize = HEADER_LEN;
        while i < k
            invariant
                HEADER_LEN <= i <= k,
                k < len == buf@.len(),
                body@ == buf@.subrange(HEADER_LEN as int, i as int),
            decreases k - i,
        {
            body.push(buf[i]);
            i = i + 1;
            assert(body@ =~= buf@.subrange(HEADER_LEN as int, i as int));
        }
        let request_id: i32 = read_le(buf, 4);
        let request_type: i32 = read_le(buf, 8);
        match string_from_utf8(body) {
            Some(payload) => Ok(Some((Packet { request_id, request_type, payload }, k + 2))),
            None => Err(RelayError::ProtocolViolation),
        }
    }
}

/// Reading back the four bytes of an integer gives the integer.
pub proof fn lemma_le_round_trip(x: i32)
    ensures
        le_at(le_bytes(x), 0) == x,
{
    let u: u32 = x as u32;
    let b0: u8 = (u & 0xff) as u8;
    let b1: u8 = ((u >> 8u32) & 0xff) as u8;
    let b2: u8 = ((u >> 16u32) & 0xff) as u8;
    let b3: u8 = (u >> 24u32) as u8;
    assert(((b0 as u32) | ((b1 as u32) << 8u32) | ((b2 as u32) << 16u32) | ((b3 as u32)
        << 24u32)) == u) by (bit_vector)
        requires
            b0 == (u & 0xff) as u8,
            b1 == ((u >> 8u32) & 0xff) as u8,
            b2 == ((u >> 16u32) & 0xff) as u8,
            b3 == (u >> 24u32) as u8,
    ;
    assert((u as i32) == x) by (bit_vector)
        requires
            u == x as u32,
    ;
}

/// The scan from `i` stops at `j` when `j` holds the terminator (or is `end`)
/// and nothing between them does.
pub proof fn lemma_scan_stops(b: Seq<u8>, i: int, j: int, end: int)
    requires
        i <= j <= end <= b.len(),
        j == end || b[j] == 0,
        forall|m: int| i <= m < j ==> b[m] != 0,
    ensures
        scan(b, i, end) == j,
    decreases j - i,
{
    if i < j {
        lemma_scan_stops(b, i + 1, j, end);
    }
}

/// Decoding an encoded well-formed packet, followed by any bytes, gives the
/// packet back and consumes exactly its frame.
pub proof fn lemma_frame_round_trip(p: PacketView, rest: Seq<u8>)
    requires
        well_formed(p),
    ensures
        decode_spec(frame_of(p) + rest) == Decoded::Frame(p, frame_of(p).len()),
{
    let pb = payload_bytes(p);
    let n: int = pb.len() as int;
    let f = frame_of(p);
    let b = f + rest;
    lemma_le_round_trip(p.request_id);
    lemma_le_round_trip(p.request_type);
    assert(b.subrange(4, 8) =~= le_bytes(p.request_id));
    assert(b.subrange(8, 12) =~= le_bytes(p.request_type));
    assert(le_at(b, 4) == le_at(b.subrange(4, 8), 0));
    assert(le_at(b, 8) == le_at(b.subrange(8, 12), 0));
    assert(b.subrange(12, 12 + n) =~= pb);
    assert forall|m: int| 12 <= m < 12 + n implies b[m] != 0 by {
        assert(b[m] == pb[m - 12]);
    }
    assert(b[12 + n] == 0);
    lemma_scan_stops(b, 12, 12 + n, scan_end(b));
    assert(f.len() == n + 14);
}

/// A payload that runs past `MAX_PAYLOAD` bytes without a terminator is
/// rejected, and the verdict rests on the first `SCAN_LIMIT` bytes alone, which
/// an honest length field covers.
pub proof fn lemma_oversized_rejected(b: Seq<u8>)
    requires
        b.len() >= SCAN_LIMIT,
        forall|m: int| HEADER_LEN <= m < SCAN_LIMIT ==> b[m] != 0,
    ensures
        decode_spec(b) == Decoded::Invalid,
        decode_spec(b.take(SCAN_LIMIT as int)) == Decoded::Invalid,
{
    lemma_scan_stops(b, HEADER_LEN as int, SCAN_LIMIT as int, SCAN_LIMIT as int);
    let t = b.take(SCAN_LIMIT as int);
    lemma_scan_stops(t, HEADER_LEN as int, SCAN_LIMIT as int, SCAN_LIMIT as int);
}

} // verus!
