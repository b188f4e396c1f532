//! The byte layout of the event stream between two processes.
//!
//! Each payload travels as a frame: its length as a 32-bit unsigned number,
//! least significant byte first, and then the payload itself. A stream is a
//! run of frames and ends where fewer than four bytes are left.

use vstd::prelude::*;

verus! {

/// The number of bytes of the length prefix.
pub const PREFIX_LEN: usize = 4;

/// The longest payload that a frame can carry.
pub const MAX_PAYLOAD: usize = 0xffff_ffff;

/// The four bytes that stand for `n`, least significant first.
pub open spec fn le_bytes(n: int) -> Seq<u8> {
    seq![
        (n % 256) as u8,
        ((n / 256) % 256) as u8,
        ((n / 65536) % 256) as u8,
        ((n / 16777216) % 256) as u8,
    ]
}

/// The number that the first four bytes of `bytes` stand for, least
/// significant first.
pub open spec fn le_value(bytes: Seq<u8>) -> int {
    bytes[0] as int + 256 * (bytes[1] as int) + 65536 * (bytes[2] as int) + 16777216 * (
    bytes[3] as int)
}

/// The frame that carries `payload`.
pub open spec fn frame(payload: Seq<u8>) -> Seq<u8> {
    le_bytes(payload.len() as int) + payload
}

/// What stands at one place of a stream, as a model.
pub enum FrameModel {
    /// Fewer than four bytes are left: the stream ends here.
    EndOfStream,
    /// A length is announced and fewer bytes than that follow it.
    Truncated,
    /// A whole frame, and the place where the next one starts.
    Frame { payload: Seq<u8>, next: int },
}

/// What stands in `stream` at position `start`.
pub open spec fn read_frame(stream: Seq<u8>, start: int) -> FrameModel {
    if start < 0 || stream.len() - start < 4 {
        FrameModel::EndOfStream
    } else {
        let announced = le_value(stream.subrange(start, start + 4));
        if stream.len() - start - 4 < announced {
            FrameModel::Truncated
        } else {
            FrameModel::Frame {
                payload: stream.subrange(start + 4, start + 4 + announced),
                next: start + 4 + announced,
            }
        }
    }
}

/// What was found at one place of a stream.
#[derive(Debug, Clone, PartialEq, Eq)]
pub enum FrameRead {
    /// Fewer than four bytes are left: the stream ends here.
    EndOfStream,
    /// A length is announced and fewer bytes than that follow it.
    Truncated,
    /// A whole frame, and the place where the next one starts.
    Frame { payload: Vec<u8>, next: usize },
}

impl View for FrameRead {
    type V = FrameModel;

    open spec fn view(&self) -> FrameModel {
        match self {
            FrameRead::EndOfStream => FrameModel::EndOfStream,
            FrameRead::Truncated => FrameModel::Truncated,
            FrameRead::Frame { payload, next } => FrameModel::Frame {
                payload: payload@,
                next: *next as int,
            },
        }
    }
}

/// The length prefix of a payload of `len` bytes.
pub fn length_prefix(len: u32) -> (prefix: [u8; 4])
    ensures
        prefix@ == le_bytes(len as int),
{
    let prefix = [
        (len % 256) as u8,
        ((len / 256) % 256) as u8,
        ((len / 65536) % 256) as u8,
        ((len / 16777216) % 256) as u8,
    ];
    assert(prefix@ =~= le_bytes(len as int));
    prefix
}

/// The payload length that a length prefix announces.
pub fn frame_length(prefix: &[u8; 4]) -> (len: u32)
    ensures
        len == le_value(prefix@),
{
    let b0: u32 = prefix[0] as u32;
    let b1: u32 = prefix[1] as u32;
    let b2: u32 = prefix[2] as u32;
    let b3: u32 = prefix[3] as u32;
    b0 + 256 * b1 + 65536 * b2 + 16777216 * b3
}

/// A length prefix announces the length that it was made of.
pub proof fn law_prefix_round_trip(n: int)
    requires
        0 <= n <= 0xffff_ffff,
    ensures
        le_bytes(n).len() == 4,
        le_value(le_bytes(n)) == n,
{
}

/// The frame that carries `payload`, or `None` where the payload is too long
/// for its length to be announced.
pub fn encode_frame(payload: &[u8]) -> (framed: Option<Vec<u8>>)
    ensures
        payload@.len() <= MAX_PAYLOAD ==> framed is Some && framed->0@ == frame(payload@),
        payload@.len() > MAX_PAYLOAD ==> framed is None,
{
    if payload.len() > MAX_PAYLOAD {
        return None;
    }
    let prefix = length_prefix(payload.len() as u32);
    let mut out: Vec<u8> = Vec::new();
    let mut i: usize = 0;
    while i < 4
        invariant
            i <= 4,
            out@ == prefix@.take(i as int),
        decreases 4 - i,
    {
        out.push(prefix[i]);
        assert(out@ =~= prefix@.take(i + 1));
        i += 1;
    }
    assert(out@ =~= prefix@);
    let mut i: usize = 0;
    while i < payload.len()
        invariant
            i <= payload.len(),
            out@ == prefix@ + payload@.take(i as int),
        decreases payload.len() - i,
    {
        out.push(payload[i]);
        assert(out@ =~= prefix@ + payload@.take(i + 1));
        i += 1;
    }
    assert(payload@.take(payload@.len() as int) =~= payload@);
    Some(out)
}

/// Reads what stands in `stream` at position `start`.
pub fn decode_frame(stream: &[u8], start: usize) -> (read: FrameRead)
    ensures
        read@ == read_frame(stream@, start as int),
{
    if start > stream.len() || stream.len() - start < PREFIX_LEN {
        return FrameRead::EndOfStream;
    }
    let prefix = [stream[start], stream[start + 1], stream[start + 2], stream[start + 3]];
    assert(prefix@ =~= stream@.subrange(start as int, start + 4));
    let announced = frame_length(&prefix);
    let left = stream.len() - start - PREFIX_LEN;
    if left < announced as usize {
        return FrameRead::Truncated;
    }
    let first = start + PREFIX_LEN;
    let len = announced as usize;
    let mut payload: Vec<u8> = Vec::new();
    let mut i: usize = 0;
    while i < len
        invariant
            i <= len,
            first + len <= stream.len(),
            payload@ == stream@.subrange(first as int, first + i),
        decreases len - i,
    {
        payload.push(stream[first + i]);
        assert(payload@ =~= stream@.subrange(first as int, first + i + 1));
        i += 1;
    }
    FrameRead::Frame { payload, next: first + len }
}

/// How the sending side delimits its payloads.
#[derive(Debug, Clone, Copy, PartialEq, Eq, Structural)]
pub enum OutputFormat {
    /// Text: one payload on each line.
    Json,
    /// Binary: one payload in each frame.
    Bitcode,
}

/// The bytes that carry `payload` in `format`.
pub open spec fn wrapped(format: OutputFormat, payload: Seq<u8>) -> Seq<u8> {
    match format {
        OutputFormat::Json => payload.push(10u8),
        OutputFormat::Bitcode => frame(payload),
    }
}

impl OutputFormat {
    /// The bytes to write for `payload`: the payload and a line feed as text,
    /// its frame as binary. `None` where a frame cannot announce the
    /// payload's length.
    pub fn wrap(&self, payload: &[u8]) -> (bytes: Option<Vec<u8>>)
        ensures
            *self == OutputFormat::Bitcode && payload@.len() > MAX_PAYLOAD <==> bytes is None,
            bytes is Some ==> bytes->0@ == wrapped(*self, payload@),
    {
        match self {
            OutputFormat::Json => {
                let mut out: Vec<u8> = Vec::new();
                let mut i: usize = 0;
                while i < payload.len()
                    invariant
                        i <= payload.len(),
                        out@ == payload@.take(i as int),
                    decreases payload.len() - i,
                {
                    out.push(payload[i]);
                    assert(out@ =~= payload@.take(i + 1));
                    i += 1;
                }
                assert(payload@.take(payload@.len() as int) =~= payload@);
                out.push(10u8);
                Some(out)
            },
            OutputFormat::Bitcode => encode_frame(payload),
        }
    }
}

/// A frame that stands anywhere in a stream is read back whole: the payload
/// that it was made of, and the place behind it.
pub proof fn law_frame_round_trip(head: Seq<u8>, payload: Seq<u8>, tail: Seq<u8>)
    requires
        payload.len() <= MAX_PAYLOAD,
    ensures
        read_frame(head + frame(payload) + tail, head.len() as int) == (FrameModel::Frame {
            payload,
            next: (head.len() + 4 + payload.len()) as int,
        }),
{
    let stream = head + frame(payload) + tail;
    let start = head.len() as int;
    law_prefix_round_trip(payload.len() as int);
    assert(stream.subrange(start, start + 4) =~= le_bytes(payload.len() as int));
    assert(stream.subrange(start + 4, start + 4 + payload.len()) =~= payload);
}

/// A stream that stops inside a frame is not read as a frame: cut within the
/// length prefix it reads as the end of the stream, and cut within the
/// payload as truncated.
pub proof fn law_cut_frame(head: Seq<u8>, payload: Seq<u8>, cut: int)
    requires
        payload.len() <= MAX_PAYLOAD,
        0 <= cut < 4 + payload.len(),
    ensures
        cut < 4 ==> read_frame(head + frame(payload).take(cut), head.len() as int)
            == FrameModel::EndOfStream,
        cut >= 4 ==> read_frame(head + frame(payload).take(cut), head.len() as int)
            == FrameModel::Truncated,
{
    let stream = head + frame(payload).take(cut);
    let start = head.len() as int;
    law_prefix_round_trip(payload.len() as int);
    if cut >= 4 {
        assert(stream.subrange(start, start + 4) =~= le_bytes(payload.len() as int));
    }
}

} // verus!
