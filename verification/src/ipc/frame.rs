//! Newline-delimited framing, with a hard ceiling on both ends.
//!
//! Nothing here knows what a frame means. It turns encoded bytes into a frame
//! and a frame into encoded bytes, and refuses the ways a peer can make that
//! unsafe.

use vstd::prelude::*;

use super::{IpcError, Request};

verus! {

/// Largest frame either side will read.
pub const MAX_FRAME_BYTES: usize = 262_144;

/// The byte that ends a frame.
pub const NEWLINE: u8 = 10;

/// A framing failure, distinct from a protocol-level [`IpcError`].
#[derive(Debug, Clone, PartialEq, Eq)]
pub enum FrameError {
    Closed,
    TooLarge { max_bytes: usize },
    Decode(String),
    Io(String),
}

impl FrameError {
    /// The typed protocol error a daemon answers with, when it can answer.
    pub fn as_ipc_error(&self) -> (error: Option<IpcError>)
        ensures
            match *self {
                Self::Closed => error is None,
                Self::TooLarge { max_bytes } => error == Some(IpcError::FrameTooLarge { max_bytes }),
                Self::Decode(detail) => error == Some(IpcError::Malformed { detail }),
                Self::Io(detail) => error == Some(IpcError::Io { detail }),
            },
    {
        match self {
            Self::Closed => None,
            Self::TooLarge { max_bytes } => Some(IpcError::FrameTooLarge { max_bytes: *max_bytes }),
            Self::Decode(detail) => Some(IpcError::Malformed { detail: detail.clone() }),
            Self::Io(detail) => Some(IpcError::Io { detail: detail.clone() }),
        }
    }

    /// The words this failure is reported in.
    pub open spec fn text(self) -> Seq<char> {
        match self {
            Self::Closed => "connection closed"@,
            Self::TooLarge { max_bytes } => "frame exceeds "@ + crate::text::decimal(
                max_bytes as nat,
            ) + " bytes"@,
            Self::Decode(detail) => "frame is not valid JSON: "@ + detail@,
            Self::Io(detail) => detail@,
        }
    }

    /// The words this failure is reported in.
    pub fn to_text(&self) -> (message: String)
        ensures
            message@ == self.text(),
    {
        let mut message: String = String::new();
        match self {
            Self::Closed => {
                message.append("connection closed");
            },
            Self::TooLarge { max_bytes } => {
                message.append("frame exceeds ");
                crate::text::push_decimal(&mut message, *max_bytes as u64);
                message.append(" bytes");
            },
            Self::Decode(detail) => {
                message.append("frame is not valid JSON: ");
                message.append(detail.as_str());
            },
            Self::Io(detail) => {
                message.append(detail.as_str());
            },
        }
        assert(message@ =~= self.text());
        message
    }
}

/// Frame an encoded value: the bytes and the byte that ends them.
pub fn write_frame(encoded: Vec<u8>) -> (result: Result<Vec<u8>, FrameError>)
    ensures
        result is Ok <==> encoded@.len() + 1 <= MAX_FRAME_BYTES,
        result matches Ok(frame) ==> frame@ == encoded@.push(NEWLINE),
        result matches Err(error) ==> error == (FrameError::TooLarge { max_bytes: MAX_FRAME_BYTES }),
{
    if encoded.len() >= MAX_FRAME_BYTES {
        return Err(FrameError::TooLarge { max_bytes: MAX_FRAME_BYTES });
    }
    let mut frame: Vec<u8> = encoded;
    frame.push(NEWLINE);
    Ok(frame)
}

/// How many bytes of a stream one read takes: up to and with the first newline,
/// and never more than the ceiling.
pub open spec fn line_len(stream: Seq<u8>, from: int) -> int
    decreases stream.len() - from,
{
    if from < 0 || from >= stream.len() || from >= MAX_FRAME_BYTES {
        from
    } else if stream[from] == NEWLINE {
        from + 1
    } else {
        line_len(stream, from + 1)
    }
}

/// Take one line off the front of a stream, without going past the ceiling
/// however long the line is.
pub fn read_line(stream: &[u8]) -> (line: Vec<u8>)
    ensures
        line@ == one_read(stream@),
        line@.len() <= MAX_FRAME_BYTES,
        line@.len() <= stream@.len(),
{
    let mut line: Vec<u8> = Vec::new();
    let mut at: usize = 0;
    while at < stream.len() && at < MAX_FRAME_BYTES
        invariant
            at <= stream@.len(),
            at <= MAX_FRAME_BYTES,
            line@ == stream@.take(at as int),
            line_len(stream@, at as int) == line_len(stream@, 0),
        decreases stream@.len() - at,
    {
        let byte: u8 = stream[at];
        line.push(byte);
        assert(line@ =~= stream@.take(at + 1));
        if byte == NEWLINE {
            return line;
        }
        at = at + 1;
    }
    line
}

/// Unframe what one read took off a stream.
///
/// A read that took nothing, or that stopped short of a newline below the
/// ceiling, is a connection that went away. One that stopped at the ceiling is
/// a frame that is too large.
pub fn read_frame(read: Vec<u8>) -> (result: Result<Vec<u8>, FrameError>)
    ensures
        match result {
            Ok(encoded) => unframed(read@) == Ok::<Seq<u8>, FrameError>(encoded@),
            Err(error) => unframed(read@) == Err::<Seq<u8>, FrameError>(error),
        },
{
    let length: usize = read.len();
    if length == 0 {
        return Err(FrameError::Closed);
    }
    if read[length - 1] != NEWLINE {
        return if length >= MAX_FRAME_BYTES {
            Err(FrameError::TooLarge { max_bytes: MAX_FRAME_BYTES })
        } else {
            Err(FrameError::Closed)
        };
    }
    let mut encoded: Vec<u8> = read;
    let _ = encoded.pop();
    assert(encoded@ =~= read@.drop_last());
    Ok(encoded)
}

/// What one read of a stream takes off its front.
pub open spec fn one_read(stream: Seq<u8>) -> Seq<u8> {
    stream.take(line_len(stream, 0))
}

/// What unframing a read gives: the bytes of a frame, or that the connection is
/// closed or the frame too large.
pub open spec fn unframed(read: Seq<u8>) -> Result<Seq<u8>, FrameError> {
    if read.len() > 0 && read.last() == NEWLINE {
        Ok(read.drop_last())
    } else if read.len() >= MAX_FRAME_BYTES {
        Err(FrameError::TooLarge { max_bytes: MAX_FRAME_BYTES })
    } else {
        Err(FrameError::Closed)
    }
}

/// What a stream still holds after a number of reads.
pub open spec fn after_reads(stream: Seq<u8>, count: nat) -> Seq<u8>
    decreases count,
{
    if count == 0 {
        stream
    } else {
        after_reads(stream.skip(line_len(stream, 0)), (count - 1) as nat)
    }
}

/// The stream that framing values one after another writes.
pub open spec fn framed(all: Seq<Seq<u8>>) -> Seq<u8>
    decreases all.len(),
{
    if all.len() == 0 {
        Seq::empty()
    } else {
        all[0].push(NEWLINE) + framed(all.drop_first())
    }
}

/// Whether encoded bytes can be a frame: they hold no newline, and fit with the
/// one that ends them.
pub open spec fn is_frameable(encoded: Seq<u8>) -> bool {
    &&& encoded.len() + 1 <= MAX_FRAME_BYTES
    &&& forall|i: int| 0 <= i < encoded.len() ==> encoded[i] != NEWLINE
}

proof fn lemma_line_len(encoded: Seq<u8>, rest: Seq<u8>, from: int)
    requires
        0 <= from <= encoded.len(),
        is_frameable(encoded),
    ensures
        line_len(encoded.push(NEWLINE) + rest, from) == encoded.len() + 1,
    decreases encoded.len() - from,
{
    let stream = encoded.push(NEWLINE) + rest;
    if from < encoded.len() {
        assert(stream[from] == encoded[from]);
        lemma_line_len(encoded, rest, from + 1);
    } else {
        assert(stream[from] == NEWLINE);
    }
}

/// What was framed is what is read back: on any stream that begins with the
/// frame of encoded bytes that hold no newline and fit, one read takes exactly
/// that frame and unframing it gives the bytes again.
pub proof fn a_frame_is_read_back(encoded: Seq<u8>, rest: Seq<u8>)
    requires
        is_frameable(encoded),
    ensures
        ({
            let stream = encoded.push(NEWLINE) + rest;
            &&& one_read(stream) == encoded.push(NEWLINE)
            &&& unframed(one_read(stream)) == Ok::<Seq<u8>, FrameError>(encoded)
            &&& after_reads(stream, 1) == rest
        }),
{
    lemma_line_len(encoded, rest, 0);
    let stream = encoded.push(NEWLINE) + rest;
    let line = one_read(stream);
    assert(line =~= encoded.push(NEWLINE));
    assert(line.drop_last() =~= encoded);
    assert(stream.skip(line_len(stream, 0)) =~= rest);
    reveal_with_fuel(after_reads, 2);
}

/// Unframing accepts every frame that framing accepts, and gives back what was
/// framed.
pub proof fn an_accepted_frame_is_unframed(encoded: Seq<u8>)
    requires
        encoded.len() + 1 <= MAX_FRAME_BYTES,
    ensures
        unframed(encoded.push(NEWLINE)) == Ok::<Seq<u8>, FrameError>(encoded),
{
    assert(encoded.push(NEWLINE).drop_last() =~= encoded);
}

/// Every frame that was written is read back, in the order written: after any
/// number of reads the stream holds exactly the frames not read yet, the next
/// read gives the bytes of the next one, and once every frame was read nothing
/// is left and one more read says that the connection is closed.
pub proof fn written_frames_are_read_back_in_order(all: Seq<Seq<u8>>, reads: nat)
    requires
        forall|i: int| 0 <= i < all.len() ==> is_frameable(#[trigger] all[i]),
        reads <= all.len(),
    ensures
        ({
            let left = after_reads(framed(all), reads);
            &&& left == framed(all.skip(reads as int))
            &&& reads < all.len() ==> unframed(one_read(left)) == Ok::<Seq<u8>, FrameError>(
                all[reads as int],
            )
            &&& reads == all.len() ==> left.len() == 0 && unframed(one_read(left)) == Err::<
                Seq<u8>,
                FrameError,
            >(FrameError::Closed)
        }),
    decreases reads,
{
    if all.len() == 0 {
        assert(all.skip(0) =~= all);
        assert(one_read(framed(all)).len() == 0);
    } else {
        let rest = all.drop_first();
        let stream = framed(all);
        a_frame_is_read_back(all[0], framed(rest));
        reveal_with_fuel(after_reads, 2);
        if reads == 0 {
            assert(all.skip(0) =~= all);
        } else {
            let fewer = (reads - 1) as nat;
            assert forall|i: int| 0 <= i < rest.len() implies is_frameable(#[trigger] rest[i]) by {
                assert(rest[i] == all[i + 1]);
            }
            written_frames_are_read_back_in_order(rest, fewer);
            assert(rest.skip(fewer as int) =~= all.skip(reads as int));
            assert(after_reads(stream, reads) == after_reads(framed(rest), fewer));
        }
    }
}

/// Every request that was written is read back, in the order written, whatever
/// the encoding is, as long as decoding undoes it and what it writes can be a
/// frame; once every request was read the connection is closed.
pub proof fn written_requests_are_read_back_in_order(
    requests: Seq<Request>,
    encode: spec_fn(Request) -> Seq<u8>,
    decode: spec_fn(Seq<u8>) -> Option<Request>,
    reads: nat,
)
    requires
        forall|i: int|
            0 <= i < requests.len() ==> decode(encode(#[trigger] requests[i])) == Some(requests[i]),
        forall|i: int|
            0 <= i < requests.len() ==> is_frameable(encode(#[trigger] requests[i])),
        reads <= requests.len(),
    ensures
        ({
            let left = after_reads(framed(requests.map_values(encode)), reads);
            &&& reads < requests.len() ==> {
                &&& unframed(one_read(left)) matches Ok(encoded)
                &&& decode(encoded) == Some(requests[reads as int])
            }
            &&& reads == requests.len() ==> left.len() == 0 && unframed(one_read(left)) == Err::<
                Seq<u8>,
                FrameError,
            >(FrameError::Closed)
        }),
{
    let all = requests.map_values(encode);
    assert forall|i: int| 0 <= i < all.len() implies is_frameable(#[trigger] all[i]) by {
        assert(all[i] == encode(requests[i]));
    }
    written_frames_are_read_back_in_order(all, reads);
    if reads < requests.len() {
        assert(all[reads as int] == encode(requests[reads as int]));
    }
}

proof fn lemma_endless(stream: Seq<u8>, from: int)
    requires
        0 <= from <= MAX_FRAME_BYTES,
        stream.len() >= MAX_FRAME_BYTES,
        forall|i: int| 0 <= i < MAX_FRAME_BYTES ==> stream[i] != NEWLINE,
    ensures
        line_len(stream, from) == MAX_FRAME_BYTES,
    decreases MAX_FRAME_BYTES - from,
{
    if from < MAX_FRAME_BYTES {
        lemma_endless(stream, from + 1);
    }
}

/// A line with no end within the ceiling is taken only up to the ceiling, and
/// what was taken does not end in a newline, so it is refused as too large.
pub proof fn an_endless_line_stops_at_the_ceiling(stream: Seq<u8>)
    requires
        stream.len() >= MAX_FRAME_BYTES,
        forall|i: int| 0 <= i < MAX_FRAME_BYTES ==> stream[i] != NEWLINE,
    ensures
        one_read(stream).len() == MAX_FRAME_BYTES,
        unframed(one_read(stream)) == Err::<Seq<u8>, FrameError>(
            FrameError::TooLarge { max_bytes: MAX_FRAME_BYTES },
        ),
{
    lemma_endless(stream, 0);
}

/// A failure names every value it carries.
pub proof fn a_framing_failure_names_what_it_carries(error: FrameError)
    ensures
        match error {
            FrameError::TooLarge { max_bytes } => crate::text::tells(
                error.text(),
                seq![crate::text::decimal(max_bytes as nat)],
            ),
            FrameError::Decode(detail) => crate::text::tells(
                error.text(),
                seq![detail@],
            ),
            FrameError::Io(detail) => crate::text::tells(
                error.text(),
                seq![detail@],
            ),
            _ => true,
        },
{
    match error {
        FrameError::TooLarge { max_bytes } => {
            let rest = " bytes"@;
            let parts = Seq::<Seq<char>>::empty();
            crate::text::lemma_tells("frame exceeds "@, crate::text::decimal(max_bytes as nat), rest, parts);
            let rest = "frame exceeds "@ + crate::text::decimal(max_bytes as nat) + rest;
            let parts = seq![crate::text::decimal(max_bytes as nat)] + parts;
            assert(error.text() =~= rest);
            assert(parts =~= seq![crate::text::decimal(max_bytes as nat)]);
        },
        FrameError::Decode(detail) => {
            let rest = Seq::<char>::empty();
            let parts = Seq::<Seq<char>>::empty();
            crate::text::lemma_tells("frame is not valid JSON: "@, detail@, rest, parts);
            let rest = "frame is not valid JSON: "@ + detail@ + rest;
            let parts = seq![detail@] + parts;
            assert(error.text() =~= rest);
            assert(parts =~= seq![detail@]);
        },
        FrameError::Io(detail) => {
            let rest = Seq::<char>::empty();
            let parts = Seq::<Seq<char>>::empty();
            crate::text::lemma_tells(Seq::<char>::empty(), detail@, rest, parts);
            let rest = Seq::<char>::empty() + detail@ + rest;
            let parts = seq![detail@] + parts;
            assert(error.text() =~= rest);
            assert(parts =~= seq![detail@]);
        },
        _ => {},
    }
}

} // verus!
