//! Framing of serialized messages in a connection's byte buffer.

use bytes::BytesMut;
use vstd::prelude::*;

use crate::codec::message::FrillsMessage;

verus! {

/// Names the bytes that a buffer holds.
pub uninterp spec fn buffer_contents(b: BytesMut) -> Seq<u8>;

/// Calls `BytesMut::is_empty`: whether the buffer holds no byte.
#[verifier::external_body]
fn buffer_is_empty(b: &BytesMut) -> (r: bool)
    ensures
        r == (buffer_contents(*b).len() == 0),
{
    b.is_empty()
}

/// Calls `BytesMut::len`: how many bytes the buffer holds.
#[verifier::external_body]
fn buffer_len(b: &BytesMut) -> (r: usize)
    ensures
        r == buffer_contents(*b).len(),
{
    b.len()
}

/// Calls `BytesMut::reserve`, which leaves the contents as they are. Its
/// arithmetic on the new capacity (length plus `additional`, plus the offset into
/// a shared buffer) cannot overflow where length plus `additional` stays within
/// `isize::MAX`, which `requires` asks. (Failure to allocate, as for std's
/// `Vec::reserve`, is not stated.)
#[verifier::external_body]
fn buffer_reserve(b: &mut BytesMut, additional: usize)
    requires
        buffer_contents(*old(b)).len() + additional <= isize::MAX,
    ensures
        buffer_contents(*final(b)) == buffer_contents(*old(b)),
{
    b.reserve(additional)
}

/// Calls `BufMut::put_slice` on the buffer, which appends the bytes; it reserves
/// room first and so panics where `reserve` does.
#[verifier::external_body]
fn buffer_put_slice(b: &mut BytesMut, src: &[u8])
    requires
        buffer_contents(*old(b)).len() + src@.len() <= isize::MAX,
    ensures
        buffer_contents(*final(b)) == buffer_contents(*old(b)) + src@,
{
    bytes::BufMut::put_slice(b, src)
}

/// Calls `BytesMut::split_to`, which panics where `at` exceeds the length: the
/// first `at` bytes are returned and the buffer keeps the rest.
#[verifier::external_body]
fn buffer_split_to(b: &mut BytesMut, at: usize) -> (front: BytesMut)
    requires
        at <= buffer_contents(*old(b)).len(),
    ensures
        buffer_contents(front) == buffer_contents(*old(b)).take(at as int),
        buffer_contents(*final(b)) == buffer_contents(*old(b)).skip(at as int),
{
    b.split_to(at)
}

/// The codec of a connection: each message is one serialized frame, written
/// whole and read whole.
pub struct FrillsCodec {}

/// The codec's error: a message could not be serialized.
#[derive(Debug)]
pub struct FrillsCodecError {}

/// Frames come out in the order they went in: after two frames are written to an
/// empty buffer, reading a frame of the first one's length leaves exactly the
/// second.
pub proof fn law_frames_read_in_order(first: Seq<u8>, second: Seq<u8>)
    ensures
        (Seq::<u8>::empty() + first + second).skip(first.len() as int) == second,
{
    assert((Seq::<u8>::empty() + first + second).skip(first.len() as int) =~= second);
}

impl FrillsCodec {
    /// Whether `encode` can take `serialized` into `dst`: the frame fits after
    /// what `dst` holds within `isize::MAX` bytes.
    pub fn encode_fits(&self, serialized: &Option<Vec<u8>>, dst: &BytesMut) -> (b: bool)
        ensures
            b == (serialized matches Some(output) ==> buffer_contents(*dst).len() + output@.len() <= isize::MAX),
    {
        match serialized {
            Some(output) => {
                let held = buffer_len(dst);
                held <= isize::MAX as usize && output.len() <= isize::MAX as usize - held
            },
            None => true,
        }
    }

    /// Whether `decode` can take `parsed` from `src`: a non-empty buffer holds at
    /// least the parsed message's length.
    pub fn decode_fits(&self, src: &BytesMut, parsed: &Option<(FrillsMessage, usize)>) -> (b: bool)
        ensures
            b == (buffer_contents(*src).len() > 0 ==> (parsed matches Some((_, len)) ==> len <= buffer_contents(*src).len())),
    {
        let held = buffer_len(src);
        match parsed {
            Some((_, len)) => held == 0 || *len <= held,
            None => true,
        }
    }

    /// Writes one frame: `serialized` is the message serialized, or `None` where
    /// serializing failed. The frame's bytes are appended to `dst`.
    pub fn encode(&mut self, serialized: Option<Vec<u8>>, dst: &mut BytesMut) -> (r: Result<(), FrillsCodecError>)
        requires
            serialized matches Some(output) ==> buffer_contents(*old(dst)).len() + output@.len() <= isize::MAX,
        ensures
            match serialized {
                Some(output) => r is Ok && buffer_contents(*final(dst)) == buffer_contents(*old(dst)) + output@,
                None => r is Err && buffer_contents(*final(dst)) == buffer_contents(*old(dst)),
            },
    {
        match serialized {
            Some(output) => {
                buffer_reserve(dst, output.len());
                buffer_put_slice(dst, output.as_slice());
                Ok(())
            },
            None => Err(FrillsCodecError {}),
        }
    }

    /// Reads one frame from the front of `src`. `parsed` is the message that the
    /// buffer's bytes deserialize to, with the length of its serialization, or
    /// `None` where they do not (yet) hold a whole message. An empty buffer, or
    /// one without a whole message, yields nothing and is left as it is; otherwise
    /// the frame's bytes leave the buffer and the message is returned.
    pub fn decode(&mut self, src: &mut BytesMut, parsed: Option<(FrillsMessage, usize)>) -> (r: Result<Option<FrillsMessage>, FrillsCodecError>)
        requires
            buffer_contents(*old(src)).len() > 0 ==> (parsed matches Some((_, len)) ==> len <= buffer_contents(*old(src)).len()),
        ensures
            if buffer_contents(*old(src)).len() == 0 {
                r == Ok::<Option<FrillsMessage>, FrillsCodecError>(None)
                    && buffer_contents(*final(src)) == buffer_contents(*old(src))
            } else {
                match parsed {
                    Some((message, len)) => r == Ok::<Option<FrillsMessage>, FrillsCodecError>(Some(message))
                        && buffer_contents(*final(src)) == buffer_contents(*old(src)).skip(len as int),
                    None => r == Ok::<Option<FrillsMessage>, FrillsCodecError>(None)
                        && buffer_contents(*final(src)) == buffer_contents(*old(src)),
                }
            },
    {
        if buffer_is_empty(src) {
            return Ok(None);
        }
        match parsed {
            Some((output, len)) => {
                let _frame = buffer_split_to(src, len);
                Ok(Some(output))
            },
            None => Ok(None),
        }
    }
}

} // verus!
