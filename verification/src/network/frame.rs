//! The frame: one length-prefixed, optionally compressed unit on the wire.
//!
//! ```text
//! [1 byte: compression flag][4 bytes: length of the body, big-endian][body]
//! ```
//!
//! Flag 0 marks a body that is the payload itself, flag 1 a body that is the
//! gzip stream of the payload. A payload of at most `COMPRESS_THRESHOLD` bytes
//! is never compressed.

use vstd::prelude::*;
use bytes::BytesMut;
use crate::error::{HeaderFault, RemotingError};
use vstd::slice::{slice_subrange, slice_to_vec};
use crate::network::buffer::{
    advance, be_u32, be_u32_value, buffered, contents, lemma_be_u32_round_trip, put_slice,
    put_u32, put_u8,
};
use crate::network::compress::{gunzip, gunzip_stream, gzip, gzip_stream};

verus! {

/// Bytes of a frame header.
pub const FRAME_HEADER_LEN: usize = 5;

/// The longest body a frame can announce: 4 GiB - 1.
pub const FRAME_MAX_CONTENT_LEN: usize = 4294967295;

/// The longest payload that travels uncompressed.
pub const COMPRESS_THRESHOLD: usize = 1436;

/// Flag of a frame whose body is the payload.
pub const FLAG_RAW: u8 = 0;

/// Flag of a frame whose body is the gzip stream of the payload.
pub const FLAG_GZIP: u8 = 1;

/// The frame with the given flag and body.
pub open spec fn frame_bytes(flag: u8, body: Seq<u8>) -> Seq<u8> {
    seq![flag] + be_u32(body.len() as u32) + body
}

/// The body under which a payload that is too long to travel as it is
/// travels: its gzip stream. Where the encoder writes none, there is no body
/// and no frame.
pub open spec fn packed(payload: Seq<u8>) -> Seq<u8> {
    match gzip_stream(payload) {
        Some(stream) => stream,
        None => Seq::empty(),
    }
}

/// The frame that carries `payload`.
pub open spec fn payload_frame(payload: Seq<u8>) -> Seq<u8> {
    if payload.len() <= COMPRESS_THRESHOLD {
        frame_bytes(FLAG_RAW, payload)
    } else {
        frame_bytes(FLAG_GZIP, packed(payload))
    }
}

/// The body length that the header at the start of `bytes` announces.
pub open spec fn announced_len(bytes: Seq<u8>) -> int {
    be_u32_value(bytes[1], bytes[2], bytes[3], bytes[4])
}

/// The length of the frame at the start of `bytes`, header included.
pub open spec fn frame_len(bytes: Seq<u8>) -> int {
    FRAME_HEADER_LEN + announced_len(bytes)
}

/// Why `bytes` does not start with a whole frame, `None` where it does.
pub open spec fn frame_fault(bytes: Seq<u8>) -> Option<HeaderFault> {
    if bytes.len() < FRAME_HEADER_LEN {
        Some(HeaderFault::TooShort)
    } else if bytes[0] != FLAG_RAW && bytes[0] != FLAG_GZIP {
        Some(HeaderFault::UnknownCompression)
    } else if bytes.len() < frame_len(bytes) {
        Some(HeaderFault::Incomplete)
    } else {
        None
    }
}

/// The body of the frame at the start of `bytes`.
pub open spec fn frame_body(bytes: Seq<u8>) -> Seq<u8> {
    bytes.subrange(FRAME_HEADER_LEN as int, frame_len(bytes))
}

/// The payload of the frame at the start of `bytes`: its body, unpacked where
/// the flag says so. `None` where the body is no gzip stream.
pub open spec fn frame_payload(bytes: Seq<u8>) -> Option<Seq<u8>> {
    if bytes[0] == FLAG_GZIP {
        gunzip_stream(frame_body(bytes))
    } else {
        Some(frame_body(bytes))
    }
}

/// What reading one frame off the start of `bytes` gives: the payload, or the
/// failure.
pub open spec fn frame_reading(bytes: Seq<u8>) -> Result<Seq<u8>, RemotingError> {
    match frame_fault(bytes) {
        Some(fault) => Err(RemotingError::FrameHeaderParseFailed(fault)),
        None => match frame_payload(bytes) {
            Some(payload) => Ok(payload),
            None => Err(RemotingError::FrameCompressError),
        },
    }
}

/// What is left of `bytes` once one frame has been read off its start. Bytes
/// that do not start with a whole frame are left as they are.
pub open spec fn frame_rest(bytes: Seq<u8>) -> Seq<u8> {
    if frame_fault(bytes) is None {
        bytes.skip(frame_len(bytes))
    } else {
        bytes
    }
}

/// Whether a frame with a body of `body_len` bytes can be appended to a
/// buffer that holds `held` bytes: the body fits a frame, and the buffer, which
/// cannot hold more than `isize::MAX` bytes, can take the frame.
pub open spec fn frame_fits(body_len: int, held: int) -> bool {
    body_len <= FRAME_MAX_CONTENT_LEN && held + FRAME_HEADER_LEN + body_len <= isize::MAX
}

/// Whether the frame of `payload` can be written and is read back as
/// `payload`: the payload fits a frame, and where it travels compressed, its
/// gzip stream fits a frame and unpacks to the payload again.
pub open spec fn frameable(payload: Seq<u8>) -> bool {
    &&& payload.len() <= FRAME_MAX_CONTENT_LEN
    &&& payload.len() > COMPRESS_THRESHOLD ==> gzip_stream(payload) is Some && packed(
        payload,
    ).len() <= FRAME_MAX_CONTENT_LEN && gunzip_stream(packed(payload)) == Some(payload)
}

/// How framing `payload` onto a buffer that holds `held` bytes ends.
///
/// A payload of more than `FRAME_MAX_CONTENT_LEN` bytes ends in
/// `FrameOversize`. One that travels uncompressed succeeds exactly where the
/// buffer can take its frame, and ends in `FrameOversize` otherwise. One that
/// travels compressed ends in `FrameCompressError` where the encoder writes no
/// stream; where it writes one, the outcome depends in the same way on the
/// length of that stream.
pub open spec fn framing_result(payload: Seq<u8>, held: int) -> Result<(), RemotingError> {
    if payload.len() > FRAME_MAX_CONTENT_LEN {
        Err(RemotingError::FrameOversize)
    } else if payload.len() <= COMPRESS_THRESHOLD {
        if frame_fits(payload.len() as int, held) {
            Ok(())
        } else {
            Err(RemotingError::FrameOversize)
        }
    } else {
        match gzip_stream(payload) {
            None => Err(RemotingError::FrameCompressError),
            Some(stream) => if frame_fits(stream.len() as int, held) {
                Ok(())
            } else {
                Err(RemotingError::FrameOversize)
            },
        }
    }
}

/// What framing `payload` onto a buffer that held `before` comes to: it ends
/// as `framing_result` says, with the frame appended where it succeeds and the
/// buffer as it was where it fails. A payload whose frame was written is
/// `frameable`.
pub open spec fn framing_outcome(
    payload: Seq<u8>,
    before: Seq<u8>,
    after: Seq<u8>,
    done: Result<(), RemotingError>,
) -> bool {
    &&& done == framing_result(payload, before.len() as int)
    &&& done is Ok ==> after == before + payload_frame(payload) && frameable(payload)
    &&& done is Err ==> after == before
}

/// Whether a body of `len` bytes fits a frame; `FrameOversize` where it does
/// not.
pub fn check_content_len(len: u64) -> (fit: Result<u32, RemotingError>)
    ensures
        len <= FRAME_MAX_CONTENT_LEN ==> fit == Ok::<u32, RemotingError>(len as u32),
        len > FRAME_MAX_CONTENT_LEN ==> fit == Err::<u32, RemotingError>(
            RemotingError::FrameOversize,
        ),
{
    if len > 4294967295 {
        Err(RemotingError::FrameOversize)
    } else {
        Ok(len as u32)
    }
}

/// Whether `buf` can take a frame with a body of `body_len` bytes.
pub fn has_room(buf: &BytesMut, body_len: usize) -> (fits: bool)
    ensures
        fits == frame_fits(body_len as int, buffered(*buf).len() as int),
{
    let held = buf.len();
    let limit: usize = isize::MAX as usize;
    body_len <= FRAME_MAX_CONTENT_LEN && held <= limit && FRAME_HEADER_LEN <= limit - held
        && body_len <= limit - held - FRAME_HEADER_LEN
}

/// Appends the frame with the given flag and body to `buf`.
pub fn put_frame(flag: u8, body: &[u8], buf: &mut BytesMut)
    requires
        frame_fits(body@.len() as int, buffered(*old(buf)).len() as int),
    ensures
        buffered(*final(buf)) == buffered(*old(buf)) + frame_bytes(flag, body@),
{
    put_u8(buf, flag);
    put_u32(buf, body.len() as u32);
    put_slice(buf, body);
    proof {
        lemma_be_u32_round_trip(body.len() as u32);
        assert(buffered(*buf) =~= buffered(*old(buf)) + frame_bytes(flag, body@));
    }
}

/// The body length that the header at the start of `bytes` announces.
pub fn announced(bytes: &[u8]) -> (len: u32)
    requires
        bytes@.len() >= FRAME_HEADER_LEN,
    ensures
        len == announced_len(bytes@),
{
    let len: u64 = (bytes[1] as u64) * 16777216 + (bytes[2] as u64) * 65536 + (bytes[3] as u64)
        * 256 + (bytes[4] as u64);
    len as u32
}

/// Appends a header that came off a transport, having made room for the
/// whole frame it announces, and returns the number of body bytes that must
/// follow.
///
/// `FrameOversize` where `buf` cannot take the frame; `buf` is then left as it
/// was.
pub fn put_header(header: &[u8; 5], buf: &mut BytesMut) -> (body_len: Result<usize, RemotingError>)
    ensures
        match body_len {
            Ok(count) => count == announced_len(header@) && frame_fits(
                count as int,
                buffered(*old(buf)).len() as int,
            ) && buffered(*final(buf)) == buffered(*old(buf)) + header@,
            Err(error) => error == RemotingError::FrameOversize && !frame_fits(
                announced_len(header@),
                buffered(*old(buf)).len() as int,
            ) && buffered(*final(buf)) == buffered(*old(buf)),
        },
{
    let count = announced(header.as_slice()) as usize;
    if !has_room(buf, count) {
        return Err(RemotingError::FrameOversize);
    }
    buf.reserve(count + FRAME_HEADER_LEN);
    put_slice(buf, header.as_slice());
    Ok(count)
}

/// Frames `payload` and appends the frame to `buf`.
///
/// A payload of more than `FRAME_MAX_CONTENT_LEN` bytes is refused with
/// `FrameOversize`. One of at most `COMPRESS_THRESHOLD` bytes is written as it
/// is, under flag 0. A longer one is compressed and written under flag 1;
/// `FrameCompressError` where the encoder writes no stream. A frame that `buf`
/// cannot take (see `frame_fits`) is refused with `FrameOversize` as well. On
/// any error `buf` is left as it was. A frame that was written reads back as
/// `payload`.
pub fn encode_bytes(payload: &[u8], buf: &mut BytesMut) -> (done: Result<(), RemotingError>)
    ensures
        framing_outcome(payload@, buffered(*old(buf)), buffered(*final(buf)), done),
        done is Ok ==> frame_reading(payload_frame(payload@)) == Ok::<Seq<u8>, RemotingError>(
            payload@,
        ) && frame_rest(payload_frame(payload@)) == Seq::<u8>::empty(),
{
    if payload.len() > FRAME_MAX_CONTENT_LEN {
        return Err(RemotingError::FrameOversize);
    }
    if payload.len() <= COMPRESS_THRESHOLD {
        if !has_room(buf, payload.len()) {
            return Err(RemotingError::FrameOversize);
        }
        put_frame(FLAG_RAW, payload, buf);
        proof {
            lemma_payload_frame_round_trip(payload@, Seq::empty());
            assert(payload_frame(payload@) + Seq::<u8>::empty() =~= payload_frame(payload@));
        }
        return Ok(());
    }
    match gzip(payload) {
        None => Err(RemotingError::FrameCompressError),
        Some(stream) => {
            if !has_room(buf, stream.len()) {
                return Err(RemotingError::FrameOversize);
            }
            put_frame(FLAG_GZIP, stream.as_slice(), buf);
            proof {
                lemma_payload_frame_round_trip(payload@, Seq::empty());
                assert(payload_frame(payload@) + Seq::<u8>::empty() =~= payload_frame(payload@));
            }
            Ok(())
        },
    }
}

/// Reads one frame off the start of `buf` and returns its payload.
///
/// Where `buf` does not start with a whole frame, the call fails with
/// `FrameHeaderParseFailed` and leaves `buf` as it was. Otherwise the frame is
/// taken off `buf`, whether or not its body could be unpacked;
/// `FrameCompressError` where it could not.
pub fn decode_bytes(buf: &mut BytesMut) -> (payload: Result<Vec<u8>, RemotingError>)
    ensures
        match frame_reading(buffered(*old(buf))) {
            Ok(bytes) => payload matches Ok(read) && read@ == bytes,
            Err(error) => payload == Err::<Vec<u8>, RemotingError>(error),
        },
        buffered(*final(buf)) == frame_rest(buffered(*old(buf))),
{
    let held = contents(buf);
    if held.len() < FRAME_HEADER_LEN {
        return Err(RemotingError::FrameHeaderParseFailed(HeaderFault::TooShort));
    }
    let flag = held[0];
    if flag != FLAG_RAW && flag != FLAG_GZIP {
        return Err(RemotingError::FrameHeaderParseFailed(HeaderFault::UnknownCompression));
    }
    let len = announced(held);
    if ((held.len() - FRAME_HEADER_LEN) as u64) < len as u64 {
        return Err(RemotingError::FrameHeaderParseFailed(HeaderFault::Incomplete));
    }
    let end: usize = FRAME_HEADER_LEN + len as usize;
    let body = slice_subrange(held, FRAME_HEADER_LEN, end);
    let payload = if flag == FLAG_GZIP {
        match gunzip(body) {
            Some(plain) => Ok(plain),
            None => Err(RemotingError::FrameCompressError),
        }
    } else {
        Ok(slice_to_vec(body))
    };
    advance(buf, end);
    payload
}

/// A value that can write itself as a payload and read itself back from one.
///
/// `Self::V` is what a value holds. `payload_of` and `value_of` say which bytes
/// stand for which value; an implementation proves that reading undoes
/// writing.
pub trait WireMessage: View + Sized {
    /// The payload that stands for `value`.
    spec fn payload_of(value: Self::V) -> Seq<u8>;

    /// The value that `payload` stands for, `None` where it stands for none.
    spec fn value_of(payload: Seq<u8>) -> Option<Self::V>;

    /// Reading undoes writing, for every value whose payload has a length
    /// that 64 bits can state.
    proof fn lemma_payload_round_trip(value: Self::V)
        requires
            Self::payload_of(value).len() <= u64::MAX,
        ensures
            Self::value_of(Self::payload_of(value)) == Some(value),
    ;

    /// The length of the payload of this value, `u64::MAX` where it is longer
    /// than that.
    fn encoded_len(&self) -> (len: u64)
        ensures
            len == if Self::payload_of(self@).len() <= u64::MAX {
                Self::payload_of(self@).len() as u64
            } else {
                u64::MAX
            },
    ;

    /// Appends the payload of this value to `out`.
    fn encode_payload(&self, out: &mut Vec<u8>)
        ensures
            final(out)@ == old(out)@ + Self::payload_of(self@),
    ;

    /// The value that `payload` stands for.
    fn decode_payload(payload: &[u8]) -> (value: Option<Self>)
        ensures
            match value {
                Some(read) => Self::value_of(payload@) == Some(read@),
                None => Self::value_of(payload@) is None,
            },
    ;
}

/// What decoding one frame off the start of `bytes` gives: the message, or the
/// failure. A payload that stands for no message is a `FrameDecodeError`.
pub open spec fn frame_message<M: WireMessage>(bytes: Seq<u8>) -> Result<M::V, RemotingError> {
    match frame_reading(bytes) {
        Err(error) => Err(error),
        Ok(payload) => match M::value_of(payload) {
            Some(value) => Ok(value),
            None => Err(RemotingError::FrameDecodeError),
        },
    }
}

/// A message that travels in frames.
pub trait FrameCoder: WireMessage {
    /// Writes this message as one frame at the end of `buf`.
    ///
    /// A message whose payload is longer than `FRAME_MAX_CONTENT_LEN` bytes
    /// fails with `FrameOversize` before anything is written. Otherwise the
    /// payload is framed as `encode_bytes` says. On any error `buf` is left as
    /// it was. A frame that was written decodes to this message again.
    fn encode_frame(&self, buf: &mut BytesMut) -> (done: Result<(), RemotingError>)
        ensures
            framing_outcome(
                Self::payload_of(self@),
                buffered(*old(buf)),
                buffered(*final(buf)),
                done,
            ),
            done is Ok ==> frame_message::<Self>(payload_frame(Self::payload_of(self@))) == Ok::<
                Self::V,
                RemotingError,
            >(self@),
    {
        if check_content_len(self.encoded_len()).is_err() {
            return Err(RemotingError::FrameOversize);
        }
        let mut payload: Vec<u8> = Vec::new();
        self.encode_payload(&mut payload);
        assert(payload@ =~= Self::payload_of(self@));
        let done = encode_bytes(payload.as_slice(), buf);
        proof {
            if done is Ok {
                lemma_message_frame_round_trip::<Self>(self@, Seq::empty());
                assert(payload_frame(payload@) + Seq::<u8>::empty() =~= payload_frame(payload@));
            }
        }
        done
    }

    /// Reads one frame off the start of `buf` and decodes the message in it.
    ///
    /// Where `buf` does not start with a whole frame, the call fails with
    /// `FrameHeaderParseFailed` and leaves `buf` as it was. Otherwise the frame
    /// is taken off `buf`; `FrameCompressError` where its body could not be
    /// unpacked, `FrameDecodeError` where the payload is no message.
    fn decode_frame(buf: &mut BytesMut) -> (message: Result<Self, RemotingError>)
        ensures
            match frame_message::<Self>(buffered(*old(buf))) {
                Ok(value) => message matches Ok(read) && read@ == value,
                Err(error) => message == Err::<Self, RemotingError>(error),
            },
            buffered(*final(buf)) == frame_rest(buffered(*old(buf))),
    {
        match decode_bytes(buf) {
            Err(error) => Err(error),
            Ok(payload) => match Self::decode_payload(payload.as_slice()) {
                Some(message) => Ok(message),
                None => Err(RemotingError::FrameDecodeError),
            },
        }
    }
}

/// A frame that was written is read back as it was written: the reader finds
/// no fault, takes exactly the body, and leaves what follows the frame.
pub proof fn lemma_frame_reads_back(flag: u8, body: Seq<u8>, rest: Seq<u8>)
    requires
        flag == FLAG_RAW || flag == FLAG_GZIP,
        body.len() <= FRAME_MAX_CONTENT_LEN,
    ensures
        frame_fault(frame_bytes(flag, body) + rest) is None,
        frame_len(frame_bytes(flag, body) + rest) == FRAME_HEADER_LEN + body.len(),
        frame_body(frame_bytes(flag, body) + rest) == body,
        frame_rest(frame_bytes(flag, body) + rest) == rest,
        flag == FLAG_RAW ==> frame_reading(frame_bytes(flag, body) + rest) == Ok::<
            Seq<u8>,
            RemotingError,
        >(body),
        flag == FLAG_GZIP ==> frame_payload(frame_bytes(flag, body) + rest) == gunzip_stream(body),
{
    let bytes = frame_bytes(flag, body) + rest;
    lemma_be_u32_round_trip(body.len() as u32);
    assert(bytes[0] == flag);
    assert(bytes[1] == be_u32(body.len() as u32)[0]);
    assert(bytes[2] == be_u32(body.len() as u32)[1]);
    assert(bytes[3] == be_u32(body.len() as u32)[2]);
    assert(bytes[4] == be_u32(body.len() as u32)[3]);
    assert(announced_len(bytes) == body.len());
    assert(frame_body(bytes) =~= body);
    assert(frame_rest(bytes) =~= rest);
}

/// Decoding undoes encoding: the frame that carries a payload, followed by
/// anything, reads back as that payload and leaves what followed. This holds
/// of every payload that is `frameable`, as every payload is that
/// `encode_bytes` wrote a frame for.
pub proof fn lemma_payload_frame_round_trip(payload: Seq<u8>, rest: Seq<u8>)
    requires
        frameable(payload),
    ensures
        frame_reading(payload_frame(payload) + rest) == Ok::<Seq<u8>, RemotingError>(payload),
        frame_rest(payload_frame(payload) + rest) == rest,
{
    if payload.len() <= COMPRESS_THRESHOLD {
        lemma_frame_reads_back(FLAG_RAW, payload, rest);
    } else {
        lemma_frame_reads_back(FLAG_GZIP, packed(payload), rest);
    }
}

/// A message that was framed is decoded as it was: the frame that carries the
/// payload of a value, followed by anything, decodes to that value and leaves
/// what followed. This holds of every value whose payload is `frameable`, as
/// the payload of every value is that `encode_frame` wrote a frame for.
pub proof fn lemma_message_frame_round_trip<M: WireMessage>(value: M::V, rest: Seq<u8>)
    requires
        frameable(M::payload_of(value)),
    ensures
        frame_message::<M>(payload_frame(M::payload_of(value)) + rest) == Ok::<
            M::V,
            RemotingError,
        >(value),
        frame_rest(payload_frame(M::payload_of(value)) + rest) == rest,
{
    lemma_payload_frame_round_trip(M::payload_of(value), rest);
    M::lemma_payload_round_trip(value);
}

/// The frames of a run of messages, one after the other.
pub open spec fn frames<M: WireMessage>(values: Seq<M::V>) -> Seq<u8>
    decreases values.len(),
{
    if values.len() == 0 {
        Seq::empty()
    } else {
        payload_frame(M::payload_of(values[0])) + frames::<M>(values.drop_first())
    }
}

/// The first `count` messages that decoding frame after frame off the start
/// of `bytes` gives, `None` where one of them fails.
pub open spec fn messages<M: WireMessage>(bytes: Seq<u8>, count: nat) -> Option<Seq<M::V>>
    decreases count,
{
    if count == 0 {
        Some(Seq::empty())
    } else {
        match frame_message::<M>(bytes) {
            Err(_) => None,
            Ok(value) => match messages::<M>(frame_rest(bytes), (count - 1) as nat) {
                Some(others) => Some(seq![value] + others),
                None => None,
            },
        }
    }
}

/// Messages that are framed one after the other are decoded one after the
/// other: each comes out once, as it went in, in the order it went in, and
/// what follows the last frame is left. So no message is lost, repeated or
/// taken for another, however many are under way on one connection.
pub proof fn lemma_frames_decode_in_order<M: WireMessage>(values: Seq<M::V>, rest: Seq<u8>)
    requires
        forall|i: int| 0 <= i < values.len() ==> frameable(M::payload_of(#[trigger] values[i])),
    ensures
        messages::<M>(frames::<M>(values) + rest, values.len()) == Some(values),
    decreases values.len(),
{
    if values.len() == 0 {
    } else {
        let first = payload_frame(M::payload_of(values[0]));
        let others = values.drop_first();
        let tail = frames::<M>(others) + rest;
        assert(frames::<M>(values) + rest =~= first + tail);
        lemma_message_frame_round_trip::<M>(values[0], tail);
        assert forall|i: int| 0 <= i < others.len() implies frameable(
            M::payload_of(#[trigger] others[i]),
        ) by {
            assert(others[i] == values[i + 1]);
        }
        lemma_frames_decode_in_order::<M>(others, rest);
        assert(seq![values[0]] + others =~= values);
    }
}

/// Bytes shorter than a header are never read as a frame.
pub proof fn lemma_short_buffer_is_refused(bytes: Seq<u8>)
    requires
        bytes.len() < FRAME_HEADER_LEN,
    ensures
        frame_reading(bytes) == Err::<Seq<u8>, RemotingError>(
            RemotingError::FrameHeaderParseFailed(HeaderFault::TooShort),
        ),
        frame_rest(bytes) == bytes,
{
}

} // verus!
