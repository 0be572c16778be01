//! The buffers of a duplex command stream.
//!
//! A `RemotingStream` stands between a byte transport and the commands that
//! travel over it. Commands that are sent are framed into a write buffer and
//! stay there until the transport has taken every byte; bytes that arrive are
//! gathered in a read buffer, one frame at a time, and decoded from it. The
//! stream itself never touches the transport: it tells its driver which bytes
//! to hand over and is told how many were taken.

use vstd::prelude::*;
use bytes::BytesMut;
use std::marker::PhantomData;
use vstd::slice::slice_subrange;
use crate::error::RemotingError;
use crate::network::buffer::{buffered, contents, put_slice};
use crate::network::frame::{
    announced, announced_len, frame_fits, frame_message, frame_rest, framing_outcome,
    payload_frame, put_header, FrameCoder, WireMessage, FRAME_HEADER_LEN,
};

verus! {

/// What the driver of a flush does next.
#[derive(Clone, Copy, Debug, PartialEq, Eq, Structural)]
pub enum FlushStep {
    /// Hand `unsent()` to the transport and report how many bytes it took.
    Write,
    /// Every byte was taken and the write buffer is empty again: flush the
    /// transport itself.
    Done,
}

/// What the driver of a close does next.
#[derive(Clone, Copy, Debug, PartialEq, Eq, Structural)]
pub enum CloseStep {
    /// Hand `unsent()` to the transport and report how many bytes it took.
    Write,
    /// Every byte was taken and the write buffer is empty: flush the
    /// transport and shut it down.
    Shutdown,
}

/// What the driver of the read side does next.
#[derive(Clone, Copy, Debug, PartialEq, Eq, Structural)]
pub enum ReadPlan {
    /// Ask the transport for at most this many bytes and hand what it gave
    /// to `accept_read`.
    Read(usize),
    /// A whole frame has arrived: call `decode_next`.
    Decode,
}

/// What became of the bytes that the transport gave.
#[derive(Debug, PartialEq)]
pub enum ReadStep {
    /// The bytes were taken: go on as `read_plan` says.
    Continue,
    /// The transport has ended between two frames: the stream of messages
    /// ends here.
    End,
    /// This item of the stream is a failure. `Io` where the transport ended
    /// in the middle of a frame or gave more than it was asked for;
    /// `FrameOversize` where the read buffer cannot take the frame that a
    /// header announces, in which case the body of that frame is passed over.
    Failed(RemotingError),
}

/// What the read side of a stream holds.
pub struct Reading {
    /// The bytes that have arrived and have not been decoded.
    pub incoming: Seq<u8>,
    /// How many bytes of the frame that is being read have yet to arrive.
    pub awaited: nat,
    /// The bytes of the next header that have arrived.
    pub head: Seq<u8>,
    /// How many bytes of a frame that was refused have yet to be passed over.
    pub skipping: nat,
    /// Whether the header of the frame that is being read has arrived.
    pub begun: bool,
}

/// How many bytes the read side can take next.
pub open spec fn wanted_bytes(reading: Reading) -> nat {
    if reading.skipping > 0 {
        reading.skipping
    } else if !reading.begun {
        (FRAME_HEADER_LEN - reading.head.len()) as nat
    } else {
        reading.awaited
    }
}

/// Whether the read side stands between two frames.
pub open spec fn between_frames(reading: Reading) -> bool {
    reading.skipping == 0 && !reading.begun && reading.head.len() == 0
}

/// The read side after the transport gave `bytes`, and what became of them.
///
/// No bytes mean that the transport has ended: between two frames that is
/// the end of the stream, anywhere else a failure. More bytes than the read
/// side can take are a failure too. Bytes of a refused frame are passed over.
/// Bytes of a header are gathered; with its fifth byte the frame begins, or
/// is refused where the read buffer cannot take it. Bytes of a body go into
/// the read buffer.
pub open spec fn after_read(reading: Reading, bytes: Seq<u8>) -> (Reading, ReadStep) {
    if bytes.len() == 0 {
        (
            reading,
            if between_frames(reading) {
                ReadStep::End
            } else {
                ReadStep::Failed(RemotingError::Io)
            },
        )
    } else if bytes.len() > wanted_bytes(reading) {
        (reading, ReadStep::Failed(RemotingError::Io))
    } else if reading.skipping > 0 {
        (
            Reading { skipping: (reading.skipping - bytes.len()) as nat, ..reading },
            ReadStep::Continue,
        )
    } else if !reading.begun {
        let head = reading.head + bytes;
        if head.len() < FRAME_HEADER_LEN {
            (Reading { head, ..reading }, ReadStep::Continue)
        } else if frame_fits(announced_len(head), reading.incoming.len() as int) {
            (
                Reading {
                    incoming: reading.incoming + head,
                    awaited: announced_len(head) as nat,
                    head: Seq::empty(),
                    begun: true,
                    ..reading
                },
                ReadStep::Continue,
            )
        } else {
            (
                Reading { head: Seq::empty(), skipping: announced_len(head) as nat, ..reading },
                ReadStep::Failed(RemotingError::FrameOversize),
            )
        }
    } else {
        (
            Reading {
                incoming: reading.incoming + bytes,
                awaited: (reading.awaited - bytes.len()) as nat,
                ..reading
            },
            ReadStep::Continue,
        )
    }
}

/// A transport `S` together with the buffers that turn it into a stream of
/// `Out` messages and a sink of `In` messages.
pub struct RemotingStream<S, In, Out> {
    stream: S,
    read_buf: BytesMut,
    write_buf: BytesMut,
    written: usize,
    wanted: usize,
    head: Vec<u8>,
    skip: usize,
    began: bool,
    _in: PhantomData<In>,
    _out: PhantomData<Out>,
}

impl<S, In, Out> RemotingStream<S, In, Out> {
    /// No more bytes count as written than the write buffer holds, and the
    /// read buffer has room for what is awaited. `new` makes such a stream and
    /// every method keeps it so.
    pub closed spec fn wf(&self) -> bool {
        &&& self.written <= buffered(self.write_buf).len()
        &&& buffered(self.read_buf).len() + self.wanted <= isize::MAX
        &&& self.head@.len() < FRAME_HEADER_LEN
    }

    /// What the read side holds.
    pub closed spec fn reading(&self) -> Reading {
        Reading {
            incoming: buffered(self.read_buf),
            awaited: self.wanted as nat,
            head: self.head@,
            skipping: self.skip as nat,
            begun: self.began,
        }
    }

    /// How many bytes of the frame that is being read have yet to arrive.
    pub open spec fn awaited(&self) -> nat {
        self.reading().awaited
    }

    /// What the driver of the read side does next.
    pub open spec fn plan(&self) -> ReadPlan {
        if self.reading().begun && self.reading().awaited == 0 && self.reading().skipping == 0 {
            ReadPlan::Decode
        } else {
            ReadPlan::Read(wanted_bytes(self.reading()) as usize)
        }
    }

    /// What a well-formed stream gives: no more bytes count as sent than were
    /// framed, the read buffer has room for what is awaited, and a header that
    /// is being gathered is not yet whole.
    pub proof fn lemma_wf(&self)
        requires
            self.wf(),
        ensures
            self.sent() <= self.outgoing().len(),
            self.pending().len() == self.outgoing().len() - self.sent(),
            self.reading().incoming.len() + self.reading().awaited <= isize::MAX,
            self.reading().head.len() < FRAME_HEADER_LEN,
            self.reading().awaited <= usize::MAX,
            self.reading().skipping <= usize::MAX,
    {
    }

    /// Every byte that was framed since the write buffer was last emptied.
    pub closed spec fn outgoing(&self) -> Seq<u8> {
        buffered(self.write_buf)
    }

    /// How many bytes of `outgoing` the transport has taken.
    pub closed spec fn sent(&self) -> nat {
        self.written as nat
    }

    /// The bytes that the transport has yet to take.
    pub open spec fn pending(&self) -> Seq<u8> {
        self.outgoing().skip(self.sent() as int)
    }

    /// The bytes that have arrived and have not been decoded.
    pub open spec fn incoming(&self) -> Seq<u8> {
        self.reading().incoming
    }

    /// The transport.
    pub closed spec fn transport(&self) -> S {
        self.stream
    }

    /// A stream over `stream` with empty buffers.
    pub fn new(stream: S) -> (made: Self)
        ensures
            made.wf(),
            made.outgoing() == Seq::<u8>::empty(),
            made.sent() == 0,
            made.reading() == (Reading {
                incoming: Seq::empty(),
                awaited: 0,
                head: Seq::empty(),
                skipping: 0,
                begun: false,
            }),
            made.transport() == stream,
    {
        RemotingStream {
            stream,
            read_buf: BytesMut::new(),
            write_buf: BytesMut::new(),
            written: 0,
            wanted: 0,
            head: Vec::new(),
            skip: 0,
            began: false,
            _in: PhantomData,
            _out: PhantomData,
        }
    }

    /// The bytes to hand to the transport next.
    pub fn unsent(&self) -> (bytes: &[u8])
        requires
            self.wf(),
        ensures
            bytes@ == self.pending(),
    {
        let held = contents(&self.write_buf);
        slice_subrange(held, self.written, held.len())
    }

    /// Whether the write buffer holds bytes that the transport has not taken.
    pub fn has_unsent(&self) -> (some: bool)
        requires
            self.wf(),
        ensures
            some == (self.pending().len() > 0),
    {
        self.written < self.write_buf.len()
    }

    /// How many bytes of the frame that is being read have yet to arrive.
    pub fn awaited_len(&self) -> (count: usize)
        ensures
            count == self.awaited(),
    {
        self.wanted
    }

    /// Records that the transport took the first `count` of the unsent bytes.
    pub fn advance_written(&mut self, count: usize)
        requires
            old(self).wf(),
            count <= old(self).pending().len(),
        ensures
            final(self).wf(),
            final(self).outgoing() == old(self).outgoing(),
            final(self).sent() == old(self).sent() + count,
            final(self).pending() == old(self).pending().skip(count as int),
            final(self).reading() == old(self).reading(),
            final(self).transport() == old(self).transport(),
    {
        let held = self.write_buf.len();
        assert(self.written + count <= held);
        self.written = self.written + count;
        assert(self.pending() =~= old(self).pending().skip(count as int));
    }

    /// One step of a flush. While bytes are unsent the answer is `Write` and
    /// nothing changes. Once the transport has taken them all, the write
    /// buffer is emptied, the count of written bytes starts again at zero, and
    /// the answer is `Done`.
    pub fn flush_step(&mut self) -> (step: FlushStep)
        requires
            old(self).wf(),
        ensures
            final(self).wf(),
            old(self).pending().len() > 0 ==> step == FlushStep::Write && final(self).outgoing()
                == old(self).outgoing() && final(self).sent() == old(self).sent(),
            old(self).pending().len() == 0 ==> step == FlushStep::Done && final(self).outgoing()
                == Seq::<u8>::empty() && final(self).sent() == 0,
            final(self).reading() == old(self).reading(),
            final(self).transport() == old(self).transport(),
    {
        if self.written < self.write_buf.len() {
            FlushStep::Write
        } else {
            self.written = 0;
            self.write_buf.clear();
            FlushStep::Done
        }
    }

    /// One step of a close: a stream is flushed before its transport is shut
    /// down. While bytes are unsent the answer is `Write` and nothing changes.
    /// Once the transport has taken them all, the write buffer is emptied and
    /// the answer is `Shutdown`.
    pub fn close_step(&mut self) -> (step: CloseStep)
        requires
            old(self).wf(),
        ensures
            final(self).wf(),
            old(self).pending().len() > 0 ==> step == CloseStep::Write && final(self).outgoing()
                == old(self).outgoing() && final(self).sent() == old(self).sent(),
            old(self).pending().len() == 0 ==> step == CloseStep::Shutdown && final(
                self).outgoing() == Seq::<u8>::empty() && final(self).sent() == 0,
            final(self).reading() == old(self).reading(),
            final(self).transport() == old(self).transport(),
    {
        match self.flush_step() {
            FlushStep::Write => CloseStep::Write,
            FlushStep::Done => CloseStep::Shutdown,
        }
    }

    /// Gives the transport back and drops the buffers.
    pub fn into_inner(self) -> (stream: S)
        ensures
            stream == self.transport(),
    {
        self.stream
    }

    /// The transport, for the driver to write to, together with the bytes to
    /// hand to it next.
    pub fn transport_and_unsent(&mut self) -> (parts: (&mut S, &[u8]))
        requires
            old(self).wf(),
        ensures
            *parts.0 == old(self).transport(),
            parts.1@ == old(self).pending(),
            final(self).transport() == *final(parts.0),
            final(self).wf(),
            final(self).outgoing() == old(self).outgoing(),
            final(self).sent() == old(self).sent(),
            final(self).reading() == old(self).reading(),
    {
        let held = contents(&self.write_buf);
        let unsent = slice_subrange(held, self.written, held.len());
        (&mut self.stream, unsent)
    }

    /// The transport, for the driver to read from or to shut down.
    pub fn get_mut(&mut self) -> (stream: &mut S)
        ensures
            *stream == old(self).transport(),
            final(self).transport() == *final(stream),
            final(self).wf() == old(self).wf(),
            final(self).outgoing() == old(self).outgoing(),
            final(self).sent() == old(self).sent(),
            final(self).reading() == old(self).reading(),
    {
        &mut self.stream
    }

    /// The transport.
    pub fn get_ref(&self) -> (stream: &S)
        ensures
            *stream == self.transport(),
    {
        &self.stream
    }

    /// Starts the next frame of the read side with the header that came off
    /// the transport: room is made for the whole frame, the header goes into
    /// the read buffer, and the answer is the number of body bytes to read.
    ///
    /// `FrameOversize` where the read buffer cannot take the frame; nothing
    /// changes then.
    pub fn begin_frame(&mut self, header: &[u8; 5]) -> (body_len: Result<usize, RemotingError>)
        requires
            old(self).wf(),
            old(self).awaited() == 0,
        ensures
            final(self).wf(),
            match body_len {
                Ok(count) => count == announced_len(header@) && frame_fits(
                    announced_len(header@),
                    old(self).incoming().len() as int,
                ) && final(self).reading() == (Reading {
                    incoming: old(self).incoming() + header@,
                    awaited: count as nat,
                    begun: true,
                    ..old(self).reading()
                }),
                Err(error) => error == RemotingError::FrameOversize && !frame_fits(
                    announced_len(header@),
                    old(self).incoming().len() as int,
                ) && final(self).reading() == old(self).reading(),
            },
            final(self).outgoing() == old(self).outgoing(),
            final(self).sent() == old(self).sent(),
            final(self).transport() == old(self).transport(),
    {
        match put_header(header, &mut self.read_buf) {
            Ok(count) => {
                self.wanted = count;
                self.began = true;
                Ok(count)
            },
            Err(error) => Err(error),
        }
    }

    /// Takes body bytes that came off the transport, in the order they came.
    pub fn accept_body(&mut self, body: &[u8])
        requires
            old(self).wf(),
            body@.len() <= old(self).awaited(),
        ensures
            final(self).wf(),
            final(self).reading() == (Reading {
                incoming: old(self).incoming() + body@,
                awaited: (old(self).awaited() - body@.len()) as nat,
                ..old(self).reading()
            }),
            final(self).outgoing() == old(self).outgoing(),
            final(self).sent() == old(self).sent(),
            final(self).transport() == old(self).transport(),
    {
        put_slice(&mut self.read_buf, body);
        self.wanted = self.wanted - body.len();
    }

    /// What the driver of the read side does next: how many bytes to ask the
    /// transport for, or that a whole frame waits to be decoded.
    pub fn read_plan(&self) -> (plan: ReadPlan)
        requires
            self.wf(),
        ensures
            plan == self.plan(),
            plan matches ReadPlan::Read(count) ==> count == wanted_bytes(self.reading()),
    {
        if self.skip > 0 {
            ReadPlan::Read(self.skip)
        } else if !self.began {
            ReadPlan::Read(FRAME_HEADER_LEN - self.head.len())
        } else if self.wanted > 0 {
            ReadPlan::Read(self.wanted)
        } else {
            ReadPlan::Decode
        }
    }

    /// Takes the bytes that the transport gave to the read side, none where
    /// the transport has ended, and says what became of them: see
    /// `after_read`.
    pub fn accept_read(&mut self, bytes: &[u8]) -> (step: ReadStep)
        requires
            old(self).wf(),
        ensures
            final(self).wf(),
            (final(self).reading(), step) == after_read(old(self).reading(), bytes@),
            final(self).outgoing() == old(self).outgoing(),
            final(self).sent() == old(self).sent(),
            final(self).transport() == old(self).transport(),
    {
        let count = bytes.len();
        if count == 0 {
            return if self.skip == 0 && !self.began && self.head.len() == 0 {
                ReadStep::End
            } else {
                ReadStep::Failed(RemotingError::Io)
            };
        }
        if self.skip > 0 {
            if count > self.skip {
                return ReadStep::Failed(RemotingError::Io);
            }
            self.skip = self.skip - count;
            return ReadStep::Continue;
        }
        if self.began {
            if count > self.wanted {
                return ReadStep::Failed(RemotingError::Io);
            }
            self.accept_body(bytes);
            return ReadStep::Continue;
        }
        if count > FRAME_HEADER_LEN - self.head.len() {
            return ReadStep::Failed(RemotingError::Io);
        }
        self.head.extend_from_slice(bytes);
        let ghost gathered = old(self).head@ + bytes@;
        assert(self.head@ =~= gathered);
        if self.head.len() < FRAME_HEADER_LEN {
            return ReadStep::Continue;
        }
        let header: [u8; 5] = [
            self.head[0],
            self.head[1],
            self.head[2],
            self.head[3],
            self.head[4],
        ];
        assert(header@ =~= gathered);
        self.head.clear();
        match put_header(&header, &mut self.read_buf) {
            Ok(body_len) => {
                self.wanted = body_len;
                self.began = true;
                ReadStep::Continue
            },
            Err(error) => {
                self.skip = announced(header.as_slice()) as usize;
                ReadStep::Failed(error)
            },
        }
    }

    /// Records what the transport said of the unsent bytes it was handed: that
    /// it took the first `taken` of them. A transport that took none, or more
    /// than there were, has failed: the answer is `Io` and nothing changes.
    pub fn accept_written(&mut self, taken: usize) -> (done: Result<(), RemotingError>)
        requires
            old(self).wf(),
        ensures
            final(self).wf(),
            final(self).outgoing() == old(self).outgoing(),
            if 0 < taken <= old(self).pending().len() {
                done is Ok && final(self).sent() == old(self).sent() + taken && final(
                    self).pending() == old(self).pending().skip(taken as int)
            } else {
                done == Err::<(), RemotingError>(RemotingError::Io) && final(self).sent() == old(
                    self).sent()
            },
            final(self).reading() == old(self).reading(),
            final(self).transport() == old(self).transport(),
    {
        if taken == 0 || taken > self.write_buf.len() - self.written {
            return Err(RemotingError::Io);
        }
        self.advance_written(taken);
        Ok(())
    }
}

impl<S, In: FrameCoder, Out> RemotingStream<S, In, Out> {
    /// Frames `item` into the write buffer. Nothing reaches the transport
    /// before a flush. On an error the write buffer is as it was.
    pub fn start_send(&mut self, item: In) -> (done: Result<(), RemotingError>)
        requires
            old(self).wf(),
        ensures
            final(self).wf(),
            framing_outcome(
                In::payload_of(item@),
                old(self).outgoing(),
                final(self).outgoing(),
                done,
            ),
            done is Ok ==> frame_message::<In>(payload_frame(In::payload_of(item@))) == Ok::<
                In::V,
                RemotingError,
            >(item@),
            final(self).sent() == old(self).sent(),
            final(self).reading() == old(self).reading(),
            final(self).transport() == old(self).transport(),
    {
        item.encode_frame(&mut self.write_buf)
    }
}

impl<S, In, Out: FrameCoder> RemotingStream<S, In, Out> {
    /// Decodes the frame at the start of the read buffer.
    ///
    /// A frame that decodes is taken off the read buffer. After a failure the
    /// read buffer is emptied, so that the next frame starts afresh: one bad
    /// frame spoils one message, not the connection.
    pub fn decode_next(&mut self) -> (message: Result<Out, RemotingError>)
        requires
            old(self).wf(),
        ensures
            final(self).wf(),
            match frame_message::<Out>(old(self).incoming()) {
                Ok(value) => message matches Ok(read) && read@ == value && final(self).incoming()
                    == frame_rest(old(self).incoming()),
                Err(error) => message == Err::<Out, RemotingError>(error) && final(self).incoming()
                    == Seq::<u8>::empty(),
            },
            final(self).reading() == (Reading {
                incoming: final(self).incoming(),
                awaited: 0,
                begun: false,
                ..old(self).reading()
            }),
            final(self).outgoing() == old(self).outgoing(),
            final(self).sent() == old(self).sent(),
            final(self).transport() == old(self).transport(),
    {
        let message = Out::decode_frame(&mut self.read_buf);
        self.wanted = 0;
        self.began = false;
        if message.is_err() {
            self.read_buf.clear();
        }
        message
    }
}

} // verus!
