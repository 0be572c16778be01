//! What can go wrong on a connection, and how each failure is reported to the
//! peer.

use vstd::prelude::*;
use crate::protocol::remoting_command::ResponseCode;
use crate::text::owned;

verus! {

/// Why the head of a buffer is not a frame.
#[derive(Clone, Copy, Debug, PartialEq, Eq, Structural)]
pub enum HeaderFault {
    /// Fewer bytes than a header takes.
    TooShort,
    /// The compression flag names no known scheme.
    UnknownCompression,
    /// Fewer bytes follow the header than it announces.
    Incomplete,
}

impl HeaderFault {
    /// The fault in words.
    pub open spec fn description(self) -> Seq<char> {
        match self {
            HeaderFault::TooShort => "Frame header parse failed: fewer than 5 bytes"@,
            HeaderFault::UnknownCompression =>
                "Frame header parse failed: unknown compression flag"@,
            HeaderFault::Incomplete => "Frame header parse failed: payload shorter than announced"@,
        }
    }

    /// The fault in words.
    pub fn as_str(&self) -> (text: &'static str)
        ensures
            text@ == self.description(),
    {
        match self {
            HeaderFault::TooShort => "Frame header parse failed: fewer than 5 bytes",
            HeaderFault::UnknownCompression =>
                "Frame header parse failed: unknown compression flag",
            HeaderFault::Incomplete => "Frame header parse failed: payload shorter than announced",
        }
    }
}

/// A failure on one connection. None of them ends the process.
#[derive(Clone, Debug, PartialEq)]
pub enum RemotingError {
    /// The payload of a frame would exceed `FRAME_MAX_CONTENT_LEN` bytes.
    FrameOversize,
    /// A message could not be written in the schema's encoding.
    FrameEncodeError,
    /// The payload of a frame is not a message of the schema.
    FrameDecodeError,
    /// The gzip stream of a frame could not be written or read.
    FrameCompressError,
    /// The bytes at hand do not start with a whole frame.
    FrameHeaderParseFailed(HeaderFault),
    /// A command carries no payload where one is needed.
    NoCommand,
    /// A processor gave up on a command. `code` is the response code it asks
    /// for, if it asks for one.
    ProcessorError { code: Option<ResponseCode>, message: String },
    /// The transport failed or closed in the middle of a frame.
    Io,
}

impl RemotingError {
    /// The response code that reports this failure to the peer: the code a
    /// processor asked for, `RequestCommandNotSupported` for a missing payload,
    /// `SystemError` for a processor or transport failure, `SystemBusy` for
    /// everything about frames.
    pub open spec fn response_code(&self) -> ResponseCode {
        match self {
            RemotingError::NoCommand => ResponseCode::RequestCommandNotSupported,
            RemotingError::ProcessorError { code: Some(code), .. } => *code,
            RemotingError::ProcessorError { code: None, .. } => ResponseCode::SystemError,
            RemotingError::Io => ResponseCode::SystemError,
            _ => ResponseCode::SystemBusy,
        }
    }

    /// The failure in words, as the remark of a response carries it.
    pub open spec fn description(&self) -> Seq<char> {
        match self {
            RemotingError::FrameOversize => "Frame error: data is too big"@,
            RemotingError::FrameEncodeError => "Frame encode error"@,
            RemotingError::FrameDecodeError => "Frame decode error"@,
            RemotingError::FrameCompressError => "Frame compress error"@,
            RemotingError::FrameHeaderParseFailed(fault) => fault.description(),
            RemotingError::NoCommand => ResponseCode::RequestCommandNotSupported.name(),
            RemotingError::ProcessorError { message, .. } => message@,
            RemotingError::Io => "Failed because io error"@,
        }
    }

    /// Whether the failure leaves the byte stream unusable, so that the
    /// connection must end. Every other failure spoils one message only.
    pub open spec fn breaks_connection(&self) -> bool {
        self is Io
    }

    /// The response code that reports this failure to the peer.
    pub fn code(&self) -> (code: ResponseCode)
        ensures
            code == self.response_code(),
    {
        match self {
            RemotingError::NoCommand => ResponseCode::RequestCommandNotSupported,
            RemotingError::ProcessorError { code: Some(code), .. } => *code,
            RemotingError::ProcessorError { code: None, .. } => ResponseCode::SystemError,
            RemotingError::Io => ResponseCode::SystemError,
            _ => ResponseCode::SystemBusy,
        }
    }

    /// The failure in words.
    pub fn message(&self) -> (text: String)
        ensures
            text@ == self.description(),
    {
        match self {
            RemotingError::FrameOversize => owned("Frame error: data is too big"),
            RemotingError::FrameEncodeError => owned("Frame encode error"),
            RemotingError::FrameDecodeError => owned("Frame decode error"),
            RemotingError::FrameCompressError => owned("Frame compress error"),
            RemotingError::FrameHeaderParseFailed(fault) => owned(fault.as_str()),
            RemotingError::NoCommand => owned(
                ResponseCode::RequestCommandNotSupported.as_str_name(),
            ),
            RemotingError::ProcessorError { message, .. } => message.clone(),
            RemotingError::Io => owned("Failed because io error"),
        }
    }

    /// Whether the connection must end after this failure.
    pub fn is_fatal(&self) -> (fatal: bool)
        ensures
            fatal == self.breaks_connection(),
    {
        match self {
            RemotingError::Io => true,
            _ => false,
        }
    }
}

} // verus!
