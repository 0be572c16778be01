//! What a connection server decides.
//!
//! For every connection it accepts, a server runs a read side and a write side
//! next to each other. The read side pulls one item after another from its
//! command stream and asks `Connection::on_read` what to do with it; responses
//! travel to the write side over a queue. Accepting, reading, writing and
//! spawning tasks are the caller's part.

use vstd::prelude::*;
use std::sync::Arc;
use vstd::string::StringExecFns;
use crate::error::RemotingError;
use crate::network::frame::{
    frame_message, frame_rest, frameable, frames, lemma_frames_decode_in_order,
    lemma_message_frame_round_trip, messages, payload_frame,
};
use crate::protocol::codec::{command_payload, lemma_bare_response_is_short};
use crate::protocol::remoting_command::{RemotingCommand, RemotingCommandView, ResponseCode};
use crate::protocol::{error_response_view, response_view};
use crate::service::settled_view;
use crate::text::{decimal, push_decimal};

verus! {

/// Where a server listens: an address and a port.
#[derive(Debug, PartialEq)]
pub struct ServerConfig {
    ip: String,
    port: i32,
}

impl ServerConfig {
    /// The address part.
    pub closed spec fn ip(&self) -> Seq<char> {
        self.ip@
    }

    /// The port.
    pub closed spec fn port(&self) -> i32 {
        self.port
    }

    /// The configuration with the given address and port.
    pub fn new(ip: &str, port: i32) -> (config: Self)
        ensures
            config.ip() == ip@,
            config.port() == port,
    {
        ServerConfig { ip: crate::text::owned(ip), port }
    }
}

/// The text a listener binds to: the address, a colon, the port in decimal.
pub open spec fn listen_address(ip: Seq<char>, port: i32) -> Seq<char> {
    ip + seq![':'] + decimal(port as int)
}

/// The `host:port` text of a configuration.
pub fn get_ip_address(config: &ServerConfig) -> (address: String)
    ensures
        address@ == listen_address(config.ip(), config.port()),
{
    let mut address = String::new();
    address.append(config.ip.as_str());
    proof {
        reveal_strlit(":");
    }
    address.append(":");
    push_decimal(config.port as i64, &mut address);
    assert(address@ =~= listen_address(config.ip(), config.port()));
    address
}

/// A server: the processor its connections share, and where it listens.
pub struct RemotingServer<Processor> {
    processor: Arc<Processor>,
    config: ServerConfig,
}

impl<Processor> RemotingServer<Processor> {
    /// The processor.
    pub closed spec fn processor(&self) -> Processor {
        *self.processor
    }

    /// Where the server listens.
    pub closed spec fn config(&self) -> ServerConfig {
        self.config
    }

    /// A server with the given configuration around `processor`.
    pub fn new(config: ServerConfig, processor: Processor) -> (server: Self)
        ensures
            server.processor() == processor,
            server.config() == config,
    {
        RemotingServer { processor: Arc::new(processor), config }
    }

    /// Takes the server apart into its processor and its configuration.
    pub fn into_parts(self) -> (parts: (Arc<Processor>, ServerConfig))
        ensures
            *parts.0 == self.processor(),
            parts.1 == self.config(),
    {
        (self.processor, self.config)
    }

    /// The text the server binds its listener to.
    pub fn address(&self) -> (address: String)
        ensures
            address@ == listen_address(self.config().ip(), self.config().port()),
    {
        get_ip_address(&self.config)
    }
}

/// The life of one accepted connection.
#[derive(Clone, Copy, Debug, PartialEq, Eq, Structural)]
pub enum ConnectionState {
    /// Accepted; neither side runs yet.
    Connected,
    /// The read side and the write side run next to each other.
    Serving,
    /// The read side has seen the transport close or fail.
    Disconnected,
}

/// What the read side does with an item of its command stream.
pub enum ReadAction {
    /// Have the dispatch service execute the command in a task of its own,
    /// and queue its response for the write side.
    Dispatch(RemotingCommand),
    /// Queue this response for the write side; no processor is involved.
    Reply(RemotingCommand),
    /// Stop reading: the connection is over.
    Disconnect,
}

/// Whether an item of the command stream ends the connection: the end of the
/// stream does, and so does a failure of the transport itself.
pub open spec fn ends_connection(item: Option<Result<RemotingCommand, RemotingError>>) -> bool {
    match item {
        None => true,
        Some(Err(error)) => error.breaks_connection(),
        Some(Ok(_)) => false,
    }
}

/// The state after the read side has seen `item`.
pub open spec fn state_after(
    state: ConnectionState,
    item: Option<Result<RemotingCommand, RemotingError>>,
) -> ConnectionState {
    if state == ConnectionState::Disconnected || ends_connection(item) {
        ConnectionState::Disconnected
    } else {
        ConnectionState::Serving
    }
}

/// One exchange over a connection, from the request on the wire to the
/// response on the wire. The server reads the request as the client framed
/// it. Where the processor answers with a bare response under the id of the
/// request, that answer is what is sent, and the client reads it as the
/// server framed it: a response with the code the processor gave, under the
/// id of the request. What follows either frame on the wire is left for the
/// next exchange.
pub proof fn lemma_exchange_keeps_id(
    request: RemotingCommandView,
    code: ResponseCode,
    answer: RemotingCommand,
    after_request: Seq<u8>,
    after_answer: Seq<u8>,
)
    requires
        frameable(command_payload(request)),
        answer@ == response_view(request.id, code, Seq::empty()),
    ensures
        frame_message::<RemotingCommand>(payload_frame(command_payload(request)) + after_request)
            == Ok::<RemotingCommandView, RemotingError>(request),
        frame_rest(payload_frame(command_payload(request)) + after_request) == after_request,
        settled_view(request.id, Ok(answer)) == answer@,
        frame_message::<RemotingCommand>(payload_frame(command_payload(answer@)) + after_answer)
            == Ok::<RemotingCommandView, RemotingError>(answer@),
        frame_rest(payload_frame(command_payload(answer@)) + after_answer) == after_answer,
        answer@.id == request.id,
        answer@.is_response(),
        answer@.response_code == code.wire_value(),
{
    lemma_message_frame_round_trip::<RemotingCommand>(request, after_request);
    lemma_bare_response_is_short(request.id, code);
    lemma_message_frame_round_trip::<RemotingCommand>(answer@, after_answer);
}

/// The bare responses with the given code under the ids of `requests`: one
/// for each request, in the order of the requests.
pub open spec fn bare_answers(
    requests: Seq<RemotingCommandView>,
    code: ResponseCode,
) -> Seq<RemotingCommandView> {
    Seq::new(requests.len(), |i: int| response_view(requests[i].id, code, Seq::empty()))
}

/// Any number of exchanges under way on one connection. The server reads
/// the requests as the client framed them, each once and in order. Where one
/// bare answer is written for each request, in whatever order the answers
/// get ready, the client reads exactly what was written, in the order it was
/// written: as many responses as there were requests, each with the code that
/// was given, each under the id of one of the requests, and every request
/// answered. That every answer does get written, and when, is for the tasks
/// that carry the answers to say.
pub proof fn lemma_exchanges_in_any_order(
    requests: Seq<RemotingCommandView>,
    code: ResponseCode,
    written: Seq<RemotingCommandView>,
    after_requests: Seq<u8>,
    after_answers: Seq<u8>,
)
    requires
        forall|i: int|
            0 <= i < requests.len() ==> frameable(command_payload(#[trigger] requests[i])),
        written.to_multiset() == bare_answers(requests, code).to_multiset(),
    ensures
        messages::<RemotingCommand>(
            frames::<RemotingCommand>(requests) + after_requests,
            requests.len(),
        ) == Some(requests),
        messages::<RemotingCommand>(
            frames::<RemotingCommand>(written) + after_answers,
            written.len(),
        ) == Some(written),
        written.len() == requests.len(),
        forall|i: int|
            0 <= i < written.len() ==> (#[trigger] written[i]).is_response()
                && written[i].response_code == code.wire_value() && exists|j: int|
                0 <= j < requests.len() && written[i].id == (#[trigger] requests[j]).id,
        forall|j: int|
            0 <= j < requests.len() ==> exists|i: int|
                0 <= i < written.len() && (#[trigger] written[i]).id == (
                #[trigger] requests[j]).id,
{
    lemma_answers_match_requests(requests, code, written);
    lemma_frames_decode_in_order::<RemotingCommand>(requests, after_requests);
    lemma_frames_decode_in_order::<RemotingCommand>(written, after_answers);
}

/// Where one bare answer is written for each request, every answer is a
/// response that can be framed, under the id of one of the requests, and
/// every request has its answer.
proof fn lemma_answers_match_requests(
    requests: Seq<RemotingCommandView>,
    code: ResponseCode,
    written: Seq<RemotingCommandView>,
)
    requires
        written.to_multiset() == bare_answers(requests, code).to_multiset(),
    ensures
        written.len() == requests.len(),
        forall|i: int|
            0 <= i < written.len() ==> frameable(command_payload(#[trigger] written[i]))
                && written[i].is_response() && written[i].response_code == code.wire_value()
                && exists|j: int|
                0 <= j < requests.len() && written[i].id == (#[trigger] requests[j]).id,
        forall|j: int|
            0 <= j < requests.len() ==> exists|i: int|
                0 <= i < written.len() && (#[trigger] written[i]).id == (
                #[trigger] requests[j]).id,
{
    let answers = bare_answers(requests, code);
    lemma_same_items(written, answers);
    assert forall|i: int| 0 <= i < written.len() implies frameable(
        command_payload(#[trigger] written[i]),
    ) && written[i].is_response() && written[i].response_code == code.wire_value()
        && exists|j: int|
        0 <= j < requests.len() && written[i].id == (#[trigger] requests[j]).id by {
        assert(answers.contains(written[i]));
        let j = choose|j: int| 0 <= j < answers.len() && answers[j] == written[i];
        lemma_bare_answer(requests[j].id, code);
    }
    assert forall|j: int| 0 <= j < requests.len() implies exists|i: int|
        0 <= i < written.len() && (#[trigger] written[i]).id == (#[trigger] requests[j]).id by {
        lemma_bare_answer(requests[j].id, code);
        assert(written.contains(answers[j]));
        let i = choose|i: int| 0 <= i < written.len() && written[i] == answers[j];
        assert(written[i].id == requests[j].id);
    }
}

/// Two runs that hold the same items, each as often in one as in the other,
/// are as long as each other, and every item of one is an item of the other.
proof fn lemma_same_items<A>(one: Seq<A>, other: Seq<A>)
    requires
        one.to_multiset() == other.to_multiset(),
    ensures
        one.len() == other.len(),
        forall|i: int| 0 <= i < one.len() ==> other.contains(#[trigger] one[i]),
        forall|j: int| 0 <= j < other.len() ==> one.contains(#[trigger] other[j]),
{
    one.to_multiset_ensures();
    other.to_multiset_ensures();
    assert forall|i: int| 0 <= i < one.len() implies other.contains(#[trigger] one[i]) by {
        assert(one.contains(one[i]));
        assert(one.to_multiset().count(one[i]) > 0);
        assert(other.to_multiset().count(one[i]) > 0);
    }
    assert forall|j: int| 0 <= j < other.len() implies one.contains(#[trigger] other[j]) by {
        assert(other.contains(other[j]));
        assert(other.to_multiset().count(other[j]) > 0);
        assert(one.to_multiset().count(other[j]) > 0);
    }
}

/// A bare response is a response with the code and under the id it was made
/// for, and one whose frame can be written and read back.
proof fn lemma_bare_answer(id: u64, code: ResponseCode)
    ensures
        response_view(id, code, Seq::empty()).is_response(),
        response_view(id, code, Seq::empty()).id == id,
        response_view(id, code, Seq::empty()).response_code == code.wire_value(),
        frameable(command_payload(response_view(id, code, Seq::empty()))),
{
    lemma_bare_response_is_short(id, code);
}

/// One accepted connection, as its read side sees it.
pub struct Connection {
    state: ConnectionState,
}

impl Connection {
    /// The state of the connection.
    pub closed spec fn state(&self) -> ConnectionState {
        self.state
    }

    /// A connection that was just accepted.
    pub fn accepted() -> (connection: Self)
        ensures
            connection.state() == ConnectionState::Connected,
    {
        Connection { state: ConnectionState::Connected }
    }

    /// The state of the connection.
    pub fn current(&self) -> (state: ConnectionState)
        ensures
            state == self.state(),
    {
        self.state
    }

    /// The transport was split and both sides were started. A connection that
    /// is over stays over.
    pub fn serve(&mut self)
        ensures
            final(self).state() == if old(self).state() == ConnectionState::Disconnected {
                ConnectionState::Disconnected
            } else {
                ConnectionState::Serving
            },
    {
        if self.state != ConnectionState::Disconnected {
            self.state = ConnectionState::Serving;
        }
    }

    /// Decides what the read side does with the next item of its command
    /// stream.
    ///
    /// A command is dispatched. A failure that spoils one message only is
    /// answered with the error response that reports it, under id 0, since
    /// the id of the message is not known. The end of the stream, or a failure
    /// of the transport, ends the connection; from then on every answer is
    /// `Disconnect`.
    pub fn on_read(
        &mut self,
        item: Option<Result<RemotingCommand, RemotingError>>,
    ) -> (action: ReadAction)
        ensures
            final(self).state() == state_after(old(self).state(), item),
            final(self).state() == ConnectionState::Disconnected ==> action is Disconnect,
            final(self).state() != ConnectionState::Disconnected ==> (match item {
                Some(Ok(command)) => action matches ReadAction::Dispatch(given) && given == command,
                Some(Err(error)) => action matches ReadAction::Reply(response) && response@
                    == error_response_view(error, 0),
                None => false,
            }),
    {
        if self.state == ConnectionState::Disconnected {
            return ReadAction::Disconnect;
        }
        match item {
            None => {
                self.state = ConnectionState::Disconnected;
                ReadAction::Disconnect
            },
            Some(Ok(command)) => {
                self.state = ConnectionState::Serving;
                ReadAction::Dispatch(command)
            },
            Some(Err(error)) => {
                if error.is_fatal() {
                    self.state = ConnectionState::Disconnected;
                    ReadAction::Disconnect
                } else {
                    self.state = ConnectionState::Serving;
                    ReadAction::Reply(RemotingCommand::from_error(&error))
                }
            },
        }
    }
}

} // verus!
