//! The command protocol: the envelope, its payloads and the constructors of
//! each kind of command.
//!
//! A new request takes a fresh correlation id from the generator it is given;
//! a response takes the id of the request it answers. Every constructor stamps
//! the protocol version of this build.

pub mod codec;
pub mod remoting_command;
pub mod wire;

use vstd::prelude::*;
use crate::common::{following_id, version, CommandIdGenerator, PROTOCOL_VERSION};
use crate::error::RemotingError;
use crate::text::owned;
use crate::protocol::remoting_command::{
    BrokerRegisterRequest, BrokerRegisterRequestView, Command, CommandType, CommandView,
    RemotingCommand, RemotingCommandView, ResponseCode,
};

verus! {

/// The response with the given id, code and remark, and no payload.
pub open spec fn response_view(
    id: u64,
    code: ResponseCode,
    remark: Seq<char>,
) -> RemotingCommandView {
    RemotingCommandView {
        id,
        version: PROTOCOL_VERSION,
        command_type: CommandType::Response.wire_value(),
        response_code: code.wire_value(),
        remark,
        command: None,
    }
}

/// The request with the given id that carries `payload`.
pub open spec fn request_view(id: u64, payload: CommandView) -> RemotingCommandView {
    RemotingCommandView {
        id,
        version: PROTOCOL_VERSION,
        command_type: CommandType::Request.wire_value(),
        response_code: ResponseCode::Success.wire_value(),
        remark: Seq::empty(),
        command: Some(payload),
    }
}

/// The response that reports `error` for the command with the given id.
pub open spec fn error_response_view(error: RemotingError, id: u64) -> RemotingCommandView {
    response_view(id, error.response_code(), error.description())
}

impl RemotingCommand {
    /// Whether the command asks or answers. A number that names no type
    /// counts as `Request`, the type with number 0.
    pub fn command_type(&self) -> (kind: CommandType)
        ensures
            kind == match CommandType::of_wire_value(self.command_type) {
                Some(known) => known,
                None => CommandType::Request,
            },
    {
        match CommandType::from_i32(self.command_type) {
            Some(known) => known,
            None => CommandType::Request,
        }
    }

    /// The outcome the command reports. A number that names no code counts
    /// as `Success`, the code with number 0.
    pub fn response_code(&self) -> (code: ResponseCode)
        ensures
            code == match ResponseCode::of_wire_value(self.response_code) {
                Some(known) => known,
                None => ResponseCode::Success,
            },
    {
        match ResponseCode::from_i32(self.response_code) {
            Some(known) => known,
            None => ResponseCode::Success,
        }
    }

    /// An error response that answers no particular request: its id is 0.
    pub fn new_error_command(response_code: ResponseCode, remark: &str) -> (command: Self)
        ensures
            command@ == response_view(0, response_code, remark@),
    {
        Self::new_error_command_with_id(response_code, remark, 0)
    }

    /// A success response that answers no particular request: its id is 0.
    pub fn new_success_response() -> (command: Self)
        ensures
            command@ == response_view(0, ResponseCode::Success, Seq::empty()),
    {
        Self::new_success_response_with_id(0)
    }

    /// The error response to the request with the given id.
    pub fn new_error_command_with_id(
        response_code: ResponseCode,
        remark: &str,
        id: u64,
    ) -> (command: Self)
        ensures
            command@ == response_view(id, response_code, remark@),
            command@.id == id,
    {
        RemotingCommand {
            id,
            version: version(),
            command_type: CommandType::Response.as_i32(),
            response_code: response_code.as_i32(),
            remark: owned(remark),
            command: None,
        }
    }

    /// The success response to the request with the given id.
    pub fn new_success_response_with_id(id: u64) -> (command: Self)
        ensures
            command@ == response_view(id, ResponseCode::Success, Seq::empty()),
            command@.id == id,
    {
        RemotingCommand {
            id,
            version: version(),
            command_type: CommandType::Response.as_i32(),
            response_code: ResponseCode::Success.as_i32(),
            remark: String::new(),
            command: None,
        }
    }

    /// A request by which a broker registers itself. Its id is the next one of
    /// `ids`.
    pub fn new_broker_register_request(
        ids: &mut CommandIdGenerator,
        broker_name: &str,
        broker_addr: &str,
        cluster_name: &str,
        ha_server_addr: &str,
        broker_id: i64,
        heartbeat_timeout_millis: i64,
        enable_acting_master: bool,
    ) -> (command: Self)
        ensures
            command@ == request_view(
                old(ids).upcoming(),
                CommandView::BrokerRegisterRequest(
                    (BrokerRegisterRequestView {
                        broker_name: broker_name@,
                        broker_addr: broker_addr@,
                        cluster_name: cluster_name@,
                        ha_server_addr: ha_server_addr@,
                        broker_id,
                        heartbeat_timeout_millis,
                        enable_acting_master,
                    }),
                ),
            ),
            final(ids).upcoming() == following_id(old(ids).upcoming()),
    {
        let id = ids.next_command_id();
        RemotingCommand {
            id,
            version: version(),
            command_type: CommandType::Request.as_i32(),
            response_code: ResponseCode::Success.as_i32(),
            remark: String::new(),
            command: Some(
                Command::BrokerRegisterRequest(
                    BrokerRegisterRequest {
                        broker_name: owned(broker_name),
                        broker_addr: owned(broker_addr),
                        cluster_name: owned(cluster_name),
                        ha_server_addr: owned(ha_server_addr),
                        broker_id,
                        heartbeat_timeout_millis,
                        enable_acting_master,
                    },
                ),
            ),
        }
    }

    /// The response that tells a broker its registration was taken.
    pub fn broker_register_success(command_id: u64) -> (command: Self)
        ensures
            command@ == response_view(command_id, ResponseCode::Success, Seq::empty()),
            command@.id == command_id,
    {
        Self::new_success_response_with_id(command_id)
    }

    /// The response that tells a broker its registration failed, and why.
    pub fn broker_register_fail(
        command_id: u64,
        response_code: ResponseCode,
        remark: &str,
    ) -> (command: Self)
        ensures
            command@ == response_view(command_id, response_code, remark@),
            command@.id == command_id,
    {
        Self::new_error_command_with_id(response_code, remark, command_id)
    }

    /// The response to a command that this server cannot handle. The remark is
    /// the name of the response code.
    pub fn command_not_support(command_id: u64) -> (command: Self)
        ensures
            command@ == response_view(
                command_id,
                ResponseCode::RequestCommandNotSupported,
                ResponseCode::RequestCommandNotSupported.name(),
            ),
            command@ == error_response_view(RemotingError::NoCommand, command_id),
            command@.id == command_id,
    {
        let code = ResponseCode::RequestCommandNotSupported;
        Self::new_error_command_with_id(code, code.as_str_name(), command_id)
    }

    /// The response that reports `error` where no request is known: its id is
    /// 0.
    pub fn from_error(error: &RemotingError) -> (command: Self)
        ensures
            command@ == error_response_view(*error, 0),
    {
        Self::from_error_with_id(error, 0)
    }

    /// The response that reports `error` to the sender of the request with
    /// the given id.
    pub fn from_error_with_id(error: &RemotingError, id: u64) -> (command: Self)
        ensures
            command@ == error_response_view(*error, id),
            command@.id == id,
    {
        RemotingCommand {
            id,
            version: version(),
            command_type: CommandType::Response.as_i32(),
            response_code: error.code().as_i32(),
            remark: error.message(),
            command: None,
        }
    }
}

/// Every response that is built for a given id carries that id, whatever its
/// code and remark, and is a response.
pub proof fn lemma_response_keeps_id(
    id: u64,
    code: ResponseCode,
    remark: Seq<char>,
    error: RemotingError,
)
    ensures
        response_view(id, code, remark).id == id,
        response_view(id, code, remark).is_response(),
        error_response_view(error, id).id == id,
        error_response_view(error, id).is_response(),
{
}

} // verus!
