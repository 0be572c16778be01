//! The command envelope and its payloads, as they are held in memory.
//!
//! Enumerated fields of the envelope are kept as the numbers that travel on the
//! wire, so that a value a newer peer sent survives a round trip; the enums
//! below name the values this version knows.

use vstd::prelude::*;
use crate::text::str_eq;

verus! {

/// Outcome carried by a response.
#[derive(Clone, Copy, Debug, PartialEq, Eq, Structural, Hash, PartialOrd, Ord)]
pub enum ResponseCode {
    Success,
    SystemError,
    SystemBusy,
    RequestCommandNotSupported,
}

impl ResponseCode {
    /// The number that stands for this code on the wire.
    pub open spec fn wire_value(self) -> i32 {
        match self {
            ResponseCode::Success => 0,
            ResponseCode::SystemError => 1,
            ResponseCode::SystemBusy => 2,
            ResponseCode::RequestCommandNotSupported => 3,
        }
    }

    /// The code a wire number stands for, if this version knows it.
    pub open spec fn of_wire_value(value: i32) -> Option<ResponseCode> {
        if value == 0 {
            Some(ResponseCode::Success)
        } else if value == 1 {
            Some(ResponseCode::SystemError)
        } else if value == 2 {
            Some(ResponseCode::SystemBusy)
        } else if value == 3 {
            Some(ResponseCode::RequestCommandNotSupported)
        } else {
            None
        }
    }

    /// The name of this code in the schema.
    pub open spec fn name(self) -> Seq<char> {
        match self {
            ResponseCode::Success => "Success"@,
            ResponseCode::SystemError => "SystemError"@,
            ResponseCode::SystemBusy => "SystemBusy"@,
            ResponseCode::RequestCommandNotSupported => "RequestCommandNotSupported"@,
        }
    }

    /// The code that a schema name stands for.
    pub open spec fn of_name(name: Seq<char>) -> Option<ResponseCode> {
        if name == "Success"@ {
            Some(ResponseCode::Success)
        } else if name == "SystemError"@ {
            Some(ResponseCode::SystemError)
        } else if name == "SystemBusy"@ {
            Some(ResponseCode::SystemBusy)
        } else if name == "RequestCommandNotSupported"@ {
            Some(ResponseCode::RequestCommandNotSupported)
        } else {
            None
        }
    }

    /// The number that stands for this code on the wire.
    pub fn as_i32(&self) -> (value: i32)
        ensures
            value == self.wire_value(),
    {
        match self {
            ResponseCode::Success => 0,
            ResponseCode::SystemError => 1,
            ResponseCode::SystemBusy => 2,
            ResponseCode::RequestCommandNotSupported => 3,
        }
    }

    /// The code a wire number stands for, `None` for a number this version
    /// does not know.
    pub fn from_i32(value: i32) -> (code: Option<ResponseCode>)
        ensures
            code == ResponseCode::of_wire_value(value),
    {
        if value == 0 {
            Some(ResponseCode::Success)
        } else if value == 1 {
            Some(ResponseCode::SystemError)
        } else if value == 2 {
            Some(ResponseCode::SystemBusy)
        } else if value == 3 {
            Some(ResponseCode::RequestCommandNotSupported)
        } else {
            None
        }
    }

    /// The name of this code in the schema.
    pub fn as_str_name(&self) -> (name: &'static str)
        ensures
            name@ == self.name(),
    {
        match self {
            ResponseCode::Success => "Success",
            ResponseCode::SystemError => "SystemError",
            ResponseCode::SystemBusy => "SystemBusy",
            ResponseCode::RequestCommandNotSupported => "RequestCommandNotSupported",
        }
    }

    /// The code that a schema name stands for, `None` for any other text.
    pub fn from_str_name(value: &str) -> (code: Option<Self>)
        ensures
            code == ResponseCode::of_name(value@),
    {
        if str_eq(value, "Success") {
            Some(ResponseCode::Success)
        } else if str_eq(value, "SystemError") {
            Some(ResponseCode::SystemError)
        } else if str_eq(value, "SystemBusy") {
            Some(ResponseCode::SystemBusy)
        } else if str_eq(value, "RequestCommandNotSupported") {
            Some(ResponseCode::RequestCommandNotSupported)
        } else {
            None
        }
    }
}

/// Whether a command asks or answers.
#[derive(Clone, Copy, Debug, PartialEq, Eq, Structural, Hash, PartialOrd, Ord)]
pub enum CommandType {
    Request,
    Response,
}

impl CommandType {
    /// The number that stands for this type on the wire.
    pub open spec fn wire_value(self) -> i32 {
        match self {
            CommandType::Request => 0,
            CommandType::Response => 1,
        }
    }

    /// The type a wire number stands for, if this version knows it.
    pub open spec fn of_wire_value(value: i32) -> Option<CommandType> {
        if value == 0 {
            Some(CommandType::Request)
        } else if value == 1 {
            Some(CommandType::Response)
        } else {
            None
        }
    }

    /// The name of this type in the schema.
    pub open spec fn name(self) -> Seq<char> {
        match self {
            CommandType::Request => "Request"@,
            CommandType::Response => "Response"@,
        }
    }

    /// The type that a schema name stands for.
    pub open spec fn of_name(name: Seq<char>) -> Option<CommandType> {
        if name == "Request"@ {
            Some(CommandType::Request)
        } else if name == "Response"@ {
            Some(CommandType::Response)
        } else {
            None
        }
    }

    /// The number that stands for this type on the wire.
    pub fn as_i32(&self) -> (value: i32)
        ensures
            value == self.wire_value(),
    {
        match self {
            CommandType::Request => 0,
            CommandType::Response => 1,
        }
    }

    /// The type a wire number stands for, `None` for a number this version
    /// does not know.
    pub fn from_i32(value: i32) -> (kind: Option<CommandType>)
        ensures
            kind == CommandType::of_wire_value(value),
    {
        if value == 0 {
            Some(CommandType::Request)
        } else if value == 1 {
            Some(CommandType::Response)
        } else {
            None
        }
    }

    /// The name of this type in the schema.
    pub fn as_str_name(&self) -> (name: &'static str)
        ensures
            name@ == self.name(),
    {
        match self {
            CommandType::Request => "Request",
            CommandType::Response => "Response",
        }
    }

    /// The type that a schema name stands for, `None` for any other text.
    pub fn from_str_name(value: &str) -> (kind: Option<Self>)
        ensures
            kind == CommandType::of_name(value@),
    {
        if str_eq(value, "Request") {
            Some(CommandType::Request)
        } else if str_eq(value, "Response") {
            Some(CommandType::Response)
        } else {
            None
        }
    }
}

/// A broker announces itself to the name service.
#[derive(Clone, Debug, PartialEq)]
pub struct BrokerRegisterRequest {
    pub broker_name: String,
    pub broker_addr: String,
    pub cluster_name: String,
    pub ha_server_addr: String,
    pub broker_id: i64,
    pub heartbeat_timeout_millis: i64,
    pub enable_acting_master: bool,
}

/// What a `BrokerRegisterRequest` holds.
pub struct BrokerRegisterRequestView {
    pub broker_name: Seq<char>,
    pub broker_addr: Seq<char>,
    pub cluster_name: Seq<char>,
    pub ha_server_addr: Seq<char>,
    pub broker_id: i64,
    pub heartbeat_timeout_millis: i64,
    pub enable_acting_master: bool,
}

impl View for BrokerRegisterRequest {
    type V = BrokerRegisterRequestView;

    open spec fn view(&self) -> BrokerRegisterRequestView {
        BrokerRegisterRequestView {
            broker_name: self.broker_name@,
            broker_addr: self.broker_addr@,
            cluster_name: self.cluster_name@,
            ha_server_addr: self.ha_server_addr@,
            broker_id: self.broker_id,
            heartbeat_timeout_millis: self.heartbeat_timeout_millis,
            enable_acting_master: self.enable_acting_master,
        }
    }
}

/// The name service answers a registration.
#[derive(Clone, Debug, PartialEq)]
pub struct BrokerRegisterResponse {
    pub response_code: i32,
    pub message: String,
}

/// What a `BrokerRegisterResponse` holds.
pub struct BrokerRegisterResponseView {
    pub response_code: i32,
    pub message: Seq<char>,
}

impl View for BrokerRegisterResponse {
    type V = BrokerRegisterResponseView;

    open spec fn view(&self) -> BrokerRegisterResponseView {
        BrokerRegisterResponseView { response_code: self.response_code, message: self.message@ }
    }
}

/// The payload of a command: at most one of the known kinds.
#[derive(Clone, Debug, PartialEq)]
pub enum Command {
    BrokerRegisterRequest(BrokerRegisterRequest),
    BrokerRegisterResponse(BrokerRegisterResponse),
}

/// What a `Command` holds.
pub enum CommandView {
    BrokerRegisterRequest(BrokerRegisterRequestView),
    BrokerRegisterResponse(BrokerRegisterResponseView),
}

impl View for Command {
    type V = CommandView;

    open spec fn view(&self) -> CommandView {
        match self {
            Command::BrokerRegisterRequest(request) => CommandView::BrokerRegisterRequest(
                request@,
            ),
            Command::BrokerRegisterResponse(response) => CommandView::BrokerRegisterResponse(
                response@,
            ),
        }
    }
}

/// The envelope exchanged between peers: one per request or response.
///
/// `id` links a response to its request. `command_type` and `response_code`
/// hold wire numbers (see `CommandType` and `ResponseCode`); `response_code` and
/// `remark` matter on a response only.
#[derive(Clone, Debug, PartialEq)]
pub struct RemotingCommand {
    pub id: u64,
    pub version: i32,
    pub command_type: i32,
    pub response_code: i32,
    pub remark: String,
    pub command: Option<Command>,
}

impl Default for ResponseCode {
    /// `Success`, the code with number 0.
    fn default() -> (code: Self)
        ensures
            code == ResponseCode::Success,
    {
        ResponseCode::Success
    }
}

impl Default for CommandType {
    /// `Request`, the type with number 0.
    fn default() -> (kind: Self)
        ensures
            kind == CommandType::Request,
    {
        CommandType::Request
    }
}

impl Default for BrokerRegisterRequest {
    /// The request with every field at its default.
    fn default() -> (request: Self)
        ensures
            request@ == BrokerRegisterRequestView::empty(),
    {
        BrokerRegisterRequest {
            broker_name: String::new(),
            broker_addr: String::new(),
            cluster_name: String::new(),
            ha_server_addr: String::new(),
            broker_id: 0,
            heartbeat_timeout_millis: 0,
            enable_acting_master: false,
        }
    }
}

impl Default for BrokerRegisterResponse {
    /// The response with every field at its default.
    fn default() -> (response: Self)
        ensures
            response@ == BrokerRegisterResponseView::empty(),
    {
        BrokerRegisterResponse { response_code: 0, message: String::new() }
    }
}

impl Default for RemotingCommand {
    /// The command with every field at its default.
    fn default() -> (command: Self)
        ensures
            command@ == RemotingCommandView::empty(),
    {
        RemotingCommand {
            id: 0,
            version: 0,
            command_type: 0,
            response_code: 0,
            remark: String::new(),
            command: None,
        }
    }
}

impl BrokerRegisterRequestView {
    /// The request with every field at its default: empty texts, zero, `false`.
    pub open spec fn empty() -> BrokerRegisterRequestView {
        BrokerRegisterRequestView {
            broker_name: Seq::empty(),
            broker_addr: Seq::empty(),
            cluster_name: Seq::empty(),
            ha_server_addr: Seq::empty(),
            broker_id: 0,
            heartbeat_timeout_millis: 0,
            enable_acting_master: false,
        }
    }
}

impl BrokerRegisterResponseView {
    /// The response with every field at its default: code 0, no message.
    pub open spec fn empty() -> BrokerRegisterResponseView {
        BrokerRegisterResponseView { response_code: 0, message: Seq::empty() }
    }
}

/// What a `RemotingCommand` holds.
pub struct RemotingCommandView {
    pub id: u64,
    pub version: i32,
    pub command_type: i32,
    pub response_code: i32,
    pub remark: Seq<char>,
    pub command: Option<CommandView>,
}

impl View for RemotingCommand {
    type V = RemotingCommandView;

    open spec fn view(&self) -> RemotingCommandView {
        RemotingCommandView {
            id: self.id,
            version: self.version,
            command_type: self.command_type,
            response_code: self.response_code,
            remark: self.remark@,
            command: match self.command {
                Some(command) => Some(command@),
                None => None,
            },
        }
    }
}

impl RemotingCommandView {
    /// The command with every field at its default: id 0, version 0, a request,
    /// code `Success`, no remark, no payload.
    pub open spec fn empty() -> RemotingCommandView {
        RemotingCommandView {
            id: 0,
            version: 0,
            command_type: 0,
            response_code: 0,
            remark: Seq::empty(),
            command: None,
        }
    }

    /// Whether the command is a request.
    pub open spec fn is_request(self) -> bool {
        self.command_type == CommandType::Request.wire_value()
    }

    /// Whether the command is a response.
    pub open spec fn is_response(self) -> bool {
        self.command_type == CommandType::Response.wire_value()
    }
}

/// A name of a response code leads back to that code.
pub proof fn lemma_response_code_name_round_trip(code: ResponseCode)
    ensures
        ResponseCode::of_name(code.name()) == Some(code),
{
    reveal_strlit("Success");
    reveal_strlit("SystemError");
    reveal_strlit("SystemBusy");
    reveal_strlit("RequestCommandNotSupported");
    assert("Success"@.len() == 7);
    assert("SystemError"@.len() == 11);
    assert("SystemBusy"@.len() == 10);
    assert("RequestCommandNotSupported"@.len() == 26);
}

/// A wire number of a response code leads back to that code.
pub proof fn lemma_response_code_value_round_trip(code: ResponseCode)
    ensures
        ResponseCode::of_wire_value(code.wire_value()) == Some(code),
{
}

/// A name of a command type leads back to that type.
pub proof fn lemma_command_type_name_round_trip(kind: CommandType)
    ensures
        CommandType::of_name(kind.name()) == Some(kind),
{
    reveal_strlit("Request");
    reveal_strlit("Response");
    assert("Request"@.len() == 7);
    assert("Response"@.len() == 8);
}

/// A wire number of a command type leads back to that type.
pub proof fn lemma_command_type_value_round_trip(kind: CommandType)
    ensures
        CommandType::of_wire_value(kind.wire_value()) == Some(kind),
{
}

} // verus!
