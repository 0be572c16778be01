//! The schema: which fields a command and its payloads are written as.
//!
//! | message                  | tag | field                      | written as |
//! |--------------------------|-----|----------------------------|------------|
//! | `RemotingCommand`        | 1   | `id`                       | varint     |
//! |                          | 2   | `version`                  | varint     |
//! |                          | 3   | `command_type`             | varint     |
//! |                          | 4   | `response_code`            | varint     |
//! |                          | 5   | `remark`                   | text       |
//! |                          | 6   | a `BrokerRegisterRequest`  | message    |
//! |                          | 7   | a `BrokerRegisterResponse` | message    |
//! | `BrokerRegisterRequest`  | 1   | `broker_name`              | text       |
//! |                          | 2   | `broker_addr`              | text       |
//! |                          | 3   | `broker_id`                | varint     |
//! |                          | 4   | `cluster_name`             | text       |
//! |                          | 5   | `ha_server_addr`           | text       |
//! |                          | 6   | `heartbeat_timeout_millis` | varint     |
//! |                          | 7   | `enable_acting_master`     | varint     |
//! | `BrokerRegisterResponse` | 1   | `response_code`            | varint     |
//! |                          | 2   | `message`                  | text       |
//!
//! A field that holds its default (zero, `false`, the empty text) is not
//! written; a payload is written whenever there is one. A reader takes fields
//! in any order, lets the last of several fields with one tag win, and passes
//! over fields with tags it does not know, groups included. Where the payload
//! of a command comes in several fields of one kind, they are read into one
//! payload, one after the other; a payload of the other kind starts afresh. A
//! field of a known tag with another wire type than the table gives, and a
//! text that is not UTF-8, make the whole message unreadable.

use vstd::prelude::*;
use vstd::string::StringSliceAdditionalSpecFns;
use vstd::utf8::{decode_utf8, encode_utf8, encode_utf8_decode_utf8, encode_utf8_valid_utf8};
use crate::network::frame::{FrameCoder, WireMessage};
use crate::protocol::remoting_command::{
    BrokerRegisterRequest, BrokerRegisterRequestView, BrokerRegisterResponse,
    BrokerRegisterResponseView, Command, CommandView, RemotingCommand, RemotingCommandView,
    ResponseCode,
};
use crate::protocol::response_view;
use crate::protocol::wire::{
    bytes_field, bytes_field_len, bytes_of_value, lemma_bytes_field_parses, lemma_varint_len,
    lemma_parse_message_step, lemma_varint_field_parses, number_of_value, number_value,
    parse_message, put_bytes_field, put_varint_field, read_fields, signed32_of, signed64_of,
    text_of_value, text_value, to_signed32, to_signed64, to_unsigned, unsigned_of, varint_field,
    varint_field_len, Field, FieldRef, FieldValue, Fields, RECURSION_LIMIT,
};

verus! {

/// A field for an unsigned number: nothing for zero.
pub open spec fn uint64_field(tag: u32, value: u64) -> Seq<u8> {
    if value == 0 {
        Seq::empty()
    } else {
        varint_field(tag, value as nat)
    }
}

/// A field for a signed number: nothing for zero.
pub open spec fn int_field(tag: u32, value: int) -> Seq<u8> {
    if value == 0 {
        Seq::empty()
    } else {
        varint_field(tag, unsigned_of(value))
    }
}

/// A field for a truth value: nothing for `false`.
pub open spec fn bool_field(tag: u32, value: bool) -> Seq<u8> {
    if value {
        varint_field(tag, 1)
    } else {
        Seq::empty()
    }
}

/// A field for a text: nothing for the empty text.
pub open spec fn text_field(tag: u32, text: Seq<char>) -> Seq<u8> {
    if encode_utf8(text).len() == 0 {
        Seq::empty()
    } else {
        bytes_field(tag, encode_utf8(text))
    }
}

/// The payload of a `BrokerRegisterRequest`.
pub open spec fn request_payload(request: BrokerRegisterRequestView) -> Seq<u8> {
    text_field(1, request.broker_name) + (text_field(2, request.broker_addr) + (int_field(
        3,
        request.broker_id as int,
    ) + (text_field(4, request.cluster_name) + (text_field(5, request.ha_server_addr) + (
    int_field(6, request.heartbeat_timeout_millis as int) + bool_field(
        7,
        request.enable_acting_master,
    ))))))
}

/// The payload of a `BrokerRegisterResponse`.
pub open spec fn response_payload(response: BrokerRegisterResponseView) -> Seq<u8> {
    int_field(1, response.response_code as int) + text_field(2, response.message)
}

/// The field that carries the payload of a command.
pub open spec fn command_field(command: Option<CommandView>) -> Seq<u8> {
    match command {
        None => Seq::empty(),
        Some(CommandView::BrokerRegisterRequest(request)) => bytes_field(
            6,
            request_payload(request),
        ),
        Some(CommandView::BrokerRegisterResponse(response)) => bytes_field(
            7,
            response_payload(response),
        ),
    }
}

/// The payload of a `RemotingCommand`.
pub open spec fn command_payload(command: RemotingCommandView) -> Seq<u8> {
    uint64_field(1, command.id) + (int_field(2, command.version as int) + (int_field(
        3,
        command.command_type as int,
    ) + (int_field(4, command.response_code as int) + (text_field(5, command.remark)
        + command_field(command.command)))))
}

impl Fields for BrokerRegisterRequest {
    open spec fn with(message: BrokerRegisterRequestView, field: Field) -> Option<
        BrokerRegisterRequestView,
    > {
        if field.tag == 1 {
            match text_of_value(field.value) {
                Some(text) => Some(BrokerRegisterRequestView { broker_name: text, ..message }),
                None => None,
            }
        } else if field.tag == 2 {
            match text_of_value(field.value) {
                Some(text) => Some(BrokerRegisterRequestView { broker_addr: text, ..message }),
                None => None,
            }
        } else if field.tag == 3 {
            match number_of_value(field.value) {
                Some(number) => Some(
                    BrokerRegisterRequestView { broker_id: signed64_of(number), ..message },
                ),
                None => None,
            }
        } else if field.tag == 4 {
            match text_of_value(field.value) {
                Some(text) => Some(BrokerRegisterRequestView { cluster_name: text, ..message }),
                None => None,
            }
        } else if field.tag == 5 {
            match text_of_value(field.value) {
                Some(text) => Some(BrokerRegisterRequestView { ha_server_addr: text, ..message }),
                None => None,
            }
        } else if field.tag == 6 {
            match number_of_value(field.value) {
                Some(number) => Some(
                    BrokerRegisterRequestView {
                        heartbeat_timeout_millis: signed64_of(number),
                        ..message
                    },
                ),
                None => None,
            }
        } else if field.tag == 7 {
            match number_of_value(field.value) {
                Some(number) => Some(
                    BrokerRegisterRequestView { enable_acting_master: number != 0, ..message },
                ),
                None => None,
            }
        } else {
            Some(message)
        }
    }

    fn take_field(&mut self, tag: u32, value: FieldRef<'_>) -> (taken: bool) {
        if tag == 1 {
            match text_value(&value) {
                Some(text) => {
                    self.broker_name = text;
                    true
                },
                None => false,
            }
        } else if tag == 2 {
            match text_value(&value) {
                Some(text) => {
                    self.broker_addr = text;
                    true
                },
                None => false,
            }
        } else if tag == 3 {
            match number_value(&value) {
                Some(number) => {
                    self.broker_id = to_signed64(number);
                    true
                },
                None => false,
            }
        } else if tag == 4 {
            match text_value(&value) {
                Some(text) => {
                    self.cluster_name = text;
                    true
                },
                None => false,
            }
        } else if tag == 5 {
            match text_value(&value) {
                Some(text) => {
                    self.ha_server_addr = text;
                    true
                },
                None => false,
            }
        } else if tag == 6 {
            match number_value(&value) {
                Some(number) => {
                    self.heartbeat_timeout_millis = to_signed64(number);
                    true
                },
                None => false,
            }
        } else if tag == 7 {
            match number_value(&value) {
                Some(number) => {
                    self.enable_acting_master = number != 0;
                    true
                },
                None => false,
            }
        } else {
            true
        }
    }
}

impl Fields for BrokerRegisterResponse {
    open spec fn with(message: BrokerRegisterResponseView, field: Field) -> Option<
        BrokerRegisterResponseView,
    > {
        if field.tag == 1 {
            match number_of_value(field.value) {
                Some(number) => Some(
                    BrokerRegisterResponseView { response_code: signed32_of(number), ..message },
                ),
                None => None,
            }
        } else if field.tag == 2 {
            match text_of_value(field.value) {
                Some(text) => Some(BrokerRegisterResponseView { message: text, ..message }),
                None => None,
            }
        } else {
            Some(message)
        }
    }

    fn take_field(&mut self, tag: u32, value: FieldRef<'_>) -> (taken: bool) {
        if tag == 1 {
            match number_value(&value) {
                Some(number) => {
                    self.response_code = to_signed32(number);
                    true
                },
                None => false,
            }
        } else if tag == 2 {
            match text_value(&value) {
                Some(text) => {
                    self.message = text;
                    true
                },
                None => false,
            }
        } else {
            true
        }
    }
}

/// The request that a payload field is read into: the one the command
/// already carries, or an empty one.
pub open spec fn request_base(command: Option<CommandView>) -> BrokerRegisterRequestView {
    match command {
        Some(CommandView::BrokerRegisterRequest(request)) => request,
        _ => BrokerRegisterRequestView::empty(),
    }
}

/// The response that a payload field is read into: the one the command
/// already carries, or an empty one.
pub open spec fn response_base(command: Option<CommandView>) -> BrokerRegisterResponseView {
    match command {
        Some(CommandView::BrokerRegisterResponse(response)) => response,
        _ => BrokerRegisterResponseView::empty(),
    }
}

impl Fields for RemotingCommand {
    open spec fn with(message: RemotingCommandView, field: Field) -> Option<RemotingCommandView> {
        if field.tag == 1 {
            match number_of_value(field.value) {
                Some(number) => Some(RemotingCommandView { id: number, ..message }),
                None => None,
            }
        } else if field.tag == 2 {
            match number_of_value(field.value) {
                Some(number) => Some(
                    RemotingCommandView { version: signed32_of(number), ..message },
                ),
                None => None,
            }
        } else if field.tag == 3 {
            match number_of_value(field.value) {
                Some(number) => Some(
                    RemotingCommandView { command_type: signed32_of(number), ..message },
                ),
                None => None,
            }
        } else if field.tag == 4 {
            match number_of_value(field.value) {
                Some(number) => Some(
                    RemotingCommandView { response_code: signed32_of(number), ..message },
                ),
                None => None,
            }
        } else if field.tag == 5 {
            match text_of_value(field.value) {
                Some(text) => Some(RemotingCommandView { remark: text, ..message }),
                None => None,
            }
        } else if field.tag == 6 {
            match bytes_of_value(field.value) {
                Some(bytes) => match parse_message::<BrokerRegisterRequest>(
                    bytes,
                    request_base(message.command),
                    (RECURSION_LIMIT - 1) as nat,
                ) {
                    Some(request) => Some(
                        RemotingCommandView {
                            command: Some(CommandView::BrokerRegisterRequest(request)),
                            ..message
                        },
                    ),
                    None => None,
                },
                None => None,
            }
        } else if field.tag == 7 {
            match bytes_of_value(field.value) {
                Some(bytes) => match parse_message::<BrokerRegisterResponse>(
                    bytes,
                    response_base(message.command),
                    (RECURSION_LIMIT - 1) as nat,
                ) {
                    Some(response) => Some(
                        RemotingCommandView {
                            command: Some(CommandView::BrokerRegisterResponse(response)),
                            ..message
                        },
                    ),
                    None => None,
                },
                None => None,
            }
        } else {
            Some(message)
        }
    }

    fn take_field(&mut self, tag: u32, value: FieldRef<'_>) -> (taken: bool) {
        if tag == 1 {
            match number_value(&value) {
                Some(number) => {
                    self.id = number;
                    true
                },
                None => false,
            }
        } else if tag == 2 {
            match number_value(&value) {
                Some(number) => {
                    self.version = to_signed32(number);
                    true
                },
                None => false,
            }
        } else if tag == 3 {
            match number_value(&value) {
                Some(number) => {
                    self.command_type = to_signed32(number);
                    true
                },
                None => false,
            }
        } else if tag == 4 {
            match number_value(&value) {
                Some(number) => {
                    self.response_code = to_signed32(number);
                    true
                },
                None => false,
            }
        } else if tag == 5 {
            match text_value(&value) {
                Some(text) => {
                    self.remark = text;
                    true
                },
                None => false,
            }
        } else if tag == 6 {
            match value {
                FieldRef::Bytes(bytes) => {
                    let mut request = match self.command.take() {
                        Some(Command::BrokerRegisterRequest(request)) => request,
                        _ => BrokerRegisterRequest::default(),
                    };
                    if read_fields(bytes, &mut request, RECURSION_LIMIT - 1) {
                        self.command = Some(Command::BrokerRegisterRequest(request));
                        true
                    } else {
                        false
                    }
                },
                _ => false,
            }
        } else if tag == 7 {
            match value {
                FieldRef::Bytes(bytes) => {
                    let mut response = match self.command.take() {
                        Some(Command::BrokerRegisterResponse(response)) => response,
                        _ => BrokerRegisterResponse::default(),
                    };
                    if read_fields(bytes, &mut response, RECURSION_LIMIT - 1) {
                        self.command = Some(Command::BrokerRegisterResponse(response));
                        true
                    } else {
                        false
                    }
                },
                _ => false,
            }
        } else {
            true
        }
    }
}

/// Appends the field of an unsigned number.
fn put_uint64(tag: u32, value: u64, out: &mut Vec<u8>)
    ensures
        final(out)@ == old(out)@ + uint64_field(tag, value),
{
    if value != 0 {
        put_varint_field(tag, value, out);
    } else {
        assert(out@ =~= old(out)@ + uint64_field(tag, value));
    }
}

/// Appends the field of a signed number.
fn put_int(tag: u32, value: i64, out: &mut Vec<u8>)
    ensures
        final(out)@ == old(out)@ + int_field(tag, value as int),
{
    if value != 0 {
        put_varint_field(tag, to_unsigned(value), out);
    } else {
        assert(out@ =~= old(out)@ + int_field(tag, value as int));
    }
}

/// Appends the field of a truth value.
fn put_bool(tag: u32, value: bool, out: &mut Vec<u8>)
    ensures
        final(out)@ == old(out)@ + bool_field(tag, value),
{
    if value {
        put_varint_field(tag, 1, out);
    } else {
        assert(out@ =~= old(out)@ + bool_field(tag, value));
    }
}

/// Appends the field of a text.
fn put_text(tag: u32, text: &str, out: &mut Vec<u8>)
    ensures
        final(out)@ == old(out)@ + text_field(tag, text@),
{
    let bytes = text.as_bytes();
    if bytes.len() != 0 {
        put_bytes_field(tag, bytes, out);
    } else {
        assert(out@ =~= old(out)@ + text_field(tag, text@));
    }
}

/// Appending in two steps appends the two parts joined.
proof fn lemma_joined(start: Seq<u8>, first: Seq<u8>, second: Seq<u8>)
    ensures
        (start + first) + second == start + (first + second),
{
    assert((start + first) + second =~= start + (first + second));
}

/// Appends the payload of a request.
fn put_request(request: &BrokerRegisterRequest, out: &mut Vec<u8>)
    ensures
        final(out)@ == old(out)@ + request_payload(request@),
{
    let ghost f7 = bool_field(7, request@.enable_acting_master);
    let ghost f6 = int_field(6, request@.heartbeat_timeout_millis as int) + f7;
    let ghost f5 = text_field(5, request@.ha_server_addr) + f6;
    let ghost f4 = text_field(4, request@.cluster_name) + f5;
    let ghost f3 = int_field(3, request@.broker_id as int) + f4;
    let ghost f2 = text_field(2, request@.broker_addr) + f3;
    put_text(1, request.broker_name.as_str(), out);
    let ghost o1 = out@;
    put_text(2, request.broker_addr.as_str(), out);
    let ghost o2 = out@;
    put_int(3, request.broker_id, out);
    let ghost o3 = out@;
    put_text(4, request.cluster_name.as_str(), out);
    let ghost o4 = out@;
    put_text(5, request.ha_server_addr.as_str(), out);
    let ghost o5 = out@;
    put_int(6, request.heartbeat_timeout_millis, out);
    let ghost o6 = out@;
    put_bool(7, request.enable_acting_master, out);
    proof {
        lemma_joined(o5, int_field(6, request@.heartbeat_timeout_millis as int), f7);
        lemma_joined(o4, text_field(5, request@.ha_server_addr), f6);
        lemma_joined(o3, text_field(4, request@.cluster_name), f5);
        lemma_joined(o2, int_field(3, request@.broker_id as int), f4);
        lemma_joined(o1, text_field(2, request@.broker_addr), f3);
        lemma_joined(old(out)@, text_field(1, request@.broker_name), f2);
    }
}

/// Appends the payload of a response.
fn put_response(response: &BrokerRegisterResponse, out: &mut Vec<u8>)
    ensures
        final(out)@ == old(out)@ + response_payload(response@),
{
    put_int(1, response.response_code as i64, out);
    put_text(2, response.message.as_str(), out);
    proof {
        lemma_joined(
            old(out)@,
            int_field(1, response@.response_code as int),
            text_field(2, response@.message),
        );
    }
}

/// Appends the field that carries the payload of a command.
fn put_command_field(command: &Option<Command>, out: &mut Vec<u8>)
    ensures
        final(out)@ == old(out)@ + command_field(
            match *command {
                Some(command) => Some(command@),
                None => None,
            },
        ),
{
    match command {
        None => {
            assert(out@ =~= old(out)@ + Seq::<u8>::empty());
        },
        Some(Command::BrokerRegisterRequest(request)) => {
            let mut inner: Vec<u8> = Vec::new();
            put_request(request, &mut inner);
            assert(inner@ =~= request_payload(request@));
            put_bytes_field(6, inner.as_slice(), out);
        },
        Some(Command::BrokerRegisterResponse(response)) => {
            let mut inner: Vec<u8> = Vec::new();
            put_response(response, &mut inner);
            assert(inner@ =~= response_payload(response@));
            put_bytes_field(7, inner.as_slice(), out);
        },
    }
}

/// Appends the payload of a command.
fn put_command(command: &RemotingCommand, out: &mut Vec<u8>)
    ensures
        final(out)@ == old(out)@ + command_payload(command@),
{
    let ghost f6 = command_field(command@.command);
    let ghost f5 = text_field(5, command@.remark) + f6;
    let ghost f4 = int_field(4, command@.response_code as int) + f5;
    let ghost f3 = int_field(3, command@.command_type as int) + f4;
    let ghost f2 = int_field(2, command@.version as int) + f3;
    put_uint64(1, command.id, out);
    let ghost o1 = out@;
    put_int(2, command.version as i64, out);
    let ghost o2 = out@;
    put_int(3, command.command_type as i64, out);
    let ghost o3 = out@;
    put_int(4, command.response_code as i64, out);
    let ghost o4 = out@;
    put_text(5, command.remark.as_str(), out);
    put_command_field(&command.command, out);
    proof {
        lemma_joined(o4, text_field(5, command@.remark), f6);
        lemma_joined(o3, int_field(4, command@.response_code as int), f5);
        lemma_joined(o2, int_field(3, command@.command_type as int), f4);
        lemma_joined(o1, int_field(2, command@.version as int), f3);
        lemma_joined(old(out)@, uint64_field(1, command@.id), f2);
    }
}

/// The length of the field of an unsigned number.
fn uint64_len(tag: u32, value: u64) -> (len: u128)
    ensures
        len == uint64_field(tag, value).len(),
        len <= 20,
{
    if value != 0 {
        varint_field_len(tag, value) as u128
    } else {
        0
    }
}

/// The length of the field of a signed number.
fn int_len(tag: u32, value: i64) -> (len: u128)
    ensures
        len == int_field(tag, value as int).len(),
        len <= 20,
{
    if value != 0 {
        varint_field_len(tag, to_unsigned(value)) as u128
    } else {
        0
    }
}

/// The length of the field of a truth value.
fn bool_len(tag: u32, value: bool) -> (len: u128)
    ensures
        len == bool_field(tag, value).len(),
        len <= 20,
{
    if value {
        varint_field_len(tag, 1) as u128
    } else {
        0
    }
}

/// The length of the field of a text.
fn text_len(tag: u32, text: &str) -> (len: u128)
    ensures
        len == text_field(tag, text@).len(),
        len <= 0x1_0000_0000_0000_0000 + 20,
{
    let bytes = text.as_bytes();
    if bytes.len() != 0 {
        bytes_field_len(tag, bytes.len() as u64)
    } else {
        0
    }
}

/// The length of the payload of a request.
fn request_len(request: &BrokerRegisterRequest) -> (len: u128)
    ensures
        len == request_payload(request@).len(),
        len <= 0x5_0000_0000_0000_0000,
{
    text_len(1, request.broker_name.as_str()) + text_len(2, request.broker_addr.as_str())
        + int_len(3, request.broker_id) + text_len(4, request.cluster_name.as_str()) + text_len(
        5,
        request.ha_server_addr.as_str(),
    ) + int_len(6, request.heartbeat_timeout_millis) + bool_len(
        7,
        request.enable_acting_master,
    )
}

/// The length of the payload of a response.
fn response_len(response: &BrokerRegisterResponse) -> (len: u128)
    ensures
        len == response_payload(response@).len(),
        len <= 0x5_0000_0000_0000_0000,
{
    int_len(1, response.response_code as i64) + text_len(2, response.message.as_str())
}

/// The length of the payload of a command, `u64::MAX` where it is longer than
/// that.
fn command_len(command: &RemotingCommand) -> (len: u64)
    ensures
        len == if command_payload(command@).len() <= u64::MAX {
            command_payload(command@).len() as u64
        } else {
            u64::MAX
        },
{
    let head: u128 = uint64_len(1, command.id) + int_len(2, command.version as i64) + int_len(
        3,
        command.command_type as i64,
    ) + int_len(4, command.response_code as i64) + text_len(5, command.remark.as_str());
    let tail: u128 = match &command.command {
        None => 0,
        Some(Command::BrokerRegisterRequest(request)) => {
            let inner = request_len(request);
            if inner > 0xffff_ffff_ffff_ffff {
                return 0xffff_ffff_ffff_ffff;
            }
            bytes_field_len(6, inner as u64)
        },
        Some(Command::BrokerRegisterResponse(response)) => {
            let inner = response_len(response);
            if inner > 0xffff_ffff_ffff_ffff {
                return 0xffff_ffff_ffff_ffff;
            }
            bytes_field_len(7, inner as u64)
        },
    };
    assert(tail == command_field(command@.command).len());
    let total: u128 = head + tail;
    if total > 0xffff_ffff_ffff_ffff {
        0xffff_ffff_ffff_ffff
    } else {
        total as u64
    }
}

/// A text that was written as a field's value is read as that text.
proof fn lemma_text_value(text: Seq<char>)
    ensures
        text_of_value(FieldValue::Bytes(encode_utf8(text))) == Some(text),
        encode_utf8(text).len() == 0 ==> text == Seq::<char>::empty(),
{
    encode_utf8_valid_utf8(text);
    encode_utf8_decode_utf8(text);
    if encode_utf8(text).len() == 0 {
        assert(decode_utf8(encode_utf8(text)) == Seq::<char>::empty());
    }
}

/// A signed number that was written as a varint's number is read as that
/// number.
proof fn lemma_signed_value(value: int)
    requires
        i64::MIN <= value <= i64::MAX,
    ensures
        unsigned_of(value) <= u64::MAX,
        signed64_of(unsigned_of(value) as u64) == value,
        i32::MIN <= value <= i32::MAX ==> signed32_of(unsigned_of(value) as u64) == value,
{
}

/// Reading goes past the field of a signed number and into `next`, the
/// message with that number taken; a number that was not written is the
/// default that `start` holds already.
proof fn lemma_take_int<M: Fields>(
    tag: u32,
    value: int,
    rest: Seq<u8>,
    start: M::V,
    next: M::V,
    depth: nat,
)
    requires
        1 <= tag < 0x2000_0000,
        i64::MIN <= value <= i64::MAX,
        value != 0 ==> M::with(
            start,
            (Field { tag, value: FieldValue::Varint(unsigned_of(value) as u64) }),
        ) == Some(next),
        value == 0 ==> next == start,
    ensures
        parse_message::<M>(int_field(tag, value) + rest, start, depth) == parse_message::<M>(
            rest,
            next,
            depth,
        ),
{
    lemma_signed_value(value);
    if value != 0 {
        let number = unsigned_of(value) as u64;
        lemma_varint_field_parses(tag, number, rest, depth);
        lemma_parse_message_step::<M>(
            int_field(tag, value),
            Field { tag, value: FieldValue::Varint(number) },
            rest,
            start,
            next,
            depth,
        );
    } else {
        assert(int_field(tag, value) + rest =~= rest);
    }
}

/// Reading goes past the field of a text and into `next`, the message with
/// that text taken.
proof fn lemma_take_text<M: Fields>(
    tag: u32,
    text: Seq<char>,
    rest: Seq<u8>,
    start: M::V,
    next: M::V,
    depth: nat,
)
    requires
        1 <= tag < 0x2000_0000,
        encode_utf8(text).len() <= u64::MAX,
        encode_utf8(text).len() != 0 ==> M::with(
            start,
            (Field { tag, value: FieldValue::Bytes(encode_utf8(text)) }),
        ) == Some(next),
        encode_utf8(text).len() == 0 ==> next == start,
    ensures
        parse_message::<M>(text_field(tag, text) + rest, start, depth) == parse_message::<M>(
            rest,
            next,
            depth,
        ),
{
    if encode_utf8(text).len() != 0 {
        lemma_bytes_field_parses(tag, encode_utf8(text), rest, depth);
        lemma_parse_message_step::<M>(
            text_field(tag, text),
            Field { tag, value: FieldValue::Bytes(encode_utf8(text)) },
            rest,
            start,
            next,
            depth,
        );
    } else {
        assert(text_field(tag, text) + rest =~= rest);
    }
}

/// A request that was written is read back as it was, at whatever depth.
pub proof fn lemma_request_round_trip(request: BrokerRegisterRequestView, depth: nat)
    requires
        request_payload(request).len() <= u64::MAX,
    ensures
        parse_message::<BrokerRegisterRequest>(
            request_payload(request),
            BrokerRegisterRequestView::empty(),
            depth,
        ) == Some(request),
{
    let f7 = bool_field(7, request.enable_acting_master);
    let f6 = int_field(6, request.heartbeat_timeout_millis as int) + f7;
    let f5 = text_field(5, request.ha_server_addr) + f6;
    let f4 = text_field(4, request.cluster_name) + f5;
    let f3 = int_field(3, request.broker_id as int) + f4;
    let f2 = text_field(2, request.broker_addr) + f3;
    let m0 = BrokerRegisterRequestView::empty();
    let m1 = BrokerRegisterRequestView { broker_name: request.broker_name, ..m0 };
    let m2 = BrokerRegisterRequestView { broker_addr: request.broker_addr, ..m1 };
    let m3 = BrokerRegisterRequestView { broker_id: request.broker_id, ..m2 };
    let m4 = BrokerRegisterRequestView { cluster_name: request.cluster_name, ..m3 };
    let m5 = BrokerRegisterRequestView { ha_server_addr: request.ha_server_addr, ..m4 };
    let m6 = BrokerRegisterRequestView {
        heartbeat_timeout_millis: request.heartbeat_timeout_millis,
        ..m5
    };
    lemma_text_value(request.broker_name);
    lemma_text_value(request.broker_addr);
    lemma_text_value(request.cluster_name);
    lemma_text_value(request.ha_server_addr);
    lemma_signed_value(request.broker_id as int);
    lemma_signed_value(request.heartbeat_timeout_millis as int);
    lemma_take_text::<BrokerRegisterRequest>(1, request.broker_name, f2, m0, m1, depth);
    lemma_take_text::<BrokerRegisterRequest>(2, request.broker_addr, f3, m1, m2, depth);
    lemma_take_int::<BrokerRegisterRequest>(3, request.broker_id as int, f4, m2, m3, depth);
    lemma_take_text::<BrokerRegisterRequest>(4, request.cluster_name, f5, m3, m4, depth);
    lemma_take_text::<BrokerRegisterRequest>(5, request.ha_server_addr, f6, m4, m5, depth);
    lemma_take_int::<BrokerRegisterRequest>(
        6,
        request.heartbeat_timeout_millis as int,
        f7,
        m5,
        m6,
        depth,
    );
    if request.enable_acting_master {
        lemma_varint_field_parses(7, 1, Seq::empty(), depth);
        lemma_parse_message_step::<BrokerRegisterRequest>(
            f7,
            Field { tag: 7, value: FieldValue::Varint(1) },
            Seq::empty(),
            m6,
            request,
            depth,
        );
        assert(f7 + Seq::<u8>::empty() =~= f7);
    } else {
        assert(m6 == request);
    }
}

/// A response that was written is read back as it was, at whatever depth.
pub proof fn lemma_response_round_trip(response: BrokerRegisterResponseView, depth: nat)
    requires
        response_payload(response).len() <= u64::MAX,
    ensures
        parse_message::<BrokerRegisterResponse>(
            response_payload(response),
            BrokerRegisterResponseView::empty(),
            depth,
        ) == Some(response),
{
    let f2 = text_field(2, response.message);
    let m0 = BrokerRegisterResponseView::empty();
    let m1 = BrokerRegisterResponseView { response_code: response.response_code, ..m0 };
    lemma_text_value(response.message);
    lemma_signed_value(response.response_code as int);
    lemma_take_int::<BrokerRegisterResponse>(1, response.response_code as int, f2, m0, m1, depth);
    lemma_take_text::<BrokerRegisterResponse>(
        2,
        response.message,
        Seq::empty(),
        m1,
        response,
        depth,
    );
    assert(f2 + Seq::<u8>::empty() =~= f2);
}

/// A command that was written is read back as it was, at whatever depth.
pub proof fn lemma_command_round_trip(command: RemotingCommandView, depth: nat)
    requires
        command_payload(command).len() <= u64::MAX,
    ensures
        parse_message::<RemotingCommand>(
            command_payload(command),
            RemotingCommandView::empty(),
            depth,
        ) == Some(command),
{
    let inside = (RECURSION_LIMIT - 1) as nat;
    let f6 = command_field(command.command);
    let f5 = text_field(5, command.remark) + f6;
    let f4 = int_field(4, command.response_code as int) + f5;
    let f3 = int_field(3, command.command_type as int) + f4;
    let f2 = int_field(2, command.version as int) + f3;
    let m0 = RemotingCommandView::empty();
    let m1 = RemotingCommandView { id: command.id, ..m0 };
    let m2 = RemotingCommandView { version: command.version, ..m1 };
    let m3 = RemotingCommandView { command_type: command.command_type, ..m2 };
    let m4 = RemotingCommandView { response_code: command.response_code, ..m3 };
    let m5 = RemotingCommandView { remark: command.remark, ..m4 };
    lemma_text_value(command.remark);
    lemma_signed_value(command.version as int);
    lemma_signed_value(command.command_type as int);
    lemma_signed_value(command.response_code as int);
    if command.id != 0 {
        lemma_varint_field_parses(1, command.id, f2, depth);
        lemma_parse_message_step::<RemotingCommand>(
            uint64_field(1, command.id),
            Field { tag: 1, value: FieldValue::Varint(command.id) },
            f2,
            m0,
            m1,
            depth,
        );
    } else {
        assert(uint64_field(1, command.id) + f2 =~= f2);
    }
    lemma_take_int::<RemotingCommand>(2, command.version as int, f3, m1, m2, depth);
    lemma_take_int::<RemotingCommand>(3, command.command_type as int, f4, m2, m3, depth);
    lemma_take_int::<RemotingCommand>(4, command.response_code as int, f5, m3, m4, depth);
    lemma_take_text::<RemotingCommand>(5, command.remark, f6, m4, m5, depth);
    match command.command {
        None => {
            assert(m5 == command);
        },
        Some(CommandView::BrokerRegisterRequest(request)) => {
            let inner = request_payload(request);
            lemma_request_round_trip(request, inside);
            lemma_bytes_field_parses(6, inner, Seq::empty(), depth);
            lemma_parse_message_step::<RemotingCommand>(
                f6,
                Field { tag: 6, value: FieldValue::Bytes(inner) },
                Seq::empty(),
                m5,
                command,
                depth,
            );
            assert(f6 + Seq::<u8>::empty() =~= f6);
        },
        Some(CommandView::BrokerRegisterResponse(response)) => {
            let inner = response_payload(response);
            lemma_response_round_trip(response, inside);
            lemma_bytes_field_parses(7, inner, Seq::empty(), depth);
            lemma_parse_message_step::<RemotingCommand>(
                f6,
                Field { tag: 7, value: FieldValue::Bytes(inner) },
                Seq::empty(),
                m5,
                command,
                depth,
            );
            assert(f6 + Seq::<u8>::empty() =~= f6);
        },
    }
}

/// A response without remark and payload has a payload of a few bytes, far
/// below the length from which payloads are compressed.
pub proof fn lemma_bare_response_is_short(id: u64, code: ResponseCode)
    ensures
        command_payload(response_view(id, code, Seq::empty())).len() <= 32,
{
    lemma_varint_len(id as nat);
    lemma_varint_len(8);
    lemma_varint_len(16);
    lemma_varint_len(24);
    lemma_varint_len(32);
    lemma_varint_len(1);
    lemma_varint_len(2);
    lemma_varint_len(3);
    assert(encode_utf8(Seq::<char>::empty()).len() == 0);
}

impl WireMessage for RemotingCommand {
    open spec fn payload_of(value: RemotingCommandView) -> Seq<u8> {
        command_payload(value)
    }

    open spec fn value_of(payload: Seq<u8>) -> Option<RemotingCommandView> {
        parse_message::<RemotingCommand>(
            payload,
            RemotingCommandView::empty(),
            RECURSION_LIMIT as nat,
        )
    }

    proof fn lemma_payload_round_trip(value: RemotingCommandView) {
        lemma_command_round_trip(value, RECURSION_LIMIT as nat);
    }

    fn encoded_len(&self) -> (len: u64) {
        command_len(self)
    }

    fn encode_payload(&self, out: &mut Vec<u8>) {
        put_command(self, out);
    }

    fn decode_payload(payload: &[u8]) -> (value: Option<Self>) {
        let mut command = RemotingCommand::default();
        if read_fields(payload, &mut command, RECURSION_LIMIT) {
            Some(command)
        } else {
            None
        }
    }
}

impl FrameCoder for RemotingCommand {

}

} // verus!
