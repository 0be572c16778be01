use bytes::BytesMut;
use prost::encoding::{self, WireType};
use remoting::network::frame::WireMessage;
use remoting::protocol::remoting_command::{
    BrokerRegisterRequest, BrokerRegisterResponse, Command, RemotingCommand,
};
use remoting::protocol::wire::{
    put_bytes_field, put_key, put_varint, put_varint_field, read_field, read_key, read_varint,
    skip_group, skip_value, to_signed32, to_signed64, to_unsigned, varint_len, FieldRef,
    RECURSION_LIMIT,
};

fn sample_request() -> BrokerRegisterRequest {
    BrokerRegisterRequest {
        broker_name: "b1".to_string(),
        broker_addr: "127.0.0.1:10911".to_string(),
        cluster_name: "c\u{e9}".to_string(),
        ha_server_addr: String::new(),
        broker_id: -3,
        heartbeat_timeout_millis: 3000,
        enable_acting_master: true,
    }
}

fn sample_command() -> RemotingCommand {
    RemotingCommand {
        id: 300,
        version: -1,
        command_type: 0,
        response_code: 3,
        remark: "note".to_string(),
        command: Some(Command::BrokerRegisterRequest(sample_request())),
    }
}

fn payload(command: &RemotingCommand) -> Vec<u8> {
    let mut out = Vec::new();
    command.encode_payload(&mut out);
    out
}

/// The bytes that prost's field encoders write for the request.
fn reference_request(request: &BrokerRegisterRequest) -> Vec<u8> {
    let mut buf = BytesMut::new();
    if !request.broker_name.is_empty() {
        encoding::string::encode(1, &request.broker_name, &mut buf);
    }
    if !request.broker_addr.is_empty() {
        encoding::string::encode(2, &request.broker_addr, &mut buf);
    }
    if request.broker_id != 0 {
        encoding::int64::encode(3, &request.broker_id, &mut buf);
    }
    if !request.cluster_name.is_empty() {
        encoding::string::encode(4, &request.cluster_name, &mut buf);
    }
    if !request.ha_server_addr.is_empty() {
        encoding::string::encode(5, &request.ha_server_addr, &mut buf);
    }
    if request.heartbeat_timeout_millis != 0 {
        encoding::int64::encode(6, &request.heartbeat_timeout_millis, &mut buf);
    }
    if request.enable_acting_master {
        encoding::bool::encode(7, &request.enable_acting_master, &mut buf);
    }
    buf.to_vec()
}

/// The bytes that prost's field encoders write for the command.
fn reference_command(command: &RemotingCommand) -> Vec<u8> {
    let mut buf = BytesMut::new();
    if command.id != 0 {
        encoding::uint64::encode(1, &command.id, &mut buf);
    }
    if command.version != 0 {
        encoding::int32::encode(2, &command.version, &mut buf);
    }
    if command.command_type != 0 {
        encoding::int32::encode(3, &command.command_type, &mut buf);
    }
    if command.response_code != 0 {
        encoding::int32::encode(4, &command.response_code, &mut buf);
    }
    if !command.remark.is_empty() {
        encoding::string::encode(5, &command.remark, &mut buf);
    }
    match &command.command {
        None => {}
        Some(Command::BrokerRegisterRequest(request)) => {
            let inner = reference_request(request);
            encoding::encode_key(6, WireType::LengthDelimited, &mut buf);
            encoding::encode_varint(inner.len() as u64, &mut buf);
            buf.extend_from_slice(&inner);
        }
        Some(Command::BrokerRegisterResponse(response)) => {
            let mut inner = BytesMut::new();
            if response.response_code != 0 {
                encoding::int32::encode(1, &response.response_code, &mut inner);
            }
            if !response.message.is_empty() {
                encoding::string::encode(2, &response.message, &mut inner);
            }
            encoding::encode_key(7, WireType::LengthDelimited, &mut buf);
            encoding::encode_varint(inner.len() as u64, &mut buf);
            buf.extend_from_slice(&inner);
        }
    }
    buf.to_vec()
}

#[test]
fn varints_have_exact_bytes() {
    let cases: [(u64, &[u8]); 7] = [
        (0, &[0x00]),
        (1, &[0x01]),
        (127, &[0x7f]),
        (128, &[0x80, 0x01]),
        (300, &[0xac, 0x02]),
        (16384, &[0x80, 0x80, 0x01]),
        (u64::MAX, &[0xff, 0xff, 0xff, 0xff, 0xff, 0xff, 0xff, 0xff, 0xff, 0x01]),
    ];
    for (value, bytes) in cases {
        let mut out = Vec::new();
        put_varint(value, &mut out);
        assert_eq!(out, bytes);
        assert_eq!(varint_len(value), bytes.len());
        assert_eq!(read_varint(bytes, 0), Some((value, bytes.len())));
    }
}

#[test]
fn varints_agree_with_the_reference_encoder() {
    let values = [0u64, 1, 127, 128, 255, 256, 16383, 16384, 1 << 32, (1 << 63) - 1, 1 << 63, u64::MAX];
    for value in values {
        let mut out = Vec::new();
        put_varint(value, &mut out);
        let mut reference = BytesMut::new();
        encoding::encode_varint(value, &mut reference);
        assert_eq!(out, reference.to_vec());
        assert_eq!(varint_len(value), encoding::encoded_len_varint(value));
        let mut slice = &out[..];
        assert_eq!(encoding::decode_varint(&mut slice).unwrap(), value);
        assert_eq!(read_varint(&out, 0), Some((value, out.len())));
    }
}

#[test]
fn malformed_varints_are_refused() {
    assert_eq!(read_varint(&[], 0), None);
    assert_eq!(read_varint(&[0x80], 0), None);
    assert_eq!(read_varint(&[0x80, 0x80], 0), None);
    // eleven bytes
    assert_eq!(read_varint(&[0x80; 11], 0), None);
    assert_eq!(
        read_varint(&[0xff, 0xff, 0xff, 0xff, 0xff, 0xff, 0xff, 0xff, 0xff, 0x80, 0x00], 0),
        None
    );
    // tenth byte overflows 64 bits
    assert_eq!(
        read_varint(&[0xff, 0xff, 0xff, 0xff, 0xff, 0xff, 0xff, 0xff, 0xff, 0x02], 0),
        None
    );
    // a longer way to write a small number is read
    assert_eq!(read_varint(&[0x81, 0x00], 0), Some((1, 2)));
    // reading starts where it is told to
    assert_eq!(read_varint(&[0xff, 0x05, 0x07], 1), Some((5, 1)));
    assert_eq!(read_varint(&[0xff, 0x05, 0x07], 3), None);
}

#[test]
fn signed_numbers_use_twos_complement() {
    assert_eq!(to_unsigned(0), 0);
    assert_eq!(to_unsigned(5), 5);
    assert_eq!(to_unsigned(-1), u64::MAX);
    assert_eq!(to_unsigned(i64::MIN), 1 << 63);
    assert_eq!(to_unsigned(i64::MAX), (1 << 63) - 1);
    assert_eq!(to_signed64(u64::MAX), -1);
    assert_eq!(to_signed64(1 << 63), i64::MIN);
    assert_eq!(to_signed64((1 << 63) - 1), i64::MAX);
    assert_eq!(to_signed32(u64::MAX), -1);
    assert_eq!(to_signed32(0xffff_ffff_8000_0000), i32::MIN);
    assert_eq!(to_signed32(0x7fff_ffff), i32::MAX);
    assert_eq!(to_signed32(0x1_0000_0005), 5);
}

#[test]
fn fields_have_exact_bytes() {
    let mut out = Vec::new();
    put_key(1, 0, &mut out);
    assert_eq!(out, [0x08]);
    let mut out = Vec::new();
    put_key(16, 2, &mut out);
    assert_eq!(out, [0x82, 0x01]);
    let mut out = Vec::new();
    put_varint_field(3, 150, &mut out);
    assert_eq!(out, [0x18, 0x96, 0x01]);
    let mut out = Vec::new();
    put_bytes_field(5, b"hi", &mut out);
    assert_eq!(out, [0x2a, 0x02, b'h', b'i']);
}

#[test]
fn fields_are_read_by_wire_type() {
    match read_field(&[0x18, 0x96, 0x01, 0xff], 0, 100) {
        Some((3, FieldRef::Varint(150), 3)) => {}
        _ => panic!("varint field"),
    }
    match read_field(&[0x2a, 0x02, b'h', b'i'], 0, 100) {
        Some((5, FieldRef::Bytes(run), 4)) => assert_eq!(run, b"hi"),
        _ => panic!("bytes field"),
    }
    match read_field(&[0x09, 1, 2, 3, 4, 5, 6, 7, 8], 0, 100) {
        Some((1, FieldRef::Fixed64(run), 9)) => assert_eq!(run, [1, 2, 3, 4, 5, 6, 7, 8]),
        _ => panic!("fixed64 field"),
    }
    match read_field(&[0x0d, 1, 2, 3, 4], 0, 100) {
        Some((1, FieldRef::Fixed32(run), 5)) => assert_eq!(run, [1, 2, 3, 4]),
        _ => panic!("fixed32 field"),
    }
    // tag 0
    assert!(read_field(&[0x00, 0x01], 0, 100).is_none());
    // a group that does not end, a key that closes no group, wire types 6 and 7
    assert!(read_field(&[0x0b], 0, 100).is_none());
    assert!(read_field(&[0x0c], 0, 100).is_none());
    assert!(read_field(&[0x0e, 0x00], 0, 100).is_none());
    assert!(read_field(&[0x0f, 0x00], 0, 100).is_none());
    // a run that ends too early
    assert!(read_field(&[0x2a, 0x03, b'h', b'i'], 0, 100).is_none());
    assert!(read_field(&[0x09, 1, 2, 3], 0, 100).is_none());
    assert!(read_field(&[0x0d, 1, 2, 3], 0, 100).is_none());
    // a key beyond 32 bits
    assert!(read_field(&[0x80, 0x80, 0x80, 0x80, 0x10, 0x00], 0, 100).is_none());
    assert!(read_field(&[], 0, 100).is_none());
}

#[test]
fn a_command_has_exact_bytes() {
    let command = RemotingCommand {
        id: 1,
        version: 1,
        command_type: 1,
        response_code: 2,
        remark: "busy".to_string(),
        command: None,
    };
    assert_eq!(
        payload(&command),
        [0x08, 0x01, 0x10, 0x01, 0x18, 0x01, 0x20, 0x02, 0x2a, 0x04, b'b', b'u', b's', b'y']
    );
    assert_eq!(command.encoded_len(), 14);
}

#[test]
fn a_default_command_has_no_bytes() {
    let command = RemotingCommand {
        id: 0,
        version: 0,
        command_type: 0,
        response_code: 0,
        remark: String::new(),
        command: None,
    };
    assert_eq!(payload(&command), Vec::<u8>::new());
    assert_eq!(command.encoded_len(), 0);
    assert_eq!(RemotingCommand::decode_payload(&[]), Some(command));
}

#[test]
fn payloads_agree_with_the_reference_encoder() {
    let mut commands = vec![sample_command()];
    let mut plain = sample_command();
    plain.command = None;
    commands.push(plain);
    let mut answer = sample_command();
    answer.command = Some(Command::BrokerRegisterResponse(BrokerRegisterResponse {
        response_code: 2,
        message: "later".to_string(),
    }));
    commands.push(answer);
    let mut empty_inside = sample_command();
    empty_inside.command = Some(Command::BrokerRegisterResponse(BrokerRegisterResponse {
        response_code: 0,
        message: String::new(),
    }));
    commands.push(empty_inside);
    let mut extremes = sample_command();
    extremes.id = u64::MAX;
    extremes.version = i32::MIN;
    extremes.command_type = i32::MAX;
    commands.push(extremes);
    for command in commands {
        let bytes = payload(&command);
        assert_eq!(bytes, reference_command(&command));
        assert_eq!(command.encoded_len(), bytes.len() as u64);
        assert_eq!(RemotingCommand::decode_payload(&bytes), Some(command));
    }
}

#[test]
fn fields_are_taken_in_any_order_and_the_last_wins() {
    let mut buf = BytesMut::new();
    encoding::string::encode(5, &"first".to_string(), &mut buf);
    encoding::uint64::encode(1, &7u64, &mut buf);
    // a field this schema does not know, of each wire type that can be passed over
    encoding::uint64::encode(99, &5u64, &mut buf);
    encoding::string::encode(98, &"ignored".to_string(), &mut buf);
    encoding::fixed64::encode(97, &1u64, &mut buf);
    encoding::fixed32::encode(96, &1u32, &mut buf);
    encoding::string::encode(5, &"second".to_string(), &mut buf);
    encoding::uint64::encode(1, &8u64, &mut buf);
    let command = RemotingCommand::decode_payload(&buf).unwrap();
    assert_eq!(
        command,
        RemotingCommand {
            id: 8,
            version: 0,
            command_type: 0,
            response_code: 0,
            remark: "second".to_string(),
            command: None,
        }
    );
}

#[test]
fn a_repeated_payload_is_merged_and_another_kind_replaces_it() {
    let mut first = BytesMut::new();
    encoding::string::encode(1, &"b1".to_string(), &mut first);
    encoding::int64::encode(3, &4i64, &mut first);
    let mut second = BytesMut::new();
    encoding::string::encode(2, &"addr".to_string(), &mut second);
    encoding::int64::encode(3, &5i64, &mut second);
    let mut buf = Vec::new();
    put_bytes_field(6, &first, &mut buf);
    put_bytes_field(6, &second, &mut buf);
    let merged = RemotingCommand::decode_payload(&buf).unwrap();
    let mut expected = BrokerRegisterRequest {
        broker_name: "b1".to_string(),
        broker_addr: "addr".to_string(),
        cluster_name: String::new(),
        ha_server_addr: String::new(),
        broker_id: 5,
        heartbeat_timeout_millis: 0,
        enable_acting_master: false,
    };
    assert_eq!(merged.command, Some(Command::BrokerRegisterRequest(expected.clone())));

    let mut response = BytesMut::new();
    encoding::string::encode(2, &"ok".to_string(), &mut response);
    put_bytes_field(7, &response, &mut buf);
    let replaced = RemotingCommand::decode_payload(&buf).unwrap();
    assert_eq!(
        replaced.command,
        Some(Command::BrokerRegisterResponse(BrokerRegisterResponse {
            response_code: 0,
            message: "ok".to_string(),
        }))
    );

    // back to a request: it starts from an empty one
    put_bytes_field(6, &second, &mut buf);
    expected.broker_name = String::new();
    let again = RemotingCommand::decode_payload(&buf).unwrap();
    assert_eq!(again.command, Some(Command::BrokerRegisterRequest(expected)));
}

#[test]
fn malformed_payloads_are_refused() {
    // wrong wire type for a known tag
    assert_eq!(RemotingCommand::decode_payload(&[0x0a, 0x00]), None);
    assert_eq!(RemotingCommand::decode_payload(&[0x28, 0x01]), None);
    assert_eq!(RemotingCommand::decode_payload(&[0x30, 0x01]), None);
    // text that is not UTF-8
    assert_eq!(RemotingCommand::decode_payload(&[0x2a, 0x02, 0xff, 0xfe]), None);
    // a payload whose inside is malformed
    assert_eq!(RemotingCommand::decode_payload(&[0x32, 0x02, 0x08, 0x01]), None);
    assert_eq!(RemotingCommand::decode_payload(&[0x3a, 0x02, 0x12, 0x05]), None);
    // a field that ends too early
    assert_eq!(RemotingCommand::decode_payload(&[0x08]), None);
    assert_eq!(RemotingCommand::decode_payload(&[0x2a, 0x05, b'a']), None);
    // a group under a tag of the schema
    assert_eq!(RemotingCommand::decode_payload(&[0x0b, 0x0c]), None);
}

#[test]
fn numbers_keep_their_low_bits() {
    // version: a varint wider than 32 bits keeps its low 32 bits
    let mut buf = Vec::new();
    put_varint_field(2, 0x1_0000_0002, &mut buf);
    put_varint_field(4, u64::MAX, &mut buf);
    let command = RemotingCommand::decode_payload(&buf).unwrap();
    assert_eq!(command.version, 2);
    assert_eq!(command.response_code, -1);
    // enable_acting_master: any number but zero is true
    let mut inner = Vec::new();
    put_varint_field(7, 2, &mut inner);
    let mut buf = Vec::new();
    put_bytes_field(6, &inner, &mut buf);
    match RemotingCommand::decode_payload(&buf).unwrap().command {
        Some(Command::BrokerRegisterRequest(request)) => assert!(request.enable_acting_master),
        _ => panic!("request"),
    }
}

/// `depth` groups of tag 12, one within the other, the innermost empty.
fn nest(depth: usize) -> Vec<u8> {
    let mut bytes = vec![0x63u8; depth];
    bytes.extend(vec![0x64u8; depth]);
    bytes
}

/// What the reference decoder makes of a group: the length from behind its
/// opening key to the end of its closing key.
fn reference_skip(bytes: &[u8], tag: u32) -> Option<usize> {
    let mut rest = &bytes[..];
    let before = rest.len();
    encoding::skip_field(WireType::StartGroup, tag, &mut rest, encoding::DecodeContext::default())
        .ok()
        .map(|_| before - rest.len())
}

#[test]
fn keys_are_read() {
    assert_eq!(read_key(&[0x08], 0), Some((1, 0, 1)));
    assert_eq!(read_key(&[0x63], 0), Some((12, 3, 1)));
    assert_eq!(read_key(&[0x64], 0), Some((12, 4, 1)));
    assert_eq!(read_key(&[0xff, 0x82, 0x01], 1), Some((16, 2, 2)));
    assert_eq!(read_key(&[0x00], 0), None);
    assert_eq!(read_key(&[0x0e], 0), None);
    assert_eq!(read_key(&[0x0f], 0), None);
    assert_eq!(read_key(&[], 0), None);
}

#[test]
fn a_group_under_an_unknown_tag_is_passed_over() {
    // group 11 { field 1: 1, field 2: "hi", group 12 {} }, then id = 7
    let bytes = [0x5b, 0x08, 0x01, 0x12, 0x02, b'h', b'i', 0x63, 0x64, 0x5c, 0x08, 0x07];
    match read_field(&bytes, 0, RECURSION_LIMIT) {
        Some((11, FieldRef::Group, 10)) => {}
        _ => panic!("group"),
    }
    assert_eq!(skip_group(&bytes, 1, 11, RECURSION_LIMIT), Some(9));
    assert_eq!(reference_skip(&bytes[1..], 11), Some(9));
    let command = RemotingCommand::decode_payload(&bytes).unwrap();
    assert_eq!(command.id, 7);
    // the same inside the payload of a command
    let mut outer = Vec::new();
    put_bytes_field(6, &bytes[..10], &mut outer);
    assert_eq!(
        RemotingCommand::decode_payload(&outer).unwrap().command,
        Some(Command::BrokerRegisterRequest(BrokerRegisterRequest::default()))
    );
}

#[test]
fn a_group_that_is_not_closed_by_its_own_tag_is_refused() {
    let cases: [&[u8]; 6] = [
        // closed by another tag
        &[0x5b, 0x08, 0x01, 0x64],
        // never closed
        &[0x5b, 0x08, 0x01],
        &[0x5b],
        // a field inside ends too early
        &[0x5b, 0x12, 0x05, b'h', 0x5c],
        // a malformed key inside
        &[0x5b, 0x00, 0x5c],
        // an inner group closed by the outer tag
        &[0x5b, 0x63, 0x5c, 0x5c],
    ];
    for bytes in cases {
        assert!(read_field(bytes, 0, RECURSION_LIMIT).is_none());
        assert_eq!(skip_group(bytes, 1, 11, RECURSION_LIMIT), None);
        assert_eq!(reference_skip(&bytes[1..], 11), None);
        assert_eq!(RemotingCommand::decode_payload(bytes), None);
    }
}

#[test]
fn groups_are_passed_over_as_deep_as_the_reference_decoder_goes() {
    for depth in [1usize, 2, 50, 99, 100, 101, 150] {
        let bytes = nest(depth);
        let expected = if depth <= 100 { Some(2 * depth - 1) } else { None };
        assert_eq!(skip_value(&bytes, 1, 12, 3, RECURSION_LIMIT), expected);
        assert_eq!(reference_skip(&bytes[1..], 12), expected);
        assert_eq!(RemotingCommand::decode_payload(&bytes).is_some(), depth <= 100);
        // the payload of a command is read one level down
        let mut outer = Vec::new();
        put_bytes_field(6, &bytes, &mut outer);
        assert_eq!(RemotingCommand::decode_payload(&outer).is_some(), depth <= 99);
    }
    // nothing is passed over at depth 0
    assert_eq!(skip_value(&[0x01], 0, 12, 0, 0), None);
    assert_eq!(skip_value(&[0x01], 0, 12, 0, 1), Some(1));
    assert_eq!(skip_value(&[1, 2, 3, 4, 5, 6, 7, 8], 0, 12, 1, 1), Some(8));
    assert_eq!(skip_value(&[1, 2, 3, 4], 0, 12, 5, 1), Some(4));
    assert_eq!(skip_value(&[1, 2, 3], 0, 12, 5, 1), None);
    assert_eq!(skip_value(&[2, 9, 9, 9], 0, 12, 2, 1), Some(3));
    assert_eq!(skip_value(&[4, 9, 9, 9], 0, 12, 2, 1), None);
    assert_eq!(skip_value(&[0x64], 0, 12, 4, 1), None);
}
