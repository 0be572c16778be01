use bytes::BytesMut;
use remoting::common::CommandIdGenerator;
use remoting::error::{HeaderFault, RemotingError};
use remoting::network::frame::{
    announced, check_content_len, decode_bytes, encode_bytes, has_room, put_frame, put_header,
    FrameCoder,
    WireMessage, COMPRESS_THRESHOLD, FLAG_GZIP, FLAG_RAW, FRAME_HEADER_LEN, FRAME_MAX_CONTENT_LEN,
};
use remoting::protocol::remoting_command::RemotingCommand;

fn request(ids: &mut CommandIdGenerator, broker_name: &str) -> RemotingCommand {
    RemotingCommand::new_broker_register_request(
        ids,
        broker_name,
        "broker_addr",
        "cluster_name",
        "ha_server_addr",
        1,
        3000,
        false,
    )
}

/// Bytes that do not compress well.
fn noise(len: usize) -> Vec<u8> {
    let mut state: u32 = 0x2545_f491;
    (0..len)
        .map(|_| {
            state ^= state << 13;
            state ^= state >> 17;
            state ^= state << 5;
            (state >> 8) as u8
        })
        .collect()
}

#[test]
fn encode_and_decode_should_work() {
    let broker_name = "broker_name";
    let mut ids = CommandIdGenerator::new();
    let cmd1 = request(&mut ids, broker_name);
    let mut buf = BytesMut::new();
    cmd1.encode_frame(&mut buf).unwrap();
    let cmd2 = RemotingCommand::decode_frame(&mut buf).unwrap();

    assert_eq!(cmd1, cmd2);
    assert!(buf.is_empty());
}

#[test]
fn constants_of_the_frame() {
    assert_eq!(FRAME_HEADER_LEN, 5);
    assert_eq!(FRAME_MAX_CONTENT_LEN as u64, 4 * 1024 * 1024 * 1024 - 1);
    assert_eq!(COMPRESS_THRESHOLD, 1436);
    assert_eq!(FLAG_RAW, 0);
    assert_eq!(FLAG_GZIP, 1);
}

#[test]
fn a_small_payload_travels_as_it_is() {
    let mut buf = BytesMut::new();
    encode_bytes(b"hello", &mut buf).unwrap();
    assert_eq!(&buf[..], [0, 0, 0, 0, 5, b'h', b'e', b'l', b'l', b'o']);
    assert_eq!(decode_bytes(&mut buf), Ok(b"hello".to_vec()));
    assert!(buf.is_empty());
}

#[test]
fn an_empty_payload_is_a_header_alone() {
    let mut buf = BytesMut::new();
    encode_bytes(b"", &mut buf).unwrap();
    assert_eq!(&buf[..], [0, 0, 0, 0, 0]);
    assert_eq!(decode_bytes(&mut buf), Ok(Vec::new()));
}

#[test]
fn the_length_is_big_endian() {
    let payload = vec![7u8; 0x0102];
    let mut buf = BytesMut::new();
    encode_bytes(&payload, &mut buf).unwrap();
    assert_eq!(&buf[..5], [0, 0, 0, 1, 2]);
    assert_eq!(buf.len(), 5 + 0x0102);
}

#[test]
fn payloads_on_both_sides_of_the_threshold_round_trip() {
    for len in [0usize, 1, 1435, 1436, 1437, 1500, 5000, 100_000] {
        for payload in [vec![b'a'; len], noise(len)] {
            let mut buf = BytesMut::new();
            encode_bytes(&payload, &mut buf).unwrap();
            let flag = buf[0];
            assert_eq!(flag, if len <= COMPRESS_THRESHOLD { 0 } else { 1 });
            let announced = u32::from_be_bytes([buf[1], buf[2], buf[3], buf[4]]) as usize;
            assert_eq!(announced + 5, buf.len());
            assert_eq!(decode_bytes(&mut buf), Ok(payload));
            assert!(buf.is_empty());
        }
    }
}

#[test]
fn a_large_payload_is_compressed() {
    let payload = vec![b'a'; 10_000];
    let mut buf = BytesMut::new();
    encode_bytes(&payload, &mut buf).unwrap();
    assert_eq!(buf[0], 1);
    assert!(buf.len() < 200);
    // the body is a gzip stream
    assert_eq!(&buf[5..8], [0x1f, 0x8b, 0x08]);
}

#[test]
fn commands_on_both_sides_of_the_threshold_round_trip() {
    let mut ids = CommandIdGenerator::new();
    for len in [1usize, 1300, 1380, 1400, 1500, 20_000] {
        let name = "n".repeat(len);
        let command = request(&mut ids, &name);
        let mut buf = BytesMut::new();
        command.encode_frame(&mut buf).unwrap();
        let expected_flag = if command.encoded_len() <= 1436 { 0 } else { 1 };
        assert_eq!(buf[0], expected_flag);
        assert_eq!(RemotingCommand::decode_frame(&mut buf), Ok(command));
        assert!(buf.is_empty());
    }
}

#[test]
fn frames_follow_each_other_in_one_buffer() {
    let mut ids = CommandIdGenerator::new();
    let first = request(&mut ids, "first");
    let second = request(&mut ids, &"s".repeat(3000));
    let third = RemotingCommand::new_success_response_with_id(9);
    let mut buf = BytesMut::new();
    first.encode_frame(&mut buf).unwrap();
    second.encode_frame(&mut buf).unwrap();
    third.encode_frame(&mut buf).unwrap();
    assert_eq!(RemotingCommand::decode_frame(&mut buf), Ok(first));
    assert_eq!(RemotingCommand::decode_frame(&mut buf), Ok(second));
    assert_eq!(RemotingCommand::decode_frame(&mut buf), Ok(third));
    assert!(buf.is_empty());
}

#[test]
fn an_oversize_length_is_refused() {
    assert_eq!(check_content_len(0), Ok(0));
    assert_eq!(check_content_len(4_294_967_295), Ok(u32::MAX));
    assert_eq!(check_content_len(4_294_967_296), Err(RemotingError::FrameOversize));
    assert_eq!(check_content_len(u64::MAX), Err(RemotingError::FrameOversize));
}

/// A message that claims a length it does not have.
struct Oversize;

#[test]
fn room_in_a_buffer() {
    let buf = BytesMut::new();
    assert!(has_room(&buf, 0));
    assert!(has_room(&buf, 1436));
    if usize::BITS == 64 {
        assert!(has_room(&buf, FRAME_MAX_CONTENT_LEN));
        assert!(!has_room(&buf, FRAME_MAX_CONTENT_LEN + 1));
    }
    assert!(!has_room(&buf, usize::MAX));
    let _ = Oversize;
}

#[test]
fn a_truncated_header_is_refused() {
    for len in 0..5usize {
        let mut buf = BytesMut::from(&[0u8, 0, 0, 0, 0][..len]);
        assert_eq!(
            decode_bytes(&mut buf),
            Err(RemotingError::FrameHeaderParseFailed(HeaderFault::TooShort))
        );
        assert_eq!(buf.len(), len);
        assert_eq!(
            RemotingCommand::decode_frame(&mut buf),
            Err(RemotingError::FrameHeaderParseFailed(HeaderFault::TooShort))
        );
        assert_eq!(buf.len(), len);
    }
}

#[test]
fn an_unknown_flag_is_refused() {
    let mut buf = BytesMut::from(&[2u8, 0, 0, 0, 1, 9][..]);
    assert_eq!(
        decode_bytes(&mut buf),
        Err(RemotingError::FrameHeaderParseFailed(HeaderFault::UnknownCompression))
    );
    assert_eq!(&buf[..], [2, 0, 0, 0, 1, 9]);
}

#[test]
fn a_short_body_is_refused() {
    let mut buf = BytesMut::from(&[0u8, 0, 0, 0, 3, 1, 2][..]);
    assert_eq!(
        decode_bytes(&mut buf),
        Err(RemotingError::FrameHeaderParseFailed(HeaderFault::Incomplete))
    );
    assert_eq!(&buf[..], [0, 0, 0, 0, 3, 1, 2]);
}

#[test]
fn a_body_that_is_no_gzip_stream_is_a_compress_error() {
    let mut buf = BytesMut::from(&[1u8, 0, 0, 0, 3, 1, 2, 3, 0, 0, 0, 0, 0][..]);
    assert_eq!(decode_bytes(&mut buf), Err(RemotingError::FrameCompressError));
    // the bad frame is gone, the next one is at hand
    assert_eq!(&buf[..], [0, 0, 0, 0, 0]);
    assert_eq!(decode_bytes(&mut buf), Ok(Vec::new()));
}

#[test]
fn a_payload_that_is_no_command_is_a_decode_error() {
    let mut buf = BytesMut::new();
    encode_bytes(&[0x08], &mut buf).unwrap();
    encode_bytes(&[0x08, 0x05], &mut buf).unwrap();
    assert_eq!(RemotingCommand::decode_frame(&mut buf), Err(RemotingError::FrameDecodeError));
    let next = RemotingCommand::decode_frame(&mut buf).unwrap();
    assert_eq!(next.id, 5);
}

#[test]
fn frames_are_put_piece_by_piece() {
    let mut buf = BytesMut::from(&b"x"[..]);
    put_frame(1, &[9, 8], &mut buf);
    assert_eq!(&buf[..], [b'x', 1, 0, 0, 0, 2, 9, 8]);
    let mut buf = BytesMut::new();
    assert_eq!(put_header(&[0, 1, 2, 3, 4], &mut buf), Ok(0x01020304));
    assert_eq!(&buf[..], [0, 1, 2, 3, 4]);
    assert!(buf.capacity() >= 5 + 0x01020304);
    assert_eq!(announced(&[1, 0, 0, 1, 2, 9, 9]), 0x0102);
    assert_eq!(announced(&[0, 0xff, 0xff, 0xff, 0xff]), u32::MAX);
}
