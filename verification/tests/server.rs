use std::collections::VecDeque;

use remoting::common::CommandIdGenerator;
use remoting::error::{HeaderFault, RemotingError};
use remoting::network::server::{
    get_ip_address, Connection, ConnectionState, ReadAction, RemotingServer,
};
use remoting::network::stream::{CloseStep, FlushStep, ReadPlan, ReadStep, RemotingStream};
use remoting::protocol::remoting_command::{Command, RemotingCommand, ResponseCode};
use remoting::service::process::RemotingProcess;
use remoting::service::RemotingService;
use remoting::{send_response_to_channel, Delivery, ServerConfig};

/// Answers every registration with the same bare success.
struct DummyProcess;

impl RemotingProcess for DummyProcess {
    fn process(&self, cmd: RemotingCommand) -> Result<RemotingCommand, RemotingError> {
        if cmd.command.is_none() {
            return Err(RemotingError::NoCommand);
        }
        let command = cmd.command.unwrap();
        match command {
            Command::BrokerRegisterRequest(_) => {
                let response = RemotingCommand::new_success_response();
                Ok(response)
            }
            _ => Ok(RemotingCommand::from_error(&RemotingError::NoCommand)),
        }
    }
}

/// Answers every registration with a success under the id of the request.
struct Registrar;

impl RemotingProcess for Registrar {
    fn process(&self, cmd: RemotingCommand) -> Result<RemotingCommand, RemotingError> {
        match cmd.command {
            Some(Command::BrokerRegisterRequest(_)) => {
                Ok(RemotingCommand::broker_register_success(cmd.id))
            }
            _ => Ok(RemotingCommand::command_not_support(cmd.id)),
        }
    }
}

/// A transport that takes a few bytes at a time.
struct Pipe {
    bytes: VecDeque<u8>,
    chunk: usize,
}

impl Pipe {
    fn new(chunk: usize) -> Self {
        Pipe { bytes: VecDeque::new(), chunk }
    }

    fn write(&mut self, bytes: &[u8]) -> usize {
        let n = bytes.len().min(self.chunk);
        self.bytes.extend(&bytes[..n]);
        n
    }

    fn read_exact(&mut self, len: usize) -> Option<Vec<u8>> {
        if self.bytes.len() < len {
            return None;
        }
        Some(self.bytes.drain(..len).collect())
    }

    /// Up to `len` bytes; none at the end of the pipe.
    fn read(&mut self, len: usize) -> Vec<u8> {
        let n = len.min(self.bytes.len()).min(self.chunk);
        self.bytes.drain(..n).collect()
    }
}

type Stream = RemotingStream<(), RemotingCommand, RemotingCommand>;

/// Sends a command and flushes, as a sink does.
fn send(stream: &mut Stream, pipe: &mut Pipe, command: RemotingCommand) {
    stream.start_send(command).unwrap();
    while stream.flush_step() == FlushStep::Write {
        let n = pipe.write(stream.unsent());
        stream.accept_written(n).unwrap();
    }
    assert!(!stream.has_unsent());
}

/// Reads one frame and decodes it, as a stream does. `None` at the end of
/// the pipe.
fn next(stream: &mut Stream, pipe: &mut Pipe) -> Option<Result<RemotingCommand, RemotingError>> {
    loop {
        let want = match stream.read_plan() {
            ReadPlan::Decode => return Some(stream.decode_next()),
            ReadPlan::Read(want) => want,
        };
        let bytes = pipe.read(want);
        match stream.accept_read(&bytes) {
            ReadStep::Continue => {}
            ReadStep::End => return None,
            ReadStep::Failed(error) => return Some(Err(error)),
        }
    }
}

/// Reads one frame by handing over its header and its body, and decodes it.
fn next_by_parts(
    stream: &mut Stream,
    pipe: &mut Pipe,
) -> Option<Result<RemotingCommand, RemotingError>> {
    let bytes = pipe.read_exact(5)?;
    let header = [bytes[0], bytes[1], bytes[2], bytes[3], bytes[4]];
    let mut left = match stream.begin_frame(&header) {
        Ok(left) => left,
        Err(error) => return Some(Err(error)),
    };
    assert_eq!(stream.awaited_len(), left);
    while left > 0 {
        let n = left.min(7);
        match pipe.read_exact(n) {
            Some(bytes) => stream.accept_body(&bytes),
            None => return Some(Err(RemotingError::Io)),
        }
        left -= n;
    }
    assert_eq!(stream.read_plan(), ReadPlan::Decode);
    Some(stream.decode_next())
}

#[test]
fn server_should_work() {
    let addr = "localhost:8080";
    let config = ServerConfig::new(addr);
    assert_eq!(config.address(), addr);
    let service = RemotingService::new(DummyProcess);

    let mut client: Stream = RemotingStream::new(());
    let mut server_read: Stream = RemotingStream::new(());
    let mut server_write: Stream = RemotingStream::new(());
    let mut to_server = Pipe::new(3);
    let mut to_client = Pipe::new(1000);
    let mut connection = Connection::accepted();
    connection.serve();

    let mut ids = CommandIdGenerator::new();
    let remoting_command = RemotingCommand::new_broker_register_request(
        &mut ids,
        "broker_name",
        "broker_addr",
        "cluster_name",
        "ha_server_addr",
        0,
        1000,
        true,
    );
    send(&mut client, &mut to_server, remoting_command);

    let item = next(&mut server_read, &mut to_server);
    match connection.on_read(item) {
        ReadAction::Dispatch(command) => {
            let response = service.execute(command);
            send(&mut server_write, &mut to_client, response);
        }
        _ => panic!("the request was not dispatched"),
    }
    let response_command = next(&mut client, &mut to_client)
        .map_or(Ok(Default::default()), |result| result)
        .map_or(Default::default(), |command| command);

    println!("response: {:?}", response_command);
    assert_eq!(response_command, RemotingCommand::new_success_response());

    let item = next(&mut server_read, &mut to_server);
    assert!(item.is_none());
    assert!(matches!(connection.on_read(item), ReadAction::Disconnect));
    assert_eq!(connection.current(), ConnectionState::Disconnected);
}

#[test]
fn remoting_stream_should_work() {
    let service = RemotingService::new(Registrar);
    let mut client: Stream = RemotingStream::new(());
    let mut server: Stream = RemotingStream::new(());
    let mut to_server = Pipe::new(11);
    let mut to_client = Pipe::new(5);
    let mut ids = CommandIdGenerator::new();

    let mut counter = 0;
    loop {
        if counter > 500 {
            break;
        }
        let broker_id: i64 = 0;
        let cmd = RemotingCommand::new_broker_register_request(
            &mut ids,
            "broker_name",
            "broker_addr",
            "",
            "",
            broker_id,
            0,
            false,
        );
        let command_id = cmd.id;
        send(&mut client, &mut to_server, cmd);
        let command = next(&mut server, &mut to_server).unwrap().unwrap();
        send(&mut server, &mut to_client, service.execute(command));
        let cmd = next(&mut client, &mut to_client).unwrap().unwrap();

        assert_eq!(cmd, RemotingCommand::broker_register_success(command_id));
        counter += 1;
    }
}

#[test]
fn five_hundred_requests_are_pipelined_on_one_connection() {
    let service = RemotingService::new(Registrar);
    let mut client: Stream = RemotingStream::new(());
    let mut server_read: Stream = RemotingStream::new(());
    let mut server_write: Stream = RemotingStream::new(());
    let mut to_server = Pipe::new(64);
    let mut to_client = Pipe::new(64);
    let mut ids = CommandIdGenerator::new();
    let mut sent = Vec::new();
    for _ in 0..500 {
        let request = RemotingCommand::new_broker_register_request(
            &mut ids,
            "b1",
            "127.0.0.1:10911",
            "",
            "",
            0,
            0,
            false,
        );
        sent.push(request.id);
        send(&mut client, &mut to_server, request);
    }
    let mut connection = Connection::accepted();
    connection.serve();
    loop {
        let item = next(&mut server_read, &mut to_server);
        match connection.on_read(item) {
            ReadAction::Dispatch(command) => {
                send(&mut server_write, &mut to_client, service.execute(command))
            }
            ReadAction::Reply(response) => send(&mut server_write, &mut to_client, response),
            ReadAction::Disconnect => break,
        }
    }
    for id in sent {
        let response = next(&mut client, &mut to_client).unwrap().unwrap();
        assert_eq!(response.id, id);
        assert_eq!(response.command_type, 1);
        assert_eq!(response.response_code, ResponseCode::Success.as_i32());
    }
    assert!(next(&mut client, &mut to_client).is_none());
}

#[test]
fn responses_are_matched_by_id_whatever_their_order() {
    let service = RemotingService::new(Registrar);
    let mut ids = CommandIdGenerator::new();
    let slow = RemotingCommand::new_broker_register_request(&mut ids, "slow", "a", "", "", 0, 0, false);
    let fast = RemotingCommand::new_broker_register_request(&mut ids, "fast", "a", "", "", 0, 0, false);
    let (slow_id, fast_id) = (slow.id, fast.id);
    // the second request is done first
    let done = vec![service.execute(fast), service.execute(slow)];
    let mut server: Stream = RemotingStream::new(());
    let mut client: Stream = RemotingStream::new(());
    let mut to_client = Pipe::new(9);
    for response in done {
        send(&mut server, &mut to_client, response);
    }
    let first = next(&mut client, &mut to_client).unwrap().unwrap();
    let second = next(&mut client, &mut to_client).unwrap().unwrap();
    assert_eq!(first.id, fast_id);
    assert_eq!(second.id, slow_id);
    let mut seen = vec![first.id, second.id];
    seen.sort();
    assert_eq!(seen, vec![slow_id, fast_id]);
}

#[test]
fn a_bad_frame_is_answered_and_the_connection_goes_on() {
    let mut connection = Connection::accepted();
    assert_eq!(connection.current(), ConnectionState::Connected);
    connection.serve();
    assert_eq!(connection.current(), ConnectionState::Serving);
    match connection.on_read(Some(Err(RemotingError::FrameDecodeError))) {
        ReadAction::Reply(response) => assert_eq!(
            response,
            RemotingCommand::new_error_command(ResponseCode::SystemBusy, "Frame decode error")
        ),
        _ => panic!("a bad frame was not answered"),
    }
    assert_eq!(connection.current(), ConnectionState::Serving);
    match connection.on_read(Some(Err(RemotingError::FrameHeaderParseFailed(
        HeaderFault::UnknownCompression,
    )))) {
        ReadAction::Reply(response) => {
            assert_eq!(response.response_code, ResponseCode::SystemBusy.as_i32());
            assert_eq!(response.id, 0);
        }
        _ => panic!("a bad header was not answered"),
    }
    match connection.on_read(Some(Err(RemotingError::NoCommand))) {
        ReadAction::Reply(response) => assert_eq!(response, RemotingCommand::command_not_support(0)),
        _ => panic!("a missing payload was not answered"),
    }
    let command = RemotingCommand::new_success_response_with_id(3);
    match connection.on_read(Some(Ok(command.clone()))) {
        ReadAction::Dispatch(given) => assert_eq!(given, command),
        _ => panic!("a command was not dispatched"),
    }
    assert_eq!(connection.current(), ConnectionState::Serving);
}

#[test]
fn a_transport_failure_ends_the_connection() {
    let mut connection = Connection::accepted();
    connection.serve();
    assert!(matches!(connection.on_read(Some(Err(RemotingError::Io))), ReadAction::Disconnect));
    assert_eq!(connection.current(), ConnectionState::Disconnected);
    // it stays over
    let command = RemotingCommand::new_success_response_with_id(3);
    assert!(matches!(connection.on_read(Some(Ok(command))), ReadAction::Disconnect));
    connection.serve();
    assert_eq!(connection.current(), ConnectionState::Disconnected);
}

#[test]
fn a_bad_frame_between_good_ones_spoils_one_message() {
    let mut client: Stream = RemotingStream::new(());
    let mut server: Stream = RemotingStream::new(());
    let mut pipe = Pipe::new(4);
    send(&mut client, &mut pipe, RemotingCommand::new_success_response_with_id(1));
    // a frame with an unknown flag, and one whose payload is no command
    pipe.write(&[9, 0, 0, 0]);
    pipe.write(&[2, 7, 7]);
    pipe.write(&[0, 0, 0, 0]);
    pipe.write(&[1, 0x08]);
    send(&mut client, &mut pipe, RemotingCommand::new_success_response_with_id(2));
    assert_eq!(next(&mut server, &mut pipe).unwrap().unwrap().id, 1);
    assert_eq!(
        next(&mut server, &mut pipe),
        Some(Err(RemotingError::FrameHeaderParseFailed(HeaderFault::UnknownCompression)))
    );
    assert_eq!(next(&mut server, &mut pipe), Some(Err(RemotingError::FrameDecodeError)));
    assert_eq!(next(&mut server, &mut pipe).unwrap().unwrap().id, 2);
    assert!(next(&mut server, &mut pipe).is_none());
}

#[test]
fn a_flush_loops_over_partial_writes() {
    let mut stream: Stream = RemotingStream::new(());
    assert_eq!(stream.flush_step(), FlushStep::Done);
    stream.start_send(RemotingCommand::new_success_response_with_id(1)).unwrap();
    stream.start_send(RemotingCommand::new_success_response_with_id(2)).unwrap();
    let all = stream.unsent().to_vec();
    assert_eq!(all.len(), 2 * (5 + 6));
    assert!(stream.has_unsent());
    assert_eq!(stream.flush_step(), FlushStep::Write);
    stream.advance_written(4);
    assert_eq!(stream.unsent(), &all[4..]);
    assert_eq!(stream.flush_step(), FlushStep::Write);
    stream.advance_written(0);
    assert_eq!(stream.unsent(), &all[4..]);
    // a transport that takes nothing, or more than it was handed, has failed
    assert_eq!(stream.accept_written(0), Err(RemotingError::Io));
    assert_eq!(stream.accept_written(all.len() - 3), Err(RemotingError::Io));
    assert_eq!(stream.unsent(), &all[4..]);
    assert_eq!(stream.accept_written(1), Ok(()));
    assert_eq!(stream.unsent(), &all[5..]);
    stream.advance_written(all.len() - 5);
    assert!(!stream.has_unsent());
    assert_eq!(stream.flush_step(), FlushStep::Done);
    assert_eq!(stream.unsent(), &[] as &[u8]);
    assert_eq!(stream.get_ref(), &());
    stream.into_inner();
}

#[test]
fn listen_address_is_host_colon_port() {
    assert_eq!(get_ip_address(&remoting::network::server::ServerConfig::new("127.0.0.1", 8080)), "127.0.0.1:8080");
    assert_eq!(get_ip_address(&remoting::network::server::ServerConfig::new("localhost", 0)), "localhost:0");
    assert_eq!(get_ip_address(&remoting::network::server::ServerConfig::new("", -1)), ":-1");
    let server = RemotingServer::new(remoting::network::server::ServerConfig::new("0.0.0.0", 8090), DummyProcess);
    assert_eq!(server.address(), "0.0.0.0:8090");
}

#[test]
fn a_response_is_queued_for_the_write_side() {
    let (sender, mut receiver) = tokio::sync::mpsc::unbounded_channel();
    let response = RemotingCommand::new_success_response_with_id(5);
    assert_eq!(send_response_to_channel(&sender, response.clone()), Delivery::Delivered);
    assert_eq!(receiver.try_recv().unwrap(), response);
}

#[test]
fn a_response_is_dropped_when_the_write_side_is_gone() {
    let (sender, receiver) = tokio::sync::mpsc::unbounded_channel();
    drop(receiver);
    let response = RemotingCommand::new_success_response_with_id(5);
    assert_eq!(send_response_to_channel(&sender, response), Delivery::Dropped(5));
}

#[test]
fn frames_are_read_by_header_and_body() {
    let mut client: Stream = RemotingStream::new(());
    let mut server: Stream = RemotingStream::new(());
    let mut pipe = Pipe::new(100);
    send(&mut client, &mut pipe, RemotingCommand::new_success_response_with_id(1));
    send(&mut client, &mut pipe, RemotingCommand::new_success_response_with_id(2));
    assert_eq!(next_by_parts(&mut server, &mut pipe).unwrap().unwrap().id, 1);
    assert_eq!(next_by_parts(&mut server, &mut pipe).unwrap().unwrap().id, 2);
    assert!(next_by_parts(&mut server, &mut pipe).is_none());
}

#[test]
fn the_read_side_asks_for_a_header_and_then_for_the_body() {
    let mut stream: Stream = RemotingStream::new(());
    assert_eq!(stream.read_plan(), ReadPlan::Read(5));
    assert_eq!(stream.accept_read(&[0, 0]), ReadStep::Continue);
    assert_eq!(stream.read_plan(), ReadPlan::Read(3));
    assert_eq!(stream.accept_read(&[0, 0, 2]), ReadStep::Continue);
    assert_eq!(stream.read_plan(), ReadPlan::Read(2));
    assert_eq!(stream.awaited_len(), 2);
    assert_eq!(stream.accept_read(&[0x08]), ReadStep::Continue);
    assert_eq!(stream.read_plan(), ReadPlan::Read(1));
    assert_eq!(stream.accept_read(&[0x07]), ReadStep::Continue);
    assert_eq!(stream.read_plan(), ReadPlan::Decode);
    assert_eq!(stream.decode_next().unwrap().id, 7);
    assert_eq!(stream.read_plan(), ReadPlan::Read(5));
    // a frame without a body is whole with its header
    assert_eq!(stream.accept_read(&[0, 0, 0, 0, 0]), ReadStep::Continue);
    assert_eq!(stream.read_plan(), ReadPlan::Decode);
    assert_eq!(stream.decode_next().unwrap(), RemotingCommand::default());
}

#[test]
fn the_end_of_the_transport_ends_the_stream_between_frames_only() {
    let mut stream: Stream = RemotingStream::new(());
    assert_eq!(stream.accept_read(&[]), ReadStep::End);
    // in the middle of a header
    assert_eq!(stream.accept_read(&[0, 0, 0]), ReadStep::Continue);
    assert_eq!(stream.accept_read(&[]), ReadStep::Failed(RemotingError::Io));
    // in the middle of a body
    assert_eq!(stream.accept_read(&[0, 3]), ReadStep::Continue);
    assert_eq!(stream.accept_read(&[1]), ReadStep::Continue);
    assert_eq!(stream.accept_read(&[]), ReadStep::Failed(RemotingError::Io));
    assert_eq!(stream.read_plan(), ReadPlan::Read(2));
    // with a whole frame at hand
    assert_eq!(stream.accept_read(&[2, 3]), ReadStep::Continue);
    assert_eq!(stream.accept_read(&[]), ReadStep::Failed(RemotingError::Io));
    assert_eq!(stream.read_plan(), ReadPlan::Decode);
}

#[test]
fn more_bytes_than_were_asked_for_are_refused() {
    let mut stream: Stream = RemotingStream::new(());
    assert_eq!(stream.accept_read(&[0, 0, 0, 0, 1, 9]), ReadStep::Failed(RemotingError::Io));
    assert_eq!(stream.read_plan(), ReadPlan::Read(5));
    assert_eq!(stream.accept_read(&[0, 0, 0, 0, 1]), ReadStep::Continue);
    assert_eq!(stream.accept_read(&[9, 9]), ReadStep::Failed(RemotingError::Io));
    assert_eq!(stream.read_plan(), ReadPlan::Read(1));
    assert_eq!(stream.accept_read(&[9]), ReadStep::Continue);
    assert_eq!(stream.accept_read(&[9]), ReadStep::Failed(RemotingError::Io));
    assert_eq!(stream.read_plan(), ReadPlan::Decode);
}

#[test]
fn a_transport_that_ends_in_a_frame_ends_the_connection() {
    let mut client: Stream = RemotingStream::new(());
    let mut server: Stream = RemotingStream::new(());
    let mut pipe = Pipe::new(100);
    send(&mut client, &mut pipe, RemotingCommand::new_success_response_with_id(1));
    pipe.write(&[0, 0, 0, 0, 9, 1, 2]);
    let mut connection = Connection::accepted();
    connection.serve();
    let first = next(&mut server, &mut pipe);
    assert!(matches!(connection.on_read(first), ReadAction::Dispatch(_)));
    let second = next(&mut server, &mut pipe);
    assert_eq!(second, Some(Err(RemotingError::Io)));
    assert!(matches!(connection.on_read(second), ReadAction::Disconnect));
    assert_eq!(connection.current(), ConnectionState::Disconnected);
}

#[test]
fn a_close_flushes_before_it_shuts_down() {
    let mut stream: Stream = RemotingStream::new(());
    assert_eq!(stream.close_step(), CloseStep::Shutdown);
    stream.start_send(RemotingCommand::new_success_response_with_id(1)).unwrap();
    let all = stream.unsent().to_vec();
    assert_eq!(stream.close_step(), CloseStep::Write);
    assert_eq!(stream.unsent(), &all[..]);
    stream.accept_written(3).unwrap();
    assert_eq!(stream.close_step(), CloseStep::Write);
    assert_eq!(stream.unsent(), &all[3..]);
    stream.accept_written(all.len() - 3).unwrap();
    assert_eq!(stream.close_step(), CloseStep::Shutdown);
    assert!(!stream.has_unsent());
}

#[test]
fn a_refused_response_is_offered_once_more_and_then_dropped() {
    // the queue is gone: both offers come back, and the response is dropped
    // under its own id
    let (sender, receiver) = tokio::sync::mpsc::unbounded_channel();
    drop(receiver);
    for id in [0u64, 1, 42, u64::MAX] {
        let response = RemotingCommand::new_success_response_with_id(id);
        assert_eq!(send_response_to_channel(&sender, response), Delivery::Dropped(id));
    }
    // the queue is there: one offer, and each response is queued once
    let (sender, mut receiver) = tokio::sync::mpsc::unbounded_channel();
    for id in [7u64, 8, 9] {
        let response = RemotingCommand::new_success_response_with_id(id);
        assert_eq!(send_response_to_channel(&sender, response), Delivery::Delivered);
    }
    for id in [7u64, 8, 9] {
        assert_eq!(receiver.try_recv().unwrap().id, id);
    }
    assert!(receiver.try_recv().is_err());
}
