use remoting::common::{CommandIdGenerator, PROTOCOL_VERSION};
use remoting::error::RemotingError;
use remoting::protocol::remoting_command::{Command, RemotingCommand, ResponseCode};
use remoting::service::process::RemotingProcess;
use remoting::service::{screen, settle, Admission, RemotingService};

struct DummyProcess;

impl RemotingProcess for DummyProcess {
    fn process(&self, cmd: RemotingCommand) -> Result<RemotingCommand, RemotingError> {
        match cmd.command {
            None => Err(RemotingError::NoCommand),
            Some(Command::BrokerRegisterRequest(request)) => {
                if request.broker_name == "fail" {
                    Err(RemotingError::ProcessorError {
                        code: None,
                        message: "registry is down".to_string(),
                    })
                } else {
                    Ok(RemotingCommand::new_success_response_with_id(cmd.id))
                }
            }
            Some(_) => Ok(RemotingCommand::command_not_support(cmd.id)),
        }
    }
}

fn request(ids: &mut CommandIdGenerator, broker_name: &str) -> RemotingCommand {
    RemotingCommand::new_broker_register_request(
        ids,
        broker_name,
        "127.0.0.1:10911",
        "cluster",
        "",
        0,
        1000,
        true,
    )
}

#[test]
fn a_request_is_answered_by_the_processor() {
    let service = RemotingService::new(DummyProcess);
    let mut ids = CommandIdGenerator::starting_at(5);
    let response = service.execute(request(&mut ids, "b1"));
    assert_eq!(response, RemotingCommand::new_success_response_with_id(5));
}

#[test]
fn a_processor_failure_becomes_an_error_response_with_the_same_id() {
    let service = RemotingService::new(DummyProcess);
    let mut ids = CommandIdGenerator::starting_at(6);
    let response = service.execute(request(&mut ids, "fail"));
    assert_eq!(
        response,
        RemotingCommand::new_error_command_with_id(ResponseCode::SystemError, "registry is down", 6)
    );
}

#[test]
fn a_request_without_payload_is_not_supported() {
    let service = RemotingService::new(DummyProcess);
    let empty = RemotingCommand {
        id: 77,
        version: PROTOCOL_VERSION,
        command_type: 0,
        response_code: 0,
        remark: String::new(),
        command: None,
    };
    let response = service.execute(empty);
    assert_eq!(response.id, 77);
    assert_eq!(response.response_code, ResponseCode::RequestCommandNotSupported.as_i32());
    assert_eq!(response.command_type, 1);
    assert_eq!(response, RemotingCommand::command_not_support(77));
}

#[test]
fn handles_share_one_processor() {
    let service = RemotingService::new(DummyProcess);
    let other = service.share();
    let mut ids = CommandIdGenerator::new();
    assert_eq!(
        other.execute(request(&mut ids, "b1")),
        RemotingCommand::new_success_response_with_id(1)
    );
    assert_eq!(
        service.execute(request(&mut ids, "b1")),
        RemotingCommand::new_success_response_with_id(2)
    );
}

#[test]
fn screening_lets_payloads_through() {
    let mut ids = CommandIdGenerator::new();
    let command = request(&mut ids, "b1");
    match screen(command.clone()) {
        Admission::Process(accepted) => assert_eq!(accepted, command),
        Admission::Reject(_) => panic!("a command with a payload was rejected"),
    }
    let bare = RemotingCommand::new_success_response_with_id(3);
    match screen(bare) {
        Admission::Reject(response) => assert_eq!(response, RemotingCommand::command_not_support(3)),
        Admission::Process(_) => panic!("a command without a payload was let through"),
    }
}

#[test]
fn settling_passes_responses_on_and_reports_failures() {
    let answer = RemotingCommand::new_success_response_with_id(4);
    assert_eq!(settle(9, Ok(answer.clone())), answer);
    assert_eq!(
        settle(9, Err(RemotingError::FrameDecodeError)),
        RemotingCommand::new_error_command_with_id(ResponseCode::SystemBusy, "Frame decode error", 9)
    );
    assert_eq!(
        settle(
            9,
            Err(RemotingError::ProcessorError {
                code: Some(ResponseCode::RequestCommandNotSupported),
                message: "unknown".to_string()
            })
        ),
        RemotingCommand::new_error_command_with_id(
            ResponseCode::RequestCommandNotSupported,
            "unknown",
            9
        )
    );
}

#[test]
fn a_cloned_service_answers_like_the_first() {
    let service = RemotingService::new(DummyProcess);
    let other = service.clone();
    let mut ids = CommandIdGenerator::starting_at(11);
    assert_eq!(
        other.execute(request(&mut ids, "b1")),
        RemotingCommand::new_success_response_with_id(11)
    );
}
