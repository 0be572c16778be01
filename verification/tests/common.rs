use remoting::common::{get_command_id, version, CommandIdGenerator, FIRST_COMMAND_ID, PROTOCOL_VERSION};

#[test]
fn it_works() {
    let result = remoting::common::add(2, 2);
    assert_eq!(result, 4);
}

#[test]
fn add_reaches_the_largest_size() {
    assert_eq!(remoting::common::add(usize::MAX - 1, 1), usize::MAX);
    assert_eq!(remoting::common::add(0, 0), 0);
}

#[test]
fn version_is_the_protocol_version() {
    assert_eq!(version(), PROTOCOL_VERSION);
}

#[test]
fn ids_start_at_one_and_grow_by_one() {
    let mut ids = CommandIdGenerator::new();
    assert_eq!(FIRST_COMMAND_ID, 1);
    assert_eq!(ids.next_command_id(), 1);
    assert_eq!(ids.next_command_id(), 2);
    assert_eq!(get_command_id(&mut ids), 3);
    assert_eq!(get_command_id(&mut ids), 4);
}

#[test]
fn ids_wrap_after_the_largest() {
    let mut ids = CommandIdGenerator::starting_at(u64::MAX - 1);
    assert_eq!(ids.next_command_id(), u64::MAX - 1);
    assert_eq!(ids.next_command_id(), u64::MAX);
    assert_eq!(ids.next_command_id(), 0);
    assert_eq!(ids.next_command_id(), 1);
}

#[test]
fn errors_of_the_common_helpers_have_words() {
    use_words();
}

fn use_words() {
    assert_eq!(
        remoting::common::MQError::FrameEncodeError("data is too big").message(),
        "Frame encode error: data is too big"
    );
    assert_eq!(remoting::common::MQError::FrameDecodeError.message(), "Frame decode error");
}
