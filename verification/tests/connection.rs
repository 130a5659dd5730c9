use remote_agent::command::encode;
use remote_agent::command::Command;
use remote_agent::command::DecodeError;
use remote_agent::connection::Connection;
use remote_agent::connection::Directive;
use remote_agent::connection::Fault;
use remote_agent::executor::Action;
use remote_agent::executor::Event;
use remote_agent::framing::read_frame;
use remote_agent::framing::FramingError;

fn request(command: &Command) -> Vec<u8> {
    remote_agent::framing::encode(&encode(command)).unwrap()
}

fn reply_in(frame: &[u8]) -> String {
    String::from_utf8(read_frame(frame, u32::MAX).unwrap()).unwrap()
}

#[test]
fn a_connection_first_asks_for_the_header() {
    let (_, directive) = Connection::open(1024);
    assert_eq!(directive, Directive::Read { at_most: 4 });
}

#[test]
fn a_run_request_is_answered_in_an_envelope() {
    let bytes = request(&Command::Run { command: "exit 3".to_string() });
    let (connection, _) = Connection::open(1024);
    let (connection, directive) = connection.received(&bytes[..4]);
    assert_eq!(directive, Directive::Read { at_most: bytes.len() - 4 });
    let (connection, directive) = connection.received(&bytes[4..]);
    assert_eq!(
        directive,
        Directive::Perform { action: Action::Shell { command: "exit 3".to_string() } }
    );
    let (_, directive) =
        connection.reported(Event::Ran { stdout: vec![], stderr: vec![], code: Some(3) });
    let text = "Command: exit 3 (executed)\nStandard output:\n\nStandard error:\n\nExit code:3\n";
    let mut expected = vec![0, 0, 0, text.len() as u8];
    expected.extend_from_slice(text.as_bytes());
    assert_eq!(directive, Directive::Send { frame: expected });
}

#[test]
fn a_request_may_come_byte_by_byte() {
    let bytes = request(&Command::Copy { file_path: "a.txt".to_string(), data: b"hello".to_vec() });
    let (mut connection, mut directive) = Connection::open(1024);
    for (i, byte) in bytes.iter().enumerate() {
        let wanted = if i < 4 { 4 - i } else { bytes.len() - i };
        assert_eq!(directive, Directive::Read { at_most: wanted });
        let next = connection.received(&[*byte]);
        connection = next.0;
        directive = next.1;
    }
    assert_eq!(directive, Directive::Perform { action: Action::Probe { path: "a.txt".to_string() } });
    let (connection, directive) = connection.reported(Event::Probed { exists: false });
    assert_eq!(
        directive,
        Directive::Perform {
            action: Action::Write { path: "a.txt".to_string(), data: b"hello".to_vec() }
        }
    );
    let (connection, directive) = connection.reported(Event::Written { failure: None });
    match directive {
        Directive::Send { frame } => assert_eq!(
            reply_in(&frame),
            "This is the first copy, no previous version found for a.txt.prev. \
             No rollback will be possible. File of 5 bytes received and stored as a.txt"
        ),
        other => panic!("expected a frame, got {:?}", other),
    }
    let (_, directive) = connection.reported(Event::Written { failure: None });
    assert_eq!(directive, Directive::Hang { fault: Fault::Misuse });
}

#[test]
fn a_reply_with_wide_characters_is_framed_by_its_bytes() {
    let bytes = request(&Command::Rollback { file_path: "d".to_string() });
    let (connection, _) = Connection::open(64);
    let (connection, _) = connection.received(&bytes);
    let (connection, _) =
        connection.reported(Event::Listed { entries: Some(vec!["d/\u{e9}.prev".to_string()]) });
    let (_, directive) = connection.reported(Event::Renamed { failure: None });
    let text = "Restored d/\u{e9}\n";
    assert_eq!(text.len(), 14);
    let mut expected = vec![0, 0, 0, 14];
    expected.extend_from_slice(text.as_bytes());
    assert_eq!(directive, Directive::Send { frame: expected });
}

#[test]
fn a_stream_that_ends_early_is_truncated() {
    let bytes = request(&Command::Run { command: "ls".to_string() });
    for cut in 0..bytes.len() {
        let (connection, _) = Connection::open(1024);
        let connection = if cut == 0 { connection } else { connection.received(&bytes[..cut]).0 };
        let (_, directive) = connection.received(&[]);
        assert_eq!(directive, Directive::Hang { fault: Fault::Framing(FramingError::Truncated) });
    }
}

#[test]
fn an_oversized_request_is_refused_at_the_header() {
    let (connection, _) = Connection::open(16);
    let (connection, directive) = connection.received(&[0, 0, 0, 17]);
    assert_eq!(directive, Directive::Hang { fault: Fault::Framing(FramingError::TooLarge) });
    let (_, directive) = connection.received(&[1]);
    assert_eq!(directive, Directive::Hang { fault: Fault::Misuse });
}

#[test]
fn a_payload_that_is_no_command_closes_the_connection() {
    let (connection, _) = Connection::open(16);
    let (_, directive) = connection.received(&[0, 0, 0, 4, 9, 0, 0, 0]);
    assert_eq!(directive, Directive::Hang { fault: Fault::Decode(DecodeError::UnknownTag(9)) });

    let (connection, _) = Connection::open(16);
    let (_, directive) = connection.received(&[0, 0, 0, 0]);
    assert_eq!(directive, Directive::Hang { fault: Fault::Decode(DecodeError::UnexpectedEnd) });

    let (connection, _) = Connection::open(64);
    let (_, directive) =
        connection.received(&[0, 0, 0, 13, 1, 0, 0, 0, 1, 0, 0, 0, 0, 0, 0, 0, 0xff]);
    assert_eq!(directive, Directive::Hang { fault: Fault::Decode(DecodeError::InvalidText) });
}

#[test]
fn bytes_after_the_request_are_not_taken() {
    let mut bytes = request(&Command::Run { command: "ls".to_string() });
    bytes.extend_from_slice(b"second request");
    let (connection, _) = Connection::open(1024);
    let (_, directive) = connection.received(&bytes);
    assert_eq!(
        directive,
        Directive::Perform { action: Action::Shell { command: "ls".to_string() } }
    );
}

#[test]
fn a_report_before_the_request_is_misuse() {
    let (connection, _) = Connection::open(16);
    let (_, directive) = connection.reported(Event::Probed { exists: true });
    assert_eq!(directive, Directive::Hang { fault: Fault::Misuse });
}
