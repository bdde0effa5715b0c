use turn_start_bridge::message::{ParsedMessage, ParsedXmlInput};
use turn_start_bridge::queue_mode::QueueMode;
use turn_start_bridge::structured_input::StructuredInputReaderEvent;
use turn_start_bridge::xml_reader::{
    check_xml_input_fd, ReaderAction, ReaderInput, ReaderStage, XmlInputReader,
};

fn streaming() -> XmlInputReader {
    let mut reader = XmlInputReader::new();
    assert_eq!(reader.action(), ReaderAction::GetFlags);
    assert_eq!(reader.step(ReaderInput::Flags(2)), Vec::new());
    assert_eq!(
        reader.action(),
        ReaderAction::SetNonblocking { original_flags: 2 }
    );
    assert_eq!(reader.step(ReaderInput::FlagsSet), Vec::new());
    assert_eq!(reader.action(), ReaderAction::ReadNow);
    assert_eq!(
        reader.step(ReaderInput::ReadFailed {
            would_block: true,
            message: "would block".to_string()
        }),
        Vec::new()
    );
    assert_eq!(reader.action(), ReaderAction::SetFlags { original_flags: 2 });
    assert_eq!(
        reader.step(ReaderInput::FlagsSet),
        vec![StructuredInputReaderEvent::StartupDrainComplete]
    );
    assert_eq!(reader.action(), ReaderAction::ReadNext);
    reader
}

fn read_all(reader: &mut XmlInputReader, pieces: &[&[u8]]) -> Vec<StructuredInputReaderEvent> {
    let mut events = Vec::new();
    for piece in pieces {
        events.extend(reader.step(ReaderInput::Bytes(piece.to_vec())));
    }
    if reader.stage != ReaderStage::Stopped {
        events.extend(reader.step(ReaderInput::Bytes(Vec::new())));
    }
    assert_eq!(reader.action(), ReaderAction::Stop);
    events
}

fn parsed(text: &str) -> StructuredInputReaderEvent {
    StructuredInputReaderEvent::Parsed(ParsedXmlInput::Message(ParsedMessage {
        queue_mode: QueueMode::Default,
        text: text.to_string(),
    }))
}

#[test]
fn malformed_fragment_and_following_valid_fragment_are_recovered_within_one_read() {
    let events = read_all(
        &mut streaming(),
        &[b"<message type=\"user\"><broken <message type=\"user\">ok</message>"],
    );

    assert!(events
        .iter()
        .any(|event| matches!(event, StructuredInputReaderEvent::ParseError(_))));
    assert!(events.contains(&parsed("ok")));
}

#[test]
fn malformed_fragment_and_partial_following_valid_fragment_are_recovered_across_reads() {
    let events = read_all(
        &mut streaming(),
        &[
            b"<message type=\"user\"><broken <mess",
            b"age type=\"user\">ok</message>",
        ],
    );

    assert!(events
        .iter()
        .any(|event| matches!(event, StructuredInputReaderEvent::ParseError(_))));
    assert!(events.contains(&parsed("ok")));
}

#[test]
fn valid_utf8_split_across_reads_is_buffered_until_complete() {
    let events = read_all(
        &mut streaming(),
        &[b"<message type=\"user\">caf", b"\xC3", b"\xA9</message>"],
    );

    assert_eq!(events, vec![parsed("café"), StructuredInputReaderEvent::Eof]);
}

#[test]
fn invalid_utf8_still_reports_read_error() {
    let mut reader = streaming();
    let events = read_all(&mut reader, &[b"<message type=\"user\">", b"\xFF"]);

    assert_eq!(events.len(), 1);
    let StructuredInputReaderEvent::ReadError(message) = &events[0] else {
        panic!("expected read error, got {events:?}");
    };
    assert_eq!(
        message,
        "Structured input is not valid UTF-8: invalid utf-8 sequence of 1 bytes from index 0"
    );
    assert_eq!(reader.step(ReaderInput::Bytes(b"<".to_vec())), Vec::new());
}

#[test]
fn an_unfinished_character_at_the_end_is_reported() {
    let events = read_all(&mut streaming(), &[b"\xC3"]);

    assert_eq!(
        events,
        vec![StructuredInputReaderEvent::ReadError(
            "Structured input is not valid UTF-8: incomplete utf-8 byte sequence from index 0"
                .to_string()
        )]
    );
}

#[test]
fn an_unfinished_element_at_the_end_is_reported() {
    let events = read_all(&mut streaming(), &[b"<message type=\"user\">half"]);

    assert_eq!(
        events,
        vec![
            StructuredInputReaderEvent::ParseError("incomplete XML stdin fragment".to_string()),
            StructuredInputReaderEvent::Eof,
        ]
    );
}

#[test]
fn input_that_is_there_at_the_start_comes_before_the_drain_ends() {
    let mut reader = XmlInputReader::new();
    let _ = reader.step(ReaderInput::Flags(0));
    let _ = reader.step(ReaderInput::FlagsSet);
    assert_eq!(
        reader.step(ReaderInput::Bytes(
            b"<message type=\"user\">first</message>".to_vec()
        )),
        vec![parsed("first")]
    );
    assert_eq!(
        reader.step(ReaderInput::Bytes(Vec::new())),
        vec![StructuredInputReaderEvent::Eof]
    );
    assert_eq!(reader.action(), ReaderAction::Stop);
}

#[test]
fn flags_that_cannot_be_set_end_the_reader() {
    for setup in 0..2 {
        let mut reader = XmlInputReader::new();
        if setup == 1 {
            let _ = reader.step(ReaderInput::Flags(0));
        }
        assert_eq!(
            reader.step(ReaderInput::FlagsFailed {
                message: "bad fd".to_string()
            }),
            vec![StructuredInputReaderEvent::ReadError(
                "Failed to prepare structured input reader: bad fd".to_string()
            )]
        );
        assert_eq!(reader.action(), ReaderAction::Stop);
    }
}

#[test]
fn a_failing_read_ends_the_reader() {
    let mut reader = streaming();
    assert_eq!(
        reader.step(ReaderInput::ReadFailed {
            would_block: true,
            message: "would block".to_string()
        }),
        vec![StructuredInputReaderEvent::ReadError(
            "Failed to read structured input: would block".to_string()
        )]
    );
    assert_eq!(reader.action(), ReaderAction::Stop);
}

#[test]
fn negative_descriptors_are_refused() {
    assert_eq!(check_xml_input_fd(0), Ok(()));
    assert_eq!(
        check_xml_input_fd(-3),
        Err("invalid --xml-input-fd value `-3`".to_string())
    );
}

fn refused(message: &str) -> StructuredInputReaderEvent {
    StructuredInputReaderEvent::ParseError(message.to_string())
}

#[test]
fn a_valid_element_behind_a_refused_one_is_reported() {
    let mut reader = streaming();
    let (events, outcome) = reader.forward_utf8_bytes(
        b"<message type=\"assistant\">no</message><message type=\"user\">ok</message>".to_vec(),
    );
    assert_eq!(outcome, Ok(()));
    assert_eq!(
        events,
        vec![
            refused("unsupported message type `assistant`"),
            parsed("ok")
        ]
    );
    assert_eq!(reader.pending_utf8_bytes, Vec::<u8>::new());
    assert_eq!(reader.parser.buffer, "");
}

#[test]
fn elements_around_failures_are_reported_in_order() {
    let events = read_all(
        &mut streaming(),
        &[b"<message type='user'>one</message>\
            <system_prompt>late</system_prompt>\
            <message type='user' queue='Never'>no</message>\
            <message type='user'>two</message> noise \
            <message type='user'>three</message><message type='user'>fo"],
    );
    assert_eq!(
        events,
        vec![
            parsed("one"),
            refused("system_prompt must appear before the first message"),
            refused("unknown queue mode `Never`"),
            parsed("two"),
            refused("expected system_prompt or message XML fragment"),
            parsed("three"),
            refused("incomplete XML stdin fragment"),
            StructuredInputReaderEvent::Eof,
        ]
    );
}

#[test]
fn well_formed_input_is_reported_in_full() {
    let events = read_all(
        &mut streaming(),
        &[
            b"<system_prompt>be terse</system_prompt><message type='user'>a<!",
            b"-- c --></message>",
        ],
    );
    assert_eq!(
        events,
        vec![
            StructuredInputReaderEvent::Parsed(ParsedXmlInput::SystemPrompt(
                "be terse".to_string()
            )),
            parsed("a"),
            StructuredInputReaderEvent::Eof,
        ]
    );
}
