use turn_start_bridge::message::{
    next_root_fragment_end, parse_prefixed_message, NextInput, ParsedMessage, ParsedXmlInput, XmlInputParser,
};
use turn_start_bridge::queue_mode::QueueMode;

#[test]
fn parses_canonical_queue_mode_prefix_and_strips_it() {
    assert_eq!(
        parse_prefixed_message("CODEX_QUEUE_MODE=AfterToolCall summarize the diff"),
        ParsedMessage {
            queue_mode: QueueMode::AfterToolCall,
            text: "summarize the diff".to_string(),
        }
    );
}

#[test]
fn falls_back_to_default_for_unknown_prefix_mode() {
    assert_eq!(
        parse_prefixed_message("CODEX_QUEUE_MODE=Later summarize the diff"),
        ParsedMessage {
            queue_mode: QueueMode::Default,
            text: "summarize the diff".to_string(),
        }
    );
}

#[test]
fn xml_parser_reads_system_prompt_before_user_message() {
    let mut parser = XmlInputParser::default();

    assert_eq!(
        parser.push(
            "<system_prompt>be terse</system_prompt>\
             <message type=\"user\" queue=\"AfterToolCall\">summarize &amp; test</message>"
        ),
        Ok(vec![
            ParsedXmlInput::SystemPrompt("be terse".to_string()),
            ParsedXmlInput::Message(ParsedMessage {
                queue_mode: QueueMode::AfterToolCall,
                text: "summarize & test".to_string(),
            }),
        ])
    );
}

#[test]
fn xml_parser_rejects_system_prompt_after_message() {
    let mut parser = XmlInputParser::default();

    let err = parser
        .push(
            "<message type=\"user\">hello</message>\
             <system_prompt>late</system_prompt>",
        )
        .expect_err("late system prompt should fail");

    assert_eq!(
        err.to_string(),
        "system_prompt must appear before the first message"
    );
}

#[test]
fn xml_parser_rejects_unsupported_message_type() {
    let mut parser = XmlInputParser::default();

    let err = parser
        .push("<message type=\"assistant\">hello</message>")
        .expect_err("assistant messages are not supported yet");

    assert_eq!(err.to_string(), "unsupported message type `assistant`");
}

#[test]
fn xml_parser_reports_incomplete_fragment_at_eof() {
    let mut parser = XmlInputParser::default();
    assert_eq!(parser.push("<message type=\"user\">hello"), Ok(Vec::new()));

    let err = parser.finish().expect_err("unfinished message should fail");

    assert_eq!(err.to_string(), "incomplete XML stdin fragment");
}

#[test]
fn xml_parser_decodes_cdata_without_treating_inner_text_as_framing() {
    let mut parser = XmlInputParser::default();

    assert_eq!(
        parser
            .push("<message type=\"user\"><![CDATA[look at </message> literally]]></message>"),
        Ok(vec![ParsedXmlInput::Message(ParsedMessage {
            queue_mode: QueueMode::Default,
            text: "look at </message> literally".to_string(),
        })])
    );
}

#[test]
fn xml_parser_preserves_nested_inner_xml_markup() {
    let mut parser = XmlInputParser::default();

    assert_eq!(
        parser.push(
            "<message type=\"user\"><c2c event=\"message\" from=\"peer\" alias=\"peer\">hello</c2c></message>"
        ),
        Ok(vec![ParsedXmlInput::Message(ParsedMessage {
            queue_mode: QueueMode::Default,
            text: "<c2c event=\"message\" from=\"peer\" alias=\"peer\">hello</c2c>"
                .to_string(),
        })])
    );
}

#[test]
fn xml_parser_preserves_nested_inner_xml_with_nested_message_nodes() {
    let mut parser = XmlInputParser::default();

    assert_eq!(
        parser.push(
            "<message type=\"user\"><outer><message>nested literal</message></outer></message>"
        ),
        Ok(vec![ParsedXmlInput::Message(ParsedMessage {
            queue_mode: QueueMode::Default,
            text: "<outer><message>nested literal</message></outer>".to_string(),
        })])
    );
}

#[test]
fn xml_parser_accepts_non_ascii_plain_text_message() {
    let mut parser = XmlInputParser::default();

    assert_eq!(
        parser.push("<message type=\"user\">café</message>"),
        Ok(vec![ParsedXmlInput::Message(ParsedMessage {
            queue_mode: QueueMode::Default,
            text: "café".to_string(),
        })])
    );
}

#[test]
fn xml_parser_waits_for_partial_root_tag_name() {
    let mut parser = XmlInputParser::default();

    assert_eq!(parser.push("<mess"), Ok(Vec::new()));
    assert_eq!(
        parser.push("age type=\"user\">hello</message>"),
        Ok(vec![ParsedXmlInput::Message(ParsedMessage {
            queue_mode: QueueMode::Default,
            text: "hello".to_string(),
        })])
    );
}

#[test]
fn xml_parser_waits_for_partial_attribute_value() {
    let mut parser = XmlInputParser::default();

    assert_eq!(
        parser.push("<message type=\"user\" queue=\"After"),
        Ok(Vec::new())
    );
    assert_eq!(
        parser.push("ToolCall\">hello</message>"),
        Ok(vec![ParsedXmlInput::Message(ParsedMessage {
            queue_mode: QueueMode::AfterToolCall,
            text: "hello".to_string(),
        })])
    );
}

#[test]
fn xml_parser_waits_for_partial_nested_inner_xml() {
    let mut parser = XmlInputParser::default();

    assert_eq!(
        parser.push("<message type=\"user\"><outer><inner"),
        Ok(Vec::new())
    );
    assert_eq!(
        parser.push(">hello</inner></outer></message>"),
        Ok(vec![ParsedXmlInput::Message(ParsedMessage {
            queue_mode: QueueMode::Default,
            text: "<outer><inner>hello</inner></outer>".to_string(),
        })])
    );
}

#[test]
fn discard_malformed_prefix_keeps_following_valid_fragment() {
    let mut parser = XmlInputParser::default();

    let err = parser
        .push("<message type=\"user\"><broken <message type=\"user\">ok</message>")
        .expect_err("malformed prefix should fail");
    assert!(err.to_string().contains("failed to parse XML input"));
    assert!(parser.discard_malformed_prefix());
    assert_eq!(
        parser.push(""),
        Ok(vec![ParsedXmlInput::Message(ParsedMessage {
            queue_mode: QueueMode::Default,
            text: "ok".to_string(),
        })])
    );
}

#[test]
fn discard_malformed_prefix_keeps_partial_following_valid_fragment() {
    let mut parser = XmlInputParser {
        buffer: "<message type=\"user\"><broken <mess".to_string(),
        seen_message: false,
    };

    assert!(parser.discard_malformed_prefix());
    assert_eq!(
        parser.push("age type=\"user\">ok</message>"),
        Ok(vec![ParsedXmlInput::Message(ParsedMessage {
            queue_mode: QueueMode::Default,
            text: "ok".to_string(),
        })])
    );
}

fn push_error(input: &str) -> String {
    match XmlInputParser::default().push(input) {
        Ok(parsed) => panic!("unexpected input {parsed:?}"),
        Err(error) => error.to_string(),
    }
}

#[test]
fn xml_parser_failures_are_told_apart() {
    assert_eq!(
        push_error("<other>x</other>"),
        "expected system_prompt or message XML fragment"
    );
    assert_eq!(
        push_error("<messages>x</messages>"),
        "expected system_prompt or message XML fragment"
    );
    assert_eq!(
        push_error("<message/>"),
        "failed to parse message: missing closing tag"
    );
    assert_eq!(
        push_error("<message x=\"</message>\"/>"),
        "failed to parse message: missing closing tag"
    );
    assert_eq!(
        push_error("<message>x</message>"),
        "failed to parse message: missing type attribute"
    );
    assert_eq!(
        push_error("<message type=\"user\" queue=\"Later\">x</message>"),
        "unknown queue mode `Later`"
    );
    assert_eq!(
        push_error("<message type=\"user\"></message>"),
        "failed to parse message: missing field `$text`"
    );
    assert_eq!(
        push_error("<system_prompt>a<b/>c</system_prompt>"),
        "failed to parse system_prompt: duplicate field `$text`"
    );
}

#[test]
fn attribute_values_are_unescaped() {
    assert_eq!(
        push_error("<message type=\"a&amp;b\">x</message>"),
        "unsupported message type `a&b`"
    );
}

#[test]
fn white_space_between_elements_is_skipped() {
    let mut parser = XmlInputParser::default();
    assert_eq!(parser.push(" \u{a0}\n"), Ok(Vec::new()));
    assert!(parser.finish().is_ok());
    assert_eq!(
        parser.push("<message type=\"user\">x</message> \u{2003}"),
        Ok(vec![ParsedXmlInput::Message(ParsedMessage {
            queue_mode: QueueMode::Default,
            text: "x".to_string(),
        })])
    );
    assert!(parser.finish().is_ok());
}

#[test]
fn input_can_be_cut_into_pieces() {
    let input = " <system_prompt>be \u{e9}terse<b/></system_prompt>\n\
        <message type=\"user\" queue=\"AfterAnyItem\"><c2c a='>'>x &amp; y</c2c></message>\
        <message type='user'><![CDATA[</message>]]> &lt;<!-- </message> --></message>\
        <message type='user'>a<?pi x?>&#65;<!-- b --><!DOCTYPE c [<!ENTITY d 'e'>]></message>\
        <message type='user'><message type='user'>inner</message ></message>\
        <message type=\"user\">last</message> ";
    let mut whole = XmlInputParser::default();
    let expected = whole.push(input).expect("well-formed input");
    assert_eq!(expected.len(), 6);

    for (at, _) in input.char_indices() {
        let mut parser = XmlInputParser::default();
        let mut parsed = parser.push(&input[..at]).expect("start");
        parsed.extend(parser.push(&input[at..]).expect("end"));
        assert_eq!(parsed, expected, "cut at {at}");
        assert_eq!(parser.finish(), Ok(()));
    }

    let mut parser = XmlInputParser::default();
    let mut parsed = Vec::new();
    for character in input.chars() {
        parsed.extend(parser.push(&character.to_string()).expect("character"));
    }
    assert_eq!(parsed, expected);
    assert_eq!(parser.buffer, whole.buffer);
    assert_eq!(parser.seen_message, whole.seen_message);
}

#[test]
fn a_lone_bang_waits_for_more() {
    let mut parser = XmlInputParser::default();
    assert_eq!(parser.push("<message type='user'>a<!"), Ok(Vec::new()));
    assert!(parser.finish().is_err());
    assert_eq!(
        parser.push("x></message>").map_err(|error| error.to_string()),
        Err(
            "failed to parse XML input: syntax error: unknown or missed symbol in markup"
                .to_string()
        )
    );
}

#[test]
fn what_follows_an_element_does_not_matter() {
    let element = "<message type='user'><message>in</message><![CDATA[</message>]]></message>";
    for more in ["", " ", "x", "<", "<!", "<!x", "</message>", "&", "<message type='user'>"] {
        let mut parser = XmlInputParser::default();
        parser.buffer = format!("{element}{more}");
        assert_eq!(
            parser.next_input(),
            NextInput::Parsed(ParsedXmlInput::Message(ParsedMessage {
                queue_mode: QueueMode::Default,
                text: "<message>in</message><![CDATA[</message>]]>".to_string(),
            })),
            "{more}"
        );
        assert_eq!(parser.buffer, more);
    }
}

#[test]
fn refused_elements_leave_the_buffer_and_malformed_text_stays() {
    let mut parser = XmlInputParser::default();
    parser.buffer = "<message>no type</message> text".to_string();
    assert!(matches!(parser.next_input(), NextInput::Refused(_)));
    assert_eq!(parser.buffer, " text");
    assert!(matches!(parser.next_input(), NextInput::Malformed(_)));
    assert_eq!(parser.buffer, "text");
    parser.buffer = "<mess".to_string();
    assert_eq!(parser.next_input(), NextInput::Incomplete);
    assert_eq!(parser.buffer, "<mess");
}

#[test]
fn inner_markup_keeps_its_references() {
    let mut parser = XmlInputParser::default();
    assert_eq!(
        parser.push("<message type=\"user\">a &amp; <b c='1'>&lt;</b></message>"),
        Ok(vec![ParsedXmlInput::Message(ParsedMessage {
            queue_mode: QueueMode::Default,
            text: "a &amp; <b c='1'>&lt;</b>".to_string(),
        })])
    );
}

#[test]
fn the_end_of_an_element_does_not_depend_on_what_follows() {
    for element in [
        "<message/>",
        "<message type='user'>x</message>",
        "<message a='>'><message>in</message><message/><b></b></message>",
        "<system_prompt><![CDATA[</system_prompt>]]><!-- </system_prompt> --></system_prompt >",
    ] {
        for more in ["", " ", "x", "<", "<!", "<!x", "</message>", "&;", "\u{e9}", element] {
            let buffer = format!("{element}{more}");
            assert_eq!(
                next_root_fragment_end(&buffer),
                Ok(Some(element.len())),
                "{buffer}"
            );
        }
    }
}

#[test]
fn text_without_a_whole_known_element_has_no_end() {
    for incomplete in ["", "<", "<message", "<message>", "<message><message></message>", "<message>&"]
    {
        assert_eq!(next_root_fragment_end(incomplete), Ok(None), "{incomplete}");
    }
    for malformed in ["x", "<other>", "<other/>", "<!-- c -->", "</message>"] {
        for more in ["", " ", "</message>"] {
            assert!(
                next_root_fragment_end(&format!("{malformed}{more}")).is_err(),
                "{malformed}{more}"
            );
        }
    }
    assert_eq!(
        next_root_fragment_end("<other>").map_err(|error| error.to_string()),
        Err("expected system_prompt or message XML fragment".to_string())
    );
}
