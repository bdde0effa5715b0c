//! Compares the text that the parser reads from an element with what a typed
//! read of the same element gives.

use std::fmt;

use serde::de::{Deserialize, Deserializer, Error, IgnoredAny, MapAccess, Visitor};
use turn_start_bridge::message::{ParsedMessage, ParsedXmlInput, XmlInputParser};
use turn_start_bridge::queue_mode::QueueMode;

enum Field {
    Text,
    Other,
}

struct FieldVisitor;

impl<'de> Visitor<'de> for FieldVisitor {
    type Value = Field;

    fn expecting(&self, formatter: &mut fmt::Formatter) -> fmt::Result {
        formatter.write_str("field identifier")
    }

    fn visit_str<E: Error>(self, name: &str) -> Result<Field, E> {
        Ok(if name == "$text" {
            Field::Text
        } else {
            Field::Other
        })
    }
}

impl<'de> Deserialize<'de> for Field {
    fn deserialize<D: Deserializer<'de>>(deserializer: D) -> Result<Self, D::Error> {
        deserializer.deserialize_identifier(FieldVisitor)
    }
}

/// An element with one text field.
struct TextElement {
    text: String,
}

struct TextElementVisitor;

impl<'de> Visitor<'de> for TextElementVisitor {
    type Value = TextElement;

    fn expecting(&self, formatter: &mut fmt::Formatter) -> fmt::Result {
        formatter.write_str("struct TextElement")
    }

    fn visit_map<A: MapAccess<'de>>(self, mut map: A) -> Result<TextElement, A::Error> {
        let mut text: Option<String> = None;
        while let Some(field) = map.next_key()? {
            match field {
                Field::Text => {
                    if text.is_some() {
                        return Err(A::Error::duplicate_field("$text"));
                    }
                    text = Some(map.next_value()?);
                }
                Field::Other => {
                    let _: IgnoredAny = map.next_value()?;
                }
            }
        }
        match text {
            Some(text) => Ok(TextElement { text }),
            None => Err(A::Error::missing_field("$text")),
        }
    }
}

impl<'de> Deserialize<'de> for TextElement {
    fn deserialize<D: Deserializer<'de>>(deserializer: D) -> Result<Self, D::Error> {
        deserializer.deserialize_struct("element", &["$text"], TextElementVisitor)
    }
}

fn typed_text(fragment: &str) -> Result<String, String> {
    quick_xml::de::from_str::<TextElement>(fragment)
        .map(|element| element.text)
        .map_err(|error| error.to_string())
}

const CONTENTS: [&str; 76] = [
    "",
    "   ",
    "text",
    " text ",
    "\n text \n",
    "a<b/>c",
    "a<b>x</b>c",
    "<b/>c",
    "a<b/>",
    "<b/>",
    "<b>x</b>",
    " <b/> ",
    "a<b/> ",
    " <b/>a",
    "a <b/> <c/> ",
    "<b/> <c/>",
    "a<!-- c -->b",
    "<!-- c -->",
    "a<b/><!-- c -->",
    "a<b/><!-- c -->d",
    "a<?pi x?>b",
    "<?pi x?>",
    "<![CDATA[x]]>",
    "<![CDATA[]]>",
    "<![CDATA[ ]]>",
    "a<![CDATA[x]]>b",
    "a<b/><![CDATA[x]]>",
    "a<b/><![CDATA[]]>",
    "a<b/><![CDATA[ ]]>",
    "<![CDATA[</message>]]>",
    "&lt;tag&gt;",
    "&#65;",
    "&#x20;",
    " &#x20; ",
    "a<b/>&#x20;",
    "&unknown;",
    "a<b/>&unknown;",
    "&unknown;<b/>",
    "a<b>&unknown;</b>",
    "&#xFFFFFFFF;",
    "a<b><c/>d</b>e",
    "a<b><c>d</c></b>",
    "<b><c>d</c></b>e<f/>",
    "\u{e9}<b/>",
    "\u{e9}<b/>\u{1f600}",
    "a\u{a0}",
    "\u{a0}<b/>a",
    "<b a='1'>x</b>tail",
    "<b a='&unknown;'>x</b>tail",
    "<system_prompt>inner</system_prompt>",
    "a<:b/>c",
    "a<\u{e9}/>c",
    "a<!DOCTYPE x>b",
    "<!DOCTYPE x>",
    "a<!DOCTYPE x>",
    "<$text/>",
    "<$text>x</$text>",
    "x<$text>y</$text>",
    "<x:$text>y</x:$text>",
    "<$text><b/></$text>",
    "<$text>x<b/></$text>",
    "<$text>&unknown;</$text>",
    "x<$text>&unknown;</$text>",
    "<$text>x</$text>y",
    "<$text a='1'> x </$text>",
    "<b><$text>x</$text></b>",
    "a<b><c/>&unknown;</b>",
    "a<b>x<c/>&unknown;</b>",
    "a<b/>c<d>&unknown;</d>",
    "a<d>&unknown;</d><b/>c",
    "<d>&unknown;</d>&missing;",
    "<b xmlns:xml='foo'/>a",
    "a<b xmlns:xml='foo'/>c",
    "a<b/>c<d xmlns:xml='foo'/>",
    "a<b>x</b><c>y</c>",
    "<b:$text:c>x</b:$text:c>",
];

#[test]
fn system_prompts_hold_their_text() {
    for content in CONTENTS {
        let fragment = format!("<system_prompt>{content}</system_prompt>");
        let expected = match typed_text(&fragment) {
            Ok(text) => Ok(vec![ParsedXmlInput::SystemPrompt(text)]),
            Err(message) => Err(format!("failed to parse system_prompt: {message}")),
        };
        let parsed = XmlInputParser::default()
            .push(&fragment)
            .map_err(|error| error.to_string());
        assert_eq!(parsed, expected, "{fragment}");
    }
}

/// Whether some content is handed on as it stands: it holds a tag.
fn holds_tag(content: &str) -> bool {
    let mut rest = content;
    loop {
        let Some(at) = rest.find('<') else {
            return false;
        };
        rest = &rest[at + 1..];
        if let Some(data) = rest.strip_prefix("![CDATA[") {
            match data.find("]]>") {
                Some(end) => rest = &data[end + 3..],
                None => return false,
            }
        } else if rest.starts_with(|c: char| c.is_ascii_alphabetic() || c == '/' || c == '_') {
            return true;
        }
    }
}

#[test]
fn messages_hold_their_text() {
    for content in CONTENTS {
        let fragment = format!("<message type=\"user\" extra='&lt;'>{content}</message>");
        let message = |text: String| {
            vec![ParsedXmlInput::Message(ParsedMessage {
                queue_mode: QueueMode::Default,
                text,
            })]
        };
        let expected = if holds_tag(content) {
            Ok(message(content.to_string()))
        } else {
            match typed_text(&fragment) {
                Ok(text) => Ok(message(text)),
                Err(reason) => Err(format!("failed to parse message: {reason}")),
            }
        };
        let parsed = XmlInputParser::default()
            .push(&fragment)
            .map_err(|error| error.to_string());
        assert_eq!(parsed, expected, "{fragment}");
    }
}

#[test]
fn start_tags_of_messages_are_read() {
    for attributes in [
        " a='1'",
        " a='&#38;'",
        " xmlns='foo'",
        " xmlns:a='b'",
        " xmlns:xml='foo'",
        " xmlns:xmlns='foo'",
        " $text='x'",
        " a:b='x'",
    ] {
        for content in ["", " ", "x", "x<!-- c -->y", "&unknown;"] {
            let fragment = format!("<message type='user'{attributes}>{content}</message>");
            let expected = match typed_text(&fragment) {
                Ok(text) => Ok(vec![ParsedXmlInput::Message(ParsedMessage {
                    queue_mode: QueueMode::Default,
                    text,
                })]),
                Err(reason) => Err(format!("failed to parse message: {reason}")),
            };
            let parsed = XmlInputParser::default()
                .push(&fragment)
                .map_err(|error| error.to_string());
            assert_eq!(parsed, expected, "{fragment}");
        }
    }
}
