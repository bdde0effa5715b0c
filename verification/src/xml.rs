//! The XML reader of `quick_xml`, as plain values.

use std::collections::BTreeMap;

use quick_xml::errors::{Error, IllFormedError};
use quick_xml::events::attributes::{Attribute, Attributes};
use quick_xml::events::Event;
use serde::de::IgnoredAny;
use vstd::prelude::*;
use vstd::utf8::*;

use crate::text;

verus! {

/// Which failure a reader reports, as far as it matters here.
#[derive(Clone, Copy, Debug, PartialEq, Eq, Structural)]
pub enum XmlErrorKind {
    /// The input ends inside a tag, a comment or another piece of markup.
    Syntax,
    /// An element is not closed.
    MissingEndTag,
    /// The input ends inside a reference.
    UnclosedReference,
    /// Any other failure.
    Other,
}

/// What a reader finds next.
#[derive(Clone, Debug, PartialEq, Eq)]
pub enum XmlEvent {
    /// An opening tag, without its angle brackets.
    Start(String),
    /// A self-closing tag, without its angle brackets and slash.
    Empty(String),
    /// The name of a closing tag.
    End(String),
    /// A document type declaration.
    DocType,
    /// Text, a reference, character data, a comment or a processing instruction.
    Other,
    /// The end of the input.
    Eof,
    /// A failure and its description.
    Failed { kind: XmlErrorKind, message: String },
}

/// What a reader finds next, as mathematical text.
#[verifier::ext_equal]
pub enum XmlEventView {
    Start(Seq<char>),
    Empty(Seq<char>),
    End(Seq<char>),
    DocType,
    Other,
    Eof,
    Failed { kind: XmlErrorKind, message: Seq<char> },
}

impl View for XmlEvent {
    type V = XmlEventView;

    open spec fn view(&self) -> XmlEventView {
        match *self {
            XmlEvent::Start(content) => XmlEventView::Start(content@),
            XmlEvent::Empty(content) => XmlEventView::Empty(content@),
            XmlEvent::End(name) => XmlEventView::End(name@),
            XmlEvent::DocType => XmlEventView::DocType,
            XmlEvent::Other => XmlEventView::Other,
            XmlEvent::Eof => XmlEventView::Eof,
            XmlEvent::Failed { kind, message } => XmlEventView::Failed { kind, message: message@ },
        }
    }
}

impl XmlEventView {
    /// Whether nothing is read behind this event.
    pub open spec fn is_last(self) -> bool {
        self is Eof || self is Failed
    }

    /// Whether this event is an opening, a self-closing or a closing tag.
    pub open spec fn is_tag(self) -> bool {
        self is Start || self is Empty || self is End
    }
}

/// An event and the number of bytes that were read up to its end.
#[verifier::ext_equal]
pub struct XmlStepView {
    pub event: XmlEventView,
    pub position: nat,
}

/// The reader of `quick_xml` over a byte slice.
#[verifier::external_type_specification]
#[verifier::external_body]
#[verifier::reject_recursive_types(R)]
pub struct ExReader<R>(quick_xml::Reader<R>);

/// The events that `quick_xml` finds in a text, up to the first end of input or
/// failure.
pub uninterp spec fn xml_steps(text: Seq<char>) -> Seq<XmlStepView>;

/// The events that a reader has still to hand out, up to the first end of input
/// or failure.
pub uninterp spec fn pending_steps(reader: quick_xml::Reader<&[u8]>) -> Seq<XmlStepView>;

/// The number of bytes that a reader reports as read.
pub uninterp spec fn read_position(reader: quick_xml::Reader<&[u8]>) -> nat;

/// Whether a text starts with a byte order mark.
pub open spec fn marked(text: Seq<char>) -> bool {
    text.len() > 0 && text[0] == '\u{feff}'
}

/// What holds of the events of every text: the last one, and no other, is the
/// end of the input or a failure; a text with a tag holds a closing angle
/// bracket; and every event but the last ends behind the one before it, in a
/// text without a byte order mark between two characters.
pub open spec fn well_read(text: Seq<char>, steps: Seq<XmlStepView>) -> bool {
    &&& steps.len() > 0
    &&& forall|i: int|
        0 <= i < steps.len() ==> ((#[trigger] steps[i]).event.is_last() <==> i == steps.len() - 1)
    &&& forall|i: int|
        0 <= i < steps.len() && (#[trigger] steps[i]).event.is_tag() ==> text.contains('>')
    &&& forall|i: int|
        0 <= i < steps.len() - 1 ==> 0 < (#[trigger] steps[i]).position <= encode_utf8(text).len()
    &&& forall|i: int, j: int|
        0 <= i < j < steps.len() - 1 ==> (#[trigger] steps[i]).position < (
        #[trigger] steps[j]).position
    &&& !marked(text) ==> forall|i: int|
        0 <= i < steps.len() - 1 ==> is_char_boundary(
            encode_utf8(text),
            (#[trigger] steps[i]).position as int,
        )
}

/// Whether the events of two texts are the same up to a tag of the first that
/// ends at some position.
pub open spec fn same_up_to_tag(
    steps: Seq<XmlStepView>,
    others: Seq<XmlStepView>,
    end: nat,
) -> bool {
    forall|i: int|
        0 <= i < steps.len() && (#[trigger] steps[i]).event.is_tag() && steps[i].position == end
            ==> i < others.len() && others.take(i + 1) == steps.take(i + 1)
}

/// Whether a text ends with the first two characters of a comment or of another
/// declaration.
pub open spec fn ends_in_bang(text: Seq<char>) -> bool {
    text.len() >= 2 && text[text.len() - 2] == '<' && text[text.len() - 1] == '!'
}

/// Whether a reader that stands at some position has looked at a whole text. It
/// looks at an exclamation mark behind an angle bracket without moving.
pub open spec fn read_out(text: Seq<char>, position: nat) -> bool {
    ||| position >= encode_utf8(text).len()
    ||| ends_in_bang(text) && position + 1 == encode_utf8(text).len()
}

/// Whether a reader found an event because a text ended.
pub open spec fn ran_out(text: Seq<char>, step: XmlStepView) -> bool {
    match step.event {
        XmlEventView::Eof => true,
        XmlEventView::Failed { kind, .. } => kind != XmlErrorKind::Other && read_out(
            text,
            step.position,
        ),
        _ => false,
    }
}

/// Whether the events of a text are those of a longer one as far as the text
/// goes: up to an event that is there because the text ended. Character data
/// before the end may be the start of longer character data.
pub open spec fn same_while_it_lasts(
    text: Seq<char>,
    steps: Seq<XmlStepView>,
    longer: Seq<XmlStepView>,
) -> bool {
    forall|i: int|
        0 <= i < steps.len() ==> {
            ||| ran_out(text, #[trigger] steps[i])
            ||| i < longer.len() && longer.take(i + 1) == steps.take(i + 1)
            ||| {
                &&& i < longer.len() && longer[i].event is Other
                &&& steps[i].event is Other
                &&& i + 2 == steps.len() && steps[i + 1].event is Eof
            }
        }
}

/// `quick_xml::Reader::from_str`: a reader that hands out the events of `text`,
/// with the default configuration. It reads from front to back: what it finds up
/// to a tag does not depend on what stands behind that tag, and it finds in the
/// start of a text what it finds in the whole, as far as that start goes. A byte
/// order mark does not count for positions, so of a text with one nothing is said
/// here.
#[verifier::external_body]
pub(crate) fn xml_reader(text: &str) -> (reader: quick_xml::Reader<&[u8]>)
    ensures
        pending_steps(reader) == xml_steps(text@),
        well_read(text@, pending_steps(reader)),
        !marked(text@) ==> {
            &&& forall|end: nat, more: Seq<char>|
                same_up_to_tag(
                    pending_steps(reader),
                    #[trigger] xml_steps(text::chars_between(text@, 0, end as int) + more),
                    end,
                )
            &&& forall|more: Seq<char>|
                same_while_it_lasts(
                    text@,
                    pending_steps(reader),
                    #[trigger] xml_steps(text@ + more),
                )
        },
{
    quick_xml::Reader::from_str(text)
}

/// `quick_xml::Reader::read_event`: hands out the next event. A reader is not
/// asked again once it has reported the end of the input or a failure.
#[verifier::external_body]
pub(crate) fn read_event(reader: &mut quick_xml::Reader<&[u8]>) -> (event: XmlEvent)
    requires
        pending_steps(*old(reader)).len() > 0,
    ensures
        event@ == pending_steps(*old(reader))[0].event,
        read_position(*final(reader)) == pending_steps(*old(reader))[0].position,
        pending_steps(*final(reader)) == pending_steps(*old(reader)).drop_first(),
{
    match reader.read_event() {
        Ok(Event::Start(tag)) => XmlEvent::Start(String::from_utf8_lossy(&tag).into_owned()),
        Ok(Event::Empty(tag)) => XmlEvent::Empty(String::from_utf8_lossy(&tag).into_owned()),
        Ok(Event::End(tag)) => XmlEvent::End(String::from_utf8_lossy(&tag).into_owned()),
        Ok(Event::DocType(_)) => XmlEvent::DocType,
        Ok(Event::Eof) => XmlEvent::Eof,
        Ok(_) => XmlEvent::Other,
        Err(error) => XmlEvent::Failed { message: error.to_string(), kind: match error {
            Error::Syntax(_) => XmlErrorKind::Syntax,
            Error::IllFormed(IllFormedError::MissingEndTag(_)) => XmlErrorKind::MissingEndTag,
            Error::IllFormed(IllFormedError::UnclosedReference) => XmlErrorKind::UnclosedReference,
            _ => XmlErrorKind::Other,
        } },
    }
}

/// `quick_xml::Reader::buffer_position`: the number of bytes read so far.
#[verifier::external_body]
pub(crate) fn buffer_position(reader: &quick_xml::Reader<&[u8]>) -> (position: u64)
    ensures
        position as nat == read_position(*reader),
{
    reader.buffer_position()
}

/// One attribute of a tag, or why it cannot be read.
#[derive(Clone, Debug, PartialEq, Eq)]
pub enum XmlAttribute {
    Valid { key: String, value: String },
    Invalid { message: String },
}

/// One attribute of a tag, as mathematical text.
#[verifier::ext_equal]
pub enum XmlAttributeView {
    Valid { key: Seq<char>, value: Seq<char> },
    Invalid { message: Seq<char> },
}

impl View for XmlAttribute {
    type V = XmlAttributeView;

    open spec fn view(&self) -> XmlAttributeView {
        match *self {
            XmlAttribute::Valid { key, value } => XmlAttributeView::Valid {
                key: key@,
                value: value@,
            },
            XmlAttribute::Invalid { message } => XmlAttributeView::Invalid { message: message@ },
        }
    }
}

/// The attributes of a tag.
pub open spec fn attribute_views(attributes: Seq<XmlAttribute>) -> Seq<XmlAttributeView> {
    attributes.map_values(|attribute: XmlAttribute| attribute@)
}

/// The attributes that `quick_xml` finds in a tag behind the first `name_len`
/// bytes, with their values as they stand.
pub uninterp spec fn xml_attributes(content: Seq<char>, name_len: nat) -> Seq<XmlAttributeView>;

/// `quick_xml::events::attributes::Attributes`: hands out the attributes of a
/// tag, whose name takes the first `name_len` bytes.
#[verifier::external_body]
pub(crate) fn tag_attributes(content: &str, name_len: usize) -> (attributes: Vec<XmlAttribute>)
    requires
        name_len <= encode_utf8(content@).len(),
    ensures
        attribute_views(attributes@) == xml_attributes(content@, name_len as nat),
{
    Attributes::new(content, name_len)
        .map(|found| match found {
            Ok(attribute) => XmlAttribute::Valid {
                key: String::from_utf8_lossy(attribute.key.as_ref()).into_owned(),
                value: String::from_utf8_lossy(&attribute.value).into_owned(),
            },
            Err(error) => XmlAttribute::Invalid { message: error.to_string() },
        })
        .collect()
}

/// A text, or why there is none.
pub open spec fn value_result(value: Result<String, String>) -> Result<Seq<char>, Seq<char>> {
    match value {
        Ok(value) => Ok(value@),
        Err(message) => Err(message@),
    }
}

/// The value of an attribute with its references resolved, or why one of them
/// cannot be.
pub uninterp spec fn unescaped_value(value: Seq<char>) -> Result<Seq<char>, Seq<char>>;

/// `quick_xml::events::attributes::Attribute::unescape_value`: resolves the
/// references to characters and to the predefined entities in the value of an
/// attribute. The name of the attribute does not matter.
#[verifier::external_body]
pub(crate) fn unescape_value(value: &str) -> (unescaped: Result<String, String>)
    ensures
        value_result(unescaped) == unescaped_value(value@),
{
    Attribute::from(("".as_bytes(), value.as_bytes()))
        .unescape_value()
        .map(|value| value.into_owned())
        .map_err(|error| error.to_string())
}

/// An attribute with the references in its value resolved.
pub open spec fn unescaped(attribute: XmlAttributeView) -> XmlAttributeView {
    match attribute {
        XmlAttributeView::Valid { key, value } => match unescaped_value(value) {
            Ok(value) => XmlAttributeView::Valid { key, value },
            Err(message) => XmlAttributeView::Invalid { message },
        },
        XmlAttributeView::Invalid { .. } => attribute,
    }
}

/// Resolves the references in the values of some attributes.
pub(crate) fn unescape_attributes(attributes: Vec<XmlAttribute>) -> (out: Vec<XmlAttribute>)
    ensures
        attribute_views(out@) == attribute_views(attributes@).map_values(
            |attribute: XmlAttributeView| unescaped(attribute),
        ),
{
    let mut out: Vec<XmlAttribute> = Vec::new();
    for attribute in iter: attributes
        invariant
            iter.seq() == attributes@,
            out@.len() == iter.index(),
            forall|i: int|
                0 <= i < out@.len() ==> (#[trigger] out@[i])@ == unescaped(attributes@[i]@),
    {
        out.push(
            match attribute {
                XmlAttribute::Valid { key, value } => match unescape_value(value.as_str()) {
                    Ok(value) => XmlAttribute::Valid { key, value },
                    Err(message) => XmlAttribute::Invalid { message },
                },
                XmlAttribute::Invalid { message } => XmlAttribute::Invalid { message },
            },
        );
    }
    assert(attribute_views(out@) =~= attribute_views(attributes@).map_values(
        |attribute: XmlAttributeView| unescaped(attribute),
    ));
    out
}

/// The outcome of reading a text from a document.
pub open spec fn text_result(result: Result<Option<String>, String>) -> Result<
    Option<Seq<char>>,
    Seq<char>,
> {
    match result {
        Ok(Some(text)) => Ok(Some(text@)),
        Ok(None) => Ok(None),
        Err(message) => Err(message@),
    }
}

/// The text that `quick_xml` finds in a field of the root element of a document,
/// nothing where there is no such field, or why the document cannot be read.
pub uninterp spec fn xml_text(document: Seq<char>, field: Seq<char>) -> Result<
    Option<Seq<char>>,
    Seq<char>,
>;

/// `quick_xml::de::from_str`: reads the fields of the root element and hands out
/// one of them, with its references resolved. The field `$text` is the text
/// directly in the element; it is there unless that is blank.
#[verifier::external_body]
pub(crate) fn read_xml_text(document: &str, field: &str) -> (text: Result<Option<String>, String>)
    ensures
        text_result(text) == xml_text(document@, field@),
{
    quick_xml::de::from_str::<BTreeMap<String, String>>(document)
        .map(|mut fields| fields.remove(field))
        .map_err(|error| error.to_string())
}

/// Why `quick_xml` cannot read a document whose fields are all skipped, where it
/// cannot.
pub uninterp spec fn xml_fault(document: Seq<char>) -> Option<Seq<char>>;

/// `quick_xml::de::from_str`: reads the names of the fields of the root element
/// and skips what they hold. What is stated is only which failure that gives.
#[verifier::external_body]
pub(crate) fn find_xml_fault(document: &str) -> (fault: Option<String>)
    ensures
        text::opt_text(fault) == xml_fault(document@),
{
    quick_xml::de::from_str::<BTreeMap<String, IgnoredAny>>(document)
        .err()
        .map(|error| error.to_string())
}

} // verus!
