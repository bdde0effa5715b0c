//! What input is read as: which message a line or an element stands for.

use vstd::prelude::*;
use vstd::utf8::*;

use crate::controller_model::MessageView;
use crate::message;
use crate::message::{
    MessageAttributesView, NextInputView, ParsedView, ParserView, RootScanView, ScanStepView,
    TextScanView, TextStepView, XmlInputError, XmlInputParser,
};
use crate::queue_mode;
use crate::queue_mode::QueueMode;
use crate::text;
use crate::text_laws;
use crate::xml;
use crate::xml::{XmlAttributeView, XmlErrorKind, XmlEventView, XmlStepView};

verus! {

/// An input that does not start with the prefix for a queue mode is a message
/// without a mode of its own, and the whole of it is the text.
pub proof fn plain_input_is_a_default_message(input: Seq<char>)
    requires
        !"CODEX_QUEUE_MODE="@.is_prefix_of(input),
    ensures
        message::prefixed_message(input).queue_mode == QueueMode::Default,
        message::prefixed_message(input).text == input,
{
}

/// A word behind the prefix, up to the first white space, names the mode, and
/// what comes behind the white space is the text. A word that names no mode
/// counts as the default one.
pub proof fn a_prefix_names_the_mode(word: Seq<char>, space: char, behind: Seq<char>)
    requires
        forall|i: int| 0 <= i < word.len() ==> !text::white_space(#[trigger] word[i]),
        text::white_space(space),
    ensures
        ({
            let spoken = message::prefixed_message(
                "CODEX_QUEUE_MODE="@ + word + seq![space] + behind,
            );
            let silent = message::prefixed_message("CODEX_QUEUE_MODE="@ + word);
            &&& spoken.text == text::trimmed_start(behind)
            &&& silent.text.len() == 0
            &&& spoken.queue_mode == silent.queue_mode
            &&& queue_mode::queue_mode_named(word) is None ==> spoken.queue_mode
                == QueueMode::Default
            &&& queue_mode::queue_mode_named(word) matches Some(mode) ==> spoken.queue_mode == mode
        }),
{
    let prefix = "CODEX_QUEUE_MODE="@;
    let input = prefix + word + seq![space] + behind;
    let bare = prefix + word;
    let n = prefix.len() as int;
    assert(prefix =~= input.subrange(0, n));
    assert(prefix =~= bare.subrange(0, n));
    let rest = input.skip(n);
    assert(rest =~= word + seq![space] + behind);
    assert(bare.skip(n) =~= word);
    text_laws::a_word_ends_at_white_space(rest);
    text_laws::a_word_ends_at_white_space(word);
    let length = text::leading_word(rest) as int;
    assert(length == word.len()) by {
        if length < word.len() {
            assert(rest[length] == word[length]);
        }
        if length > word.len() {
            assert(rest[word.len() as int] == space);
        }
    }
    let own = text::leading_word(word) as int;
    assert(own == word.len()) by {
        if own < word.len() {
            assert(text::white_space(word[own]));
        }
    }
    assert(rest.take(length) =~= word);
    assert(word.take(own) =~= word);
    assert(rest.skip(length + 1) =~= behind);
}

/// The word "immediate" behind the prefix, and only it or its other spelling,
/// asks for an immediate message.
pub proof fn only_a_named_mode_is_immediate(input: Seq<char>)
    ensures
        message::prefixed_message(input).queue_mode == QueueMode::Immediate ==> {
            let rest = input.skip("CODEX_QUEUE_MODE="@.len() as int);
            let word = rest.take(text::leading_word(rest) as int);
            &&& "CODEX_QUEUE_MODE="@.is_prefix_of(input)
            &&& word == "immediate"@ || word == "Immediate"@
        },
{
    let rest = input.skip("CODEX_QUEUE_MODE="@.len() as int);
    text_laws::each_mode_has_two_spellings(rest.take(text::leading_word(rest) as int));
}

/// Of the attributes of a message the type and the queue count, each by its last
/// value; others say nothing, and one that cannot be read is reported.
pub proof fn the_last_value_of_an_attribute_counts(
    attributes: Seq<XmlAttributeView>,
    key: Seq<char>,
    value: Seq<char>,
    failure: Seq<char>,
)
    requires
        message::message_attributes(attributes) is Ok,
    ensures
        ({
            let before = message::message_attributes(attributes)->Ok_0;
            let after = message::message_attributes(
                attributes.push(XmlAttributeView::Valid { key, value }),
            );
            let failed = message::message_attributes(
                attributes.push(XmlAttributeView::Invalid { message: failure }),
            );
            &&& after is Ok
            &&& after->Ok_0.message_type == if key == "type"@ {
                Some(value)
            } else {
                before.message_type
            }
            &&& after->Ok_0.queue == if key == "queue"@ {
                Some(value)
            } else {
                before.queue
            }
            &&& failed == Err::<MessageAttributesView, Seq<char>>(
                "failed to parse message attributes: "@ + failure,
            )
        }),
        message::message_attributes(Seq::empty()) == Ok::<MessageAttributesView, Seq<char>>(
            MessageAttributesView { message_type: None, queue: None },
        ),
{
    reveal_strlit("type");
    reveal_strlit("queue");
    assert("type"@.len() != "queue"@.len());
    let valid = attributes.push(XmlAttributeView::Valid { key, value });
    let invalid = attributes.push(XmlAttributeView::Invalid { message: failure });
    assert(valid.drop_last() =~= attributes);
    assert(invalid.drop_last() =~= attributes);
}

/// The content of a message stands between the first closing bracket and the
/// last closing tag, as it is. A message without a type is refused.
pub proof fn the_content_stands_between_the_tags(start: Seq<char>, inner: Seq<char>)
    requires
        !start.contains('>'),
    ensures
        ({
            let fragment = start + ">"@ + inner + "</message>"@;
            match message::start_tag_attributes(start + ">"@) {
                Ok(attributes) => match attributes.message_type {
                    Some(message_type) => {
                        &&& message::message_metadata(fragment) is Ok
                        &&& message::message_metadata(fragment)->Ok_0.message_type == message_type
                        &&& message::message_metadata(fragment)->Ok_0.queue == attributes.queue
                        &&& message::message_metadata(fragment)->Ok_0.raw_inner_xml == inner
                    },
                    None => message::message_metadata(fragment) is Err
                        && message::message_metadata(fragment)->Err_0
                        == "failed to parse message: missing type attribute"@,
                },
                Err(failure) => message::message_metadata(fragment) is Err
                    && message::message_metadata(fragment)->Err_0 == failure,
            }
        }),
{
    reveal_strlit(">");
    reveal_strlit("</message>");
    let bracket = ">"@;
    let close = "</message>"@;
    let fragment = start + bracket + inner + close;
    let s = start.len() as int;
    let c = s + 1 + inner.len();
    assert(fragment.subrange(s, s + bracket.len()) =~= bracket);
    text_laws::the_first_place_is_first(fragment, 0, bracket, s);
    let first = text::first_at(fragment, 0, bracket)->0;
    assert(first == s) by {
        if first < s {
            assert(fragment.subrange(first, first + bracket.len())[0] == fragment[first]);
            assert(start[first] == '>');
        }
    }
    assert(fragment.subrange(c, c + close.len()) =~= close);
    text_laws::the_last_place_is_last(fragment, fragment.len() as int, close, c);
    let last = text::last_at(fragment, fragment.len() as int, close)->0;
    assert(last == c);
    assert(fragment.take(s + 1) =~= start + bracket);
    assert(fragment.subrange(s + 1, c) =~= inner);
}

/// An element that is not a system prompt is a message of the user, or it is
/// refused: a message of another type is, and one that asks for an unknown
/// queue, each with what is wrong. A message that asks for no queue has no mode
/// of its own.
pub proof fn messages_are_taken_as_they_ask(
    seen: bool,
    fragment: Seq<char>,
    text: Seq<char>,
)
    requires
        !"<system_prompt>"@.is_prefix_of(fragment),
        message::message_metadata(fragment) is Ok,
    ensures
        ({
            let metadata = message::message_metadata(fragment)->Ok_0;
            let (after, parsed) = message::parse_fragment(seen, fragment);
            &&& metadata.message_type != "user"@ ==> after == seen && parsed == Err::<
                ParsedView,
                Seq<char>,
            >("unsupported message type `"@ + metadata.message_type + "`"@)
            &&& metadata.message_type == "user"@ ==> after
            &&& metadata.message_type == "user"@ && message::message_text(
                fragment,
                metadata.raw_inner_xml,
            ) == Ok::<Seq<char>, Seq<char>>(text) ==> match metadata.queue {
                None => parsed == Ok::<ParsedView, Seq<char>>(
                    ParsedView::Message(MessageView { queue_mode: QueueMode::Default, text }),
                ),
                Some(queue) => match queue_mode::queue_mode_named(queue) {
                    Some(queue_mode) => parsed == Ok::<ParsedView, Seq<char>>(
                        ParsedView::Message(MessageView { queue_mode, text }),
                    ),
                    None => parsed == Err::<ParsedView, Seq<char>>(
                        "unknown queue mode `"@ + queue + "`"@,
                    ),
                },
            }
        }),
{
}

/// A system prompt before the first message has the text of its element, and
/// leaves it open whether a message was seen.
pub proof fn an_early_prompt_is_its_text(fragment: Seq<char>)
    requires
        "<system_prompt>"@.is_prefix_of(fragment),
    ensures
        ({
            let (after, parsed) = message::parse_fragment(false, fragment);
            &&& !after
            &&& message::element_text(fragment) matches Ok(text) ==> parsed == Ok::<
                ParsedView,
                Seq<char>,
            >(ParsedView::SystemPrompt(text))
            &&& message::element_text(fragment) matches Err(failure) ==> parsed == Err::<
                ParsedView,
                Seq<char>,
            >("failed to parse system_prompt: "@ + failure)
        }),
{
}

/// A message whose content holds no angle bracket is read as the text of its
/// element.
pub proof fn content_without_brackets_is_text(fragment: Seq<char>, inner: Seq<char>)
    requires
        !inner.contains('<'),
    ensures
        message::element_text(fragment) matches Ok(text) ==> message::message_text(fragment, inner)
            == Ok::<Seq<char>, Seq<char>>(text),
        message::element_text(fragment) matches Err(failure) ==> message::message_text(
            fragment,
            inner,
        ) == Err::<Seq<char>, Seq<char>>("failed to parse message: "@ + failure),
{
    lemma_no_tag(inner, 0);
}

proof fn lemma_no_tag(raw: Seq<char>, at: int)
    requires
        0 <= at,
        forall|i: int| at <= i < raw.len() ==> raw[i] != '<',
    ensures
        !message::tag_from(raw, at),
    decreases raw.len() - at,
{
    if at < raw.len() {
        reveal_strlit("<![CDATA[");
        if text::occurs_at(raw, at, "<![CDATA["@) {
            assert(raw.subrange(at, at + "<![CDATA["@.len())[0] == raw[at]);
        }
        lemma_no_tag(raw, at + 1);
    }
}

/// A letter, a slash or an underscore behind the first angle bracket of the
/// content makes it markup, which is kept as it stands.
pub proof fn a_tag_makes_the_content_markup(
    fragment: Seq<char>,
    before: Seq<char>,
    mark: char,
    behind: Seq<char>,
)
    requires
        !before.contains('<'),
        'a' <= mark <= 'z' || 'A' <= mark <= 'Z' || mark == '/' || mark == '_',
    ensures
        ({
            let inner = before + seq!['<', mark] + behind;
            message::message_text(fragment, inner) == Ok::<Seq<char>, Seq<char>>(inner)
        }),
{
    let inner = before + seq!['<', mark] + behind;
    assert forall|i: int| 0 <= i < before.len() implies inner[i] != '<' by {
        assert(inner[i] == before[i]);
    }
    let place = before.len() as int;
    assert(inner[place] == '<');
    assert(inner[place + 1] == mark);
    lemma_first_tag(inner, 0, place);
}

proof fn lemma_first_tag(raw: Seq<char>, at: int, place: int)
    requires
        0 <= at <= place < raw.len() - 1,
        raw[place] == '<',
        'a' <= raw[place + 1] <= 'z' || 'A' <= raw[place + 1] <= 'Z' || raw[place + 1] == '/'
            || raw[place + 1] == '_',
        forall|i: int| at <= i < place ==> raw[i] != '<',
    ensures
        message::tag_from(raw, at),
    decreases place - at,
{
    reveal_strlit("<![CDATA[");
    let data = "<![CDATA["@;
    if text::occurs_at(raw, at, data) {
        assert(raw.subrange(at, at + data.len())[0] == raw[at]);
        assert(raw.subrange(at, at + data.len())[1] == raw[at + 1]);
        assert(false);
    }
    if at < place {
        lemma_first_tag(raw, at + 1, place);
    }
}

/// Whether a tag opens or closes at a place of a text.
pub open spec fn marks_a_tag(raw: Seq<char>, at: int) -> bool {
    &&& 0 <= at < raw.len() - 1
    &&& raw[at] == '<'
    &&& ('a' <= raw[at + 1] <= 'z' || 'A' <= raw[at + 1] <= 'Z' || raw[at + 1] == '/'
        || raw[at + 1] == '_')
}

/// Content without character data is markup exactly where an angle bracket
/// stands before a letter, a slash or an underscore; a comment, a declaration or
/// a lone bracket does not make it markup.
pub proof fn only_tags_make_the_content_markup(raw: Seq<char>)
    requires
        !text::holds(raw, "<![CDATA["@),
    ensures
        message::tag_from(raw, 0) <==> exists|at: int| marks_a_tag(raw, at),
{
    if message::tag_from(raw, 0) {
        let at = lemma_tag_found(raw, 0);
        assert(marks_a_tag(raw, at));
    }
    if exists|at: int| marks_a_tag(raw, at) {
        let at = choose|at: int| marks_a_tag(raw, at);
        lemma_tag_counts(raw, 0, at);
    }
}

proof fn lemma_tag_found(raw: Seq<char>, from: int) -> (at: int)
    requires
        0 <= from,
        !text::holds(raw, "<![CDATA["@),
        message::tag_from(raw, from),
    ensures
        marks_a_tag(raw, at),
    decreases raw.len() - from,
{
    assert(!text::occurs_at(raw, from, "<![CDATA["@));
    if marks_a_tag(raw, from) {
        from
    } else {
        lemma_tag_found(raw, from + 1)
    }
}

proof fn lemma_tag_counts(raw: Seq<char>, from: int, at: int)
    requires
        0 <= from <= at,
        !text::holds(raw, "<![CDATA["@),
        marks_a_tag(raw, at),
    ensures
        message::tag_from(raw, from),
    decreases at - from,
{
    assert(!text::occurs_at(raw, from, "<![CDATA["@));
    if from < at {
        lemma_tag_counts(raw, from + 1, at);
    }
}

/// Angle brackets inside character data are no markup: it is skipped, up to its
/// end, and what comes behind it decides.
pub proof fn character_data_is_no_markup(data: Seq<char>, behind: Seq<char>)
    requires
        forall|i: int| 0 <= i < data.len() ==> (#[trigger] data[i]) != ']',
    ensures
        message::tag_from("<![CDATA["@ + data + "]]>"@ + behind, 0) == message::tag_from(behind, 0),
{
    reveal_strlit("<![CDATA[");
    reveal_strlit("]]>");
    let open = "<![CDATA["@;
    let close = "]]>"@;
    let raw = open + data + close + behind;
    assert(raw.subrange(0, open.len() as int) =~= open);
    let place = (open.len() + data.len()) as int;
    assert(raw.subrange(place, place + close.len()) =~= close);
    text_laws::the_first_place_is_first(raw, 0, close, place);
    let end = text::first_at(raw, 0, close)->0;
    assert(end == place) by {
        if end < place {
            assert(raw.subrange(end, end + close.len())[0] == raw[end]);
            if end < open.len() {
                assert(raw[end] == open[end]);
            } else {
                assert(raw[end] == data[end - open.len()]);
            }
        }
    }
    let before = open + data + close;
    assert(raw =~= before + behind);
    assert(before.len() == end + 3);
    lemma_tag_behind(before, behind, 0);
}

proof fn lemma_occurs_behind(before: Seq<char>, behind: Seq<char>, at: int, pattern: Seq<char>)
    requires
        0 <= at,
    ensures
        text::occurs_at(before + behind, before.len() + at, pattern) == text::occurs_at(
            behind,
            at,
            pattern,
        ),
{
    let whole = before + behind;
    let place = before.len() + at;
    if at + pattern.len() <= behind.len() {
        assert(whole.subrange(place, place + pattern.len()) =~= behind.subrange(
            at,
            at + pattern.len(),
        ));
    }
}

proof fn lemma_first_behind(before: Seq<char>, behind: Seq<char>, from: int, pattern: Seq<char>)
    requires
        0 <= from,
    ensures
        text::first_at(before + behind, before.len() + from, pattern) == match text::first_at(
            behind,
            from,
            pattern,
        ) {
            Some(at) => Some(before.len() + at),
            None => None,
        },
    decreases behind.len() - from + 1,
{
    lemma_occurs_behind(before, behind, from, pattern);
    if from <= behind.len() && !text::occurs_at(behind, from, pattern) {
        lemma_first_behind(before, behind, from + 1, pattern);
    }
}

proof fn lemma_tag_behind(before: Seq<char>, behind: Seq<char>, from: int)
    requires
        0 <= from,
    ensures
        message::tag_from(before + behind, before.len() + from) == message::tag_from(behind, from),
    decreases behind.len() - from,
{
    reveal_strlit("]]>");
    let whole = before + behind;
    let place = before.len() + from;
    lemma_occurs_behind(before, behind, from, "<![CDATA["@);
    lemma_first_behind(before, behind, from, "]]>"@);
    if from < behind.len() {
        if text::occurs_at(behind, from, "<![CDATA["@) {
            if let Some(end) = text::first_at(behind, from, "]]>"@) {
                text_laws::the_first_place_is_first(behind, from, "]]>"@, from);
                lemma_tag_behind(before, behind, end + 3);
            }
        } else {
            assert(whole[place] == behind[from]);
            if from + 1 < behind.len() {
                assert(whole[place + 1] == behind[from + 1]);
            }
            assert(message::tag_at(whole, place) == message::tag_at(behind, from));
            lemma_tag_behind(before, behind, from + 1);
        }
    }
}

/// Whether a text and a known one are the same as far as both go.
pub open spec fn agree(one: Seq<char>, other: Seq<char>) -> bool {
    forall|i: int| 0 <= i < one.len() && i < other.len() ==> one[i] == #[trigger] other[i]
}

/// What can be the start of a known element agrees with the start of a system
/// prompt or of a message as far as it goes, and all that does can.
pub proof fn known_elements_start_so(buffer: Seq<char>)
    ensures
        message::supported_root_prefix(buffer) <==> agree("<system_prompt"@, buffer) || agree(
            "<message"@,
            buffer,
        ),
{
    lemma_agree("<system_prompt"@, buffer);
    lemma_agree("<message"@, buffer);
}

proof fn lemma_agree(known: Seq<char>, buffer: Seq<char>)
    ensures
        agree(known, buffer) <==> known.is_prefix_of(buffer) || buffer.is_prefix_of(known),
{
    if agree(known, buffer) {
        if known.len() <= buffer.len() {
            assert(known =~= buffer.subrange(0, known.len() as int));
        } else {
            assert(buffer =~= known.subrange(0, buffer.len() as int));
        }
    }
    if known.is_prefix_of(buffer) {
        assert forall|i: int| 0 <= i < known.len() && i < buffer.len() implies known[i]
            == #[trigger] buffer[i] by {
            assert(buffer.subrange(0, known.len() as int)[i] == buffer[i]);
        }
    }
    if buffer.is_prefix_of(known) {
        assert forall|i: int| 0 <= i < known.len() && i < buffer.len() implies known[i]
            == #[trigger] buffer[i] by {
            assert(known.subrange(0, buffer.len() as int)[i] == known[i]);
        }
    }
}

/// Only two elements are known.
pub proof fn two_elements_are_known(name: Seq<char>)
    ensures
        message::supported_root(name) <==> name == "system_prompt"@ || name == "message"@,
{
}

/// The name of a tag ends at its first blank, tab or line break.
pub proof fn a_name_ends_at_a_space(content: Seq<char>)
    ensures
        ({
            let name = message::name_of(content);
            &&& name.len() <= content.len()
            &&& name == content.take(name.len() as int)
            &&& forall|i: int|
                0 <= i < name.len() ==> (#[trigger] name[i]) != ' ' && name[i] != '\t' && name[i]
                    != '\r' && name[i] != '\n'
            &&& name.len() < content.len() ==> {
                let c = content[name.len() as int];
                c == ' ' || c == '\t' || c == '\r' || c == '\n'
            }
        }),
{
    lemma_name_length(content);
}

proof fn lemma_name_length(content: Seq<char>)
    ensures
        message::name_length(content) <= content.len(),
        forall|i: int|
            0 <= i < message::name_length(content) ==> !message::tag_space(#[trigger] content[i]),
        message::name_length(content) < content.len() ==> message::tag_space(
            content[message::name_length(content) as int],
        ),
    decreases content.len(),
{
    if content.len() > 0 && !message::tag_space(content[0]) {
        let rest = content.drop_first();
        lemma_name_length(rest);
        assert forall|i: int| 0 <= i < message::name_length(content) implies !message::tag_space(
            #[trigger] content[i],
        ) by {
            if i > 0 {
                assert(rest[i - 1] == content[i]);
            }
        }
    }
}

/// Input that cannot be the start of a known element is malformed, and stays,
/// without the white space before it; an empty buffer and white space are just
/// incomplete.
pub proof fn other_input_is_malformed(state: ParserView)
    ensures
        ({
            let rest = text::trimmed_start(state.buffer);
            &&& rest.len() == 0 ==> state.next() == (
                ParserView { buffer: rest, ..state },
                NextInputView::Incomplete,
            )
            &&& rest.len() > 0 && !agree("<system_prompt"@, rest) && !agree("<message"@, rest)
                ==> state.next() == (
                ParserView { buffer: rest, ..state },
                NextInputView::Malformed("expected system_prompt or message XML fragment"@),
            )
        }),
{
    known_elements_start_so(text::trimmed_start(state.buffer));
}

/// All complete elements of the buffer come out in the order in which they
/// stand; the first that is refused, or malformed input, ends this with its
/// report, and what is not complete yet stays.
pub proof fn elements_come_out_in_order(state: ParserView)
    ensures
        match state.next() {
            (after, NextInputView::Parsed(item)) => match after.drained() {
                (end, Ok(items)) => state.drained() == (
                    end,
                    Ok::<Seq<ParsedView>, Seq<char>>(seq![item] + items),
                ),
                (end, Err(failure)) => state.drained() == (
                    end,
                    Err::<Seq<ParsedView>, Seq<char>>(failure),
                ),
            },
            (after, NextInputView::Refused(failure)) => state.drained() == (
                after,
                Err::<Seq<ParsedView>, Seq<char>>(failure),
            ),
            (after, NextInputView::Malformed(failure)) => state.drained() == (
                after,
                Err::<Seq<ParsedView>, Seq<char>>(failure),
            ),
            (after, NextInputView::Incomplete) => state.drained() == (
                after,
                Ok::<Seq<ParsedView>, Seq<char>>(Seq::empty()),
            ),
        },
{
    text::lemma_trimmed_longer(state.buffer, Seq::empty());
}

/// More input comes behind what is in the buffer.
pub proof fn input_comes_behind_input(state: ParserView, more: Seq<char>)
    ensures
        state.extended(more) == (ParserView { buffer: state.buffer + more, ..state }),
{
}

/// A failure of the parser at the end of the input means that more is needed,
/// unless it is of another kind than an early end; any other failure is
/// reported. So is a closing tag without an opening one, and one of another
/// name.
pub proof fn scan_failures_are_reported(
    scan: RootScanView,
    kind: XmlErrorKind,
    failure: Seq<char>,
    name: Seq<char>,
    at_end: bool,
)
    ensures
        scan.step(XmlEventView::Failed { kind, message: failure }, at_end).1 == if at_end && kind
            != XmlErrorKind::Other {
            ScanStepView::Incomplete
        } else {
            ScanStepView::Failed("failed to parse XML input: "@ + failure)
        },
        scan.step(XmlEventView::Eof, at_end).1 is Incomplete,
        scan.depth == 0 ==> scan.step(XmlEventView::End(name), at_end).1 == ScanStepView::Failed(
            "unexpected XML closing tag"@,
        ),
        scan.depth == 1 && scan.root_name == Some(name) ==> scan.step(
            XmlEventView::End(name),
            at_end,
        ).1 is Complete,
        scan.depth == 1 && scan.root_name is Some && scan.root_name != Some(name) ==> scan.step(
            XmlEventView::End(name),
            at_end,
        ).1 == ScanStepView::Failed("mismatched XML closing tag `</"@ + name + ">`"@),
        scan.depth > 1 ==> scan.step(XmlEventView::End(name), at_end) == (
            RootScanView { depth: (scan.depth - 1) as nat, ..scan },
            ScanStepView::Continue,
        ),
        scan.depth == 0 ==> scan.step(XmlEventView::Other, at_end).1 == ScanStepView::Failed(
            "expected system_prompt or message XML fragment"@,
        ),
        scan.depth > 0 ==> scan.step(XmlEventView::Other, at_end) == (scan, ScanStepView::Continue),
{
}

/// An element opens another level, and the outermost one is taken only under a
/// known name.
pub proof fn only_known_elements_are_opened(scan: RootScanView, content: Seq<char>, at_end: bool)
    ensures
        ({
            let name = message::name_of(content);
            let known = name == "system_prompt"@ || name == "message"@;
            let opened = scan.step(XmlEventView::Start(content), at_end);
            let empty = scan.step(XmlEventView::Empty(content), at_end);
            let refused = ScanStepView::Failed("expected system_prompt or message XML fragment"@);
            &&& scan.depth > 0 ==> opened == (
                RootScanView { depth: scan.depth + 1, ..scan },
                ScanStepView::Continue,
            ) && empty == (scan, ScanStepView::Continue)
            &&& scan.depth == 0 && known ==> opened == (
                RootScanView { depth: 1, root_name: Some(name) },
                ScanStepView::Continue,
            ) && empty.1 is Complete
            &&& scan.depth == 0 && !known ==> opened.1 == refused && empty.1 == refused
        }),
{
}

/// The text of an element that holds just one run of text is that run, read as
/// text, where the element can be read at all.
pub proof fn the_text_of_an_element_is_its_run(
    fragment: Seq<char>,
    content: Seq<char>,
    name: Seq<char>,
    from: nat,
    to: nat,
    end: nat,
    text: Seq<char>,
)
    requires
        xml::xml_steps(fragment) == seq![
            XmlStepView { event: XmlEventView::Start(content), position: from },
            XmlStepView { event: XmlEventView::Other, position: to },
            XmlStepView { event: XmlEventView::End(name), position: end },
        ],
        xml::xml_text(
            "<text>"@ + text::chars_between(fragment, from as int, to as int) + "</text>"@,
            "$text"@,
        ) == Ok::<Option<Seq<char>>, Seq<char>>(Some(text)),
        xml::xml_fault(
            text::chars_between(fragment, 0, to as int) + "</"@ + message::name_of(content) + ">"@,
        ) is None,
    ensures
        xml::xml_fault(fragment) is None ==> message::element_text(fragment) == Ok::<
            Seq<char>,
            Seq<char>,
        >(text),
        xml::xml_fault(fragment) matches Some(fault) ==> message::element_text(fragment) == Err::<
            Seq<char>,
            Seq<char>,
        >(fault),
{
    reveal_with_fuel(message::text_from, 4);
    let steps = xml::xml_steps(fragment);
    let later = steps.drop_first();
    assert(later[0] == steps[1]);
    assert(later.drop_first()[0] == steps[2]);
}

/// An element has at most one text that is not blank, and needs one.
pub proof fn an_element_has_one_text(
    first: Seq<char>,
    second: Seq<char>,
    fault: Seq<char>,
    found: Option<Seq<char>>,
)
    ensures
        message::text_with_piece(found, Ok(None), None) == Ok::<Option<Seq<char>>, Seq<char>>(
            found,
        ),
        message::text_with_piece(None, Ok(Some(first)), None) == Ok::<
            Option<Seq<char>>,
            Seq<char>,
        >(Some(first)),
        message::text_with_piece(Some(first), Ok(Some(second)), None) == Err::<
            Option<Seq<char>>,
            Seq<char>,
        >("duplicate field `$text`"@),
        message::text_with_piece(found, Ok(Some(second)), Some(fault)) == Err::<
            Option<Seq<char>>,
            Seq<char>,
        >(fault),
        message::text_complete(Some(first), None) == Ok::<Seq<char>, Seq<char>>(first),
        message::text_complete(None, None) == Err::<Seq<char>, Seq<char>>("missing field `$text`"@),
        message::text_complete(found, Some(fault)) == Err::<Seq<char>, Seq<char>>(fault),
{
}
/// A complete element is taken out of the buffer whole: it and what then stays
/// are together what was there, without the white space before it, and what
/// comes out is what the element says.
pub proof fn an_element_leaves_the_rest(state: ParserView, end: nat)
    requires
        ({
            let buffer = text::trimmed_start(state.buffer);
            &&& message::supported_root_prefix(buffer)
            &&& message::root_end(buffer) == Ok::<Option<nat>, Seq<char>>(Some(end))
            &&& text::between_chars(buffer, end as int)
            &&& end > 0
        }),
    ensures
        ({
            let buffer = text::trimmed_start(state.buffer);
            let (after, found) = state.next();
            let fragment = text::chars_between(buffer, 0, end as int);
            let (seen, parsed) = message::parse_fragment(state.seen_message, fragment);
            &&& fragment + after.buffer == buffer
            &&& fragment.len() > 0
            &&& encode_utf8(fragment).len() == end
            &&& after.seen_message == seen
            &&& parsed matches Ok(item) ==> found == NextInputView::Parsed(item)
            &&& parsed matches Err(failure) ==> found == NextInputView::Refused(failure)
        }),
{
    let buffer = text::trimmed_start(state.buffer);
    let bytes = encode_utf8(buffer);
    let start = bytes.subrange(0, end as int);
    encode_utf8_valid_utf8(buffer);
    encode_utf8_decode_utf8(buffer);
    decode_utf8_split(bytes, end as int);
    valid_utf8_split(bytes, end as int);
    decode_utf8_encode_utf8(start);
    let fragment = text::chars_between(buffer, 0, end as int);
    let rest = text::chars_between(buffer, end as int, bytes.len() as int);
    assert(encode_utf8(fragment) =~= start);
    if fragment.len() == 0 {
        assert(fragment =~= Seq::<char>::empty());
        assert(encode_utf8(fragment).len() == 0);
    }
    assert(fragment + rest == buffer);
    assert(buffer.len() > 0);
}

/// The values of attributes count with their references resolved, under their
/// own names; a value whose references cannot be resolved cannot be read.
pub proof fn attribute_values_are_resolved(key: Seq<char>, value: Seq<char>, failure: Seq<char>)
    ensures
        match xml::unescaped_value(value) {
            Ok(resolved) => xml::unescaped(XmlAttributeView::Valid { key, value }) == (
            XmlAttributeView::Valid { key, value: resolved }),
            Err(reason) => xml::unescaped(XmlAttributeView::Valid { key, value }) == (
            XmlAttributeView::Invalid { message: reason }),
        },
        xml::unescaped(XmlAttributeView::Invalid { message: failure }) == (
        XmlAttributeView::Invalid { message: failure }),
{
}

/// An element stands for the text around it exactly by its name behind the
/// prefix.
pub proof fn text_elements_are_told_by_their_name(prefix: Seq<char>, name: Seq<char>)
    requires
        !prefix.contains(':'),
    ensures
        message::local_name(prefix + ":"@ + name) == name,
        !name.contains(':') ==> message::local_name(name) == name,
{
    reveal_strlit(":");
    let colon = ":"@;
    let whole = prefix + colon + name;
    let place = prefix.len() as int;
    assert(whole.subrange(place, place + colon.len()) =~= colon);
    text_laws::the_first_place_is_first(whole, 0, colon, place);
    let at = text::first_at(whole, 0, colon)->0;
    assert(at == place) by {
        if at < place {
            assert(whole.subrange(at, at + colon.len())[0] == whole[at]);
            assert(prefix[at] == ':');
        }
    }
    assert(whole.skip(at + 1) =~= name);
    if !name.contains(':') {
        if let Some(other) = text::first_at(name, 0, colon) {
            text_laws::the_first_place_is_first(name, 0, colon, 0);
            assert(name.subrange(other, other + colon.len())[0] == name[other]);
            assert(name[other] == ':');
        }
    }
}

/// White space is all that may be left when the input ends.
pub proof fn only_white_space_may_be_left(
    parser: &XmlInputParser,
    finished: Result<(), XmlInputError>,
)
    requires
        call_ensures(XmlInputParser::finish, (parser,), finished),
    ensures
        finished is Ok <==> text::trimmed_start(parser@.buffer).len() == 0,
        finished matches Err(error) ==> error@ == "incomplete XML stdin fragment"@,
{
}

/// The text directly in an element is parted into runs: a child element and a
/// document type declaration end the run before them, and the next one starts
/// behind them; what is inside a child element belongs to no run. The end of the
/// element ends the last run, and the search.
pub proof fn runs_of_text_are_parted(
    scan: TextScanView,
    content: Seq<char>,
    name: Seq<char>,
    position: nat,
)
    ensures
        ({
            let opened = scan.step(XmlEventView::Start(content), position);
            let empty = scan.step(XmlEventView::Empty(content), position);
            let declared = scan.step(XmlEventView::DocType, position);
            let said = scan.step(XmlEventView::Other, position);
            let closed = scan.step(XmlEventView::End(name), position);
            let run = Some((scan.from, scan.read));
            &&& scan.depth == 1 ==> {
                &&& opened.1.run == run && empty.1.run == run && declared.1.run == run
                    && closed.1.run == run
                &&& opened.0.depth == 2 && empty.0.depth == 1 && declared.0.depth == 1
                &&& opened.0.from == position && empty.0.from == position && declared.0.from
                    == position
                &&& closed.1.over && !opened.1.over && !empty.1.over && !declared.1.over
            }
            &&& scan.depth > 1 ==> {
                &&& opened.1.run is None && empty.1.run is None && declared.1.run is None
                    && closed.1.run is None
                &&& opened.0.depth == scan.depth + 1 && empty.0.depth == scan.depth
                &&& closed.0.depth == scan.depth - 1
                &&& !closed.1.over && !opened.1.over && !empty.1.over && !declared.1.over
            }
            &&& scan.depth == 2 ==> closed.0.from == position
            &&& scan.depth > 2 ==> closed.0.from == scan.from
            &&& said == (
                TextScanView { read: position, ..scan },
                TextStepView { run: None, field: None, over: false },
            )
            &&& scan.step(XmlEventView::Eof, position).1 == (TextStepView {
                run: None,
                field: None,
                over: true,
            })
        }),
{
}

/// A child element that stands for the text counts from where it opens to where
/// it closes, whatever is inside; any other child element counts for nothing.
pub proof fn text_elements_count_whole(
    scan: TextScanView,
    content: Seq<char>,
    name: Seq<char>,
    start: nat,
    position: nat,
)
    ensures
        ({
            let stands = message::local_name(message::name_of(content)) == "$text"@;
            let opened = scan.step(XmlEventView::Start(content), position);
            let empty = scan.step(XmlEventView::Empty(content), position);
            let closed = scan.step(XmlEventView::End(name), position);
            &&& scan.depth == 1 && stands ==> opened.0.field == Some(scan.read)
                && empty.1.field == Some((scan.read, position))
            &&& scan.depth == 1 && !stands ==> opened.0.field is None && empty.1.field is None
            &&& scan.depth == 2 && scan.field == Some(start) ==> closed.1.field == Some(
                (start, position),
            ) && closed.0.field is None
            &&& scan.depth == 2 && scan.field is None ==> closed.1.field is None
            &&& scan.depth > 2 ==> closed.1.field is None && closed.0.field == scan.field
            &&& opened.1.field is None
        }),
{
}

/// A run of text is read up to its end before it counts, and a child element
/// that stands for the text only up to where it opens.
pub proof fn pieces_are_read_where_they_stand(
    fragment: Seq<char>,
    name: Seq<char>,
    found: Option<Seq<char>>,
    from: nat,
    to: nat,
)
    ensures
        ({
            let piece = xml::xml_text(
                "<text>"@ + text::chars_between(fragment, from as int, to as int) + "</text>"@,
                "$text"@,
            );
            let up_to_end = xml::xml_fault(
                text::chars_between(fragment, 0, to as int) + "</"@ + name + ">"@,
            );
            let up_to_start = xml::xml_fault(
                text::chars_between(fragment, 0, from as int) + "</"@ + name + ">"@,
            );
            &&& message::text_with_run(fragment, name, found, Some((from, to)))
                == message::text_with_piece(found, piece, up_to_end)
            &&& message::text_with_field(fragment, name, found, Some((from, to)))
                == message::text_with_piece(found, piece, up_to_start)
            &&& message::text_with_run(fragment, name, found, None) == Ok::<
                Option<Seq<char>>,
                Seq<char>,
            >(found)
            &&& message::text_with_field(fragment, name, found, None) == Ok::<
                Option<Seq<char>>,
                Seq<char>,
            >(found)
        }),
{
}

/// The text of an element is put together from its events in order: each first
/// adds its run and then its child element, and the first failure is the
/// outcome.
pub proof fn the_text_is_put_together_in_order(
    fragment: Seq<char>,
    name: Seq<char>,
    scan: TextScanView,
    found: Option<Seq<char>>,
    first: XmlStepView,
    later: Seq<XmlStepView>,
)
    ensures
        ({
            let steps = seq![first] + later;
            let (next, step) = scan.step(first.event, first.position);
            let outcome = message::text_from(fragment, name, scan, found, steps);
            match message::text_with_run(fragment, name, found, step.run) {
                Err(failure) => outcome == Err::<Seq<char>, Seq<char>>(failure),
                Ok(found) => match message::text_with_field(fragment, name, found, step.field) {
                    Err(failure) => outcome == Err::<Seq<char>, Seq<char>>(failure),
                    Ok(found) => if step.over {
                        outcome == message::text_complete(found, xml::xml_fault(fragment))
                    } else {
                        outcome == message::text_from(fragment, name, next, found, later)
                    },
                },
            }
        }),
{
    let steps = seq![first] + later;
    assert(steps[0] == first);
    assert(steps.drop_first() =~= later);
}

/// The end of the root element is found event by event: it is where the scan
/// completes; a scan that runs out of input finds none yet, and the first
/// failure is the outcome. A scan starts outside of any element.
pub proof fn the_root_ends_where_the_scan_completes(
    scan: RootScanView,
    first: XmlStepView,
    later: Seq<XmlStepView>,
    buffer: Seq<char>,
)
    ensures
        ({
            let (next, step) = scan.step(first.event, xml::read_out(buffer, first.position));
            let outcome = message::scan_rest(scan, seq![first] + later, buffer);
            match step {
                ScanStepView::Complete => outcome == Ok::<Option<nat>, Seq<char>>(
                    Some(first.position),
                ),
                ScanStepView::Incomplete => outcome == Ok::<Option<nat>, Seq<char>>(None),
                ScanStepView::Failed(failure) => outcome == Err::<Option<nat>, Seq<char>>(failure),
                ScanStepView::Continue => outcome == message::scan_rest(next, later, buffer),
            }
        }),
        message::root_end(buffer) == message::scan_rest(
            RootScanView { depth: 0, root_name: None },
            xml::xml_steps(buffer),
            buffer,
        ),
{
    let steps = seq![first] + later;
    assert(steps[0] == first);
    assert(steps.drop_first() =~= later);
}

/// The attributes of a message are those of the tag that it starts with, with
/// their values resolved; a start that is no opening tag is refused, and one
/// that cannot be read is reported.
pub proof fn attributes_come_from_the_start_tag(start_tag: Seq<char>)
    ensures
        ({
            let found = message::start_tag_attributes(start_tag);
            match xml::xml_steps(start_tag)[0].event {
                XmlEventView::Start(content) => {
                    let attributes = xml::xml_attributes(
                        content,
                        encode_utf8(message::name_of(content)).len(),
                    );
                    found == message::message_attributes(
                        Seq::new(attributes.len(), |i: int| xml::unescaped(attributes[i])),
                    )
                },
                XmlEventView::Failed { message: failure, .. } => found == Err::<
                    MessageAttributesView,
                    Seq<char>,
                >("failed to parse message attributes: "@ + failure),
                _ => found == Err::<MessageAttributesView, Seq<char>>(
                    "failed to parse message: expected opening message tag"@,
                ),
            }
        }),
{
    if let XmlEventView::Start(content) = xml::xml_steps(start_tag)[0].event {
        let attributes = xml::xml_attributes(
            content,
            encode_utf8(message::name_of(content)).len(),
        );
        assert(attributes.map_values(|attribute: XmlAttributeView| xml::unescaped(attribute))
            =~= Seq::new(attributes.len(), |i: int| xml::unescaped(attributes[i])));
    }
}

/// A message without a closing bracket has no start tag, and one without a
/// closing tag behind it is refused too.
pub proof fn unclosed_messages_are_refused(fragment: Seq<char>)
    ensures
        !fragment.contains('>') ==> message::message_metadata(fragment) is Err
            && message::message_metadata(fragment)->Err_0
            == "failed to parse message: missing start tag"@,
        fragment.contains('>') && !text::holds(fragment, "</message>"@)
            ==> message::message_metadata(fragment) is Err && message::message_metadata(
            fragment,
        )->Err_0 == "failed to parse message: missing closing tag"@,
{
    reveal_strlit(">");
    let bracket = ">"@;
    let close = "</message>"@;
    text_laws::the_first_place_is_first(fragment, 0, bracket, 0);
    if let Some(at) = text::first_at(fragment, 0, bracket) {
        assert(fragment.subrange(at, at + bracket.len())[0] == fragment[at]);
        assert(fragment[at] == '>');
    } else if fragment.contains('>') {
        let at = choose|at: int| 0 <= at < fragment.len() && fragment[at] == '>';
        assert(fragment.subrange(at, at + bracket.len()) =~= bracket);
        text_laws::the_first_place_is_first(fragment, 0, bracket, at);
    }
    if let Some(at) = text::last_at(fragment, fragment.len() as int, close) {
        text_laws::the_last_place_is_last(fragment, fragment.len() as int, close, 0);
        assert(text::occurs_at(fragment, at, close));
    }
}

/// A failure means that the input has run out where all of it was read; and, for
/// input that ends in the first two characters of a declaration, where all but
/// the last byte was.
pub proof fn input_runs_out_at_its_end(whole: Seq<char>, position: nat)
    ensures
        position >= encode_utf8(whole).len() ==> xml::read_out(whole, position),
        position + 1 < encode_utf8(whole).len() ==> !xml::read_out(whole, position),
        position + 1 == encode_utf8(whole).len() ==> (xml::read_out(whole, position)
            <==> whole.len() >= 2 && whole.skip(whole.len() - 2) == "<!"@),
{
    reveal_strlit("<!");
    if whole.len() >= 2 {
        let end = whole.skip(whole.len() - 2);
        assert(end[0] == whole[whole.len() - 2]);
        assert(end[1] == whole[whole.len() - 1]);
        if xml::ends_in_bang(whole) {
            assert(end =~= "<!"@);
        }
    }
}


} // verus!
