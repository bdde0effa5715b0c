//! The standard input of the bridge: chunks of plain text that pauses divide,
//! or a stream of XML elements.

use vstd::prelude::*;
use vstd::utf8::*;

use crate::chunking;
use crate::chunking::{ChunkAccumulator, QuiescencePolicy, ReadSignal};
use crate::controller_model::MessageView;
use crate::message;
use crate::message::{ParsedMessage, ParsedView, ParsedXmlInput, ParserView, XmlInputParser};
use crate::text;
use crate::text::Utf8Reading;

verus! {

/// Why the bridge ends: what was being done, and what went wrong.
#[derive(Clone, Debug, PartialEq, Eq)]
pub struct BridgeError {
    pub message: String,
    pub cause: Option<String>,
}

/// Why the bridge ends, as mathematical text.
#[verifier::ext_equal]
pub struct BridgeErrorView {
    pub message: Seq<char>,
    pub cause: Option<Seq<char>>,
}

impl View for BridgeError {
    type V = BridgeErrorView;

    open spec fn view(&self) -> BridgeErrorView {
        BridgeErrorView { message: self.message@, cause: text::opt_text(self.cause) }
    }
}

impl BridgeError {
    /// A failure without a further cause.
    pub fn new(message: &str) -> (error: Self)
        ensures
            error@ == (BridgeErrorView { message: message@, cause: None }),
    {
        BridgeError { message: message.to_owned(), cause: None }
    }

    /// A failure with its cause.
    pub fn because(message: &str, cause: String) -> (error: Self)
        ensures
            error@ == (BridgeErrorView { message: message@, cause: Some(cause@) }),
    {
        BridgeError { message: message.to_owned(), cause: Some(cause) }
    }
}

/// The messages of a vector.
pub open spec fn message_views(messages: Seq<ParsedMessage>) -> Seq<MessageView> {
    messages.map_values(|message: ParsedMessage| message@)
}

/// How far the reader of chunks has come.
#[derive(Clone, Copy, Debug, PartialEq, Eq, Structural)]
pub enum ChunkStage {
    /// The first bytes of a chunk are waited for.
    Waiting,
    /// More bytes of the chunk are waited for, but no longer than the pause
    /// that ends it.
    Gathering,
    Ended,
}

/// What came of reading.
#[derive(Clone, Debug, PartialEq, Eq)]
pub enum ChunkInput {
    /// Some bytes; none at the end of the input.
    Bytes(Vec<u8>),
    /// Nothing came for as long as the pause that ends a chunk.
    Quiet,
    Failed { message: String },
}

/// The state of a reader of chunks.
#[verifier::ext_equal]
pub struct ChunkReaderView {
    pub stage: ChunkStage,
    pub pending: Seq<u8>,
}

/// The message that a chunk holds. A chunk that is no UTF-8 holds none.
pub open spec fn chunk_message(chunk: Option<Seq<u8>>) -> Option<MessageView> {
    match chunk {
        Some(bytes) if valid_utf8(bytes) => Some(message::prefixed_message(decode_utf8(bytes))),
        _ => None,
    }
}

impl ChunkReaderView {
    /// A pause or the end of the input ends a chunk.
    pub open spec fn closed(self, stage: ChunkStage, signal: ReadSignal<'_>) -> (
        Self,
        Result<Option<MessageView>, BridgeErrorView>,
    ) {
        let (pending, chunk) = chunking::pushed(self.pending, signal);
        (ChunkReaderView { stage, pending }, Ok(chunk_message(chunk)))
    }

    /// What comes of an input. An input that is not waited for changes nothing.
    pub open spec fn step(self, input: ChunkInput) -> (
        Self,
        Result<Option<MessageView>, BridgeErrorView>,
    ) {
        match (self.stage, input) {
            (ChunkStage::Ended, _) | (ChunkStage::Waiting, ChunkInput::Quiet) => (self, Ok(None)),
            (_, ChunkInput::Bytes(bytes)) => if bytes@.len() == 0 {
                self.closed(ChunkStage::Ended, ReadSignal::Eof)
            } else {
                (
                    ChunkReaderView {
                        stage: ChunkStage::Gathering,
                        pending: self.pending + bytes@,
                    },
                    Ok(None),
                )
            },
            (ChunkStage::Gathering, ChunkInput::Quiet) => self.closed(
                ChunkStage::Waiting,
                ReadSignal::Quiescent,
            ),
            (_, ChunkInput::Failed { message }) => (
                ChunkReaderView { stage: ChunkStage::Ended, ..self },
                Err(BridgeErrorView { message: "read stdin"@, cause: Some(message@) }),
            ),
        }
    }
}

/// Reads chunks of plain text.
#[derive(Clone, Debug, PartialEq, Eq)]
pub struct ChunkReader {
    pub stage: ChunkStage,
    pub accumulator: ChunkAccumulator,
}

impl View for ChunkReader {
    type V = ChunkReaderView;

    open spec fn view(&self) -> ChunkReaderView {
        ChunkReaderView { stage: self.stage, pending: self.accumulator@ }
    }
}

/// What came of an input, as mathematical values.
pub open spec fn chunk_result(result: Result<Option<ParsedMessage>, BridgeError>) -> Result<
    Option<MessageView>,
    BridgeErrorView,
> {
    match result {
        Ok(Some(message)) => Ok(Some(message@)),
        Ok(None) => Ok(None),
        Err(error) => Err(error@),
    }
}

impl ChunkReader {
    /// A reader that has read nothing yet.
    pub fn new(policy: QuiescencePolicy) -> (reader: Self)
        ensures
            reader@ == (ChunkReaderView { stage: ChunkStage::Waiting, pending: Seq::empty() }),
            reader.accumulator.spec_policy() == policy,
    {
        ChunkReader { stage: ChunkStage::Waiting, accumulator: ChunkAccumulator::new(policy) }
    }

    fn close(&mut self, stage: ChunkStage, signal: ReadSignal<'_>) -> (result: Result<
        Option<ParsedMessage>,
        BridgeError,
    >)
        ensures
            (final(self)@, chunk_result(result)) == old(self)@.closed(stage, signal),
            final(self).accumulator.spec_policy() == old(self).accumulator.spec_policy(),
    {
        self.stage = stage;
        match self.accumulator.push(signal) {
            Some(bytes) => match text::read_utf8(&bytes) {
                Utf8Reading::Valid(text) => Ok(
                    Some(message::parse_prefixed_message(text.as_str())),
                ),
                Utf8Reading::Broken { .. } => Ok(None),
            },
            None => Ok(None),
        }
    }

    /// Takes in what came of reading, and hands out the message of the chunk
    /// that it ends. An input that is not waited for changes nothing.
    pub fn step(&mut self, input: ChunkInput) -> (result: Result<
        Option<ParsedMessage>,
        BridgeError,
    >)
        ensures
            (final(self)@, chunk_result(result)) == old(self)@.step(input),
            final(self).accumulator.spec_policy() == old(self).accumulator.spec_policy(),
    {
        match (self.stage, input) {
            (ChunkStage::Ended, _) | (ChunkStage::Waiting, ChunkInput::Quiet) => Ok(None),
            (_, ChunkInput::Bytes(bytes)) => {
                if bytes.len() == 0 {
                    return self.close(ChunkStage::Ended, ReadSignal::Eof);
                }
                self.stage = ChunkStage::Gathering;
                let _none = self.accumulator.push(ReadSignal::Data(bytes.as_slice()));
                Ok(None)
            },
            (ChunkStage::Gathering, ChunkInput::Quiet) => self.close(
                ChunkStage::Waiting,
                ReadSignal::Quiescent,
            ),
            (_, ChunkInput::Failed { message }) => {
                self.stage = ChunkStage::Ended;
                Err(BridgeError::because("read stdin", message))
            },
        }
    }
}

/// Bytes that come without a pause between them are one chunk: reading them in
/// two pieces or in one makes no difference.
pub proof fn pieces_without_a_pause_are_one_chunk(
    state: ChunkReaderView,
    first: Vec<u8>,
    second: Vec<u8>,
    both: Vec<u8>,
)
    requires
        first@.len() > 0,
        second@.len() > 0,
        both@ == first@ + second@,
    ensures
        state.step(ChunkInput::Bytes(first)).0.step(ChunkInput::Bytes(second)) == state.step(
            ChunkInput::Bytes(both),
        ),
{
    assert(state.pending + first@ + second@ =~= state.pending + both@);
}

/// A pause or the end of the input hands out all that was gathered, and nothing
/// is gathered twice.
pub proof fn a_pause_empties_the_chunk(state: ChunkReaderView, input: ChunkInput)
    requires
        state.stage == ChunkStage::Gathering,
        input == ChunkInput::Quiet || (input matches ChunkInput::Bytes(bytes) && bytes@.len() == 0),
    ensures
        state.step(input).0.pending.len() == 0,
        state.pending.len() > 0 && valid_utf8(state.pending) ==> state.step(input).1 == Ok::<
            Option<MessageView>,
            BridgeErrorView,
        >(Some(message::prefixed_message(decode_utf8(state.pending)))),
{
}

/// What the items of a piece of XML input add to the start of a session: a
/// system prompt, but only one, and messages. Nothing where there is a second
/// system prompt.
pub open spec fn prelude_items(system_prompt: Option<Seq<char>>, items: Seq<ParsedView>) -> Option<
    (Option<Seq<char>>, Seq<MessageView>),
>
    decreases items.len(),
{
    if items.len() == 0 {
        Some((system_prompt, Seq::empty()))
    } else {
        match prelude_items(system_prompt, items.drop_last()) {
            None => None,
            Some((prompt, messages)) => match items.last() {
                ParsedView::SystemPrompt(text) => if prompt is Some {
                    None
                } else {
                    Some((Some(text), messages))
                },
                ParsedView::Message(message) => Some((prompt, messages.push(message))),
            },
        }
    }
}

/// The start of a session from XML input: what comes up to the first messages.
#[derive(Clone, Debug)]
pub struct XmlReadPrelude {
    pub system_prompt: Option<String>,
    pub pending_messages: Vec<ParsedMessage>,
    pub stdin_closed: bool,
    pub parser: XmlInputParser,
}

/// The start of a session from XML input, as mathematical values.
#[verifier::ext_equal]
pub struct PreludeView {
    pub system_prompt: Option<Seq<char>>,
    pub messages: Seq<MessageView>,
    pub stdin_closed: bool,
    pub parser: ParserView,
}

impl View for XmlReadPrelude {
    type V = PreludeView;

    open spec fn view(&self) -> PreludeView {
        PreludeView {
            system_prompt: text::opt_text(self.system_prompt),
            messages: message_views(self.pending_messages@),
            stdin_closed: self.stdin_closed,
            parser: self.parser@,
        }
    }
}

impl Default for XmlReadPrelude {
    fn default() -> (prelude: Self)
        ensures
            prelude@ == PreludeView::fresh(),
    {
        let prelude = XmlReadPrelude {
            system_prompt: None,
            pending_messages: Vec::new(),
            stdin_closed: false,
            parser: XmlInputParser::default(),
        };
        assert(prelude@.messages =~= Seq::empty());
        prelude
    }
}

/// The failure to read a piece of input as UTF-8.
pub open spec fn no_utf8(bytes: Seq<u8>) -> BridgeErrorView {
    BridgeErrorView {
        message: "read XML stdin as UTF-8"@,
        cause: Some(text::utf8_error(bytes).1),
    }
}

/// The failure to parse the input.
pub open spec fn unparsed(message: Seq<char>) -> BridgeErrorView {
    BridgeErrorView { message: "parse XML stdin"@, cause: Some(message) }
}

/// What a piece of XML input parses to.
pub open spec fn parsed_piece(parser: ParserView, bytes: Seq<u8>) -> (
    ParserView,
    Result<Seq<ParsedView>, BridgeErrorView>,
) {
    if !valid_utf8(bytes) {
        (parser, Err(no_utf8(bytes)))
    } else {
        let (after, outcome) = ParserView {
            buffer: parser.buffer + decode_utf8(bytes),
            ..parser
        }.drained();
        (
            after,
            match outcome {
                Ok(items) => Ok(items),
                Err(message) => Err(unparsed(message)),
            },
        )
    }
}

/// Whether the input may end here.
pub open spec fn parse_finished(parser: ParserView) -> Result<(), BridgeErrorView> {
    if text::trimmed_start(parser.buffer).len() > 0 {
        Err(unparsed("incomplete XML stdin fragment"@))
    } else {
        Ok(())
    }
}

/// Parses a piece of XML input.
fn parse_piece(parser: &mut XmlInputParser, bytes: &Vec<u8>) -> (items: Result<
    Vec<ParsedXmlInput>,
    BridgeError,
>)
    ensures
        final(parser)@ == parsed_piece(old(parser)@, bytes@).0,
        match items {
            Ok(items) => parsed_piece(old(parser)@, bytes@).1 == Ok::<
                Seq<ParsedView>,
                BridgeErrorView,
            >(message::parsed_items(items@)),
            Err(error) => parsed_piece(old(parser)@, bytes@).1 == Err::<
                Seq<ParsedView>,
                BridgeErrorView,
            >(error@),
        },
{
    let input = match text::read_utf8(bytes) {
        Utf8Reading::Valid(input) => input,
        Utf8Reading::Broken { message, .. } => {
            return Err(BridgeError::because("read XML stdin as UTF-8", message));
        },
    };
    match parser.push(input.as_str()) {
        Ok(items) => Ok(items),
        Err(error) => Err(BridgeError::because("parse XML stdin", error.to_string())),
    }
}

/// Ends XML input.
fn finish_input(parser: &XmlInputParser) -> (finished: Result<(), BridgeError>)
    ensures
        match finished {
            Ok(_) => parse_finished(parser@) == Ok::<(), BridgeErrorView>(()),
            Err(error) => parse_finished(parser@) == Err::<(), BridgeErrorView>(error@),
        },
{
    match parser.finish() {
        Ok(_) => Ok(()),
        Err(error) => Err(BridgeError::because("parse XML stdin", error.to_string())),
    }
}

impl PreludeView {
    /// The start of a session before anything has been read.
    pub open spec fn fresh() -> Self {
        PreludeView {
            system_prompt: None,
            messages: Seq::empty(),
            stdin_closed: false,
            parser: ParserView { buffer: Seq::empty(), seen_message: false },
        }
    }

    /// Some bytes come; none at the end of the input. `true` once the start of
    /// the session is complete, which it is with the first messages or at the
    /// end of the input.
    pub open spec fn read(self, bytes: Seq<u8>) -> (Self, Result<bool, BridgeErrorView>) {
        if bytes.len() == 0 {
            match parse_finished(self.parser) {
                Ok(_) => (PreludeView { stdin_closed: true, ..self }, Ok(true)),
                Err(error) => (self, Err(error)),
            }
        } else {
            let (parser, outcome) = parsed_piece(self.parser, bytes);
            let after = PreludeView { parser, ..self };
            match outcome {
                Err(error) => (after, Err(error)),
                Ok(items) => match prelude_items(self.system_prompt, items) {
                    None => (
                        after,
                        Err(
                            BridgeErrorView {
                                message: "system_prompt specified more than once"@,
                                cause: None,
                            },
                        ),
                    ),
                    Some((system_prompt, messages)) => (
                        PreludeView { system_prompt, messages, ..after },
                        Ok(messages.len() > 0),
                    ),
                },
            }
        }
    }
}

/// Whether the start of the session is complete, as mathematical values.
pub open spec fn read_result(result: Result<bool, BridgeError>) -> Result<bool, BridgeErrorView> {
    match result {
        Ok(complete) => Ok(complete),
        Err(error) => Err(error@),
    }
}

/// The failure to read the input at all.
pub fn unread_stdin(message: String) -> (error: BridgeError)
    ensures
        error@ == (BridgeErrorView { message: "read stdin"@, cause: Some(message@) }),
{
    BridgeError::because("read stdin", message)
}

impl XmlReadPrelude {
    /// Takes in some bytes; none at the end of the input. Tells whether the
    /// start of the session is complete.
    pub fn read(&mut self, bytes: &Vec<u8>) -> (complete: Result<bool, BridgeError>)
        ensures
            (final(self)@, read_result(complete)) == old(self)@.read(bytes@),
    {
        if bytes.len() == 0 {
            return match finish_input(&self.parser) {
                Ok(_) => {
                    self.stdin_closed = true;
                    Ok(true)
                },
                Err(error) => Err(error),
            };
        }
        let items = match parse_piece(&mut self.parser, bytes) {
            Ok(items) => items,
            Err(error) => return Err(error),
        };
        let ghost all = message::parsed_items(items@);
        let ghost start = old(self)@.system_prompt;
        let mut system_prompt = text::opt_clone(&self.system_prompt);
        let mut pending_messages: Vec<ParsedMessage> = Vec::new();
        assert(message_views(pending_messages@) =~= Seq::empty());
        assert(all.take(0) =~= Seq::empty());
        for item in iter: items
            invariant
                iter.seq() == items@,
                all == message::parsed_items(items@),
                start == old(self)@.system_prompt,
                self.system_prompt == old(self).system_prompt,
                self.pending_messages == old(self).pending_messages,
                self.parser@ == parsed_piece(old(self)@.parser, bytes@).0,
                parsed_piece(old(self)@.parser, bytes@).1 == Ok::<Seq<ParsedView>, BridgeErrorView>(
                    all,
                ),
                bytes@.len() > 0,
                self.stdin_closed == old(self).stdin_closed,
                prelude_items(start, all.take(iter.index())) == Some(
                    (text::opt_text(system_prompt), message_views(pending_messages@)),
                ),
        {
            let ghost done = iter.index();
            let ghost before = message_views(pending_messages@);
            assert(all.take(done + 1).drop_last() =~= all.take(done));
            assert(all.take(done + 1).last() == item@);
            match item {
                ParsedXmlInput::SystemPrompt(prompt) => {
                    if system_prompt.is_some() {
                        proof {
                            lemma_second_prompt(start, all, done + 1);
                        }
                        return Err(BridgeError::new("system_prompt specified more than once"));
                    }
                    system_prompt = Some(prompt);
                },
                ParsedXmlInput::Message(message) => {
                    pending_messages.push(message);
                    assert(message_views(pending_messages@) =~= before.push(message@));
                },
            }
        }
        assert(all.take(all.len() as int) =~= all);
        let complete = pending_messages.len() > 0;
        self.system_prompt = system_prompt;
        self.pending_messages = pending_messages;
        Ok(complete)
    }
}

/// A second system prompt stays one, whatever follows it.
proof fn lemma_second_prompt(system_prompt: Option<Seq<char>>, items: Seq<ParsedView>, upto: int)
    requires
        0 <= upto <= items.len(),
        prelude_items(system_prompt, items.take(upto)) is None,
    ensures
        prelude_items(system_prompt, items) is None,
    decreases items.len() - upto,
{
    if upto == items.len() {
        assert(items.take(upto) =~= items);
    } else {
        assert(items.take(upto + 1).drop_last() =~= items.take(upto));
        lemma_second_prompt(system_prompt, items, upto + 1);
    }
}

/// The messages among some items, up to the first system prompt.
pub open spec fn messages_before_prompt(items: Seq<ParsedView>) -> Seq<MessageView>
    decreases items.len(),
{
    if items.len() == 0 {
        Seq::empty()
    } else {
        match items.first() {
            ParsedView::SystemPrompt(_) => Seq::empty(),
            ParsedView::Message(message) => seq![message] + messages_before_prompt(
                items.drop_first(),
            ),
        }
    }
}

/// Whether there is a system prompt among some items.
pub open spec fn has_prompt(items: Seq<ParsedView>) -> bool {
    exists|i: int| 0 <= i < items.len() && (#[trigger] items[i]) is SystemPrompt
}

/// What a piece of XML input brings once the session has started: messages, and
/// whether the input has ended. A system prompt is too late by then.
pub open spec fn xml_piece(parser: ParserView, bytes: Seq<u8>) -> (
    ParserView,
    Seq<MessageView>,
    Result<bool, BridgeErrorView>,
) {
    if bytes.len() == 0 {
        (
            parser,
            Seq::empty(),
            match parse_finished(parser) {
                Ok(_) => Ok(true),
                Err(error) => Err(error),
            },
        )
    } else {
        let (after, outcome) = parsed_piece(parser, bytes);
        match outcome {
            Err(error) => (after, Seq::empty(), Err(error)),
            Ok(items) => (
                after,
                messages_before_prompt(items),
                if has_prompt(items) {
                    Err(
                        BridgeErrorView {
                            message: "system_prompt must appear before the first message"@,
                            cause: None,
                        },
                    )
                } else {
                    Ok(false)
                },
            ),
        }
    }
}

/// Takes in some bytes once the session has started; none at the end of the
/// input. Hands out messages, and tells whether the input has ended.
pub fn read_xml_chunk(parser: &mut XmlInputParser, bytes: &Vec<u8>) -> (read: (
    Vec<ParsedMessage>,
    Result<bool, BridgeError>,
))
    ensures
        (final(parser)@, message_views(read.0@), read_result(read.1)) == xml_piece(
            old(parser)@,
            bytes@,
        ),
{
    let mut messages: Vec<ParsedMessage> = Vec::new();
    assert(message_views(messages@) =~= Seq::empty());
    if bytes.len() == 0 {
        return match finish_input(parser) {
            Ok(_) => (messages, Ok(true)),
            Err(error) => (messages, Err(error)),
        };
    }
    let items = match parse_piece(parser, bytes) {
        Ok(items) => items,
        Err(error) => return (messages, Err(error)),
    };
    let ghost all = message::parsed_items(items@);
    assert(all.skip(0) =~= all);
    assert(message_views(messages@) + messages_before_prompt(all) =~= messages_before_prompt(all));
    for item in iter: items
        invariant
            iter.seq() == items@,
            all == message::parsed_items(items@),
            bytes@.len() > 0,
            parser@ == parsed_piece(old(parser)@, bytes@).0,
            parsed_piece(old(parser)@, bytes@).1 == Ok::<Seq<ParsedView>, BridgeErrorView>(all),
            messages_before_prompt(all) == message_views(messages@) + messages_before_prompt(
                all.skip(iter.index()),
            ),
            forall|i: int| 0 <= i < iter.index() ==> (#[trigger] all[i]) is Message,
    {
        let ghost done = iter.index();
        let ghost before = message_views(messages@);
        let ghost rest = all.skip(done);
        assert(rest.first() == item@);
        assert(rest.drop_first() =~= all.skip(done + 1));
        assert(all[done] == item@);
        match item {
            ParsedXmlInput::SystemPrompt(_) => {
                assert(has_prompt(all));
                assert(before + Seq::empty() =~= before);
                return (
                    messages,
                    Err(BridgeError::new("system_prompt must appear before the first message")),
                );
            },
            ParsedXmlInput::Message(message) => {
                messages.push(message);
                assert(message_views(messages@) =~= before.push(message@));
                assert(before + (seq![message@] + messages_before_prompt(rest.drop_first()))
                    =~= before.push(message@) + messages_before_prompt(rest.drop_first()));
            },
        }
    }
    assert(all.skip(all.len() as int) =~= Seq::empty());
    assert(message_views(messages@) + Seq::empty() =~= message_views(messages@));
    (messages, Ok(false))
}

/// Once a message has been seen, no system prompt comes any more: a piece of
/// input parses to messages alone, or is refused.
pub proof fn no_prompt_comes_late(parser: ParserView, bytes: Seq<u8>)
    requires
        parser.seen_message,
    ensures
        xml_piece(parser, bytes).0.seen_message,
        match parsed_piece(parser, bytes).1 {
            Ok(items) => !has_prompt(items),
            Err(_) => true,
        },
{
    let state = ParserView { buffer: parser.buffer + decode_utf8(bytes), ..parser };
    message::a_seen_message_stays_seen(state);
    message::no_system_prompt_behind_a_message(state);
}

} // verus!
