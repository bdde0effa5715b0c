//! Reads structured input from a file descriptor: bytes become text, text
//! becomes parsed input, and malformed input is skipped.

use vstd::prelude::*;
use vstd::utf8::*;

use crate::message;
use crate::message::{NextInput, NextInputView, ParsedView, ParserView, XmlInputParser};
use crate::structured_input::{ReaderEventView, StructuredInputReaderEvent};
use crate::text;
use crate::text::Utf8Reading;

verus! {

/// The number of bytes in the longest valid start of some bytes.
pub open spec fn valid_length(bytes: Seq<u8>) -> nat
    decreases bytes.len(),
{
    if bytes.len() == 0 || valid_utf8(bytes) {
        bytes.len()
    } else {
        valid_length(bytes.drop_last())
    }
}

proof fn lemma_valid_length(bytes: Seq<u8>, valid_up_to: int)
    requires
        0 <= valid_up_to <= bytes.len(),
        valid_utf8(bytes.take(valid_up_to)),
        forall|longer: int|
            valid_up_to < longer <= bytes.len() ==> !valid_utf8(#[trigger] bytes.take(longer)),
    ensures
        valid_length(bytes) == valid_up_to,
    decreases bytes.len(),
{
    assert(bytes.take(bytes.len() as int) =~= bytes);
    if valid_up_to < bytes.len() {
        let shorter = bytes.drop_last();
        assert forall|longer: int| 0 <= longer <= shorter.len() implies #[trigger] shorter.take(
            longer,
        ) == bytes.take(longer) by {
            assert(shorter.take(longer) =~= bytes.take(longer));
        }
        assert(!valid_utf8(bytes.take(bytes.len() as int)));
        lemma_valid_length(shorter, valid_up_to);
    }
}

/// The longest valid start is valid, and at most everything.
proof fn lemma_valid_start(bytes: Seq<u8>)
    ensures
        valid_length(bytes) <= bytes.len(),
        valid_utf8(bytes.take(valid_length(bytes) as int)),
    decreases bytes.len(),
{
    if bytes.len() == 0 || valid_utf8(bytes) {
        assert(bytes.take(bytes.len() as int) =~= bytes);
    } else {
        lemma_valid_start(bytes.drop_last());
        let length = valid_length(bytes.drop_last()) as int;
        assert(bytes.take(length) =~= bytes.drop_last().take(length));
    }
}

/// Parsed input as it is reported.
pub open spec fn parsed_events(items: Seq<ParsedView>) -> Seq<ReaderEventView> {
    items.map_values(|item: ParsedView| ReaderEventView::Parsed(item))
}

/// Reads a buffer on: every complete element is reported, parsed or refused, and
/// malformed input is reported and skipped up to where the next element can
/// start.
pub open spec fn read_on(parser: ParserView) -> (ParserView, Seq<ReaderEventView>)
    decreases parser.buffer.len(),
{
    proof {
        text::lemma_trimmed_longer(parser.buffer, Seq::empty());
        message::resynchronizing_makes_progress(parser.next().0);
    }
    match parser.next() {
        (after, NextInputView::Parsed(item)) => {
            let (rest, events) = read_on(after);
            (rest, seq![ReaderEventView::Parsed(item)] + events)
        },
        (after, NextInputView::Refused(message)) => {
            let (rest, events) = read_on(after);
            (rest, seq![ReaderEventView::ParseError(message)] + events)
        },
        (after, NextInputView::Malformed(message)) => {
            let failure = seq![ReaderEventView::ParseError(message)];
            match after.resynchronized() {
                (kept, true) => {
                    let (rest, events) = read_on(kept);
                    (rest, failure + events)
                },
                (kept, false) => (kept, failure),
            }
        },
        (after, NextInputView::Incomplete) => (after, Seq::empty()),
    }
}

/// Takes in text: what is then in the buffer is read on.
pub open spec fn absorbed(parser: ParserView, text: Seq<char>) -> (ParserView, Seq<ReaderEventView>) {
    read_on(parser.extended(text))
}

/// Reported events, as mathematical text.
pub open spec fn reader_events(events: Seq<StructuredInputReaderEvent>) -> Seq<ReaderEventView> {
    events.map_values(|event: StructuredInputReaderEvent| event@)
}

/// How far the reader has come.
#[derive(Clone, Copy, Debug, PartialEq, Eq, Structural)]
pub enum ReaderStage {
    /// The flags of the descriptor are asked for.
    GettingFlags,
    /// The descriptor is made to read without waiting.
    Preparing { original_flags: i32 },
    /// What is there already is read.
    Draining { original_flags: i32 },
    /// The flags of the descriptor are put back.
    Restoring { original_flags: i32 },
    /// Input is read as it comes.
    Streaming,
    /// Nothing is read any more.
    Stopped,
}

/// What the reader is to do next.
#[derive(Clone, Copy, Debug, PartialEq, Eq, Structural)]
pub enum ReaderAction {
    GetFlags,
    /// Set these flags, together with the one for reading without waiting.
    SetNonblocking { original_flags: i32 },
    /// Read without waiting.
    ReadNow,
    SetFlags { original_flags: i32 },
    /// Wait until there is something to read, and read it.
    ReadNext,
    Stop,
}

/// What came of an action of the reader.
#[derive(Debug, PartialEq, Eq)]
pub enum ReaderInput {
    Flags(i32),
    FlagsSet,
    /// The flags could not be read or set.
    FlagsFailed { message: String },
    /// Some bytes were read; none at the end of the input.
    Bytes(Vec<u8>),
    ReadFailed { would_block: bool, message: String },
}

/// The state of a reader, as mathematical values.
#[verifier::ext_equal]
pub struct XmlReaderView {
    pub stage: ReaderStage,
    pub parser: ParserView,
    pub pending: Seq<u8>,
}

/// That the descriptor could not be prepared.
pub open spec fn unprepared(message: Seq<char>) -> ReaderEventView {
    ReaderEventView::ReadError("Failed to prepare structured input reader: "@ + message)
}

/// That the input could not be read.
pub open spec fn unread(message: Seq<char>) -> ReaderEventView {
    ReaderEventView::ReadError("Failed to read structured input: "@ + message)
}

/// That the input is no UTF-8.
pub open spec fn no_utf8(message: Seq<char>) -> Seq<char> {
    "Structured input is not valid UTF-8: "@ + message
}

impl XmlReaderView {
    /// Takes in bytes: the longest valid start is parsed, and an unfinished
    /// character at the end waits for the rest of it.
    pub open spec fn forwarded(self, input: Seq<u8>) -> (
        Self,
        Seq<ReaderEventView>,
        Result<(), Seq<char>>,
    ) {
        let bytes = self.pending + input;
        let waiting = XmlReaderView { pending: bytes, ..self };
        let length = valid_length(bytes) as int;
        if !valid_utf8(bytes) && !text::utf8_error(bytes).0 {
            (waiting, Seq::empty(), Err(no_utf8(text::utf8_error(bytes).1)))
        } else if length == 0 {
            (waiting, Seq::empty(), Ok(()))
        } else {
            let (parser, events) = absorbed(self.parser, decode_utf8(bytes.take(length)));
            (XmlReaderView { parser, pending: bytes.skip(length), ..self }, events, Ok(()))
        }
    }

    /// What is reported at the end of the input.
    pub open spec fn finished(self) -> Seq<ReaderEventView> {
        if self.pending.len() > 0 {
            seq![
                ReaderEventView::ReadError(
                    if valid_utf8(self.pending) {
                        "Structured input ended with an incomplete UTF-8 sequence."@
                    } else {
                        no_utf8(text::utf8_error(self.pending).1)
                    },
                ),
            ]
        } else if text::trimmed_start(self.parser.buffer).len() > 0 {
            seq![
                ReaderEventView::ParseError("incomplete XML stdin fragment"@),
                ReaderEventView::Eof,
            ]
        } else {
            seq![ReaderEventView::Eof]
        }
    }

    pub open spec fn at(self, stage: ReaderStage) -> Self {
        XmlReaderView { stage, ..self }
    }

    /// Some bytes were read; none at the end of the input.
    pub open spec fn read(self, bytes: Seq<u8>) -> (Self, Seq<ReaderEventView>) {
        if bytes.len() == 0 {
            (self.at(ReaderStage::Stopped), self.finished())
        } else {
            let (after, events, outcome) = self.forwarded(bytes);
            match outcome {
                Ok(_) => (after, events),
                Err(message) => (
                    after.at(ReaderStage::Stopped),
                    events.push(ReaderEventView::ReadError(message)),
                ),
            }
        }
    }

    /// What comes of an input. An input that does not belong to the stage
    /// changes nothing.
    pub open spec fn step(self, input: ReaderInput) -> (Self, Seq<ReaderEventView>) {
        match (self.stage, input) {
            (ReaderStage::GettingFlags, ReaderInput::Flags(original_flags)) => (
                self.at(ReaderStage::Preparing { original_flags }),
                Seq::empty(),
            ),
            (ReaderStage::Preparing { original_flags }, ReaderInput::FlagsSet) => (
                self.at(ReaderStage::Draining { original_flags }),
                Seq::empty(),
            ),
            (ReaderStage::Restoring { .. }, ReaderInput::FlagsSet) => (
                self.at(ReaderStage::Streaming),
                seq![ReaderEventView::StartupDrainComplete],
            ),
            (
                ReaderStage::GettingFlags
                | ReaderStage::Preparing { .. }
                | ReaderStage::Restoring { .. },
                ReaderInput::FlagsFailed { message },
            ) => (self.at(ReaderStage::Stopped), seq![unprepared(message@)]),
            (
                ReaderStage::Draining { .. } | ReaderStage::Streaming,
                ReaderInput::Bytes(bytes),
            ) => self.read(bytes@),
            (
                ReaderStage::Draining { original_flags },
                ReaderInput::ReadFailed { would_block: true, .. },
            ) => (self.at(ReaderStage::Restoring { original_flags }), Seq::empty()),
            (
                ReaderStage::Draining { .. } | ReaderStage::Streaming,
                ReaderInput::ReadFailed { message, .. },
            ) => (self.at(ReaderStage::Stopped), seq![unread(message@)]),
            _ => (self, Seq::empty()),
        }
    }
}

/// Reads structured input from a descriptor.
#[derive(Clone, Debug)]
pub struct XmlInputReader {
    pub stage: ReaderStage,
    pub parser: XmlInputParser,
    pub pending_utf8_bytes: Vec<u8>,
}

impl View for XmlInputReader {
    type V = XmlReaderView;

    open spec fn view(&self) -> XmlReaderView {
        XmlReaderView {
            stage: self.stage,
            parser: self.parser@,
            pending: self.pending_utf8_bytes@,
        }
    }
}

fn no_events() -> (events: Vec<StructuredInputReaderEvent>)
    ensures
        reader_events(events@) == Seq::<ReaderEventView>::empty(),
{
    let events: Vec<StructuredInputReaderEvent> = Vec::new();
    assert(reader_events(events@) =~= Seq::empty());
    events
}

fn add_event(events: &mut Vec<StructuredInputReaderEvent>, event: StructuredInputReaderEvent)
    ensures
        reader_events(final(events)@) == reader_events(old(events)@).push(event@),
{
    events.push(event);
    assert(reader_events(events@) =~= reader_events(old(events)@).push(event@));
}

fn one_event(event: StructuredInputReaderEvent) -> (events: Vec<StructuredInputReaderEvent>)
    ensures
        reader_events(events@) == seq![event@],
{
    let mut events = no_events();
    add_event(&mut events, event);
    assert(reader_events(events@) =~= seq![event@]);
    events
}

/// Tells whether a descriptor can be read from: its number is not negative.
pub fn check_xml_input_fd(xml_input_fd: i32) -> (checked: Result<(), String>)
    ensures
        checked is Ok <==> xml_input_fd >= 0,
        checked matches Err(message) ==> message@ == "invalid --xml-input-fd value `"@
            + text::decimal_int(xml_input_fd as int) + "`"@,
{
    if xml_input_fd < 0 {
        let shown = text::decimal_i64(xml_input_fd as i64);
        Err(text::concat3("invalid --xml-input-fd value `", shown.as_str(), "`"))
    } else {
        Ok(())
    }
}

impl XmlInputReader {
    /// A reader that has read nothing yet.
    pub fn new() -> (reader: Self)
        ensures
            reader@ == (XmlReaderView {
                stage: ReaderStage::GettingFlags,
                parser: ParserView { buffer: Seq::empty(), seen_message: false },
                pending: Seq::empty(),
            }),
    {
        XmlInputReader {
            stage: ReaderStage::GettingFlags,
            parser: XmlInputParser::default(),
            pending_utf8_bytes: Vec::new(),
        }
    }

    /// What the reader is to do next.
    pub fn action(&self) -> (action: ReaderAction)
        ensures
            action == match self@.stage {
                ReaderStage::GettingFlags => ReaderAction::GetFlags,
                ReaderStage::Preparing { original_flags } => ReaderAction::SetNonblocking {
                    original_flags,
                },
                ReaderStage::Draining { .. } => ReaderAction::ReadNow,
                ReaderStage::Restoring { original_flags } => ReaderAction::SetFlags {
                    original_flags,
                },
                ReaderStage::Streaming => ReaderAction::ReadNext,
                ReaderStage::Stopped => ReaderAction::Stop,
            },
    {
        match self.stage {
            ReaderStage::GettingFlags => ReaderAction::GetFlags,
            ReaderStage::Preparing { original_flags } => ReaderAction::SetNonblocking {
                original_flags,
            },
            ReaderStage::Draining { .. } => ReaderAction::ReadNow,
            ReaderStage::Restoring { original_flags } => ReaderAction::SetFlags {
                original_flags,
            },
            ReaderStage::Streaming => ReaderAction::ReadNext,
            ReaderStage::Stopped => ReaderAction::Stop,
        }
    }

    /// Parses text, and reports every element that it completes and what is
    /// malformed.
    fn forward_parsed_input(&mut self, input: &str) -> (events: Vec<StructuredInputReaderEvent>)
        ensures
            final(self).stage == old(self).stage,
            final(self).pending_utf8_bytes == old(self).pending_utf8_bytes,
            (final(self)@.parser, reader_events(events@)) == absorbed(old(self)@.parser, input@),
    {
        let mut events = no_events();
        self.parser.buffer.append(input);
        let ghost start = self@.parser;
        assert(read_on(start).1 =~= Seq::<ReaderEventView>::empty() + read_on(start).1);
        loop
            invariant
                self.stage == old(self).stage,
                self.pending_utf8_bytes == old(self).pending_utf8_bytes,
                start == old(self)@.parser.extended(input@),
                read_on(start) == (
                    read_on(self@.parser).0,
                    reader_events(events@) + read_on(self@.parser).1,
                ),
            decreases self@.parser.buffer.len(),
        {
            let ghost told = reader_events(events@);
            let next = self.parser.next_input();
            let ghost after = self@.parser;
            match next {
                NextInput::Parsed(item) => {
                    add_event(&mut events, StructuredInputReaderEvent::Parsed(item));
                    assert(told + (seq![ReaderEventView::Parsed(item@)] + read_on(after).1)
                        =~= reader_events(events@) + read_on(after).1);
                },
                NextInput::Refused(error) => {
                    add_event(
                        &mut events,
                        StructuredInputReaderEvent::ParseError(error.to_string()),
                    );
                    assert(told + (seq![ReaderEventView::ParseError(error@)] + read_on(after).1)
                        =~= reader_events(events@) + read_on(after).1);
                },
                NextInput::Malformed(error) => {
                    add_event(
                        &mut events,
                        StructuredInputReaderEvent::ParseError(error.to_string()),
                    );
                    proof {
                        message::resynchronizing_makes_progress(after);
                    }
                    let ghost failure = seq![ReaderEventView::ParseError(error@)];
                    if !self.parser.discard_malformed_prefix() {
                        assert(told + failure =~= reader_events(events@));
                        return events;
                    }
                    let ghost kept = self@.parser;
                    assert(told + (failure + read_on(kept).1) =~= reader_events(events@)
                        + read_on(kept).1);
                },
                NextInput::Incomplete => {
                    assert(told + Seq::empty() =~= told);
                    return events;
                },
            }
        }
    }

    /// Takes in bytes: the longest valid start is parsed, and an unfinished
    /// character at the end waits for the rest of it. At most three bytes wait.
    pub fn forward_utf8_bytes(&mut self, input_bytes: Vec<u8>) -> (forwarded: (
        Vec<StructuredInputReaderEvent>,
        Result<(), String>,
    ))
        ensures
            ({
                let (state, events, outcome) = old(self)@.forwarded(input_bytes@);
                &&& final(self)@ == state
                &&& reader_events(forwarded.0@) == events
                &&& match forwarded.1 {
                    Ok(_) => outcome is Ok && final(self)@.pending.len() <= 3,
                    Err(message) => outcome == Err::<(), Seq<char>>(message@),
                }
            }),
    {
        let mut input_bytes = input_bytes;
        let ghost bytes = self.pending_utf8_bytes@ + input_bytes@;
        self.pending_utf8_bytes.append(&mut input_bytes);
        assert(self.pending_utf8_bytes@ == bytes);
        let valid_up_to: usize = match text::read_utf8(&self.pending_utf8_bytes) {
            Utf8Reading::Valid(_) => self.pending_utf8_bytes.len(),
            Utf8Reading::Broken { valid_up_to, incomplete, message } => {
                if !incomplete {
                    let message = text::concat2(
                        "Structured input is not valid UTF-8: ",
                        message.as_str(),
                    );
                    return (no_events(), Err(message));
                }
                proof {
                    lemma_valid_length(bytes, valid_up_to as int);
                }
                valid_up_to
            },
        };
        assert(valid_up_to == valid_length(bytes));
        if valid_up_to == 0 {
            return (no_events(), Ok(()));
        }
        proof {
            lemma_valid_start(bytes);
        }
        let rest = self.pending_utf8_bytes.split_off(valid_up_to);
        assert(self.pending_utf8_bytes@ =~= bytes.take(valid_up_to as int));
        assert(rest@ =~= bytes.skip(valid_up_to as int));
        let input = match text::read_utf8(&self.pending_utf8_bytes) {
            Utf8Reading::Valid(input) => input,
            Utf8Reading::Broken { message, .. } => {
                return (no_events(), Err(message));
            },
        };
        let events = self.forward_parsed_input(input.as_str());
        self.pending_utf8_bytes = rest;
        (events, Ok(()))
    }

    /// What is reported at the end of the input.
    pub fn finish_reader_input(&self) -> (events: Vec<StructuredInputReaderEvent>)
        ensures
            reader_events(events@) == self@.finished(),
    {
        if self.pending_utf8_bytes.len() > 0 {
            let message = match text::read_utf8(&self.pending_utf8_bytes) {
                Utf8Reading::Valid(_) =>
                    "Structured input ended with an incomplete UTF-8 sequence.".to_owned(),
                Utf8Reading::Broken { message, .. } => text::concat2(
                    "Structured input is not valid UTF-8: ",
                    message.as_str(),
                ),
            };
            return one_event(StructuredInputReaderEvent::ReadError(message));
        }
        let mut events = no_events();
        if let Err(error) = self.parser.finish() {
            add_event(&mut events, StructuredInputReaderEvent::ParseError(error.to_string()));
        }
        add_event(&mut events, StructuredInputReaderEvent::Eof);
        assert(reader_events(events@) =~= self@.finished());
        events
    }

    /// Takes in what came of the last action. An input that does not belong to
    /// the stage changes nothing.
    pub fn step(&mut self, input: ReaderInput) -> (events: Vec<StructuredInputReaderEvent>)
        ensures
            (final(self)@, reader_events(events@)) == old(self)@.step(input),
    {
        match (self.stage, input) {
            (ReaderStage::GettingFlags, ReaderInput::Flags(original_flags)) => {
                self.stage = ReaderStage::Preparing { original_flags };
                no_events()
            },
            (ReaderStage::Preparing { original_flags }, ReaderInput::FlagsSet) => {
                self.stage = ReaderStage::Draining { original_flags };
                no_events()
            },
            (ReaderStage::Restoring { .. }, ReaderInput::FlagsSet) => {
                self.stage = ReaderStage::Streaming;
                one_event(StructuredInputReaderEvent::StartupDrainComplete)
            },
            (
                ReaderStage::GettingFlags
                | ReaderStage::Preparing { .. }
                | ReaderStage::Restoring { .. },
                ReaderInput::FlagsFailed { message },
            ) => {
                self.stage = ReaderStage::Stopped;
                let message = text::concat2(
                    "Failed to prepare structured input reader: ",
                    message.as_str(),
                );
                one_event(StructuredInputReaderEvent::ReadError(message))
            },
            (
                ReaderStage::Draining { .. } | ReaderStage::Streaming,
                ReaderInput::Bytes(bytes),
            ) => self.read_bytes(bytes),
            (
                ReaderStage::Draining { original_flags },
                ReaderInput::ReadFailed { would_block: true, .. },
            ) => {
                self.stage = ReaderStage::Restoring { original_flags };
                no_events()
            },
            (
                ReaderStage::Draining { .. } | ReaderStage::Streaming,
                ReaderInput::ReadFailed { message, .. },
            ) => {
                self.stage = ReaderStage::Stopped;
                let message = text::concat2(
                    "Failed to read structured input: ",
                    message.as_str(),
                );
                one_event(StructuredInputReaderEvent::ReadError(message))
            },
            _ => no_events(),
        }
    }

    fn read_bytes(&mut self, bytes: Vec<u8>) -> (events: Vec<StructuredInputReaderEvent>)
        ensures
            (final(self)@, reader_events(events@)) == old(self)@.read(bytes@),
    {
        if bytes.len() == 0 {
            self.stage = ReaderStage::Stopped;
            return self.finish_reader_input();
        }
        let (mut events, outcome) = self.forward_utf8_bytes(bytes);
        if let Err(message) = outcome {
            self.stage = ReaderStage::Stopped;
            add_event(&mut events, StructuredInputReaderEvent::ReadError(message));
        }
        events
    }
}

/// Whether an event says that nothing more will come.
pub open spec fn is_last(event: ReaderEventView) -> bool {
    event is Eof || event is ReadError
}

/// Whether none of some events says that nothing more will come.
pub open spec fn none_is_last(events: Seq<ReaderEventView>) -> bool {
    forall|i: int| 0 <= i < events.len() ==> !is_last(#[trigger] events[i])
}

/// Whether some events report nothing but input.
spec fn only_input(events: Seq<ReaderEventView>) -> bool {
    forall|i: int|
        0 <= i < events.len() ==> (#[trigger] events[i]) is Parsed || events[i] is ParseError
}

proof fn lemma_goes_on(parser: ParserView)
    ensures
        only_input(read_on(parser).1),
    decreases parser.buffer.len(),
{
    text::lemma_trimmed_longer(parser.buffer, Seq::empty());
    message::resynchronizing_makes_progress(parser.next().0);
    match parser.next() {
        (after, NextInputView::Parsed(_) | NextInputView::Refused(_)) => lemma_goes_on(after),
        (after, NextInputView::Malformed(_)) => lemma_goes_on(after.resynchronized().0),
        _ => {},
    }
}

/// The end is reported exactly once: a reader that stops reports the end of the
/// input or a failure to read it as its last event, and no event before that
/// one, nor any event of a reader that goes on, is such a report. A reader that
/// has stopped reports nothing.
pub proof fn the_end_is_reported_once(state: XmlReaderView, input: ReaderInput)
    ensures
        state.stage is Stopped ==> state.step(input) == (state, Seq::<ReaderEventView>::empty()),
        !(state.step(input).0.stage is Stopped) ==> none_is_last(state.step(input).1),
        !(state.stage is Stopped) && state.step(input).0.stage is Stopped ==> {
            let events = state.step(input).1;
            events.len() > 0 && is_last(events.last()) && none_is_last(events.drop_last())
        },
{
    if let ReaderInput::Bytes(bytes) = input {
        let all = state.pending + bytes@;
        lemma_goes_on(state.parser.extended(decode_utf8(all.take(valid_length(all) as int))));
        let events = state.step(input).1;
        let (_, forwarded, outcome) = state.forwarded(bytes@);
        if outcome is Err {
            assert(forwarded =~= Seq::empty());
        }
    }
}

/// That what was there at the start has been read is reported exactly when the
/// reader starts to wait for input.
pub proof fn the_drain_is_reported_once(state: XmlReaderView, input: ReaderInput)
    ensures
        state.step(input).1.contains(ReaderEventView::StartupDrainComplete) <==> !(
        state.stage is Streaming) && state.step(input).0.stage is Streaming,
{
    let events = state.step(input).1;
    if state.stage is Restoring && input is FlagsSet {
        assert(events[0] == ReaderEventView::StartupDrainComplete);
    }
    if let ReaderInput::Bytes(bytes) = input {
        let all = state.pending + bytes@;
        lemma_goes_on(state.parser.extended(decode_utf8(all.take(valid_length(all) as int))));
    }
}

/// No byte is lost or read twice: the text that is parsed and the bytes that
/// still wait are the bytes that waited and the bytes that came.
pub proof fn no_byte_is_lost(state: XmlReaderView, input: Seq<u8>)
    requires
        state.forwarded(input).2 is Ok,
    ensures
        ({
            let bytes = state.pending + input;
            let parsed = decode_utf8(bytes.take(valid_length(bytes) as int));
            encode_utf8(parsed) + state.forwarded(input).0.pending == bytes
        }),
{
    let bytes = state.pending + input;
    let length = valid_length(bytes) as int;
    lemma_valid_start(bytes);
    decode_utf8_encode_utf8(bytes.take(length));
    assert(bytes.take(length) + bytes.skip(length) =~= bytes);
    if length == 0 {
        assert(bytes.take(0) =~= Seq::empty());
        assert(bytes.skip(0) =~= bytes);
    }
}

/// Malformed XML stops nothing: as long as the bytes can be UTF-8, the reader
/// stays where it is and reports nothing but parsed input and failures to parse.
pub proof fn malformed_input_stops_nothing(state: XmlReaderView, input: Vec<u8>)
    requires
        state.stage is Draining || state.stage is Streaming,
        input@.len() > 0,
        state.forwarded(input@).2 is Ok,
    ensures
        ({
            let (after, events) = state.step(ReaderInput::Bytes(input));
            &&& after.stage == state.stage
            &&& forall|i: int|
                0 <= i < events.len() ==> (#[trigger] events[i]) is Parsed
                    || events[i] is ParseError
        }),
{
    let all = state.pending + input@;
    lemma_goes_on(state.parser.extended(decode_utf8(all.take(valid_length(all) as int))));
}

/// Nothing behind a failure is lost with it: behind an element that is refused
/// the rest of the input is read, and behind malformed input all of it from where
/// the next element can start, and so on after each further failure.
pub proof fn input_behind_a_failure_is_reported(parser: ParserView)
    ensures
        match parser.next() {
            (after, NextInputView::Refused(message)) => read_on(parser) == (
                read_on(after).0,
                seq![ReaderEventView::ParseError(message)] + read_on(after).1,
            ),
            (after, NextInputView::Malformed(message)) => {
                let (kept, any) = after.resynchronized();
                &&& read_on(parser) == (
                    read_on(kept).0,
                    seq![ReaderEventView::ParseError(message)] + read_on(kept).1,
                )
                &&& !any ==> forall|at: int|
                    0 < at < after.buffer.len() ==> !message::supported_root_prefix(
                        #[trigger] after.buffer.skip(at),
                    )
            },
            _ => true,
        },
{
    if let (after, NextInputView::Malformed(message)) = parser.next() {
        let (kept, any) = after.resynchronized();
        message::resynchronizing_makes_progress(after);
        if !any {
            message::white_space_is_no_input(kept);
            assert(text::trimmed_start(kept.buffer).len() == 0);
            let failure = seq![ReaderEventView::ParseError(message)];
            assert(failure + Seq::empty() =~= failure);
            assert forall|at: int| 0 < at < after.buffer.len() implies
                !message::supported_root_prefix(#[trigger] after.buffer.skip(at)) by {
                if message::supported_root_prefix(after.buffer.skip(at)) {
                    message::nothing_valid_is_dropped(after, at);
                }
            }
        }
    }
}

/// A failure takes nothing with it: what is parsed before it is reported before
/// it.
pub proof fn input_before_a_failure_is_reported(parser: ParserView)
    ensures
        parser.next() matches (after, NextInputView::Parsed(item)) ==> read_on(parser) == (
            read_on(after).0,
            seq![ReaderEventView::Parsed(item)] + read_on(after).1,
        ),
{
}

/// Where nothing fails, everything that is parsed is reported, and nothing else.
pub proof fn well_formed_input_is_reported(parser: ParserView)
    requires
        parser.drained().1 is Ok,
    ensures
        read_on(parser) == (parser.drained().0, parsed_events(parser.drained().1->Ok_0)),
    decreases parser.buffer.len(),
{
    text::lemma_trimmed_longer(parser.buffer, Seq::empty());
    match parser.next() {
        (after, NextInputView::Parsed(item)) => {
            well_formed_input_is_reported(after);
            let items = after.drained().1->Ok_0;
            assert(parsed_events(seq![item] + items) =~= seq![ReaderEventView::Parsed(item)]
                + parsed_events(items));
        },
        _ => {
            assert(parsed_events(Seq::empty()) =~= Seq::empty());
        },
    }
}

} // verus!
