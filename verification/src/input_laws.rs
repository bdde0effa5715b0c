//! How the input of a bridge becomes messages, and what its options mean.

use vstd::prelude::*;
use vstd::utf8::*;

use crate::bridge_input;
use crate::bridge_input::{
    BridgeErrorView, ChunkInput, ChunkReaderView, ChunkStage, PreludeView,
};
use crate::bridge_options;
use crate::bridge_options::{BridgeOptions, StdinFormat};
use crate::chunking;
use crate::chunking::ReadSignal;
use crate::controller_model::MessageView;
use crate::message;
use crate::message::{ParsedView, ParserView};
use crate::protocol::{ApprovalsReviewer, AskForApproval};
use crate::queue_mode::QueueMode;
use crate::sideband;
use crate::sideband::ThreadResolvedPayload;
use crate::structured_input::ReaderEventView;
use crate::text;
use crate::turn_client::ThreadSessionRequest;
use crate::xml_reader;
use crate::xml_reader::{ReaderAction, ReaderInput, ReaderStage, XmlInputReader, XmlReaderView};

verus! {

/// Data only grows the current chunk; a pause or the end of the stream closes
/// it, and hands it out where it holds something.
pub proof fn only_a_pause_or_the_end_closes_a_chunk(pending: Seq<u8>, data: &[u8])
    ensures
        chunking::pushed(pending, ReadSignal::Data(data)) == (pending + data@, None::<Seq<u8>>),
        chunking::pushed(pending, ReadSignal::Quiescent) == chunking::pushed(
            pending,
            ReadSignal::Eof,
        ),
        chunking::pushed(pending, ReadSignal::Quiescent).0.len() == 0,
        pending.len() > 0 ==> chunking::pushed(pending, ReadSignal::Quiescent).1 == Some(pending),
        pending.len() == 0 ==> chunking::pushed(pending, ReadSignal::Quiescent).1 is None,
{
}

/// A chunk of plain text without the prefix for a queue mode is handed out,
/// after a pause, as one message without a mode of its own, and the whole of it
/// is the text; the reader then waits for the next chunk.
pub proof fn a_plain_chunk_is_one_message(state: ChunkReaderView)
    requires
        state.stage == ChunkStage::Gathering,
        state.pending.len() > 0,
        valid_utf8(state.pending),
        !"CODEX_QUEUE_MODE="@.is_prefix_of(decode_utf8(state.pending)),
    ensures
        state.step(ChunkInput::Quiet) == (
            ChunkReaderView { stage: ChunkStage::Waiting, pending: Seq::empty() },
            Ok::<Option<MessageView>, BridgeErrorView>(
                Some(
                    MessageView {
                        queue_mode: QueueMode::Default,
                        text: decode_utf8(state.pending),
                    },
                ),
            ),
        ),
{
}

/// The end of the input hands out what is left as a last message, and nothing
/// comes after it. A chunk that is no text is dropped. A failure to read ends
/// the input with its cause.
pub proof fn the_input_ends_once(
    state: ChunkReaderView,
    nothing: Vec<u8>,
    failure: String,
    input: ChunkInput,
)
    requires
        nothing@.len() == 0,
    ensures
        ({
            let (after, result) = state.step(ChunkInput::Bytes(nothing));
            let (failed, reported) = state.step(ChunkInput::Failed { message: failure });
            let ended = ChunkReaderView { stage: ChunkStage::Ended, ..state };
            &&& ended.step(input) == (ended, Ok::<Option<MessageView>, BridgeErrorView>(None))
            &&& state.stage != ChunkStage::Ended ==> {
                &&& after == (ChunkReaderView { stage: ChunkStage::Ended, pending: Seq::empty() })
                &&& state.pending.len() > 0 && valid_utf8(state.pending) ==> result == Ok::<
                    Option<MessageView>,
                    BridgeErrorView,
                >(Some(message::prefixed_message(decode_utf8(state.pending))))
                &&& !valid_utf8(state.pending) || state.pending.len() == 0 ==> result == Ok::<
                    Option<MessageView>,
                    BridgeErrorView,
                >(None)
                &&& failed.stage == ChunkStage::Ended
                &&& reported == Err::<Option<MessageView>, BridgeErrorView>(
                    BridgeErrorView { message: "read stdin"@, cause: Some(failure@) },
                )
            }
        }),
{
}

/// While a chunk is waited for, a pause says nothing; bytes are gathered behind
/// those that are there, and nothing is handed out yet.
pub proof fn bytes_are_gathered(state: ChunkReaderView, bytes: Vec<u8>)
    requires
        bytes@.len() > 0,
        state.stage != ChunkStage::Ended,
    ensures
        state.step(ChunkInput::Bytes(bytes)) == (
            ChunkReaderView { stage: ChunkStage::Gathering, pending: state.pending + bytes@ },
            Ok::<Option<MessageView>, BridgeErrorView>(None),
        ),
        state.stage == ChunkStage::Waiting ==> state.step(ChunkInput::Quiet) == (
            state,
            Ok::<Option<MessageView>, BridgeErrorView>(None),
        ),
{
}

/// What is parsed before the session starts is a prompt at most once, and
/// messages in their order: one more message comes last, one more prompt is
/// taken only where there was none.
pub proof fn a_prelude_has_one_prompt(
    prompt: Option<Seq<char>>,
    items: Seq<ParsedView>,
    message: MessageView,
    text: Seq<char>,
)
    requires
        bridge_input::prelude_items(prompt, items) is Some,
    ensures
        ({
            let (found, messages) = bridge_input::prelude_items(prompt, items)->0;
            &&& bridge_input::prelude_items(prompt, items.push(ParsedView::Message(message)))
                == Some((found, messages.push(message)))
            &&& found is None ==> bridge_input::prelude_items(
                prompt,
                items.push(ParsedView::SystemPrompt(text)),
            ) == Some((Some(text), messages))
            &&& found is Some ==> bridge_input::prelude_items(
                prompt,
                items.push(ParsedView::SystemPrompt(text)),
            ) is None
            &&& bridge_input::prelude_items(prompt, Seq::empty()) == Some(
                (prompt, Seq::<MessageView>::empty()),
            )
        }),
{
    assert(items.push(ParsedView::Message(message)).drop_last() =~= items);
    assert(items.push(ParsedView::SystemPrompt(text)).drop_last() =~= items);
}

/// The prelude is over with the first messages, which are kept, or with the end
/// of the input, unless an element is left incomplete; a second prompt and input
/// that cannot be read are reported.
pub proof fn a_prelude_ends_with_the_first_messages(state: PreludeView, bytes: Seq<u8>)
    ensures
        ({
            let (after, read) = state.read(bytes);
            let (parser, parsed) = bridge_input::parsed_piece(state.parser, bytes);
            &&& bytes.len() == 0 && text::trimmed_start(state.parser.buffer).len() == 0 ==> after
                == (PreludeView { stdin_closed: true, ..state }) && read == Ok::<
                bool,
                BridgeErrorView,
            >(true)
            &&& bytes.len() == 0 && text::trimmed_start(state.parser.buffer).len() > 0 ==> after
                == state && read == Err::<bool, BridgeErrorView>(
                BridgeErrorView {
                    message: "parse XML stdin"@,
                    cause: Some("incomplete XML stdin fragment"@),
                },
            )
            &&& bytes.len() > 0 ==> {
                &&& after.parser == parser
                &&& after.stdin_closed == state.stdin_closed
                &&& parsed matches Err(error) ==> read == Err::<bool, BridgeErrorView>(error)
                &&& parsed matches Ok(items) ==> match bridge_input::prelude_items(
                    state.system_prompt,
                    items,
                ) {
                    Some((prompt, messages)) => after.system_prompt == prompt && after.messages
                        == messages && read == Ok::<bool, BridgeErrorView>(messages.len() > 0),
                    None => read == Err::<bool, BridgeErrorView>(
                        BridgeErrorView {
                            message: "system_prompt specified more than once"@,
                            cause: None,
                        },
                    ),
                }
            }
        }),
{
}

/// A piece of XML input is decoded, put behind what is left of the input before,
/// and parsed; a piece that is no text is refused with its cause and changes
/// nothing, and so is what cannot be parsed.
pub proof fn pieces_are_parsed_behind_each_other(parser: ParserView, bytes: Seq<u8>)
    ensures
        ({
            let (after, parsed) = bridge_input::parsed_piece(parser, bytes);
            let whole = ParserView { buffer: parser.buffer + decode_utf8(bytes), ..parser };
            &&& !valid_utf8(bytes) ==> after == parser && parsed == Err::<
                Seq<ParsedView>,
                BridgeErrorView,
            >(
                BridgeErrorView {
                    message: "read XML stdin as UTF-8"@,
                    cause: Some(text::utf8_error(bytes).1),
                },
            )
            &&& valid_utf8(bytes) ==> after == whole.drained().0 && match whole.drained().1 {
                Ok(items) => parsed == Ok::<Seq<ParsedView>, BridgeErrorView>(items),
                Err(failure) => parsed == Err::<Seq<ParsedView>, BridgeErrorView>(
                    BridgeErrorView { message: "parse XML stdin"@, cause: Some(failure) },
                ),
            }
        }),
{
}

/// Once the session has started, the messages of a piece come out in order, up
/// to a system prompt, which is too late.
pub proof fn late_prompts_cut_a_piece(
    messages: Seq<ParsedView>,
    behind: Seq<ParsedView>,
    text: Seq<char>,
    i: int,
)
    requires
        forall|j: int| 0 <= j < messages.len() ==> (#[trigger] messages[j]) is Message,
        0 <= i < messages.len(),
    ensures
        bridge_input::messages_before_prompt(messages).len() == messages.len(),
        ParsedView::Message(bridge_input::messages_before_prompt(messages)[i]) == messages[i],
        !bridge_input::has_prompt(messages),
        bridge_input::has_prompt(messages + seq![ParsedView::SystemPrompt(text)] + behind),
        bridge_input::messages_before_prompt(
            messages + seq![ParsedView::SystemPrompt(text)] + behind,
        ) == bridge_input::messages_before_prompt(messages),
{
    lemma_messages_before(messages, i);
    let whole = messages + seq![ParsedView::SystemPrompt(text)] + behind;
    assert(whole[messages.len() as int] is SystemPrompt);
    lemma_cut(messages, behind, text);
}

proof fn lemma_messages_before(messages: Seq<ParsedView>, i: int)
    requires
        forall|j: int| 0 <= j < messages.len() ==> (#[trigger] messages[j]) is Message,
        0 <= i < messages.len(),
    ensures
        bridge_input::messages_before_prompt(messages).len() == messages.len(),
        ParsedView::Message(bridge_input::messages_before_prompt(messages)[i]) == messages[i],
    decreases messages.len(),
{
    let rest = messages.drop_first();
    assert(messages[0] is Message);
    assert forall|j: int| 0 <= j < rest.len() implies (#[trigger] rest[j]) is Message by {
        assert(rest[j] == messages[j + 1]);
    }
    if rest.len() > 0 {
        lemma_messages_before(
            rest,
            if i > 0 {
                i - 1
            } else {
                0
            },
        );
    } else {
        assert(bridge_input::messages_before_prompt(rest).len() == 0);
    }
}

proof fn lemma_cut(messages: Seq<ParsedView>, behind: Seq<ParsedView>, text: Seq<char>)
    requires
        forall|j: int| 0 <= j < messages.len() ==> (#[trigger] messages[j]) is Message,
    ensures
        bridge_input::messages_before_prompt(
            messages + seq![ParsedView::SystemPrompt(text)] + behind,
        ) == bridge_input::messages_before_prompt(messages),
    decreases messages.len(),
{
    let whole = messages + seq![ParsedView::SystemPrompt(text)] + behind;
    if messages.len() == 0 {
        assert(whole[0] is SystemPrompt);
    } else {
        let rest = messages.drop_first();
        assert(messages[0] is Message);
        assert forall|j: int| 0 <= j < rest.len() implies (#[trigger] rest[j]) is Message by {
            assert(rest[j] == messages[j + 1]);
        }
        lemma_cut(rest, behind, text);
        assert(whole[0] == messages[0]);
        assert(whole.drop_first() =~= rest + seq![ParsedView::SystemPrompt(text)] + behind);
    }
}

/// What a piece brings once the session has started: its messages, that the
/// input has ended, or what is wrong.
pub proof fn a_piece_brings_its_messages(parser: ParserView, bytes: Seq<u8>)
    ensures
        ({
            let (after, messages, read) = bridge_input::xml_piece(parser, bytes);
            let (parsed, outcome) = bridge_input::parsed_piece(parser, bytes);
            &&& bytes.len() == 0 ==> after == parser && messages.len() == 0 && (read is Ok
                <==> text::trimmed_start(parser.buffer).len() == 0) && (read is Ok
                ==> read->Ok_0)
            &&& bytes.len() > 0 ==> {
                &&& after == parsed
                &&& outcome matches Err(error) ==> messages.len() == 0 && read == Err::<
                    bool,
                    BridgeErrorView,
                >(error)
                &&& outcome matches Ok(items) ==> {
                    &&& messages == bridge_input::messages_before_prompt(items)
                    &&& bridge_input::has_prompt(items) ==> read == Err::<bool, BridgeErrorView>(
                        BridgeErrorView {
                            message: "system_prompt must appear before the first message"@,
                            cause: None,
                        },
                    )
                    &&& !bridge_input::has_prompt(items) ==> read == Ok::<bool, BridgeErrorView>(
                        false,
                    )
                }
            }
        }),
{
}

/// The reader first asks for the flags of its descriptor, makes it read without
/// waiting, reads what is there, puts the flags back as they were, reports the
/// end of the drain, and then reads as input comes.
pub proof fn a_reader_goes_through_its_stages(state: XmlReaderView, flags: i32, failure: String)
    ensures
        state.stage == ReaderStage::GettingFlags ==> state.step(ReaderInput::Flags(flags)) == (
            XmlReaderView { stage: ReaderStage::Preparing { original_flags: flags }, ..state },
            Seq::<ReaderEventView>::empty(),
        ),
        state.stage == (ReaderStage::Preparing { original_flags: flags }) ==> state.step(
            ReaderInput::FlagsSet,
        ) == (
            XmlReaderView { stage: ReaderStage::Draining { original_flags: flags }, ..state },
            Seq::<ReaderEventView>::empty(),
        ),
        state.stage == (ReaderStage::Draining { original_flags: flags }) ==> state.step(
            ReaderInput::ReadFailed { would_block: true, message: failure },
        ) == (
            XmlReaderView { stage: ReaderStage::Restoring { original_flags: flags }, ..state },
            Seq::<ReaderEventView>::empty(),
        ),
        state.stage == (ReaderStage::Restoring { original_flags: flags }) ==> state.step(
            ReaderInput::FlagsSet,
        ) == (
            XmlReaderView { stage: ReaderStage::Streaming, ..state },
            seq![ReaderEventView::StartupDrainComplete],
        ),
{
}

/// A reader that cannot be prepared, or that fails to read, stops with a report
/// that says which; having nothing to read just now is a failure only once the
/// drain is over.
pub proof fn a_failed_reader_stops(state: XmlReaderView, would_block: bool, failure: String)
    ensures
        state.stage is GettingFlags || state.stage is Preparing || state.stage is Restoring
            ==> state.step(ReaderInput::FlagsFailed { message: failure }) == (
            XmlReaderView { stage: ReaderStage::Stopped, ..state },
            seq![
                ReaderEventView::ReadError(
                    "Failed to prepare structured input reader: "@ + failure@,
                ),
            ],
        ),
        state.stage is Streaming || (state.stage is Draining && !would_block) ==> state.step(
            ReaderInput::ReadFailed { would_block, message: failure },
        ) == (
            XmlReaderView { stage: ReaderStage::Stopped, ..state },
            seq![ReaderEventView::ReadError("Failed to read structured input: "@ + failure@)],
        ),
{
}

/// At the end of the input a reader stops: with just the end where all is read,
/// with a report before it where an element is left incomplete, and with a
/// failure alone where bytes are left that are no text.
pub proof fn a_reader_stops_at_the_end(state: XmlReaderView, nothing: Vec<u8>)
    requires
        state.stage is Draining || state.stage is Streaming,
        nothing@.len() == 0,
    ensures
        ({
            let (after, events) = state.step(ReaderInput::Bytes(nothing));
            &&& after.stage is Stopped
            &&& state.pending.len() == 0 && text::trimmed_start(state.parser.buffer).len() == 0
                ==> events == seq![ReaderEventView::Eof]
            &&& state.pending.len() == 0 && text::trimmed_start(state.parser.buffer).len() > 0
                ==> events == seq![
                ReaderEventView::ParseError("incomplete XML stdin fragment"@),
                ReaderEventView::Eof,
            ]
            &&& state.pending.len() > 0 ==> {
                &&& events.len() == 1
                &&& events[0] == ReaderEventView::ReadError(
                    if valid_utf8(state.pending) {
                        "Structured input ended with an incomplete UTF-8 sequence."@
                    } else {
                        "Structured input is not valid UTF-8: "@ + text::utf8_error(
                            state.pending,
                        ).1
                    },
                )
            }
        }),
{
}

/// Bytes that are text, together with those that were left, are parsed at once;
/// nothing is then left.
pub proof fn complete_text_is_parsed_at_once(state: XmlReaderView, bytes: Vec<u8>)
    requires
        state.stage is Draining || state.stage is Streaming,
        bytes@.len() > 0,
        valid_utf8(state.pending + bytes@),
    ensures
        ({
            let (after, events) = state.step(ReaderInput::Bytes(bytes));
            let parser = ParserView {
                buffer: state.parser.buffer + decode_utf8(state.pending + bytes@),
                ..state.parser
            };
            &&& after.stage == state.stage
            &&& after.pending.len() == 0
            &&& after.parser == xml_reader::read_on(parser).0
            &&& events == xml_reader::read_on(parser).1
        }),
{
    let all = state.pending + bytes@;
    assert(xml_reader::valid_length(all) == all.len());
    assert(all.take(all.len() as int) =~= all);
    assert(all.skip(all.len() as int) =~= Seq::<u8>::empty());
}

/// Bytes that can never become text stop the reader with a report, and are
/// parsed no more; an unfinished character at the end waits for its rest, and
/// what comes before it is parsed.
pub proof fn broken_text_stops_the_reader(state: XmlReaderView, bytes: Vec<u8>)
    requires
        state.stage is Draining || state.stage is Streaming,
        bytes@.len() > 0,
        !valid_utf8(state.pending + bytes@),
    ensures
        ({
            let (after, events) = state.step(ReaderInput::Bytes(bytes));
            let all = state.pending + bytes@;
            let (incomplete, failure) = text::utf8_error(all);
            let valid = xml_reader::valid_length(all) as int;
            &&& !incomplete ==> after.stage is Stopped && after.parser == state.parser && events
                == seq![
                ReaderEventView::ReadError("Structured input is not valid UTF-8: "@ + failure),
            ]
            &&& incomplete ==> after.stage == state.stage && after.pending == all.skip(valid)
            &&& incomplete && valid == 0 ==> after.parser == state.parser && events.len() == 0
            &&& incomplete && valid > 0 ==> (after.parser, events) == xml_reader::read_on(
                ParserView {
                    buffer: state.parser.buffer + decode_utf8(all.take(valid)),
                    ..state.parser
                },
            )
        }),
{
    let all = state.pending + bytes@;
    let events = state.step(ReaderInput::Bytes(bytes)).1;
    if !text::utf8_error(all).0 {
        assert(events =~= seq![events[0]]);
    }
    assert(all.skip(0) =~= all);
}

/// The longest valid start of some bytes is valid, and no longer one is.
pub proof fn the_valid_start_is_longest(bytes: Seq<u8>, longer: int)
    requires
        xml_reader::valid_length(bytes) < longer <= bytes.len(),
    ensures
        !valid_utf8(bytes.take(longer)),
    decreases bytes.len(),
{
    if longer == bytes.len() {
        assert(bytes.take(longer) =~= bytes);
    } else {
        the_valid_start_is_longest(bytes.drop_last(), longer);
        assert(bytes.drop_last().take(longer) =~= bytes.take(longer));
    }
}

/// Each approval policy is named by its own spellings, and nothing else names
/// one.
pub proof fn policies_are_named_so(value: Seq<char>)
    ensures
        bridge_options::policy_named(value) == Some(AskForApproval::UnlessTrusted) <==> value
            == "untrusted"@ || value == "unless-trusted"@ || value == "unlessTrusted"@,
        bridge_options::policy_named(value) == Some(AskForApproval::OnFailure) <==> value
            == "on-failure"@ || value == "onFailure"@,
        bridge_options::policy_named(value) == Some(AskForApproval::OnRequest) <==> value
            == "on-request"@ || value == "onRequest"@,
        bridge_options::policy_named(value) == Some(AskForApproval::Never) <==> value == "never"@,
{
    reveal_strlit("untrusted");
    reveal_strlit("unless-trusted");
    reveal_strlit("unlessTrusted");
    reveal_strlit("on-failure");
    reveal_strlit("onFailure");
    reveal_strlit("on-request");
    reveal_strlit("onRequest");
    reveal_strlit("never");
    assert("untrusted"@[0] == 'u');
    assert("unless-trusted"@[0] == 'u');
    assert("unlessTrusted"@[0] == 'u');
    assert("on-failure"@[3] == 'f');
    assert("onFailure"@[2] == 'F');
    assert("on-request"@[3] == 'r');
    assert("onRequest"@[2] == 'R');
    assert("on-failure"@[0] == 'o');
    assert("onFailure"@[0] == 'o');
    assert("on-request"@[0] == 'o');
    assert("onRequest"@[0] == 'o');
    assert("on-failure"@[2] == '-');
    assert("on-request"@[2] == '-');
    assert("never"@[0] == 'n');
}

/// Who decides on approvals is named by its own spellings, and nothing else
/// names one.
pub proof fn deciders_are_named_so(value: Seq<char>)
    ensures
        bridge_options::reviewer_named(value) == Some(ApprovalsReviewer::User) <==> value
            == "user"@,
        bridge_options::reviewer_named(value) == Some(ApprovalsReviewer::AutoReview) <==> value
            == "auto_review"@ || value == "auto-review"@ || value == "guardian_subagent"@ || value
            == "guardian-subagent"@,
        bridge_options::reviewer_named(value) != Some(ApprovalsReviewer::GuardianSubagent),
{
    reveal_strlit("user");
    reveal_strlit("auto_review");
    reveal_strlit("auto-review");
    reveal_strlit("guardian_subagent");
    reveal_strlit("guardian-subagent");
    assert("user"@.len() == 4);
    assert("auto_review"@.len() == 11);
    assert("auto-review"@.len() == 11);
    assert("guardian_subagent"@.len() == 17);
    assert("guardian-subagent"@.len() == 17);
}

/// Responses come from the one lane that is given for them, whichever it is, and
/// only where requests are told somewhere; two lanes are refused, and none is in
/// order.
pub proof fn one_lane_brings_responses(options: BridgeOptions, told: bool, fd: i32)
    ensures
        ({
            let own = options.server_request_responses_fd;
            let shared = options.control_responses_fd;
            let lane = bridge_options::response_lane(options, told);
            &&& own is Some && shared is Some ==> lane == Err::<Option<i32>, Seq<char>>(
                "--server-request-responses-fd and --control-responses-fd are mutually exclusive"@,
            )
            &&& own is None && shared is None ==> lane == Ok::<Option<i32>, Seq<char>>(None)
            &&& (own == Some(fd) && shared is None) || (own is None && shared == Some(fd))
                ==> lane == if told {
                Ok::<Option<i32>, Seq<char>>(Some(fd))
            } else {
                Err(
                    "a sideband response fd requires either --server-request-events-fd or --control-events-fd"@,
                )
            }
        }),
{
}

/// All six descriptors of the options are held against each other, and any one
/// of them makes the side channel needed.
pub proof fn all_descriptors_count(options: BridgeOptions)
    ensures
        ({
            let shared = sideband::shared_fd(bridge_options::sideband_fds(options)) is Some;
            let fds = seq![
                options.xml_input_fd,
                options.thread_id_fd,
                options.server_request_events_fd,
                options.server_request_responses_fd,
                options.control_events_fd,
                options.control_responses_fd,
            ];
            &&& shared <==> exists|i: int, j: int|
                0 <= i < j < 6 && #[trigger] fds[i] is Some && fds[i] == #[trigger] fds[j]
            &&& bridge_options::uses_descriptors(options) <==> exists|i: int|
                0 <= i < 6 && #[trigger] fds[i] is Some
        }),
{
    let entries = bridge_options::sideband_fds(options);
    let fds = seq![
        options.xml_input_fd,
        options.thread_id_fd,
        options.server_request_events_fd,
        options.server_request_responses_fd,
        options.control_events_fd,
        options.control_responses_fd,
    ];
    sideband::shared_descriptors_are_found(entries);
    assert forall|i: int| 0 <= i < 6 implies (#[trigger] entries[i]).fd == fds[i] by {}
    if sideband::shared_fd(entries) is Some {
        let (i, j) = sideband::shared_fd(entries)->0;
        assert(entries[i].fd == fds[i]);
        assert(entries[j].fd == fds[j]);
        assert(fds[i] is Some && fds[i] == fds[j]);
    }
    if exists|i: int, j: int|
        0 <= i < j < 6 && #[trigger] fds[i] is Some && fds[i] == #[trigger] fds[j] {
        let (i, j) = choose|i: int, j: int|
            0 <= i < j < 6 && #[trigger] fds[i] is Some && fds[i] == #[trigger] fds[j];
        assert(entries[i].fd == fds[i]);
        assert(entries[j].fd == fds[j]);
    }
    if bridge_options::uses_descriptors(options) {
        assert(fds[0] is Some || fds[1] is Some || fds[2] is Some || fds[3] is Some || fds[4]
            is Some || fds[5] is Some);
    }
}
/// The thread of a session is asked for with what the options say. Its
/// instructions come from the option or from the input, and not from both.
pub proof fn a_session_is_asked_for_as_configured(
    options: &BridgeOptions,
    policy: AskForApproval,
    decider: Option<ApprovalsReviewer>,
    prompt: Option<String>,
    asked: Result<ThreadSessionRequest, String>,
)
    requires
        call_ensures(
            bridge_options::thread_session_request_from_cli,
            (options, policy, decider, prompt),
            asked,
        ),
    ensures
        asked is Err <==> options.system_prompt is Some && prompt is Some,
        asked matches Err(message) ==> message@
            == "system prompt provided by both --system-prompt and XML stdin"@,
        asked matches Ok(request) ==> {
            &&& text::opt_text(request.thread_id) == text::opt_text(options.thread_id)
            &&& text::opt_text(request.model) == text::opt_text(options.model)
            &&& text::opt_text(request.cwd) == text::opt_text(options.cwd)
            &&& request.approval_policy == Some(policy)
            &&& request.approvals_reviewer == decider
            &&& options.system_prompt is Some ==> text::opt_text(request.base_instructions)
                == text::opt_text(options.system_prompt)
            &&& options.system_prompt is None ==> text::opt_text(request.base_instructions)
                == text::opt_text(prompt)
        },
{
}

/// A thread that the options name is resumed, and otherwise one is started; the
/// request and what is told of the thread agree in that.
pub proof fn a_named_thread_is_resumed(
    options: &BridgeOptions,
    thread_id: &str,
    id: &'static str,
    payload: ThreadResolvedPayload,
)
    requires
        call_ensures(bridge_options::thread_request_id, (options,), id),
        call_ensures(bridge_options::thread_resolved, (options, thread_id), payload),
    ensures
        payload.thread_id@ == thread_id@,
        options.thread_id is Some ==> id@ == "thread-resume"@ && payload.source@ == "resumed"@,
        options.thread_id is None ==> id@ == "thread-start"@ && payload.source@ == "started"@,
{
}

/// Input from a descriptor of its own is only taken as XML, and descriptors are
/// refused exactly where the system has none and the options use some.
pub proof fn unusable_options_are_refused(
    options: &BridgeOptions,
    unix: bool,
    mode: Result<(), String>,
    platform: Result<(), String>,
)
    requires
        call_ensures(bridge_options::validate_xml_input_mode, (options,), mode),
        call_ensures(bridge_options::validate_sideband_platform_support, (options, unix), platform),
    ensures
        mode is Err <==> options.xml_input_fd is Some && options.stdin_format != StdinFormat::Xml,
        mode matches Err(message) ==> message@ == "--xml-input-fd requires --stdin-format xml"@,
        platform is Err <==> !unix && (options.xml_input_fd is Some || options.thread_id_fd is Some
            || options.server_request_events_fd is Some || options.server_request_responses_fd
            is Some || options.control_events_fd is Some || options.control_responses_fd is Some),
        platform matches Err(message) ==> message@
            == "bridge sideband FDs are only supported on Unix targets"@,
{
}

/// What a reader does at each stage: the flags are asked for, set and put back
/// as they were, and input is read without waiting only during the drain.
pub proof fn a_reader_does_what_its_stage_asks(
    reader: &XmlInputReader,
    action: ReaderAction,
    flags: i32,
)
    requires
        call_ensures(XmlInputReader::action, (reader,), action),
    ensures
        reader@.stage == ReaderStage::GettingFlags ==> action == ReaderAction::GetFlags,
        reader@.stage == (ReaderStage::Preparing { original_flags: flags }) ==> action == (
        ReaderAction::SetNonblocking { original_flags: flags }),
        reader@.stage is Draining ==> action == ReaderAction::ReadNow,
        reader@.stage == (ReaderStage::Restoring { original_flags: flags }) ==> action == (
        ReaderAction::SetFlags { original_flags: flags }),
        reader@.stage is Streaming ==> action == ReaderAction::ReadNext,
        reader@.stage is Stopped ==> action == ReaderAction::Stop,
{
}


} // verus!
