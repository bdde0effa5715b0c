//! What the values that go into the state machines and come out of them stand
//! for: each for itself, with all that it says, and in its place.

use vstd::prelude::*;

use crate::bridge;
use crate::bridge::{BridgeAction, BridgeActionView};
use crate::bridge_input;
use crate::controller;
use crate::controller::{
    CompletionSignal, ControllerEvent, QueuedMessage, ReleaseAction, ReleaseDecision,
};
use crate::controller_model::{ActionView, EventView, MessageView};
use crate::message;
use crate::message::{ParsedMessage, ParsedView, ParsedXmlInput};
use crate::stdio::{AppServerEvent, AppServerEventView, OutgoingMessage, OutgoingView};
use crate::stdio_handshake;
use crate::stdio_worker;
use crate::stdio_worker::{Answer, AnswerView, WorkerAction, WorkerActionView};
use crate::structured_input;
use crate::structured_input::{
    ReaderEventView, SessionActionView, StructuredInputAction, StructuredInputPreviewEntry,
    StructuredInputReaderEvent,
};
use crate::text;
use crate::xml_reader;

verus! {

/// A queued, a parsed and a shown message stand for their mode and their text.
pub proof fn messages_stand_for_themselves(
    queued: QueuedMessage,
    parsed: ParsedMessage,
    shown: StructuredInputPreviewEntry,
    prompt: String,
)
    ensures
        queued@ == (MessageView { queue_mode: queued.queue_mode, text: queued.text@ }),
        parsed@ == (MessageView { queue_mode: parsed.queue_mode, text: parsed.text@ }),
        shown@ == (MessageView { queue_mode: shown.queue_mode, text: shown.text@ }),
        ParsedXmlInput::Message(parsed)@ == ParsedView::Message(parsed@),
        ParsedXmlInput::SystemPrompt(prompt)@ == ParsedView::SystemPrompt(prompt@),
{
}

/// An event of a controller stands for the event of the same name, with the same
/// thread, turn and message.
pub proof fn controller_events_stand_for_themselves(
    message: QueuedMessage,
    thread_id: String,
    turn_id: String,
    signal: CompletionSignal,
)
    ensures
        ControllerEvent::MessageReceived(message)@ == EventView::MessageReceived(message@),
        ControllerEvent::TurnStartAccepted@ == EventView::TurnStartAccepted,
        (ControllerEvent::TurnStartAcceptedWithTurnId { turn_id })@ == (
        EventView::TurnStartAcceptedWithTurnId { turn_id: turn_id@ }),
        ControllerEvent::TurnStartRejectedActiveTurnNotSteerable@
            == EventView::TurnStartRejectedActiveTurnNotSteerable,
        (ControllerEvent::TurnStarted { thread_id, turn_id })@ == (EventView::TurnStarted {
            thread_id: thread_id@,
            turn_id: turn_id@,
        }),
        (ControllerEvent::ActiveTurnReconciled { thread_id, turn_id })@ == (
        EventView::ActiveTurnReconciled { thread_id: thread_id@, turn_id: turn_id@ }),
        (ControllerEvent::TurnCompleted { thread_id, turn_id })@ == (EventView::TurnCompleted {
            thread_id: thread_id@,
            turn_id: turn_id@,
        }),
        (ControllerEvent::TerminalInteraction { thread_id, turn_id })@ == (
        EventView::TerminalInteraction { thread_id: thread_id@, turn_id: turn_id@ }),
        (ControllerEvent::ItemCompleted { thread_id, turn_id, signal })@ == (
        EventView::ItemCompleted { thread_id: thread_id@, turn_id: turn_id@, signal }),
        (ControllerEvent::SteerRejectedActiveTurnNotSteerable { message })@ == (
        EventView::SteerRejectedActiveTurnNotSteerable { message: message@ }),
        (ControllerEvent::SteerAccepted { turn_id })@ == (EventView::SteerAccepted {
            turn_id: turn_id@,
        }),
{
}

/// A decision stands for what it does, why, and with which message.
pub proof fn decisions_stand_for_themselves(decision: ReleaseDecision)
    ensures
        decision@.reason == decision.reason,
        decision@.message == decision.message@,
        decision.action is StartTurn <==> decision@.action is StartTurn,
        decision.action matches ReleaseAction::SteerTurn { turn_id } ==> decision@.action == (
        ActionView::SteerTurn { turn_id: turn_id@ }),
        controller::released(Some(decision)) == Some(decision@),
        controller::released(None) is None,
{
}

/// What a session is to do stands for itself, with its thread and its text.
pub proof fn session_actions_stand_for_themselves(action: StructuredInputAction)
    ensures
        match action {
            StructuredInputAction::Release { thread_id, decision } => action@ == (
            SessionActionView::Release { thread_id: thread_id@, decision: decision@ }),
            StructuredInputAction::Info(message) => action@ == SessionActionView::Info(message@),
            StructuredInputAction::Error(message) => action@ == SessionActionView::Error(message@),
            StructuredInputAction::RefreshPreview => action@ == SessionActionView::RefreshPreview,
        },
{
}

/// What a reader reports stands for itself.
pub proof fn reader_events_stand_for_themselves(event: StructuredInputReaderEvent)
    ensures
        match event {
            StructuredInputReaderEvent::Parsed(item) => event@ == ReaderEventView::Parsed(item@),
            StructuredInputReaderEvent::StartupDrainComplete => event@
                == ReaderEventView::StartupDrainComplete,
            StructuredInputReaderEvent::ParseError(message) => event@
                == ReaderEventView::ParseError(message@),
            StructuredInputReaderEvent::Eof => event@ == ReaderEventView::Eof,
            StructuredInputReaderEvent::ReadError(message) => event@ == ReaderEventView::ReadError(
                message@,
            ),
        },
{
}

/// What a bridge is to do stands for itself: a turn is started with the text and
/// the settings of its request, and all else with what it names.
pub proof fn bridge_actions_stand_for_themselves(action: BridgeAction)
    ensures
        match action {
            BridgeAction::StartTurn { request_id, thread_id, request } => action@ == (
            BridgeActionView::StartTurn {
                request_id: request_id@,
                thread_id: thread_id@,
                text: request.text@,
                model: text::opt_text(request.model),
                cwd: text::opt_text(request.cwd),
                approval_policy: request.approval_policy,
                approvals_reviewer: request.approvals_reviewer,
            }),
            BridgeAction::SteerTurn { request_id, thread_id, turn_id, text } => action@ == (
            BridgeActionView::SteerTurn {
                request_id: request_id@,
                thread_id: thread_id@,
                turn_id: turn_id@,
                text: text@,
            }),
            BridgeAction::Tell => action@ == BridgeActionView::Tell,
            BridgeAction::Reject { request_id, error, context } => action@ == (
            BridgeActionView::Reject {
                request_id: request_id@,
                error: error@,
                context: context@,
            }),
            BridgeAction::Apply { request_id, resolution, context } => action@ == (
            BridgeActionView::Apply {
                request_id: request_id@,
                resolution: resolution@,
                context: context@,
            }),
            BridgeAction::Warn(message) => action@ == BridgeActionView::Warn(message@),
            BridgeAction::ShutDown => action@ == BridgeActionView::ShutDown,
            BridgeAction::Fail(error) => action@ == BridgeActionView::Fail(error@),
        },
{
}

/// What a worker is to do stands for itself, and so do the messages that it
/// writes and the answers that it gives.
pub proof fn worker_actions_stand_for_themselves(
    action: WorkerAction,
    written: OutgoingMessage,
    answer: Answer,
    event: AppServerEvent,
)
    ensures
        match action {
            WorkerAction::Answer { id, answer } => action@ == (WorkerActionView::Answer {
                id: id@,
                answer: answer@,
            }),
            WorkerAction::Write(message) => action@ == WorkerActionView::Write(message@),
            WorkerAction::Send(event) => action@ == WorkerActionView::Send(event@),
            WorkerAction::TrySend(event) => action@ == WorkerActionView::TrySend(event@),
            WorkerAction::EndServer => action@ == WorkerActionView::EndServer,
            WorkerAction::Stop => action@ == WorkerActionView::Stop,
            _ => true,
        },
        match written {
            OutgoingMessage::Request(request) => written@ == OutgoingView::Request(request),
            OutgoingMessage::Response { id, result } => written@ == (OutgoingView::Response {
                id: id@,
                result: result@,
            }),
            OutgoingMessage::Error { id, error } => written@ == (OutgoingView::Error {
                id: id@,
                error: error@,
            }),
            OutgoingMessage::Notification(notification) => written@ == OutgoingView::Notification(
                notification,
            ),
            OutgoingMessage::Initialize { id, params } => written@ == (OutgoingView::Initialize {
                id: id@,
                params: params@,
            }),
        },
        match answer {
            Answer::Result(result) => answer@ == AnswerView::Result(result@),
            Answer::Error(error) => answer@ == AnswerView::Error(error@),
            Answer::Failed(error) => answer@ == AnswerView::Failed(error@),
        },
        match event {
            AppServerEvent::ServerNotification { notification, requires_delivery } => event@ == (
            AppServerEventView::ServerNotification { notification, requires_delivery }),
            AppServerEvent::ServerRequest(request) => event@ == AppServerEventView::ServerRequest(
                request,
            ),
            AppServerEvent::Lagged { skipped } => event@ == (AppServerEventView::Lagged {
                skipped: skipped as nat,
            }),
            AppServerEvent::Disconnected { message } => event@ == (
            AppServerEventView::Disconnected { message: message@ }),
        },
{
}

/// What is to be done, and what is reported, is done and reported in the order
/// in which it stands.
pub proof fn actions_stand_in_their_order(
    bridge_actions: Seq<BridgeAction>,
    session_actions: Seq<StructuredInputAction>,
    worker_actions: Seq<WorkerAction>,
    reader_events: Seq<StructuredInputReaderEvent>,
    server_events: Seq<AppServerEvent>,
    at: int,
)
    ensures
        bridge::bridge_actions(bridge_actions).len() == bridge_actions.len(),
        0 <= at < bridge_actions.len() ==> bridge::bridge_actions(bridge_actions)[at]
            == bridge_actions[at]@,
        structured_input::session_actions(session_actions).len() == session_actions.len(),
        0 <= at < session_actions.len() ==> structured_input::session_actions(session_actions)[at]
            == session_actions[at]@,
        stdio_worker::worker_actions(worker_actions).len() == worker_actions.len(),
        0 <= at < worker_actions.len() ==> stdio_worker::worker_actions(worker_actions)[at]
            == worker_actions[at]@,
        xml_reader::reader_events(reader_events).len() == reader_events.len(),
        0 <= at < reader_events.len() ==> xml_reader::reader_events(reader_events)[at]
            == reader_events[at]@,
        stdio_handshake::event_views(server_events).len() == server_events.len(),
        0 <= at < server_events.len() ==> stdio_handshake::event_views(server_events)[at]
            == server_events[at]@,
{
}

/// Messages and decisions stand in the order of their queue, and so does what is
/// shown of them and what was parsed.
pub proof fn messages_stand_in_their_order(
    queued: Seq<QueuedMessage>,
    parsed: Seq<ParsedMessage>,
    shown: Seq<StructuredInputPreviewEntry>,
    decisions: Seq<ReleaseDecision>,
    items: Seq<ParsedXmlInput>,
    at: int,
)
    ensures
        controller::messages(queued).len() == queued.len(),
        0 <= at < queued.len() ==> controller::messages(queued)[at] == queued[at]@,
        bridge_input::message_views(parsed).len() == parsed.len(),
        0 <= at < parsed.len() ==> bridge_input::message_views(parsed)[at] == parsed[at]@,
        structured_input::preview_entries(shown).len() == shown.len(),
        0 <= at < shown.len() ==> structured_input::preview_entries(shown)[at] == shown[at]@,
        bridge::decision_views(decisions).len() == decisions.len(),
        0 <= at < decisions.len() ==> bridge::decision_views(decisions)[at] == decisions[at]@,
        message::parsed_items(items).len() == items.len(),
        0 <= at < items.len() ==> message::parsed_items(items)[at] == items[at]@,
{
}

} // verus!
