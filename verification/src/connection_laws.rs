//! What passes over the connection to an app server: how it is set up, what is
//! written and handed over, and how failures are named.

use std::collections::VecDeque;

use vstd::prelude::*;

use crate::items::ServerNotification;
use crate::protocol;
use crate::protocol::{
    ErrorView, JSONRPCErrorError, RequestId, RequestIdView, Thread, ThreadStatus,
};
use crate::sideband::ServerRequest;
use crate::stdio;
use crate::stdio::{
    AppServerEvent, AppServerEventView, ClientNotification, CommandFailure, CommandKind,
    IncomingMessage, InitializeParams, OutgoingView, RequestResult, ServerExit,
    StdioAppServerConnectArgs, TransportError, TransportErrorKind, TransportErrorView,
    TypedRequestErrorView, WriteFailure,
};
use crate::stdio_handshake::{
    HandshakeActionView, HandshakeInput, HandshakeStage, HandshakeView,
};
use crate::stdio_worker;
use crate::stdio_worker::{
    AnswerView, SendOutcome, StdioClientCommand, WorkerActionView, WorkerInput, WorkerStageView,
    WorkerView,
};
use crate::text;
use crate::turn_client;
use crate::turn_client::{
    ClientRequest, ThreadSessionRequest, ThreadSessionStart, TurnClientError, TurnRequest,
    TurnStartParams, UserInput,
};

verus! {

/// A lost connection must be told, and a notification that says so; requests
/// and the number of dropped events need not arrive.
pub proof fn some_events_must_arrive(event: AppServerEventView)
    ensures
        event.requires_delivery() <==> event is Disconnected || (event is ServerNotification
            && event->requires_delivery),
        event.request_id() is Some <==> event is ServerRequest,
        event matches AppServerEventView::ServerRequest(request) ==> event.request_id() == Some(
            request.request_id@,
        ),
{
}

/// Every override of the configuration is passed on behind an option of its own,
/// in order.
pub proof fn each_override_has_its_option(overrides: Seq<Seq<char>>, at: int)
    requires
        0 <= at < overrides.len(),
    ensures
        stdio::override_arguments(overrides).len() == 2 * overrides.len(),
        stdio::override_arguments(overrides)[2 * at] == "--config"@,
        stdio::override_arguments(overrides)[2 * at + 1] == overrides[at],
    decreases overrides.len(),
{
    let before = overrides.drop_last();
    if before.len() > 0 {
        each_override_has_its_option(
            before,
            if at < before.len() {
                at
            } else {
                0
            },
        );
    } else {
        assert(stdio::override_arguments(before).len() == 0);
    }
}

/// A message that could not be written says whether writing or flushing failed,
/// and to whom; one that could not be encoded says why.
pub proof fn failed_writes_say_what_failed(failure: WriteFailure, label: Seq<char>)
    ensures
        stdio::write_failure(failure, label).kind == TransportErrorKind::Other,
        stdio::write_failure(failure, label).message == match failure {
            WriteFailure::Encode { message } => message@,
            WriteFailure::Write { message } => "failed to write stdio message to "@ + label + ": "@
                + message@,
            WriteFailure::Flush { message } => "failed to flush stdio message to "@ + label + ": "@
                + message@,
        },
{
}

/// Ending a server fails only where waiting for it or killing it does; a server
/// that is not there, has ended or was killed is no failure.
pub proof fn an_ended_server_is_no_failure(exit: ServerExit, label: Seq<char>)
    ensures
        stdio::exit_result(exit, label) is Ok <==> exit is NoServer || exit is Exited || exit
            is Killed,
        exit matches ServerExit::WaitFailed { message } ==> stdio::exit_result(exit, label)
            == Err::<(), TransportErrorView>(
            TransportErrorView {
                kind: TransportErrorKind::Other,
                message: "failed waiting for "@ + label + " shutdown: "@ + message@,
            },
        ),
        exit matches ServerExit::KillFailed { message } ==> stdio::exit_result(exit, label)
            == Err::<(), TransportErrorView>(
            TransportErrorView {
                kind: TransportErrorKind::Other,
                message: "failed killing "@ + label + " after shutdown timeout: "@ + message@,
            },
        ),
        exit matches ServerExit::KilledWaitFailed { message } ==> stdio::exit_result(exit, label)
            == Err::<(), TransportErrorView>(
            TransportErrorView {
                kind: TransportErrorKind::Other,
                message: "failed waiting for killed "@ + label + ": "@ + message@,
            },
        ),
{
}

/// A command that the worker did not take says so; one that it took and did not
/// answer names the channel of its kind.
pub proof fn unanswered_commands_name_their_channel(kind: CommandKind)
    ensures
        stdio::command_failure_text(kind, CommandFailure::NotTaken)
            == "stdio app-server worker channel is closed"@,
        stdio::command_failure_text(kind, CommandFailure::NotAnswered) == match kind {
            CommandKind::Request => "stdio app-server request channel is closed"@,
            CommandKind::Notify => "stdio app-server notify channel is closed"@,
            CommandKind::Resolve => "stdio app-server resolve channel is closed"@,
            CommandKind::Reject => "stdio app-server reject channel is closed"@,
        },
{
}

/// A response is handed on as it is; an error of the server and a failure of the
/// transport are told apart, each with the method of the request.
pub proof fn failures_carry_their_method(method: Seq<char>, response: RequestResult)
    ensures
        match response {
            Ok(Ok(result)) => stdio::typed_result(method, response) == Ok::<
                Seq<char>,
                TypedRequestErrorView,
            >(result@),
            Ok(Err(source)) => stdio::typed_result(method, response) == Err::<
                Seq<char>,
                TypedRequestErrorView,
            >(TypedRequestErrorView::Server { method, source: source@ }),
            Err(source) => stdio::typed_result(method, response) == Err::<
                Seq<char>,
                TypedRequestErrorView,
            >(TypedRequestErrorView::Transport { method, source: source@ }),
        },
{
}

/// A failed request is shown with its method and with what went wrong.
pub proof fn failed_requests_are_shown(
    method: Seq<char>,
    transport: TransportErrorView,
    server: ErrorView,
    message: Seq<char>,
)
    ensures
        (TypedRequestErrorView::Transport { method, source: transport }).shown() == method
            + " transport error: "@ + transport.message,
        (TypedRequestErrorView::Server { method, source: server }).shown() == method
            + " failed: "@ + server.message,
        (TypedRequestErrorView::Deserialize { method, message }).shown() == method
            + " response decode error: "@ + message,
{
}

/// The refusals that the client sends by itself have the codes of an unknown
/// method and of an overloaded server.
pub proof fn refusals_have_their_codes(method: Seq<char>)
    ensures
        stdio::unsupported_request(method) == (ErrorView {
            code: -32601,
            message: "unsupported stdio app-server request `"@ + method + "`"@,
            data: None,
        }),
        stdio::overflow() == (ErrorView {
            code: -32001,
            message: "stdio app-server event queue is full"@,
            data: None,
        }),
{
}

/// The setup goes from the introduction to its answer, to the confirmation, to
/// the connection; what is written in between must have been written.
pub proof fn a_setup_goes_through_its_stages(
    state: HandshakeView,
    id: RequestId,
    result: String,
    error: TransportError,
)
    requires
        id@ == RequestIdView::String("initialize"@),
    ensures
        state.stage == HandshakeStage::Introducing || state.stage == HandshakeStage::Refusing
            ==> state.step(HandshakeInput::Written(Ok(()))) == (
            HandshakeView { stage: HandshakeStage::Awaiting, ..state },
            Some(HandshakeActionView::ReadLine),
        ),
        state.stage == HandshakeStage::Awaiting ==> state.step(
            HandshakeInput::Line(Ok(IncomingMessage::Response { id, result })),
        ) == (
            HandshakeView { stage: HandshakeStage::Confirming, ..state },
            Some(
                HandshakeActionView::Write(
                    OutgoingView::Notification(ClientNotification::Initialized),
                ),
            ),
        ),
        state.stage == HandshakeStage::Confirming ==> state.step(
            HandshakeInput::Written(Ok(())),
        ) == (
            HandshakeView { stage: HandshakeStage::Connected, ..state },
            Some(HandshakeActionView::Finish),
        ),
        state.stage == HandshakeStage::Introducing || state.stage == HandshakeStage::Refusing
            || state.stage == HandshakeStage::Confirming ==> state.step(
            HandshakeInput::Written(Err(error)),
        ) == (
            HandshakeView { stage: HandshakeStage::Failed, ..state },
            Some(HandshakeActionView::Fail(error@)),
        ),
{
}

/// Answers to anything else than the introduction are passed over while it is
/// unanswered, an unknown request is refused, and an unknown notification is
/// passed over; the setup then goes on waiting.
pub proof fn other_messages_do_not_end_a_setup(
    state: HandshakeView,
    id: RequestId,
    result: String,
    error: JSONRPCErrorError,
    method: String,
    requires_delivery: bool,
)
    requires
        state.stage == HandshakeStage::Awaiting,
    ensures
        ({
            let waiting = (state, Some(HandshakeActionView::ReadLine));
            &&& id@ != RequestIdView::String("initialize"@) ==> {
                &&& state.step(
                    HandshakeInput::Line(Ok(IncomingMessage::Response { id, result })),
                ) == waiting
                &&& state.step(
                    HandshakeInput::Line(Ok(IncomingMessage::Error { id, error })),
                ) == waiting
            }
            &&& state.step(
                HandshakeInput::Line(
                    Ok(IncomingMessage::Notification { notification: None, requires_delivery }),
                ),
            ) == waiting
            &&& state.step(
                HandshakeInput::Line(
                    Ok(IncomingMessage::Request { id, method, request: None }),
                ),
            ) == (
                HandshakeView { stage: HandshakeStage::Refusing, ..state },
                Some(
                    HandshakeActionView::Write(
                        OutgoingView::Error {
                            id: id@,
                            error: ErrorView {
                                code: -32601,
                                message: "unsupported stdio app-server request `"@ + method@
                                    + "`"@,
                                data: None,
                            },
                        },
                    ),
                ),
            )
        }),
{
}

/// A setup fails where the introduction is refused, where a line is no message,
/// where the lines end or fail, and where the answer takes too long; each with
/// the name of the server and what happened.
pub proof fn a_setup_fails_with_its_reason(
    state: HandshakeView,
    id: RequestId,
    error: JSONRPCErrorError,
    message: String,
)
    requires
        state.stage == HandshakeStage::Awaiting,
        id@ == RequestIdView::String("initialize"@),
    ensures
        ({
            let failed = HandshakeView { stage: HandshakeStage::Failed, ..state };
            let label = state.label;
            &&& state.step(HandshakeInput::Line(Ok(IncomingMessage::Error { id, error }))) == (
                failed,
                Some(
                    HandshakeActionView::Fail(
                        TransportErrorView {
                            kind: TransportErrorKind::Other,
                            message: label + " rejected initialize: "@ + error.message@,
                        },
                    ),
                ),
            )
            &&& state.step(HandshakeInput::Line(Err(message))) == (
                failed,
                Some(
                    HandshakeActionView::Fail(
                        TransportErrorView {
                            kind: TransportErrorKind::Other,
                            message: label + " sent invalid initialize response: "@ + message@,
                        },
                    ),
                ),
            )
            &&& state.step(HandshakeInput::LinesEnded) == (
                failed,
                Some(
                    HandshakeActionView::Fail(
                        TransportErrorView {
                            kind: TransportErrorKind::UnexpectedEof,
                            message: label + " closed during initialize"@,
                        },
                    ),
                ),
            )
            &&& state.step(HandshakeInput::LinesFailed { message }) == (
                failed,
                Some(
                    HandshakeActionView::Fail(
                        TransportErrorView {
                            kind: TransportErrorKind::Other,
                            message: label + " transport failed during initialize: "@ + message@,
                        },
                    ),
                ),
            )
            &&& state.step(HandshakeInput::TimedOut) == (
                failed,
                Some(
                    HandshakeActionView::Fail(
                        TransportErrorView {
                            kind: TransportErrorKind::TimedOut,
                            message: "timed out waiting for initialize response from "@ + label,
                        },
                    ),
                ),
            )
        }),
{
}

/// What a command asks for is written just so: a request under its identifier,
/// which is then held; a notification; the result of a request of the server,
/// and its refusal, under the identifier of that request.
pub proof fn commands_are_written_as_asked(
    state: WorkerView,
    request: ClientRequest,
    notification: ClientNotification,
    request_id: RequestId,
    result: String,
    error: JSONRPCErrorError,
)
    requires
        state.stage is Waiting,
    ensures
        ({
            let asked = state.step(WorkerInput::Command(StdioClientCommand::Request(request)));
            let notified = state.step(
                WorkerInput::Command(StdioClientCommand::Notify(notification)),
            );
            let resolved = state.step(
                WorkerInput::Command(
                    StdioClientCommand::ResolveServerRequest { request_id, result },
                ),
            );
            let rejected = state.step(
                WorkerInput::Command(
                    StdioClientCommand::RejectServerRequest { request_id, error },
                ),
            );
            let shut_down = state.step(WorkerInput::Command(StdioClientCommand::Shutdown));
            let writing = WorkerView { stage: WorkerStageView::WritingCommand, ..state };
            &&& !state.pending.contains(request.spec_id()) ==> {
                &&& asked.0.pending == state.pending.push(request.spec_id())
                &&& asked.0.stage == (WorkerStageView::WritingRequest { id: request.spec_id() })
                &&& asked.1 == seq![
                    WorkerActionView::Hold { id: request.spec_id() },
                    WorkerActionView::Write(OutgoingView::Request(request)),
                ]
            }
            &&& notified == (
                writing,
                seq![WorkerActionView::Write(OutgoingView::Notification(notification))],
            )
            &&& resolved == (
                writing,
                seq![
                    WorkerActionView::Write(
                        OutgoingView::Response { id: request_id@, result: result@ },
                    ),
                ],
            )
            &&& rejected == (
                writing,
                seq![
                    WorkerActionView::Write(
                        OutgoingView::Error { id: request_id@, error: error@ },
                    ),
                ],
            )
            &&& shut_down == (
                WorkerView { stage: WorkerStageView::EndingServer { commanded: true }, ..state },
                seq![WorkerActionView::EndServer],
            )
        }),
{
}

/// Whoever gave a command is told what came of writing it. A message that was
/// written leaves the worker waiting for the next.
pub proof fn written_commands_are_answered(state: WorkerView, id: RequestIdView)
    ensures
        ({
            let waiting = WorkerView { stage: WorkerStageView::Waiting, ..state };
            let written = state.step(WorkerInput::Written(Ok(())));
            &&& state.stage is WritingCommand ==> written == (
                waiting,
                seq![WorkerActionView::Reply(Ok(()))],
            )
            &&& state.stage == (WorkerStageView::WritingRequest { id }) || state.stage
                is WritingRefusal || state.stage is WritingOverflow ==> written == (
                waiting,
                Seq::<WorkerActionView>::empty(),
            )
        }),
{
    let actions = state.step(WorkerInput::Written(Ok(()))).1;
    if state.stage is WritingCommand {
        assert(actions =~= seq![WorkerActionView::Reply(Ok(()))]);
    }
}

/// A write that fails loses the connection, which is told as the last event; a
/// request that could not be written fails with that error, and the giver of a
/// command is told it.
pub proof fn a_failed_write_loses_the_connection(
    state: WorkerView,
    id: RequestIdView,
    error: TransportError,
)
    requires
        state.skipped == 0,
    ensures
        ({
            let (after, actions) = state.step(WorkerInput::Written(Err(error)));
            let last = WorkerActionView::Send(
                AppServerEventView::Disconnected {
                    message: state.label + (" write failed: "@ + error@.message),
                },
            );
            let ending = WorkerStageView::SendingEvent {
                request_id: None,
                required: true,
                last: true,
            };
            &&& state.stage == (WorkerStageView::WritingRequest { id }) && state.pending.contains(
                id,
            ) ==> after.stage == ending && actions == seq![
                WorkerActionView::Answer { id, answer: AnswerView::Failed(error@) },
                last,
            ]
            &&& state.stage is WritingCommand ==> after.stage == ending && actions == seq![
                WorkerActionView::Reply(Err(error@)),
                last,
            ]
            &&& state.stage is WritingRefusal ==> after.stage == ending && actions == seq![last]
            &&& state.stage is WritingOverflow ==> after.stage is Stopped
        }),
{
    let actions = state.step(WorkerInput::Written(Err(error))).1;
    if state.stage is WritingCommand {
        assert(actions =~= seq![actions[0], actions[1]]);
    }
    if state.stage == (WorkerStageView::WritingRequest { id }) && state.pending.contains(id) {
        assert(actions =~= seq![actions[0], actions[1]]);
    }
}

/// A lost connection is told, with the name of the server and what happened, and
/// must arrive; it is the last event.
pub proof fn a_lost_connection_is_told(state: WorkerView, message: String)
    requires
        state.stage is Waiting,
        state.skipped == 0,
    ensures
        ({
            let invalid = state.step(WorkerInput::Line(Err(message)));
            let ended = state.step(WorkerInput::LinesEnded);
            let failed = state.step(WorkerInput::LinesFailed { message });
            let lost = WorkerView {
                stage: WorkerStageView::SendingEvent {
                    request_id: None,
                    required: true,
                    last: true,
                },
                ..state
            };
            &&& invalid == (
                lost,
                seq![
                    WorkerActionView::Send(
                        AppServerEventView::Disconnected {
                            message: state.label + (" sent invalid JSON-RPC: "@ + message@),
                        },
                    ),
                ],
            )
            &&& ended == (
                lost,
                seq![
                    WorkerActionView::Send(
                        AppServerEventView::Disconnected {
                            message: state.label + " closed the connection"@,
                        },
                    ),
                ],
            )
            &&& failed == (
                lost,
                seq![
                    WorkerActionView::Send(
                        AppServerEventView::Disconnected {
                            message: state.label + (" transport failed: "@ + message@),
                        },
                    ),
                ],
            )
            &&& lost.step(WorkerInput::Sent(SendOutcome::Sent)).0.stage is Stopped
        }),
{
}

/// Requests and notifications of the server are handed over as they come: one
/// that must arrive is waited for, another is only tried. Before that the number
/// of dropped events is handed over in the same way, and then the event itself.
pub proof fn events_are_handed_over(
    state: WorkerView,
    notification: ServerNotification,
    requires_delivery: bool,
    id: RequestId,
    method: String,
    request: ServerRequest,
)
    requires
        state.stage is Waiting,
    ensures
        ({
            let notified = state.step(
                WorkerInput::Line(
                    Ok(
                        IncomingMessage::Notification {
                            notification: Some(notification),
                            requires_delivery,
                        },
                    ),
                ),
            );
            let asked = state.step(
                WorkerInput::Line(
                    Ok(IncomingMessage::Request { id, method, request: Some(request) }),
                ),
            );
            let said = AppServerEventView::ServerNotification { notification, requires_delivery };
            let lagged = AppServerEventView::Lagged { skipped: state.skipped };
            &&& state.skipped == 0 ==> {
                &&& notified.1 == seq![
                    if requires_delivery {
                        WorkerActionView::Send(said)
                    } else {
                        WorkerActionView::TrySend(said)
                    },
                ]
                &&& asked.1 == seq![
                    WorkerActionView::TrySend(AppServerEventView::ServerRequest(request)),
                ]
                &&& asked.0.stage == (WorkerStageView::SendingEvent {
                    request_id: Some(request.request_id@),
                    required: false,
                    last: false,
                })
            }
            &&& state.skipped > 0 ==> {
                &&& notified.0.stage == (WorkerStageView::SendingLagged { event: said })
                &&& notified.1 == seq![
                    if requires_delivery {
                        WorkerActionView::Send(lagged)
                    } else {
                        WorkerActionView::TrySend(lagged)
                    },
                ]
                &&& asked.1 == seq![WorkerActionView::TrySend(lagged)]
                &&& notified.0.step(WorkerInput::Sent(SendOutcome::Sent)).0.skipped == 0
                &&& notified.0.step(WorkerInput::Sent(SendOutcome::Sent)).1 == seq![
                    if requires_delivery {
                        WorkerActionView::Send(said)
                    } else {
                        WorkerActionView::TrySend(said)
                    },
                ]
            }
        }),
{
}

/// An unknown request of the server is refused under its identifier, and an
/// unknown notification is passed over.
pub proof fn unknown_messages_are_refused_or_passed_over(
    state: WorkerView,
    id: RequestId,
    method: String,
    requires_delivery: bool,
)
    requires
        state.stage is Waiting,
    ensures
        state.step(
            WorkerInput::Line(Ok(IncomingMessage::Request { id, method, request: None })),
        ) == (
            WorkerView { stage: WorkerStageView::WritingRefusal, ..state },
            seq![
                WorkerActionView::Write(
                    OutgoingView::Error {
                        id: id@,
                        error: ErrorView {
                            code: -32601,
                            message: "unsupported stdio app-server request `"@ + method@ + "`"@,
                            data: None,
                        },
                    },
                ),
            ],
        ),
        state.step(
            WorkerInput::Line(
                Ok(IncomingMessage::Notification { notification: None, requires_delivery }),
            ),
        ) == (state, Seq::<WorkerActionView>::empty()),
{
}

/// An event that was taken leaves the worker waiting, unless it was the last;
/// one that nobody takes any more stops it; one for which there is no room is
/// counted and given up, unless it must arrive.
pub proof fn taken_events_are_done_with(state: WorkerView, required: bool, last: bool)
    requires
        state.stage == (WorkerStageView::SendingEvent { request_id: None, required, last }),
        state.skipped < usize::MAX,
    ensures
        ({
            let taken = state.step(WorkerInput::Sent(SendOutcome::Sent));
            let full = state.step(WorkerInput::Sent(SendOutcome::Full));
            let closed = state.step(WorkerInput::Sent(SendOutcome::Closed));
            let waiting = WorkerView { stage: WorkerStageView::Waiting, ..state };
            &&& last ==> taken.0.stage is Stopped
            &&& !last ==> taken == (waiting, Seq::<WorkerActionView>::empty())
            &&& required ==> full == (state, Seq::<WorkerActionView>::empty())
            &&& !required ==> full == (
                WorkerView { skipped: state.skipped + 1, ..waiting },
                Seq::<WorkerActionView>::empty(),
            )
            &&& closed.0.stage is Stopped
        }),
{
}

/// A worker that stops answers every request that it holds, in order, with the
/// same failure, and says last that it stops. Whoever asked it to shut down is
/// told first how the server ended.
pub proof fn a_stopping_worker_answers_all(
    state: WorkerView,
    commanded: bool,
    error: TransportError,
    at: int,
)
    requires
        state.stage == (WorkerStageView::EndingServer { commanded }),
        0 <= at < state.pending.len(),
    ensures
        ({
            let (after, actions) = state.step(WorkerInput::ServerEnded(Ok(())));
            let (failed, failing) = state.step(WorkerInput::ServerEnded(Err(error)));
            let first: int = if commanded {
                1
            } else {
                0
            };
            &&& after.stage is Stopped && failed.stage is Stopped
            &&& commanded ==> actions[0] == WorkerActionView::Reply(Ok(())) && failing[0]
                == WorkerActionView::Reply(Err(error@))
            &&& actions.len() == first + state.pending.len() + 1
            &&& actions[first + at] == (WorkerActionView::Answer {
                id: state.pending[at],
                answer: AnswerView::Failed(
                    TransportErrorView {
                        kind: TransportErrorKind::BrokenPipe,
                        message: "stdio app-server worker channel is closed"@,
                    },
                ),
            })
            &&& actions.last() is Stop
        }),
{
}

/// When no command can come any more the server is ended, without anyone to be
/// told of it.
pub proof fn an_abandoned_worker_ends_its_server(state: WorkerView)
    requires
        state.stage is Waiting,
    ensures
        state.step(WorkerInput::CommandsClosed) == (
            WorkerView { stage: WorkerStageView::EndingServer { commanded: false }, ..state },
            seq![WorkerActionView::EndServer],
        ),
{
}

/// An answered request is no longer held, and the others keep their order.
pub proof fn answered_requests_leave_the_others(
    before: Seq<RequestIdView>,
    id: RequestIdView,
    behind: Seq<RequestIdView>,
)
    requires
        !before.contains(id),
    ensures
        stdio_worker::without(before + seq![id] + behind, id) == before + behind,
    decreases before.len(),
{
    let whole = before + seq![id] + behind;
    if before.len() == 0 {
        assert(whole.drop_first() =~= behind);
        assert(before + behind =~= behind);
    } else {
        let rest = before.drop_first();
        assert(before[0] != id);
        assert forall|other: RequestIdView| rest.contains(other) implies before.contains(other) by {
            let i = choose|i: int| 0 <= i < rest.len() && rest[i] == other;
            assert(before[i + 1] == other);
        }
        answered_requests_leave_the_others(rest, id, behind);
        assert(whole.drop_first() =~= rest + seq![id] + behind);
        assert(seq![before[0]] + (rest + behind) =~= before + behind);
    }
}

/// Every request goes by its own identifier and under the method of its kind.
pub proof fn requests_go_by_their_method(request: ClientRequest)
    ensures
        match request {
            ClientRequest::ThreadResume { request_id, .. } => request.spec_id() == request_id@
                && request.spec_method() == "thread/resume"@,
            ClientRequest::ThreadStart { request_id, .. } => request.spec_id() == request_id@
                && request.spec_method() == "thread/start"@,
            ClientRequest::TurnStart { request_id, .. } => request.spec_id() == request_id@
                && request.spec_method() == "turn/start"@,
            ClientRequest::TurnSteer { request_id, .. } => request.spec_id() == request_id@
                && request.spec_method() == "turn/steer"@,
            ClientRequest::Other { request_id, method, .. } => request.spec_id() == request_id@
                && request.spec_method() == method@,
        },
{
}

/// A turn is started on its thread with the one text of the request, and with
/// all that the request sets; nothing else is set.
pub proof fn a_turn_starts_with_its_text(
    params: TurnStartParams,
    thread_id: Seq<char>,
    request: TurnRequest,
)
    requires
        turn_client::starts_turn(params, thread_id, request),
    ensures
        params.thread_id@ == thread_id,
        params.input@.len() == 1,
        params.input@[0] matches UserInput::Text { text, text_elements } && text@
            == request.text@ && text_elements@.len() == 0,
        params.model == request.model,
        params.cwd == request.cwd,
        params.approval_policy == request.approval_policy,
        params.approvals_reviewer == request.approvals_reviewer,
        params.sandbox_policy is None,
        params.effort is None,
        params.summary is None,
        params.service_tier is None,
        params.personality is None,
        params.output_schema is None,
        params.collaboration_mode is None,
        params.prefixed_messages is None,
        params.responsesapi_client_metadata is None,
        params.base_instructions is None,
        params.developer_instructions is None,
{
}
/// A thread that a request names is resumed, and otherwise one is started; what
/// the request sets is set, and nothing else.
pub proof fn a_thread_is_asked_for_as_requested(
    request_id: RequestId,
    request: ThreadSessionRequest,
    built: ClientRequest,
)
    requires
        call_ensures(turn_client::build_thread_request, (request_id, request), built),
    ensures
        built.spec_id() == request_id@,
        request.thread_id matches Some(thread_id) ==> {
            &&& built is ThreadResume
            &&& built->ThreadResume_params.thread_id == thread_id
            &&& built->ThreadResume_params.model == request.model
            &&& built->ThreadResume_params.cwd == request.cwd
            &&& built->ThreadResume_params.approval_policy == request.approval_policy
            &&& built->ThreadResume_params.approvals_reviewer == request.approvals_reviewer
            &&& built->ThreadResume_params.base_instructions == request.base_instructions
            &&& built->ThreadResume_params.model_provider is None
        },
        request.thread_id is None ==> {
            &&& built is ThreadStart
            &&& built->ThreadStart_params.model == request.model
            &&& built->ThreadStart_params.cwd == request.cwd
            &&& built->ThreadStart_params.approval_policy == request.approval_policy
            &&& built->ThreadStart_params.approvals_reviewer == request.approvals_reviewer
            &&& built->ThreadStart_params.base_instructions == request.base_instructions
            &&& built->ThreadStart_params.model_provider is None
            &&& !built->ThreadStart_params.experimental_raw_events
        },
{
}

/// A steer names its thread and the turn that it is meant for, and carries one
/// text.
pub proof fn a_steer_names_its_turn(
    request_id: RequestId,
    thread_id: &str,
    turn_id: String,
    text: String,
    built: ClientRequest,
)
    requires
        call_ensures(
            turn_client::build_turn_steer_request,
            (request_id, thread_id, turn_id, text),
            built,
        ),
    ensures
        built is TurnSteer,
        built.spec_id() == request_id@,
        built->TurnSteer_params.thread_id@ == thread_id@,
        built->TurnSteer_params.expected_turn_id@ == turn_id@,
        built->TurnSteer_params.input@.len() == 1,
        built->TurnSteer_params.input@[0] matches UserInput::Text { text: held, .. } && held@
            == text@,
{
}

/// A session that starts on a thread goes by the turn that is in progress there,
/// which only an active thread has.
pub proof fn a_session_starts_with_the_turn_in_progress(
    thread: Thread,
    start: ThreadSessionStart,
)
    requires
        call_ensures(turn_client::session_start, (thread,), start),
    ensures
        start.thread == thread,
        start.session@.thread_id == thread.id@,
        thread.status != ThreadStatus::Active ==> start.session@.active_turn_id is None,
        thread.status == ThreadStatus::Active ==> start.session@.active_turn_id
            == protocol::last_in_progress(thread.turns@),
{
}

/// A client introduces itself with its name and version, says what it can do,
/// and names the notifications that it wants to be spared, where there are any.
pub proof fn a_client_introduces_itself(args: &StdioAppServerConnectArgs, params: InitializeParams)
    requires
        call_ensures(StdioAppServerConnectArgs::initialize_params, (args,), params),
    ensures
        params.client_info.name@ == args.client_name@,
        params.client_info.version@ == args.client_version@,
        params.client_info.title is None,
        params.capabilities is Some,
        params.capabilities->0.experimental_api == args.experimental_api,
        args.opt_out_notification_methods@.len() == 0
            <==> params.capabilities->0.opt_out_notification_methods is None,
        params.capabilities->0.opt_out_notification_methods matches Some(methods) ==> methods@
            == args.opt_out_notification_methods@,
{
}

/// The app server is run with the overrides of the configuration before its
/// name, and there is always room for one event.
pub proof fn a_server_is_run_with_its_overrides(
    args: &StdioAppServerConnectArgs,
    arguments: Vec<String>,
    capacity: usize,
    at: int,
)
    requires
        call_ensures(StdioAppServerConnectArgs::command_arguments, (args,), arguments),
        call_ensures(StdioAppServerConnectArgs::usable_capacity, (args,), capacity),
        0 <= at < args.config_overrides@.len(),
    ensures
        arguments@.len() == 2 * args.config_overrides@.len() + 1,
        arguments@[2 * at]@ == "--config"@,
        arguments@[2 * at + 1]@ == args.config_overrides@[at]@,
        arguments@.last()@ == "app-server"@,
        capacity >= 1,
        args.channel_capacity >= 1 ==> capacity == args.channel_capacity,
{
    let overrides = text::texts(args.config_overrides@);
    each_override_has_its_option(overrides, at);
    let shown = text::texts(arguments@);
    assert(shown.len() == arguments@.len());
    assert(shown[2 * at] == arguments@[2 * at]@);
    assert(shown[2 * at + 1] == arguments@[2 * at + 1]@);
    assert(shown.last() == arguments@.last()@);
    assert(overrides[at] == args.config_overrides@[at]@);
}

/// A message to the app server is one line.
pub proof fn a_message_is_one_line(payload: String, line: String)
    requires
        call_ensures(stdio::jsonrpc_line, (payload,), line),
    ensures
        line@ == payload@ + "\n"@,
{
}

/// The number of dropped events is told before a lost connection too, and must
/// arrive as that must. A user that takes no events any more stops the worker.
pub proof fn dropped_events_are_told_before_the_end(state: WorkerView, event: AppServerEventView)
    requires
        state.skipped > 0,
    ensures
        state.stage is Waiting ==> state.step(WorkerInput::LinesEnded) == (
            WorkerView {
                stage: WorkerStageView::SendingLagged {
                    event: AppServerEventView::Disconnected {
                        message: state.label + " closed the connection"@,
                    },
                },
                ..state
            },
            seq![WorkerActionView::Send(AppServerEventView::Lagged { skipped: state.skipped })],
        ),
        state.stage == (WorkerStageView::SendingLagged { event }) ==> {
            &&& state.step(WorkerInput::Sent(SendOutcome::Closed)).0.stage is Stopped
            &&& event is Disconnected ==> state.step(WorkerInput::Sent(SendOutcome::Full)) == (
                state,
                Seq::<WorkerActionView>::empty(),
            )
            &&& event is Disconnected ==> state.step(WorkerInput::Sent(SendOutcome::Sent)) == (
                WorkerView {
                    skipped: 0,
                    stage: WorkerStageView::SendingEvent {
                        request_id: None,
                        required: true,
                        last: true,
                    },
                    ..state
                },
                seq![WorkerActionView::Send(event)],
            )
        },
{
}

/// The answer may also take too long while a refusal is written; a setup that is
/// over takes nothing more.
pub proof fn a_setup_that_is_over_stays_so(state: HandshakeView, input: HandshakeInput)
    ensures
        state.stage == HandshakeStage::Connected || state.stage == HandshakeStage::Failed
            ==> state.step(input) == (state, None::<HandshakeActionView>),
        state.stage == HandshakeStage::Refusing ==> state.step(HandshakeInput::TimedOut) == (
            HandshakeView { stage: HandshakeStage::Failed, ..state },
            Some(
                HandshakeActionView::Fail(
                    TransportErrorView {
                        kind: TransportErrorKind::TimedOut,
                        message: "timed out waiting for initialize response from "@ + state.label,
                    },
                ),
            ),
        ),
{
}

/// A request whose identifier is in use is refused with an error that names the
/// identifier, and nothing is written for it.
pub proof fn a_used_identifier_is_named(state: WorkerView, request: ClientRequest)
    requires
        state.stage is Waiting,
        state.pending.contains(request.spec_id()),
    ensures
        state.step(WorkerInput::Command(StdioClientCommand::Request(request))) == (
            state,
            seq![
                WorkerActionView::Refuse(
                    TransportErrorView {
                        kind: TransportErrorKind::InvalidInput,
                        message: "duplicate stdio app-server request id `"@
                            + request.spec_id().shown() + "`"@,
                    },
                ),
            ],
        ),
{
}

/// The events that came while the connection was set up are handed out first
/// come, first served.
pub proof fn early_events_come_out_in_order(
    events: &mut VecDeque<AppServerEvent>,
    event: Option<AppServerEvent>,
)
    requires
        call_ensures(stdio::next_pending_event, (events,), event),
    ensures
        event is None <==> old(events)@.len() == 0,
        event matches Some(event) ==> old(events)@ == seq![event] + final(events)@,
{
    if let Some(event) = event {
        assert(old(events)@ =~= seq![event] + final(events)@);
    }
}

/// A client without a thread says so; any other failure is shown as that of its
/// request.
pub proof fn a_missing_thread_is_named(error: TurnClientError)
    ensures
        error is MissingThread ==> error.shown() == "thread session is not initialized"@,
        error matches TurnClientError::Request(source) ==> error.shown() == source@.shown(),
{
}


} // verus!
