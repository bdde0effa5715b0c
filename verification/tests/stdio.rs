use std::collections::VecDeque;

use turn_start_bridge::items::{ServerNotification, ThreadItem};
use turn_start_bridge::protocol::{JSONRPCErrorError, RequestId};
use turn_start_bridge::sideband::{ItemRequestParams, ServerRequest, ServerRequestBody};
use turn_start_bridge::stdio::{
    command_failure, event_requires_delivery, jsonrpc_line, missing_pipe, next_pending_event,
    request_typed, shutdown_outcome, shutdown_result, undecodable_result, write_jsonrpc_failure,
    AppServerEvent,
    ClientNotification, CommandFailure, CommandKind, IncomingMessage, OutgoingMessage, ServerExit,
    ServerPipe, StdioAppServerConnectArgs, TransportError, TransportErrorKind, TypedRequestError,
    WriteFailure,
};
use turn_start_bridge::stdio_handshake::{
    HandshakeAction, HandshakeInput, HandshakeStage, StdioHandshake,
};
use turn_start_bridge::stdio_worker::{
    Answer, SendOutcome, StdioClientCommand, StdioWorker, WorkerAction, WorkerInput, WorkerStage,
};
use turn_start_bridge::turn_client::ClientRequest;

const LABEL: &str = "test stdio app server";

fn notification(method: &str) -> ServerNotification {
    ServerNotification::Other {
        method: method.to_string(),
    }
}

fn incoming(notification: ServerNotification, requires_delivery: bool) -> WorkerInput {
    WorkerInput::Line(Ok(IncomingMessage::Notification {
        notification: Some(notification),
        requires_delivery,
    }))
}

fn user_input_request(id: &str) -> ServerRequest {
    ServerRequest {
        request_id: RequestId::String(id.to_string()),
        json: None,
        body: ServerRequestBody::ToolRequestUserInput(ItemRequestParams {
            thread_id: "thread-1".to_string(),
            turn_id: "turn-1".to_string(),
            item_id: "call-1".to_string(),
            json: Ok("{}".to_string()),
        }),
    }
}

fn get_account(id: i64) -> ClientRequest {
    ClientRequest::Other {
        request_id: RequestId::Integer(id),
        method: "account/read".to_string(),
        params: "{}".to_string(),
    }
}

fn response(id: RequestId, result: &str) -> WorkerInput {
    WorkerInput::Line(Ok(IncomingMessage::Response {
        id,
        result: result.to_string(),
    }))
}

fn worker() -> StdioWorker {
    StdioWorker::new(LABEL.to_string())
}

fn failure(kind: TransportErrorKind, message: &str) -> TransportError {
    TransportError {
        kind,
        message: message.to_string(),
    }
}

fn send_request(worker: &mut StdioWorker, id: i64) {
    assert_eq!(
        worker.step(WorkerInput::Command(StdioClientCommand::Request(
            get_account(id)
        ))),
        vec![
            WorkerAction::Hold {
                id: RequestId::Integer(id)
            },
            WorkerAction::Write(OutgoingMessage::Request(get_account(id))),
        ]
    );
    assert_eq!(worker.step(WorkerInput::Written(Ok(()))), Vec::new());
}

fn handshake() -> StdioHandshake {
    let (handshake, action) = StdioHandshake::new(LABEL.to_string(), "{\"a\":1}".to_string());
    assert_eq!(
        action,
        HandshakeAction::Write(OutgoingMessage::Initialize {
            id: RequestId::String("initialize".to_string()),
            params: "{\"a\":1}".to_string(),
        })
    );
    handshake
}

fn initialize_id() -> RequestId {
    RequestId::String("initialize".to_string())
}

#[test]
fn initialize_waits_for_response_before_initialized_and_buffers_events() {
    let mut handshake = handshake();
    assert_eq!(
        handshake.step(HandshakeInput::Written(Ok(()))),
        Some(HandshakeAction::ReadLine)
    );
    assert_eq!(
        handshake.step(HandshakeInput::Line(Ok(IncomingMessage::Notification {
            notification: Some(notification("account/updated")),
            requires_delivery: false,
        }))),
        Some(HandshakeAction::ReadLine)
    );
    assert_eq!(
        handshake.step(HandshakeInput::Line(Ok(IncomingMessage::Response {
            id: RequestId::Integer(1),
            result: "{}".to_string(),
        }))),
        Some(HandshakeAction::ReadLine)
    );
    assert_eq!(
        handshake.step(HandshakeInput::Line(Ok(IncomingMessage::Response {
            id: initialize_id(),
            result: "{}".to_string(),
        }))),
        Some(HandshakeAction::Write(OutgoingMessage::Notification(
            ClientNotification::Initialized
        )))
    );
    assert_eq!(
        handshake.step(HandshakeInput::Written(Ok(()))),
        Some(HandshakeAction::Finish)
    );
    assert_eq!(handshake.stage, HandshakeStage::Connected);
    let mut pending: VecDeque<AppServerEvent> = handshake.pending_events.into();
    assert_eq!(
        next_pending_event(&mut pending),
        Some(AppServerEvent::ServerNotification {
            notification: notification("account/updated"),
            requires_delivery: false,
        })
    );
    assert_eq!(next_pending_event(&mut pending), None);
}

#[test]
fn stdio_server_request_received_during_initialize_is_delivered() {
    let mut handshake = handshake();
    let _ = handshake.step(HandshakeInput::Written(Ok(())));
    assert_eq!(
        handshake.step(HandshakeInput::Line(Ok(IncomingMessage::Request {
            id: RequestId::String("srv-init".to_string()),
            method: "item/tool/requestUserInput".to_string(),
            request: Some(user_input_request("srv-init")),
        }))),
        Some(HandshakeAction::ReadLine)
    );
    let _ = handshake.step(HandshakeInput::Line(Ok(IncomingMessage::Response {
        id: initialize_id(),
        result: "{}".to_string(),
    })));
    let _ = handshake.step(HandshakeInput::Written(Ok(())));
    assert_eq!(
        handshake.pending_events,
        vec![AppServerEvent::ServerRequest(user_input_request("srv-init"))]
    );
}

#[test]
fn unknown_requests_are_refused_during_initialize() {
    let mut handshake = handshake();
    let _ = handshake.step(HandshakeInput::Written(Ok(())));
    assert_eq!(
        handshake.step(HandshakeInput::Line(Ok(IncomingMessage::Request {
            id: RequestId::Integer(5),
            method: "thread/unknown".to_string(),
            request: None,
        }))),
        Some(HandshakeAction::Write(OutgoingMessage::Error {
            id: RequestId::Integer(5),
            error: JSONRPCErrorError {
                code: -32601,
                message: "unsupported stdio app-server request `thread/unknown`".to_string(),
                data: None,
            },
        }))
    );
    assert_eq!(
        handshake.step(HandshakeInput::Written(Ok(()))),
        Some(HandshakeAction::ReadLine)
    );
    assert_eq!(
        handshake.step(HandshakeInput::Line(Ok(IncomingMessage::Notification {
            notification: None,
            requires_delivery: false,
        }))),
        Some(HandshakeAction::ReadLine)
    );
    assert_eq!(handshake.pending_events, Vec::new());
}

fn handshake_failure(input: HandshakeInput) -> TransportError {
    let mut handshake = handshake();
    let _ = handshake.step(HandshakeInput::Written(Ok(())));
    let Some(HandshakeAction::Fail(error)) = handshake.step(input) else {
        panic!("expected a failure");
    };
    assert_eq!(handshake.stage, HandshakeStage::Failed);
    assert_eq!(handshake.step(HandshakeInput::TimedOut), None);
    error
}

#[test]
fn initialize_failures_are_told_apart() {
    assert_eq!(
        handshake_failure(HandshakeInput::TimedOut),
        failure(
            TransportErrorKind::TimedOut,
            "timed out waiting for initialize response from test stdio app server"
        )
    );
    assert_eq!(
        handshake_failure(HandshakeInput::LinesEnded),
        failure(
            TransportErrorKind::UnexpectedEof,
            "test stdio app server closed during initialize"
        )
    );
    assert_eq!(
        handshake_failure(HandshakeInput::LinesFailed {
            message: "boom".to_string()
        }),
        failure(
            TransportErrorKind::Other,
            "test stdio app server transport failed during initialize: boom"
        )
    );
    assert_eq!(
        handshake_failure(HandshakeInput::Line(Err("no JSON".to_string()))),
        failure(
            TransportErrorKind::Other,
            "test stdio app server sent invalid initialize response: no JSON"
        )
    );
    assert_eq!(
        handshake_failure(HandshakeInput::Line(Ok(IncomingMessage::Error {
            id: initialize_id(),
            error: JSONRPCErrorError {
                code: 1,
                message: "too old".to_string(),
                data: None,
            },
        }))),
        failure(
            TransportErrorKind::Other,
            "test stdio app server rejected initialize: too old"
        )
    );
    let mut handshake = handshake();
    assert_eq!(
        handshake.step(HandshakeInput::Written(Err(failure(
            TransportErrorKind::Other,
            "gone"
        )))),
        Some(HandshakeAction::Fail(failure(
            TransportErrorKind::Other,
            "gone"
        )))
    );
}

#[test]
fn stdio_request_response_routing_uses_request_id() {
    let mut worker = worker();
    send_request(&mut worker, 1);
    send_request(&mut worker, 2);

    assert_eq!(
        worker.step(response(RequestId::Integer(2), "second")),
        vec![WorkerAction::Answer {
            id: RequestId::Integer(2),
            answer: Answer::Result("second".to_string()),
        }]
    );
    assert_eq!(
        worker.step(response(RequestId::Integer(1), "first")),
        vec![WorkerAction::Answer {
            id: RequestId::Integer(1),
            answer: Answer::Result("first".to_string()),
        }]
    );
    assert_eq!(worker.step(response(RequestId::Integer(1), "again")), Vec::new());
}

#[test]
fn stdio_duplicate_request_id_rejection_keeps_original_waiter() {
    let mut worker = worker();
    send_request(&mut worker, 1);
    let mut actions = worker.step(WorkerInput::Command(StdioClientCommand::Request(
        get_account(1),
    )));
    assert_eq!(actions.len(), 1);
    let Some(WorkerAction::Refuse(refusal)) = actions.pop() else {
        panic!("duplicate request id should be rejected");
    };
    assert_eq!(
        refusal,
        failure(
            TransportErrorKind::InvalidInput,
            "duplicate stdio app-server request id `1`"
        )
    );
    let second_err = request_typed(get_account(1).method().to_string(), Err(refusal))
        .expect_err("duplicate request id should be rejected");
    assert_eq!(
        second_err.to_string(),
        "account/read transport error: duplicate stdio app-server request id `1`"
    );
    assert_eq!(
        worker.step(response(RequestId::Integer(1), "first")),
        vec![WorkerAction::Answer {
            id: RequestId::Integer(1),
            answer: Answer::Result("first".to_string()),
        }]
    );
}

#[test]
fn stdio_notifications_and_server_requests_arrive_on_event_stream() {
    let mut worker = worker();
    assert_eq!(
        worker.step(incoming(notification("account/updated"), false)),
        vec![WorkerAction::TrySend(AppServerEvent::ServerNotification {
            notification: notification("account/updated"),
            requires_delivery: false,
        })]
    );
    assert_eq!(worker.step(WorkerInput::Sent(SendOutcome::Sent)), Vec::new());
    assert_eq!(
        worker.step(WorkerInput::Line(Ok(IncomingMessage::Request {
            id: RequestId::String("srv-1".to_string()),
            method: "item/tool/requestUserInput".to_string(),
            request: Some(user_input_request("srv-1")),
        }))),
        vec![WorkerAction::TrySend(AppServerEvent::ServerRequest(
            user_input_request("srv-1")
        ))]
    );
    assert_eq!(worker.step(WorkerInput::Sent(SendOutcome::Sent)), Vec::new());
    assert_eq!(
        worker.step(WorkerInput::Command(
            StdioClientCommand::ResolveServerRequest {
                request_id: RequestId::String("srv-1".to_string()),
                result: "{}".to_string(),
            }
        )),
        vec![WorkerAction::Write(OutgoingMessage::Response {
            id: RequestId::String("srv-1".to_string()),
            result: "{}".to_string(),
        })]
    );
    assert_eq!(
        worker.step(WorkerInput::Written(Ok(()))),
        vec![WorkerAction::Reply(Ok(()))]
    );
    assert_eq!(worker.stage(), &WorkerStage::Waiting);
}

#[test]
fn stdio_unknown_server_request_is_rejected() {
    let mut worker = worker();
    assert_eq!(
        worker.step(WorkerInput::Line(Ok(IncomingMessage::Request {
            id: RequestId::String("srv-unknown".to_string()),
            method: "thread/unknown".to_string(),
            request: None,
        }))),
        vec![WorkerAction::Write(OutgoingMessage::Error {
            id: RequestId::String("srv-unknown".to_string()),
            error: JSONRPCErrorError {
                code: -32601,
                message: "unsupported stdio app-server request `thread/unknown`".to_string(),
                data: None,
            },
        })]
    );
}

#[test]
fn stdio_explicit_reject_server_request_roundtrip_works() {
    let mut worker = worker();
    let error = JSONRPCErrorError {
        code: -32042,
        message: "request rejected for test".to_string(),
        data: Some("{\"reason\":\"declined\"}".to_string()),
    };
    assert_eq!(
        worker.step(WorkerInput::Command(
            StdioClientCommand::RejectServerRequest {
                request_id: RequestId::String("srv-reject".to_string()),
                error: error.clone(),
            }
        )),
        vec![WorkerAction::Write(OutgoingMessage::Error {
            id: RequestId::String("srv-reject".to_string()),
            error,
        })]
    );
}

fn disconnected(message: &str) -> WorkerAction {
    WorkerAction::Send(AppServerEvent::Disconnected {
        message: message.to_string(),
    })
}

#[test]
fn stdio_disconnect_surfaces_as_event() {
    let mut worker = worker();
    send_request(&mut worker, 1);
    assert_eq!(
        worker.step(WorkerInput::LinesEnded),
        vec![disconnected("test stdio app server closed the connection")]
    );
    assert_eq!(
        worker.step(WorkerInput::Sent(SendOutcome::Sent)),
        vec![
            WorkerAction::Answer {
                id: RequestId::Integer(1),
                answer: Answer::Failed(failure(
                    TransportErrorKind::BrokenPipe,
                    "stdio app-server worker channel is closed"
                )),
            },
            WorkerAction::Stop,
        ]
    );
    assert_eq!(worker.stage(), &WorkerStage::Stopped);
    assert_eq!(worker.step(WorkerInput::LinesEnded), Vec::new());
}

#[test]
fn lost_connections_say_why() {
    let mut garbled = worker();
    assert_eq!(
        garbled.step(WorkerInput::Line(Err("expected value".to_string()))),
        vec![disconnected(
            "test stdio app server sent invalid JSON-RPC: expected value"
        )]
    );
    let mut failing = worker();
    assert_eq!(
        failing.step(WorkerInput::LinesFailed {
            message: "boom".to_string()
        }),
        vec![disconnected("test stdio app server transport failed: boom")]
    );
}

#[test]
fn a_request_that_cannot_be_written_fails() {
    let mut worker = worker();
    let _ = worker.step(WorkerInput::Command(StdioClientCommand::Request(
        get_account(1),
    )));
    assert_eq!(
        worker.step(WorkerInput::Written(Err(failure(
            TransportErrorKind::Other,
            "pipe"
        )))),
        vec![
            WorkerAction::Answer {
                id: RequestId::Integer(1),
                answer: Answer::Failed(failure(TransportErrorKind::Other, "pipe")),
            },
            disconnected("test stdio app server write failed: pipe"),
        ]
    );
    assert_eq!(
        worker.step(WorkerInput::Sent(SendOutcome::Closed)),
        vec![WorkerAction::Stop]
    );
}

#[test]
fn a_notification_that_cannot_be_written_fails() {
    let mut worker = worker();
    assert_eq!(
        worker.step(WorkerInput::Command(StdioClientCommand::Notify(
            ClientNotification::Initialized
        ))),
        vec![WorkerAction::Write(OutgoingMessage::Notification(
            ClientNotification::Initialized
        ))]
    );
    assert_eq!(
        worker.step(WorkerInput::Written(Err(failure(
            TransportErrorKind::Other,
            "pipe"
        )))),
        vec![
            WorkerAction::Reply(Err(failure(TransportErrorKind::Other, "pipe"))),
            disconnected("test stdio app server write failed: pipe"),
        ]
    );
}

#[test]
fn errors_answer_their_request() {
    let mut worker = worker();
    send_request(&mut worker, 1);
    let error = JSONRPCErrorError {
        code: 5,
        message: "no".to_string(),
        data: None,
    };
    assert_eq!(
        worker.step(WorkerInput::Line(Ok(IncomingMessage::Error {
            id: RequestId::Integer(1),
            error: error.clone(),
        }))),
        vec![WorkerAction::Answer {
            id: RequestId::Integer(1),
            answer: Answer::Error(error),
        }]
    );
}

#[test]
fn shutting_down_ends_the_server_and_answers_everyone() {
    let mut worker = worker();
    send_request(&mut worker, 1);
    send_request(&mut worker, 2);
    assert_eq!(
        worker.step(WorkerInput::Command(StdioClientCommand::Shutdown)),
        vec![WorkerAction::EndServer]
    );
    let actions = worker.step(WorkerInput::ServerEnded(Ok(())));
    assert_eq!(actions.len(), 4);
    assert_eq!(actions[0], WorkerAction::Reply(Ok(())));
    assert_eq!(actions[3], WorkerAction::Stop);

    let mut abandoned = self::worker();
    assert_eq!(
        abandoned.step(WorkerInput::CommandsClosed),
        vec![WorkerAction::EndServer]
    );
    assert_eq!(
        abandoned.step(WorkerInput::ServerEnded(Err(failure(
            TransportErrorKind::Other,
            "late"
        )))),
        vec![WorkerAction::Stop]
    );
}

/// Runs a worker against a channel with room for one event, which its user
/// empties only when the worker waits for room.
fn deliver_with_one_place(
    worker: &mut StdioWorker,
    input: WorkerInput,
    queue: &mut VecDeque<AppServerEvent>,
    taken: &mut Vec<AppServerEvent>,
) {
    let mut actions: VecDeque<WorkerAction> = worker.step(input).into();
    while let Some(action) = actions.pop_front() {
        let outcome = match action {
            WorkerAction::Send(event) => {
                taken.extend(queue.pop_front());
                queue.push_back(event);
                SendOutcome::Sent
            }
            WorkerAction::TrySend(event) => {
                if queue.is_empty() {
                    queue.push_back(event);
                    SendOutcome::Sent
                } else {
                    SendOutcome::Full
                }
            }
            other => panic!("unexpected action {other:?}"),
        };
        actions.extend(worker.step(WorkerInput::Sent(outcome)));
    }
}

#[test]
fn stdio_backpressure_preserves_transcript_notifications() {
    let mut worker = worker();
    let mut queue = VecDeque::new();
    let mut taken = Vec::new();
    let completed = ServerNotification::ItemCompleted {
        thread_id: "thread".to_string(),
        turn_id: "turn".to_string(),
        item: ThreadItem::AgentMessage {
            id: "item".to_string(),
            text: "hello".to_string(),
        },
    };
    let done = ServerNotification::TurnCompleted {
        thread_id: "thread".to_string(),
        turn_id: "turn".to_string(),
    };
    for (notification, requires_delivery) in [
        (notification("item/commandExecution/outputDelta"), false),
        (notification("item/commandExecution/outputDelta"), false),
        (notification("item/agentMessage/delta"), true),
        (completed.clone(), true),
        (done.clone(), true),
    ] {
        deliver_with_one_place(
            &mut worker,
            incoming(notification, requires_delivery),
            &mut queue,
            &mut taken,
        );
    }
    taken.extend(queue);
    let event = |notification: ServerNotification, requires_delivery: bool| {
        AppServerEvent::ServerNotification {
            notification,
            requires_delivery,
        }
    };
    assert_eq!(
        taken,
        vec![
            event(notification("item/commandExecution/outputDelta"), false),
            AppServerEvent::Lagged { skipped: 1 },
            event(notification("item/agentMessage/delta"), true),
            event(completed, true),
            event(done, true),
        ]
    );
}

#[test]
fn dropped_server_requests_are_refused_and_counted() {
    let mut worker = worker();
    let request = |id: &str| {
        WorkerInput::Line(Ok(IncomingMessage::Request {
            id: RequestId::String(id.to_string()),
            method: "item/tool/requestUserInput".to_string(),
            request: Some(user_input_request(id)),
        }))
    };
    let refusal = |id: &str| {
        vec![WorkerAction::Write(OutgoingMessage::Error {
            id: RequestId::String(id.to_string()),
            error: JSONRPCErrorError {
                code: -32001,
                message: "stdio app-server event queue is full".to_string(),
                data: None,
            },
        })]
    };
    let _ = worker.step(request("srv-1"));
    assert_eq!(
        worker.step(WorkerInput::Sent(SendOutcome::Full)),
        refusal("srv-1")
    );
    assert_eq!(worker.step(WorkerInput::Written(Ok(()))), Vec::new());
    assert_eq!(
        worker.step(request("srv-2")),
        vec![WorkerAction::TrySend(AppServerEvent::Lagged { skipped: 1 })]
    );
    assert_eq!(
        worker.step(WorkerInput::Sent(SendOutcome::Full)),
        refusal("srv-2")
    );
    assert_eq!(
        worker.step(WorkerInput::Written(Err(failure(
            TransportErrorKind::Other,
            "pipe"
        )))),
        vec![WorkerAction::Stop]
    );
}

#[test]
fn event_requires_delivery_marks_transcript_and_disconnect_events() {
    assert!(event_requires_delivery(
        &AppServerEvent::ServerNotification {
            notification: notification("item/agentMessage/delta"),
            requires_delivery: true,
        }
    ));
    assert!(event_requires_delivery(&AppServerEvent::Disconnected {
        message: "closed".to_string(),
    }));
    assert!(!event_requires_delivery(&AppServerEvent::Lagged {
        skipped: 1,
    }));
    assert!(!event_requires_delivery(&AppServerEvent::ServerRequest(
        user_input_request("srv-1")
    )));
}

fn connect_args(config_overrides: Vec<String>) -> StdioAppServerConnectArgs {
    StdioAppServerConnectArgs {
        codex_bin: "codex".to_string(),
        config_overrides,
        client_name: "codex-app-server-client-test".to_string(),
        client_version: "0.0.0-test".to_string(),
        experimental_api: true,
        opt_out_notification_methods: Vec::new(),
        channel_capacity: 0,
    }
}

#[test]
fn connect_args_describe_the_client() {
    let mut args = connect_args(vec!["a=1".to_string(), "b=2".to_string()]);
    assert_eq!(
        args.command_arguments(),
        vec!["--config", "a=1", "--config", "b=2", "app-server"]
    );
    assert_eq!(args.connection_label(), "stdio app server `codex`");
    assert_eq!(args.usable_capacity(), 1);
    let params = args.initialize_params();
    assert_eq!(params.client_info.name, "codex-app-server-client-test");
    assert_eq!(params.client_info.title, None);
    let capabilities = params.capabilities.expect("capabilities");
    assert!(capabilities.experimental_api);
    assert_eq!(capabilities.opt_out_notification_methods, None);

    args.opt_out_notification_methods = vec!["x".to_string()];
    args.channel_capacity = 64;
    assert_eq!(
        args.initialize_params()
            .capabilities
            .expect("capabilities")
            .opt_out_notification_methods,
        Some(vec!["x".to_string()])
    );
    assert_eq!(args.usable_capacity(), 64);
    assert_eq!(connect_args(Vec::new()).command_arguments(), vec!["app-server"]);
}

#[test]
fn connection_failures_are_named() {
    assert_eq!(
        connect_args(Vec::new()).start_failure("not found"),
        failure(
            TransportErrorKind::Other,
            "failed to start `codex` app-server: not found"
        )
    );
    assert_eq!(
        missing_pipe(ServerPipe::Stdin),
        failure(
            TransportErrorKind::BrokenPipe,
            "spawned codex app-server stdin unavailable"
        )
    );
    assert_eq!(
        missing_pipe(ServerPipe::Stdout).message,
        "spawned codex app-server stdout unavailable"
    );
    let why = || "pipe".to_string();
    assert_eq!(
        write_jsonrpc_failure(WriteFailure::Write { message: why() }, LABEL).message,
        "failed to write stdio message to test stdio app server: pipe"
    );
    assert_eq!(
        write_jsonrpc_failure(WriteFailure::Flush { message: why() }, LABEL).message,
        "failed to flush stdio message to test stdio app server: pipe"
    );
    assert_eq!(
        write_jsonrpc_failure(WriteFailure::Encode { message: why() }, LABEL).message,
        "pipe"
    );
    assert_eq!(jsonrpc_line("{}".to_string()), "{}\n");
}

#[test]
fn the_end_of_the_server_is_reported() {
    let why = || "boom".to_string();
    assert_eq!(shutdown_outcome(ServerExit::NoServer, LABEL), Ok(()));
    assert_eq!(shutdown_outcome(ServerExit::Exited, LABEL), Ok(()));
    assert_eq!(shutdown_outcome(ServerExit::Killed, LABEL), Ok(()));
    for (exit, message) in [
        (
            ServerExit::WaitFailed { message: why() },
            "failed waiting for test stdio app server shutdown: boom",
        ),
        (
            ServerExit::KillFailed { message: why() },
            "failed killing test stdio app server after shutdown timeout: boom",
        ),
        (
            ServerExit::KilledWaitFailed { message: why() },
            "failed waiting for killed test stdio app server: boom",
        ),
    ] {
        assert_eq!(
            shutdown_outcome(exit, LABEL),
            Err(failure(TransportErrorKind::Other, message))
        );
    }
    assert_eq!(shutdown_result(None), Ok(()));
    assert_eq!(
        shutdown_result(Some(Err(failure(TransportErrorKind::Other, "x")))),
        Err(failure(TransportErrorKind::Other, "x"))
    );
}

#[test]
fn commands_fail_when_the_worker_is_gone() {
    assert_eq!(
        command_failure(CommandKind::Notify, CommandFailure::NotTaken),
        failure(
            TransportErrorKind::BrokenPipe,
            "stdio app-server worker channel is closed"
        )
    );
    for (kind, word) in [
        (CommandKind::Request, "request"),
        (CommandKind::Notify, "notify"),
        (CommandKind::Resolve, "resolve"),
        (CommandKind::Reject, "reject"),
    ] {
        assert_eq!(
            command_failure(kind, CommandFailure::NotAnswered).message,
            format!("stdio app-server {word} channel is closed")
        );
    }
}

#[test]
fn typed_requests_tell_failures_apart() {
    let method = || "account/read".to_string();
    assert_eq!(
        request_typed(method(), Ok(Ok("{}".to_string()))),
        Ok("{}".to_string())
    );
    let error = JSONRPCErrorError {
        code: 1,
        message: "no".to_string(),
        data: None,
    };
    assert_eq!(
        request_typed(method(), Ok(Err(error.clone()))),
        Err(TypedRequestError::Server {
            method: method(),
            source: error,
        })
    );
    assert_eq!(
        request_typed(method(), Err(failure(TransportErrorKind::BrokenPipe, "x"))),
        Err(TypedRequestError::Transport {
            method: method(),
            source: failure(TransportErrorKind::BrokenPipe, "x"),
        })
    );
}

#[test]
fn failed_requests_are_shown_with_their_method() {
    let method = || "turn/start".to_string();
    let transport = TypedRequestError::Transport {
        method: method(),
        source: failure(TransportErrorKind::BrokenPipe, "gone"),
    };
    assert_eq!(transport.to_string(), "turn/start transport error: gone");
    let server = TypedRequestError::Server {
        method: method(),
        source: JSONRPCErrorError {
            code: -32600,
            message: "no such thread".to_string(),
            data: None,
        },
    };
    assert_eq!(server.to_string(), "turn/start failed: no such thread");
    let undecodable = undecodable_result(method(), "missing field".to_string());
    assert_eq!(
        undecodable.to_string(),
        "turn/start response decode error: missing field"
    );
}

#[test]
fn errors_reach_the_request_with_their_identifier() {
    let mut worker = worker();
    send_request(&mut worker, 1);
    send_request(&mut worker, 2);
    let error = JSONRPCErrorError {
        code: -32600,
        message: "no".to_string(),
        data: None,
    };
    let line = |id: i64| {
        WorkerInput::Line(Ok(IncomingMessage::Error {
            id: RequestId::Integer(id),
            error: error.clone(),
        }))
    };
    assert_eq!(
        worker.step(line(2)),
        vec![WorkerAction::Answer {
            id: RequestId::Integer(2),
            answer: Answer::Error(error.clone()),
        }]
    );
    assert_eq!(worker.step(line(2)), Vec::new());
    assert_eq!(
        worker.step(response(RequestId::Integer(1), "first")),
        vec![WorkerAction::Answer {
            id: RequestId::Integer(1),
            answer: Answer::Result("first".to_string()),
        }]
    );
}
