use turn_start_bridge::bridge::{
    on_notification, server_request_method_name, should_exit_bridge, should_retry_steer_next_turn,
    unsupported_server_request_error, unsupported_server_request_failure, Bridge, BridgeAction,
    BridgeInput, TurnDefaults,
};
use turn_start_bridge::bridge_input::{
    read_xml_chunk, unread_stdin, BridgeError, ChunkInput, ChunkReader, ChunkStage, XmlReadPrelude,
};
use turn_start_bridge::bridge_options::{
    choose_response_fd, parse_approval_policy, parse_approvals_reviewer, thread_request_id,
    thread_resolved, thread_session_request_from_cli, validate_sideband_platform_support,
    validate_unique_sideband_fds, validate_xml_input_mode, BridgeOptions, StdinFormat,
};
use turn_start_bridge::chunking::QuiescencePolicy;
use turn_start_bridge::controller::{
    BridgeController, CompletionSignal, ControllerEvent, QueuedMessage, ReleaseAction,
    ReleaseDecision, ReleaseReason, TurnState,
};
use turn_start_bridge::items::{classify_item_completed, ServerNotification, ThreadItem};
use turn_start_bridge::message::ParsedMessage;
use turn_start_bridge::protocol::{
    ApprovalsReviewer, AskForApproval, JSONRPCErrorError, RequestId, Thread, ThreadStatus, Turn,
    TurnStatus,
};
use turn_start_bridge::queue_mode::QueueMode;
use turn_start_bridge::side_channel::{PendingRequests, ResponseOutcome, SidebandResponseEvent};
use turn_start_bridge::sideband::{
    ItemRequestParams, ManagedServerRequest, ResponseReadings, ServerRequest, ServerRequestBody,
    ServerRequestResolution, SidebandResponseEnvelope,
};
use turn_start_bridge::stdio::AppServerEvent;
use turn_start_bridge::turn_client::{CodexTurnSession, TurnRequest};

fn options() -> BridgeOptions {
    BridgeOptions {
        config_overrides: Vec::new(),
        codex_bin: "codex".to_string(),
        thread_id: None,
        approval_policy: "on-request".to_string(),
        model: None,
        cwd: None,
        approvals_reviewer: None,
        system_prompt: None,
        thread_id_fd: None,
        xml_input_fd: None,
        server_request_events_fd: None,
        server_request_responses_fd: None,
        control_events_fd: None,
        control_responses_fd: None,
        stdin_format: StdinFormat::Raw,
        chunk_quiescence_ms: 25,
    }
}

#[test]
fn thread_session_request_includes_system_prompt_override() {
    let cli = BridgeOptions {
        system_prompt: Some("stay terse".to_string()),
        ..options()
    };

    let request = thread_session_request_from_cli(&cli, AskForApproval::OnRequest, None, None)
        .expect("request should be valid");

    assert_eq!(request.base_instructions, Some("stay terse".to_string()));
}

#[test]
fn thread_session_request_includes_approvals_reviewer_override() {
    let cli = BridgeOptions {
        approvals_reviewer: Some("guardian_subagent".to_string()),
        ..options()
    };

    let request = thread_session_request_from_cli(
        &cli,
        AskForApproval::OnRequest,
        Some(ApprovalsReviewer::AutoReview),
        None,
    )
    .expect("request should be valid");

    assert_eq!(
        request.approvals_reviewer,
        Some(ApprovalsReviewer::AutoReview)
    );
}

#[test]
fn validate_unique_sideband_fds_rejects_reused_input_and_output_fd() {
    let cli = BridgeOptions {
        control_events_fd: Some(9),
        control_responses_fd: Some(9),
        ..options()
    };

    let err = validate_unique_sideband_fds(&cli).expect_err("duplicate fd should fail");

    assert_eq!(
        err,
        "fd `9` is configured for both `--control-events-fd` and `--control-responses-fd`; use distinct sideband file descriptors"
    );
    assert_eq!(validate_unique_sideband_fds(&options()), Ok(()));
}

fn user_input_request(id: &str) -> ServerRequest {
    ServerRequest {
        request_id: RequestId::String(id.to_string()),
        json: Some("{\"method\":\"item/tool/requestUserInput\"}".to_string()),
        body: ServerRequestBody::ToolRequestUserInput(ItemRequestParams {
            thread_id: "thread-1".to_string(),
            turn_id: "turn-1".to_string(),
            item_id: "item-1".to_string(),
            json: Ok("{}".to_string()),
        }),
    }
}

fn tool_response(id: &str, reading: Result<String, String>) -> SidebandResponseEnvelope {
    let no = || "missing field `answers`".to_string();
    SidebandResponseEnvelope {
        kind: "tool_user_input_response".to_string(),
        request_id: RequestId::String(id.to_string()),
        response: ResponseReadings {
            command_execution: Err(no()),
            file_change: Err(no()),
            permissions: Err(no()),
            elicitation: Err(no()),
            tool_input: reading,
        },
    }
}

#[test]
fn invalid_sideband_response_is_ignored_and_request_stays_pending() {
    let managed = ManagedServerRequest::try_from(&user_input_request("req-1"))
        .expect("tool user input should be supported");
    let mut pending = PendingRequests::new();
    pending.insert(managed);

    let outcome = pending.take_valid_sideband_response(tool_response(
        "req-1",
        Err("missing field `answers`".to_string()),
    ));

    assert!(matches!(outcome, ResponseOutcome::Invalid { .. }));
    assert_eq!(pending.len(), 1);
    assert!(pending.contains(&RequestId::String("req-1".to_string())));
}

fn parsed(queue_mode: QueueMode, text: &str) -> ParsedMessage {
    ParsedMessage {
        queue_mode,
        text: text.to_string(),
    }
}

#[test]
fn xml_prelude_reads_startup_system_prompt_and_first_messages() {
    let mut prelude = XmlReadPrelude::default();
    let complete = prelude
        .read(
            &b"<system_prompt>be terse</system_prompt>\
               <message type=\"user\">first</message>\
               <message type=\"user\" queue=\"Immediate\">second</message>"
                .to_vec(),
        )
        .expect("prelude should parse");

    assert!(complete);
    assert_eq!(prelude.system_prompt, Some("be terse".to_string()));
    assert_eq!(
        prelude.pending_messages,
        vec![
            parsed(QueueMode::Default, "first"),
            parsed(QueueMode::Immediate, "second"),
        ]
    );
    assert!(!prelude.stdin_closed);
}

#[test]
fn xml_prelude_ends_with_the_input() {
    let mut prelude = XmlReadPrelude::default();
    assert_eq!(
        prelude.read(&b"<system_prompt>be terse</system_prompt> ".to_vec()),
        Ok(false)
    );
    assert_eq!(prelude.read(&Vec::new()), Ok(true));
    assert!(prelude.stdin_closed);
    assert_eq!(prelude.system_prompt, Some("be terse".to_string()));
    assert_eq!(prelude.pending_messages, Vec::new());
}

fn input_error(message: &str, cause: Option<&str>) -> BridgeError {
    BridgeError {
        message: message.to_string(),
        cause: cause.map(str::to_string),
    }
}

#[test]
fn xml_prelude_failures_are_told_apart() {
    let mut twice = XmlReadPrelude::default();
    assert_eq!(
        twice.read(
            &b"<system_prompt>a</system_prompt><system_prompt>b</system_prompt>".to_vec()
        ),
        Err(input_error("system_prompt specified more than once", None))
    );
    let mut later = XmlReadPrelude::default();
    assert_eq!(
        later.read(&b"<system_prompt>a</system_prompt>".to_vec()),
        Ok(false)
    );
    assert_eq!(
        later.read(&b"<system_prompt>b</system_prompt>".to_vec()),
        Err(input_error("system_prompt specified more than once", None))
    );
    let mut broken = XmlReadPrelude::default();
    assert_eq!(
        broken.read(&vec![0xFF]),
        Err(input_error(
            "read XML stdin as UTF-8",
            Some("invalid utf-8 sequence of 1 bytes from index 0")
        ))
    );
    let mut half = XmlReadPrelude::default();
    assert_eq!(half.read(&b"<message".to_vec()), Ok(false));
    assert_eq!(
        half.read(&Vec::new()),
        Err(input_error(
            "parse XML stdin",
            Some("incomplete XML stdin fragment")
        ))
    );
    assert_eq!(
        unread_stdin("boom".to_string()),
        input_error("read stdin", Some("boom"))
    );
}

#[test]
fn xml_chunks_are_messages_until_the_end() {
    let mut prelude = XmlReadPrelude::default();
    assert_eq!(
        prelude.read(&b"<message type=\"user\">first</message><message".to_vec()),
        Ok(true)
    );
    let mut parser = prelude.parser;
    assert_eq!(
        read_xml_chunk(&mut parser, &b" type=\"user\">second</message>".to_vec()),
        (vec![parsed(QueueMode::Default, "second")], Ok(false))
    );
    let (messages, late) = read_xml_chunk(
        &mut parser,
        &b"<system_prompt>late</system_prompt>".to_vec(),
    );
    assert_eq!(messages, Vec::new());
    assert_eq!(
        late,
        Err(input_error(
            "parse XML stdin",
            Some("system_prompt must appear before the first message")
        ))
    );
    assert_eq!(
        read_xml_chunk(&mut parser, &Vec::new()),
        (Vec::new(), Ok(true))
    );
}

#[test]
fn xml_chunks_refuse_a_first_system_prompt() {
    let mut parser = XmlReadPrelude::default().parser;
    assert_eq!(
        read_xml_chunk(&mut parser, &b"<system_prompt>late</system_prompt>".to_vec()),
        (
            Vec::new(),
            Err(input_error(
                "system_prompt must appear before the first message",
                None
            ))
        )
    );
}

#[test]
fn xml_input_fd_requires_xml_mode() {
    let cli = BridgeOptions {
        xml_input_fd: Some(4),
        ..options()
    };

    let err = validate_xml_input_mode(&cli).expect_err("raw stdin mode should reject xml fd");

    assert_eq!(err, "--xml-input-fd requires --stdin-format xml");
    let xml = BridgeOptions {
        stdin_format: StdinFormat::Xml,
        ..cli
    };
    assert_eq!(validate_xml_input_mode(&xml), Ok(()));
    assert_eq!(StdinFormat::default(), StdinFormat::Raw);
}

#[test]
fn cli_system_prompt_conflicts_with_xml_system_prompt() {
    let cli = BridgeOptions {
        system_prompt: Some("from cli".to_string()),
        stdin_format: StdinFormat::Xml,
        ..options()
    };

    let err = thread_session_request_from_cli(
        &cli,
        AskForApproval::OnRequest,
        None,
        Some("from xml".to_string()),
    )
    .expect_err("duplicate system prompt should fail");

    assert_eq!(
        err,
        "system prompt provided by both --system-prompt and XML stdin"
    );
    let request = thread_session_request_from_cli(
        &options(),
        AskForApproval::OnRequest,
        None,
        Some("from xml".to_string()),
    )
    .expect("request should be valid");
    assert_eq!(request.base_instructions, Some("from xml".to_string()));
}

#[test]
fn descriptors_need_the_right_platform() {
    let cli = BridgeOptions {
        thread_id_fd: Some(3),
        ..options()
    };
    assert_eq!(validate_sideband_platform_support(&cli, true), Ok(()));
    assert_eq!(
        validate_sideband_platform_support(&cli, false),
        Err("bridge sideband FDs are only supported on Unix targets".to_string())
    );
    assert_eq!(validate_sideband_platform_support(&options(), false), Ok(()));
}

#[test]
fn only_one_response_lane_is_used() {
    let cli = BridgeOptions {
        control_responses_fd: Some(3),
        ..options()
    };
    assert_eq!(choose_response_fd(&options(), false), Ok(None));
    assert_eq!(choose_response_fd(&cli, true), Ok(Some(3)));
    assert_eq!(
        choose_response_fd(&cli, false),
        Err(
            "a sideband response fd requires either --server-request-events-fd or \
             --control-events-fd"
                .to_string()
        )
    );
    let both = BridgeOptions {
        server_request_responses_fd: Some(4),
        ..cli
    };
    assert_eq!(
        choose_response_fd(&both, true),
        Err(
            "--server-request-responses-fd and --control-responses-fd are mutually exclusive"
                .to_string()
        )
    );
}

#[test]
fn named_threads_are_resumed() {
    let cli = BridgeOptions {
        thread_id: Some("thread-1".to_string()),
        ..options()
    };
    assert_eq!(thread_request_id(&cli), "thread-resume");
    assert_eq!(thread_resolved(&cli, "thread-1").source, "resumed");
    assert_eq!(thread_request_id(&options()), "thread-start");
    assert_eq!(thread_resolved(&options(), "thread-2").source, "started");
}

#[test]
fn approval_policies_have_several_names() {
    for (name, policy) in [
        ("untrusted", AskForApproval::UnlessTrusted),
        ("unless-trusted", AskForApproval::UnlessTrusted),
        ("unlessTrusted", AskForApproval::UnlessTrusted),
        ("on-failure", AskForApproval::OnFailure),
        ("onFailure", AskForApproval::OnFailure),
        ("on-request", AskForApproval::OnRequest),
        ("onRequest", AskForApproval::OnRequest),
        ("never", AskForApproval::Never),
    ] {
        assert_eq!(parse_approval_policy(name), Ok(policy));
    }
    assert_eq!(
        parse_approval_policy("Never"),
        Err(
            "unknown approval policy: Never. Expected one of: untrusted, on-failure, on-request, \
             never"
                .to_string()
        )
    );
}

#[test]
fn reviewers_have_several_names() {
    assert_eq!(parse_approvals_reviewer("user"), Ok(ApprovalsReviewer::User));
    for name in [
        "auto_review",
        "auto-review",
        "guardian_subagent",
        "guardian-subagent",
    ] {
        assert_eq!(
            parse_approvals_reviewer(name),
            Ok(ApprovalsReviewer::AutoReview)
        );
    }
    assert_eq!(
        parse_approvals_reviewer("nobody"),
        Err(
            "unknown approvals_reviewer: nobody. Expected one of: user, auto_review, \
             guardian_subagent"
                .to_string()
        )
    );
}

fn read_chunks(inputs: Vec<ChunkInput>) -> Vec<String> {
    let mut reader = ChunkReader::new(QuiescencePolicy {
        chunk_quiescence_ms: 25,
    });
    let mut messages = Vec::new();
    for input in inputs {
        if let Some(message) = reader.step(input).expect("read chunks") {
            messages.push(message.text);
        }
    }
    assert_eq!(reader.stage, ChunkStage::Ended);
    messages
}

fn bytes(text: &str) -> ChunkInput {
    ChunkInput::Bytes(text.as_bytes().to_vec())
}

#[test]
fn chunk_reader_merges_bytes_arriving_within_quiescence_window() {
    assert_eq!(
        read_chunks(vec![bytes("hello"), bytes(" world"), bytes("")]),
        vec!["hello world"]
    );
}

#[test]
fn chunk_reader_splits_bytes_after_quiescence_window() {
    assert_eq!(
        read_chunks(vec![
            bytes("hello"),
            ChunkInput::Quiet,
            bytes(" world"),
            bytes("")
        ]),
        vec!["hello", " world"]
    );
}

#[test]
fn chunks_that_are_no_text_are_dropped() {
    assert_eq!(
        read_chunks(vec![
            ChunkInput::Bytes(vec![0xFF]),
            ChunkInput::Quiet,
            ChunkInput::Quiet,
            bytes("ok"),
            bytes("")
        ]),
        vec!["ok"]
    );
    let mut reader = ChunkReader::new(QuiescencePolicy {
        chunk_quiescence_ms: 25,
    });
    assert_eq!(
        reader.step(ChunkInput::Failed {
            message: "boom".to_string()
        }),
        Err(input_error("read stdin", Some("boom")))
    );
    assert_eq!(reader.step(bytes("late")), Ok(None));
}

#[test]
fn stale_turn_steer_errors_retry_on_next_turn() {
    assert!(should_retry_steer_next_turn(
        "expected_turn_id does not match the active turn"
    ));
    assert!(should_retry_steer_next_turn(
        "expected active turn id `turn-1` but found `turn-2`"
    ));
    assert!(should_retry_steer_next_turn("no active turn to steer"));
    assert!(should_retry_steer_next_turn(
        "cannot accept same-turn steering after turn completed"
    ));
    assert!(should_retry_steer_next_turn("cannot steer a review turn"));
    assert!(should_retry_steer_next_turn("cannot steer a compact turn"));
    assert!(!should_retry_steer_next_turn("network timeout"));
}

#[test]
fn main_classify_item_completed_releases_after_agent_message_items() {
    assert_eq!(
        classify_item_completed(&ThreadItem::AgentMessage {
            id: "item-1".to_string(),
            text: "hello".to_string(),
        }),
        CompletionSignal::ReleasesAfterAnyItem
    );
}

#[test]
fn bridge_only_exits_after_stdin_eof_when_work_is_drained() {
    let controller = BridgeController::new("thread-1");

    assert!(should_exit_bridge(&controller, None, false, true));
    assert!(!should_exit_bridge(&controller, None, false, false));
    assert!(!should_exit_bridge(
        &controller,
        Some(&"pending".to_string()),
        false,
        true
    ));
    assert!(!should_exit_bridge(&controller, None, true, true));
}

fn refresh_request() -> ServerRequest {
    ServerRequest {
        request_id: RequestId::String("req-1".to_string()),
        json: Some(
            "{\"method\":\"account/chatgptAuthTokens/refresh\",\"id\":\"req-1\",\
             \"params\":{\"reason\":\"unauthorized\",\"previousAccountId\":\"acct-1\"}}"
                .to_string(),
        ),
        body: ServerRequestBody::Other,
    }
}

#[test]
fn unsupported_server_requests_are_rejected_with_clear_error() {
    let request = refresh_request();

    let error = unsupported_server_request_error(&request);

    assert_eq!(error.code, -32601);
    assert!(error.message.contains("account/chatgptAuthTokens/refresh"));
    assert!(error
        .message
        .contains("does not support interactive server request"));
    assert_eq!(
        server_request_method_name(&request),
        "account/chatgptAuthTokens/refresh"
    );
}

#[test]
fn requests_without_a_method_are_unknown() {
    for json in [None, Some("{}"), Some("{\"method\":1}"), Some("{")] {
        let request = ServerRequest {
            request_id: RequestId::Integer(1),
            json: json.map(str::to_string),
            body: ServerRequestBody::Other,
        };
        assert_eq!(server_request_method_name(&request), "<unknown>");
    }
}

#[test]
fn unsupported_server_requests_fail_loudly_after_rejection() {
    let error = unsupported_server_request_failure(&refresh_request());

    assert!(error.message.contains(
        "turn-start bridge does not support interactive server request `account/chatgptAuthTokens/refresh`"
    ));
}

fn active_thread_fixture() -> Thread {
    Thread {
        id: "thread-1".to_string(),
        status: ThreadStatus::Active,
        turns: Vec::new(),
    }
}

fn turn_started(turn_id: &str) -> ServerNotification {
    ServerNotification::TurnStarted {
        thread_id: "thread-1".to_string(),
        turn_id: turn_id.to_string(),
    }
}

fn queued(queue_mode: QueueMode, text: &str) -> QueuedMessage {
    QueuedMessage {
        queue_mode,
        text: text.to_string(),
    }
}

#[test]
fn turn_started_notification_does_not_accept_pending_start_early() {
    let mut controller = BridgeController::new("thread-1");
    let mut session = CodexTurnSession::from_thread(&active_thread_fixture());
    let mut pending_start_request_id = Some("turn-start-1".to_string());
    let queued = queued(QueueMode::AfterToolCall, "hello");

    assert_eq!(
        controller.on_event(ControllerEvent::MessageReceived(queued.clone())),
        Some(ReleaseDecision {
            action: ReleaseAction::StartTurn,
            reason: ReleaseReason::Idle,
            message: queued.clone(),
        })
    );

    let decision = on_notification(
        &mut session,
        &mut controller,
        &mut pending_start_request_id,
        turn_started("turn-1"),
    );

    assert_eq!(decision, None);
    assert_eq!(pending_start_request_id, Some("turn-start-1".to_string()));
    assert_eq!(
        controller.turn_state(),
        &TurnState::TurnStartPending {
            reserved_turn_id: Some("turn-1".to_string()),
        }
    );
    assert_eq!(controller.pending_turn_message(), Some(&queued));
}

#[test]
fn turn_started_notification_before_chunk_preserves_pending_window_queueing() {
    let mut controller = BridgeController::new("thread-1");
    let mut session = CodexTurnSession::from_thread(&active_thread_fixture());
    let mut pending_start_request_id = Some("turn-start-1".to_string());
    let hello = queued(QueueMode::AfterToolCall, "hello");

    assert_eq!(
        controller.on_event(ControllerEvent::MessageReceived(hello.clone())),
        Some(ReleaseDecision {
            action: ReleaseAction::StartTurn,
            reason: ReleaseReason::Idle,
            message: hello,
        })
    );
    assert_eq!(
        controller.turn_state(),
        &TurnState::TurnStartPending {
            reserved_turn_id: None,
        }
    );

    let decision = on_notification(
        &mut session,
        &mut controller,
        &mut pending_start_request_id,
        turn_started("turn-1"),
    );

    assert_eq!(decision, None);
    assert_eq!(
        controller.on_event(ControllerEvent::MessageReceived(queued(
            QueueMode::Immediate,
            "interrupt"
        ))),
        None
    );
    assert_eq!(controller.queued_counts(), (0, 0, 0));
    assert_eq!(
        controller.turn_state(),
        &TurnState::TurnStartPending {
            reserved_turn_id: Some("turn-1".to_string()),
        }
    );
}

fn idle_thread() -> Thread {
    Thread {
        id: "thread-1".to_string(),
        status: ThreadStatus::Idle,
        turns: Vec::new(),
    }
}

fn bridge_on(thread: &Thread, response_available: bool) -> Bridge {
    let defaults = TurnDefaults {
        model: Some("gpt-5".to_string()),
        cwd: None,
        approval_policy: AskForApproval::OnRequest,
        approvals_reviewer: None,
    };
    let session = CodexTurnSession::from_thread(thread);
    Bridge::new(defaults, session, thread, false, response_available)
}

fn chunk(queue_mode: QueueMode, text: &str) -> BridgeInput {
    BridgeInput::Chunk(parsed(queue_mode, text))
}

fn app(notification: ServerNotification) -> BridgeInput {
    BridgeInput::App(AppServerEvent::ServerNotification {
        notification,
        requires_delivery: false,
    })
}

fn start_turn(number: i64, text: &str) -> BridgeAction {
    BridgeAction::StartTurn {
        request_id: format!("turn-start-{number}"),
        thread_id: "thread-1".to_string(),
        request: TurnRequest {
            text: text.to_string(),
            model: Some("gpt-5".to_string()),
            cwd: None,
            approval_policy: Some(AskForApproval::OnRequest),
            approvals_reviewer: None,
        },
    }
}

fn fail(message: &str, cause: Option<&str>) -> BridgeAction {
    BridgeAction::Fail(input_error(message, cause))
}

#[test]
fn a_message_runs_through_a_turn_and_the_bridge_ends() {
    let mut bridge = bridge_on(&idle_thread(), false);
    assert_eq!(bridge.start(), Vec::new());
    assert!(bridge.can_number_requests());
    assert_eq!(
        bridge.step(chunk(QueueMode::Default, "hello")),
        vec![start_turn(1, "hello")]
    );
    assert_eq!(bridge.step(BridgeInput::ChunksClosed), Vec::new());
    assert_eq!(bridge.step(app(turn_started("turn-1"))), Vec::new());
    assert_eq!(
        bridge.step(BridgeInput::Answered(Ok("turn-1".to_string()))),
        Vec::new()
    );
    assert!(!bridge.has_ended());
    assert_eq!(
        bridge.step(app(ServerNotification::TurnCompleted {
            thread_id: "thread-1".to_string(),
            turn_id: "turn-1".to_string(),
        })),
        vec![BridgeAction::ShutDown]
    );
    assert!(bridge.has_ended());
    assert_eq!(bridge.step(chunk(QueueMode::Default, "late")), Vec::new());
}

#[test]
fn an_immediate_message_is_steered_once_the_start_is_answered() {
    let mut bridge = bridge_on(&idle_thread(), false);
    let _ = bridge.step(chunk(QueueMode::Default, "hello"));
    assert_eq!(
        bridge.step(chunk(QueueMode::Immediate, "interrupt")),
        Vec::new()
    );
    assert_eq!(
        bridge.step(BridgeInput::Answered(Ok("turn-1".to_string()))),
        vec![BridgeAction::SteerTurn {
            request_id: "turn-steer-2".to_string(),
            thread_id: "thread-1".to_string(),
            turn_id: "turn-1".to_string(),
            text: "interrupt".to_string(),
        }]
    );
    assert_eq!(
        bridge.step(BridgeInput::Answered(Err(
            "no active turn to steer".to_string()
        ))),
        Vec::new()
    );
    assert_eq!(
        bridge.step(app(ServerNotification::TurnCompleted {
            thread_id: "thread-1".to_string(),
            turn_id: "turn-1".to_string(),
        })),
        vec![start_turn(3, "interrupt")]
    );
}

#[test]
fn failing_requests_end_the_bridge() {
    let mut bridge = bridge_on(&idle_thread(), false);
    let _ = bridge.step(chunk(QueueMode::Default, "hello"));
    assert_eq!(
        bridge.step(BridgeInput::Answered(Err("network timeout".to_string()))),
        vec![fail("turn/start failed", Some("network timeout"))]
    );

    let running = Thread {
        turns: vec![Turn {
            id: "turn-1".to_string(),
            status: TurnStatus::InProgress,
        }],
        ..active_thread_fixture()
    };
    let mut bridge = bridge_on(&running, false);
    let _ = bridge.step(chunk(QueueMode::Immediate, "interrupt"));
    assert_eq!(
        bridge.step(BridgeInput::Answered(Err("network timeout".to_string()))),
        vec![fail("turn/steer failed", Some("network timeout"))]
    );

    let mut bridge = bridge_on(&idle_thread(), false);
    assert_eq!(
        bridge.step(BridgeInput::AnswerLost),
        vec![fail(
            "pending request task dropped before returning a response",
            None
        )]
    );
    let mut bridge = bridge_on(&idle_thread(), false);
    assert_eq!(
        bridge.step(BridgeInput::InputFailed {
            message: "parse XML stdin".to_string()
        }),
        vec![fail("parse XML stdin", None)]
    );
    let mut bridge = bridge_on(&idle_thread(), false);
    assert_eq!(
        bridge.step(BridgeInput::App(AppServerEvent::Disconnected {
            message: "gone".to_string()
        })),
        vec![fail("app-server disconnected: gone", None)]
    );
    let mut bridge = bridge_on(&idle_thread(), false);
    assert_eq!(
        bridge.step(BridgeInput::AppClosed),
        vec![BridgeAction::ShutDown]
    );
}

#[test]
fn a_start_that_is_refused_waits() {
    let mut bridge = bridge_on(&idle_thread(), false);
    let _ = bridge.step(chunk(QueueMode::Default, "hello"));
    assert_eq!(
        bridge.step(BridgeInput::Answered(Err(
            "cannot steer a review turn".to_string()
        ))),
        Vec::new()
    );
    assert!(!bridge.has_ended());
}

#[test]
fn contradictions_end_the_bridge() {
    let running = Thread {
        turns: vec![Turn {
            id: "turn-1".to_string(),
            status: TurnStatus::InProgress,
        }],
        ..active_thread_fixture()
    };
    let mut bridge = bridge_on(&running, false);
    let actions = bridge.step(app(turn_started("turn-2")));
    assert_eq!(actions.len(), 1);
    assert!(matches!(actions[0], BridgeAction::Fail(_)));
    assert!(bridge.has_ended());
}

#[test]
fn busy_threads_let_messages_wait() {
    let mut bridge = bridge_on(&active_thread_fixture(), false);
    assert_eq!(bridge.step(chunk(QueueMode::Default, "hello")), Vec::new());
    assert_eq!(bridge.step(app(turn_started("turn-1"))), Vec::new());
    assert_eq!(
        bridge.step(app(ServerNotification::TerminalInteraction {
            thread_id: "thread-1".to_string(),
            turn_id: "turn-1".to_string(),
        })),
        vec![BridgeAction::SteerTurn {
            request_id: "turn-steer-1".to_string(),
            thread_id: "thread-1".to_string(),
            turn_id: "turn-1".to_string(),
            text: "hello".to_string(),
        }]
    );
}

#[test]
fn messages_from_the_prelude_start_the_work() {
    let mut bridge = bridge_on(&idle_thread(), false);
    bridge.prime(parsed(QueueMode::Default, "first"));
    bridge.prime(parsed(QueueMode::Default, "second"));
    assert_eq!(bridge.start(), vec![start_turn(1, "first")]);
}

fn ask(bridge: &mut Bridge, id: &str) {
    assert_eq!(
        bridge.step(BridgeInput::App(AppServerEvent::ServerRequest(
            user_input_request(id)
        ))),
        vec![BridgeAction::Tell]
    );
    assert_eq!(
        bridge
            .request_to_tell()
            .map(|request| request.request_id().clone()),
        Some(RequestId::String(id.to_string()))
    );
}

#[test]
fn requests_are_told_and_answered() {
    let mut bridge = bridge_on(&idle_thread(), true);
    ask(&mut bridge, "req-1");
    assert_eq!(bridge.step(BridgeInput::Told(Ok(()))), Vec::new());
    assert!(bridge.request_to_tell().is_none());
    let respond = |response| BridgeInput::Response(SidebandResponseEvent::Response(response));
    assert_eq!(
        bridge.step(respond(tool_response("req-9", Ok("{}".to_string())))),
        vec![BridgeAction::Warn(
            "turn-start bridge ignoring sideband response for unknown request id `req-9`"
                .to_string()
        )]
    );
    assert_eq!(
        bridge.step(respond(tool_response("req-1", Err("bad".to_string())))),
        vec![BridgeAction::Warn(
            "turn-start bridge ignoring invalid sideband response for request id `req-1`: bad"
                .to_string()
        )]
    );
    assert_eq!(
        bridge.step(respond(tool_response("req-1", Ok("{\"a\":1}".to_string())))),
        vec![BridgeAction::Apply {
            request_id: RequestId::String("req-1".to_string()),
            resolution: ServerRequestResolution::Resolve("{\"a\":1}".to_string()),
            context: "apply sideband server-request resolution".to_string(),
        }]
    );
    assert_eq!(
        bridge.step(BridgeInput::Response(SidebandResponseEvent::ParseError(
            "odd".to_string()
        ))),
        vec![BridgeAction::Warn("odd".to_string())]
    );
    assert_eq!(
        bridge.step(BridgeInput::Response(SidebandResponseEvent::Closed)),
        Vec::new()
    );
    assert!(!bridge.has_ended());
}

fn reject(code: i64, message: &str, context: &str) -> BridgeAction {
    BridgeAction::Reject {
        request_id: RequestId::String("req-1".to_string()),
        error: JSONRPCErrorError {
            code,
            message: message.to_string(),
            data: None,
        },
        context: context.to_string(),
    }
}

#[test]
fn requests_that_cannot_be_answered_are_refused() {
    let mut bridge = bridge_on(&idle_thread(), false);
    ask(&mut bridge, "req-1");
    let message = "turn-start bridge received interactive server request \
                   `item/tool/requestUserInput` but no sideband response fd is configured";
    assert_eq!(
        bridge.step(BridgeInput::Told(Ok(()))),
        vec![
            reject(
                -32601,
                message,
                "reject supported request without sideband response lane"
            ),
            fail(message, None),
        ]
    );

    let mut bridge = bridge_on(&idle_thread(), true);
    ask(&mut bridge, "req-1");
    assert_eq!(
        bridge.step(BridgeInput::Told(Err("write sideband newline".to_string()))),
        vec![
            reject(
                -32000,
                "turn-start bridge failed to emit sideband event for `tool_user_input_request`: \
                 write sideband newline",
                "reject request after sideband event write failure"
            ),
            fail(
                "write sideband server-request event",
                Some("write sideband newline")
            ),
        ]
    );

    let mut bridge = bridge_on(&idle_thread(), true);
    let message = "turn-start bridge does not support interactive server request \
                   `account/chatgptAuthTokens/refresh`";
    assert_eq!(
        bridge.step(BridgeInput::App(AppServerEvent::ServerRequest(
            refresh_request()
        ))),
        vec![
            reject(-32601, message, "reject unsupported app-server request"),
            fail(message, None),
        ]
    );
}

#[test]
fn waiting_requests_get_a_fallback_when_the_lane_closes() {
    let mut bridge = bridge_on(&idle_thread(), true);
    ask(&mut bridge, "req-1");
    let _ = bridge.step(BridgeInput::Told(Ok(())));
    ask(&mut bridge, "req-2");
    let _ = bridge.step(BridgeInput::Told(Ok(())));
    let actions = bridge.step(BridgeInput::Response(SidebandResponseEvent::Closed));
    assert_eq!(actions.len(), 3);
    let BridgeAction::Apply {
        request_id,
        resolution,
        context,
    } = &actions[0]
    else {
        panic!("expected a fallback");
    };
    assert_eq!(request_id, &RequestId::String("req-1".to_string()));
    assert!(matches!(resolution, ServerRequestResolution::Reject(_)));
    assert_eq!(
        context,
        "apply fallback resolution after `turn-start bridge sideband response channel closed`"
    );
    assert_eq!(
        actions[2],
        fail("turn-start bridge sideband response channel closed", None)
    );

    let mut bridge = bridge_on(&idle_thread(), true);
    assert_eq!(
        bridge.step(BridgeInput::Response(SidebandResponseEvent::ReadError(
            "boom".to_string()
        ))),
        vec![fail("boom", None)]
    );
}
