use turn_start_bridge::protocol::{JSONRPCErrorError, RequestId};
use turn_start_bridge::side_channel::{
    check_fd, control_thread_resolved, read_response_line, validate_cli_fds, AnsweredRequest,
    PendingRequests, ResponseLine, ResponseOutcome, ServerRequestSideband, SessionFds,
    SidebandOutputs, SidebandResponseEvent,
};
use turn_start_bridge::sideband::{
    CommandExecutionApprovalDecision, CommandExecutionReading, FileChangeApprovalDecision,
    FileChangeReading, ItemRequestParams, LegacyApprovalParams, ManagedServerRequest,
    ManagedServerRequestKind, McpServerElicitationRequestParams, ResponseReadings, ServerRequest,
    ServerRequestBody, ServerRequestResolution, SidebandResponseEnvelope, ThreadResolvedPayload,
};

fn item_params() -> ItemRequestParams {
    ItemRequestParams {
        thread_id: "thread-1".to_string(),
        turn_id: "turn-1".to_string(),
        item_id: "item-1".to_string(),
        json: Ok("{\"threadId\":\"thread-1\"}".to_string()),
    }
}

fn request(request_id: RequestId, body: ServerRequestBody) -> ServerRequest {
    ServerRequest {
        request_id,
        json: None,
        body,
    }
}

fn managed(request_id: RequestId, body: ServerRequestBody) -> ManagedServerRequest {
    ManagedServerRequest::try_from(&request(request_id, body)).expect("request is supported")
}

fn text_id(text: &str) -> RequestId {
    RequestId::String(text.to_string())
}

fn no() -> String {
    "data did not match".to_string()
}

/// The readings of a response that is of no type.
fn unreadable() -> ResponseReadings {
    ResponseReadings {
        command_execution: Err(no()),
        file_change: Err(no()),
        permissions: Err(no()),
        elicitation: Err(no()),
        tool_input: Err(no()),
    }
}

fn command_response(
    request_id: RequestId,
    decision: CommandExecutionApprovalDecision,
    json: &str,
) -> SidebandResponseEnvelope {
    SidebandResponseEnvelope {
        kind: "command_execution_approval_response".to_string(),
        request_id,
        response: ResponseReadings {
            command_execution: Ok(CommandExecutionReading {
                decision,
                json: json.to_string(),
            }),
            ..unreadable()
        },
    }
}

fn legacy() -> LegacyApprovalParams {
    LegacyApprovalParams {
        conversation_id: "67e55044-10b1-426f-9247-bb680e5fe0c8".to_string(),
        call_id: "call-1".to_string(),
        json: Ok("{}".to_string()),
    }
}

fn elicitation() -> McpServerElicitationRequestParams {
    McpServerElicitationRequestParams {
        thread_id: "thread-1".to_string(),
        turn_id: Some("turn-1".to_string()),
        server_name: "server".to_string(),
        json: Ok("{\"threadId\":\"thread-1\",\"serverName\":\"server\"}".to_string()),
    }
}

fn json(text: &str) -> serde_json::Value {
    serde_json::from_str(text).expect("JSON text")
}

#[test]
fn thread_resolved_payload_uses_started_source() {
    assert_eq!(
        ThreadResolvedPayload::started("thread-1"),
        ThreadResolvedPayload {
            thread_id: "thread-1".to_string(),
            source: "started".to_string(),
        }
    );
}

#[test]
fn thread_resolved_payload_uses_resumed_source() {
    assert_eq!(
        ThreadResolvedPayload::resumed("thread-2"),
        ThreadResolvedPayload {
            thread_id: "thread-2".to_string(),
            source: "resumed".to_string(),
        }
    );
}

#[test]
fn the_control_lane_tells_the_thread_as_an_event() {
    let event = control_thread_resolved(&ThreadResolvedPayload::resumed("thread-2"));
    assert_eq!(event.kind, "thread_resolved");
    assert_eq!(event.thread_id, "thread-2");
    assert_eq!(event.source, "resumed");
}

#[test]
fn managed_request_normalizes_tool_user_input() {
    let managed = managed(
        text_id("req-1"),
        ServerRequestBody::ToolRequestUserInput(item_params()),
    );

    assert_eq!(managed.kind(), "tool_user_input_request");
    assert_eq!(managed.request_id(), &text_id("req-1"));
    assert_eq!(managed.thread_id(), Some("thread-1"));
    assert_eq!(managed.turn_id(), Some("turn-1"));
}

#[test]
fn tool_user_input_request_is_supported_by_sideband_layer() {
    let managed = managed(
        text_id("req-1"),
        ServerRequestBody::ToolRequestUserInput(item_params()),
    );

    assert_eq!(managed.kind(), "tool_user_input_request");
}

#[test]
fn managed_request_normalizes_legacy_exec_command_approval() {
    let managed = managed(
        RequestId::Integer(7),
        ServerRequestBody::ExecCommandApproval(legacy()),
    );

    assert_eq!(managed.kind(), "command_execution_approval_request");
    assert_eq!(managed.request_id(), &RequestId::Integer(7));
    assert_eq!(
        managed.thread_id(),
        Some("67e55044-10b1-426f-9247-bb680e5fe0c8")
    );
    assert_eq!(managed.turn_id(), None);
}

#[test]
fn managed_request_serializes_raw_request_payload() {
    let managed = managed(
        text_id("req-1"),
        ServerRequestBody::McpServerElicitationRequest(elicitation()),
    );

    let payload = json(managed.raw_payload());
    assert_eq!(payload["serverName"], serde_json::Value::from("server"));
    assert_eq!(payload["threadId"], serde_json::Value::from("thread-1"));
    let event = managed.event();
    assert_eq!(event.kind, "mcp_elicitation_request");
    assert_eq!(event.server_name, Some("server"));
    assert_eq!(event.item_id, None);
    assert_eq!(event.raw, managed.raw_payload());
}

#[test]
fn payloads_that_cannot_be_written_say_so() {
    let managed = managed(
        text_id("req-1"),
        ServerRequestBody::FileChangeRequestApproval(ItemRequestParams {
            json: Err("bad \"key\"\n".to_string()),
            ..item_params()
        }),
    );

    assert_eq!(
        managed.raw_payload(),
        "{\"serialization_error\":\"bad \\\"key\\\"\\n\"}"
    );
}

#[test]
fn other_requests_are_not_managed() {
    assert_eq!(
        ManagedServerRequest::try_from(&request(text_id("req-1"), ServerRequestBody::Other)),
        Err(())
    );
}

#[test]
fn legacy_exec_command_response_maps_simple_acceptance_to_legacy_shape() {
    let managed = managed(
        RequestId::Integer(7),
        ServerRequestBody::ExecCommandApproval(legacy()),
    );
    let resolution = managed
        .parse_response(command_response(
            RequestId::Integer(7),
            CommandExecutionApprovalDecision::AcceptForSession,
            "{\"decision\":\"acceptForSession\"}",
        ))
        .expect("response should parse");

    let ServerRequestResolution::Resolve(value) = resolution else {
        panic!("legacy exec approval should resolve");
    };
    assert_eq!(json(&value), json("{\"decision\":\"approved_for_session\"}"));
}

#[test]
fn legacy_decisions_have_their_own_words() {
    let exec = managed(
        RequestId::Integer(7),
        ServerRequestBody::ExecCommandApproval(legacy()),
    );
    for (decision, word) in [
        (CommandExecutionApprovalDecision::Accept, "approved"),
        (CommandExecutionApprovalDecision::Decline, "denied"),
        (CommandExecutionApprovalDecision::Cancel, "abort"),
    ] {
        assert_eq!(
            exec.parse_response(command_response(RequestId::Integer(7), decision, "{}")),
            Ok(ServerRequestResolution::Resolve(format!(
                "{{\"decision\":\"{word}\"}}"
            )))
        );
    }
    assert_eq!(
        exec.parse_response(command_response(
            RequestId::Integer(7),
            CommandExecutionApprovalDecision::AcceptWithExecpolicyAmendment,
            "{}"
        )),
        Err("legacy exec approvals do not support advanced approval decisions".to_string())
    );
    let patch = managed(
        RequestId::Integer(8),
        ServerRequestBody::ApplyPatchApproval(legacy()),
    );
    assert_eq!(
        patch.parse_response(SidebandResponseEnvelope {
            kind: "file_change_approval_response".to_string(),
            request_id: RequestId::Integer(8),
            response: ResponseReadings {
                file_change: Ok(FileChangeReading {
                    decision: FileChangeApprovalDecision::Cancel,
                    json: "{}".to_string(),
                }),
                ..unreadable()
            },
        }),
        Ok(ServerRequestResolution::Resolve(
            "{\"decision\":\"abort\"}".to_string()
        ))
    );
}

#[test]
fn responses_of_another_kind_are_refused() {
    let tool = managed(
        text_id("req \"1\""),
        ServerRequestBody::ToolRequestUserInput(item_params()),
    );
    assert_eq!(
        tool.parse_response(command_response(
            text_id("req \"1\""),
            CommandExecutionApprovalDecision::Accept,
            "{}"
        )),
        Err(
            "response kind mismatch for request String(\"req \\\"1\\\"\"): expected \
             `tool_user_input_response`, got `command_execution_approval_response`"
                .to_string()
        )
    );
}

#[test]
fn default_resolution_on_input_closed_cancels_mcp_and_rejects_tool_input() {
    let mcp_request = managed(
        text_id("req-mcp"),
        ServerRequestBody::McpServerElicitationRequest(elicitation()),
    );
    let tool_request = managed(
        text_id("req-tool"),
        ServerRequestBody::ToolRequestUserInput(item_params()),
    );

    let ServerRequestResolution::Resolve(mcp_value) =
        mcp_request.default_resolution_on_input_closed()
    else {
        panic!("mcp fallback should resolve");
    };
    assert_eq!(
        json(&mcp_value),
        json("{\"action\":\"cancel\",\"content\":null,\"_meta\":null}")
    );

    let ServerRequestResolution::Reject(tool_error) =
        tool_request.default_resolution_on_input_closed()
    else {
        panic!("tool fallback should reject");
    };
    assert!(tool_error
        .message
        .contains("tool input response channel closed"));
}

#[test]
fn every_kind_has_a_fallback() {
    assert_eq!(
        ManagedServerRequestKind::CommandExecutionApproval.default_resolution_on_input_closed(),
        ServerRequestResolution::Resolve("{\"decision\":\"decline\"}".to_string())
    );
    assert_eq!(
        ManagedServerRequestKind::FileChangeApproval.default_resolution_on_input_closed(),
        ServerRequestResolution::Resolve("{\"decision\":\"decline\"}".to_string())
    );
    assert_eq!(
        ManagedServerRequestKind::LegacyApplyPatchApproval.default_resolution_on_input_closed(),
        ServerRequestResolution::Resolve("{\"decision\":\"denied\"}".to_string())
    );
    let ServerRequestResolution::Reject(JSONRPCErrorError { message, .. }) =
        ManagedServerRequestKind::PermissionsApproval.default_resolution_on_input_closed()
    else {
        panic!("permissions fallback should reject");
    };
    assert!(message.contains("permissions approval response channel closed"));
}

fn exec_approval_request() -> ServerRequest {
    request(
        RequestId::Integer(1),
        ServerRequestBody::CommandExecutionRequestApproval(item_params()),
    )
}

fn sideband_with_request() -> ServerRequestSideband {
    let outputs = SidebandOutputs::from_fds(None, None, None).expect("outputs");
    let mut sideband = ServerRequestSideband::new(&outputs, true).expect("sideband");
    let managed = ServerRequestSideband::request_to_tell(&exec_approval_request())
        .expect("request should be supported");
    sideband.note_server_request(managed);
    sideband
}

#[test]
fn sideband_records_supported_request_and_accepts_matching_response() {
    let mut sideband = sideband_with_request();

    let (taken, warning) = sideband.take_valid_response(command_response(
        RequestId::Integer(1),
        CommandExecutionApprovalDecision::Accept,
        "{\"decision\":\"accept\"}",
    ));
    let Some(AnsweredRequest {
        request_id,
        resolution,
    }) = taken
    else {
        panic!("matching response should resolve");
    };

    assert_eq!(warning, None);
    assert_eq!(request_id, RequestId::Integer(1));
    let ServerRequestResolution::Resolve(value) = resolution else {
        panic!("command approval should resolve");
    };
    assert_eq!(json(&value), json("{\"decision\":\"accept\"}"));
    assert!(!sideband.has_pending_request(&RequestId::Integer(1)));
}

#[test]
fn sideband_ignores_unknown_response_without_clearing_pending_request() {
    let mut sideband = sideband_with_request();

    let (outcome, warning) = sideband.take_valid_response(command_response(
        RequestId::Integer(99),
        CommandExecutionApprovalDecision::Accept,
        "{\"decision\":\"accept\"}",
    ));

    assert_eq!(outcome, None);
    assert_eq!(warning, None);
    assert!(sideband.has_pending_request(&RequestId::Integer(1)));
}

#[test]
fn sideband_warns_of_an_invalid_response() {
    let mut sideband = sideband_with_request();
    let (outcome, warning) = sideband.take_valid_response(SidebandResponseEnvelope {
        kind: "command_execution_approval_response".to_string(),
        request_id: RequestId::Integer(1),
        response: unreadable(),
    });

    assert_eq!(outcome, None);
    assert_eq!(
        warning,
        Some(
            "ignoring invalid sideband response for request id `1`: data did not match"
                .to_string()
        )
    );
    assert!(sideband.has_pending_request(&RequestId::Integer(1)));
    sideband.remove_pending_request(&RequestId::Integer(1));
    assert!(!sideband.has_pending_request(&RequestId::Integer(1)));
}

#[test]
fn closing_the_response_reader_forgets_everything() {
    let mut sideband = sideband_with_request();
    assert!(sideband.has_response_reader());
    assert_eq!(
        sideband.close_response_reader("eof"),
        "server-request sideband response channel closed: eof"
    );
    assert!(!sideband.has_response_reader());
    assert!(!sideband.has_pending_request(&RequestId::Integer(1)));
    let managed = ServerRequestSideband::request_to_tell(&exec_approval_request())
        .expect("request should be supported");
    sideband.note_server_request(managed);
    assert!(!sideband.has_pending_request(&RequestId::Integer(1)));
    let silent = SidebandOutputs::from_fds(None, None, None).expect("outputs");
    assert_eq!(ServerRequestSideband::new(&silent, false), None);
}

#[test]
fn a_request_with_the_same_identifier_replaces_the_earlier_one() {
    let mut pending = PendingRequests::new();
    pending.insert(managed(
        RequestId::Integer(1),
        ServerRequestBody::CommandExecutionRequestApproval(item_params()),
    ));
    pending.insert(managed(
        RequestId::Integer(1),
        ServerRequestBody::ToolRequestUserInput(item_params()),
    ));
    assert_eq!(pending.len(), 1);
    assert!(pending.contains(&RequestId::Integer(1)));
    assert!(!pending.contains(&text_id("1")));
    let outcome = pending.take_valid_sideband_response(command_response(
        RequestId::Integer(1),
        CommandExecutionApprovalDecision::Accept,
        "{}",
    ));
    assert!(matches!(outcome, ResponseOutcome::Invalid { .. }));
    let answered = pending.resolve_all();
    assert_eq!(answered.len(), 1);
    assert!(matches!(
        answered[0].resolution,
        ServerRequestResolution::Reject(_)
    ));
    assert_eq!(pending.len(), 0);
}

#[test]
fn output_descriptors_are_assigned() {
    let outputs = SidebandOutputs::from_fds(Some(3), Some(4), Some(5)).expect("outputs");
    assert_eq!(outputs.thread_id_sinks, vec![3]);
    assert_eq!(outputs.request_event_sinks, vec![4, 5]);
    assert_eq!(outputs.control_event_sinks, vec![5]);
    assert!(outputs.has_request_event_sink());
    let outputs = SidebandOutputs::from_fds(Some(3), None, None).expect("outputs");
    assert!(!outputs.has_request_event_sink());
    assert_eq!(
        SidebandOutputs::from_fds(Some(3), None, Some(3)),
        Err(
            "fd `3` is configured for both `--thread-id-fd` and `--control-events-fd`; use a \
             single control lane instead of reusing the same fd"
                .to_string()
        )
    );
    assert_eq!(
        SidebandOutputs::from_fds(None, Some(-7), Some(-1)),
        Err("invalid fd value `-7`".to_string())
    );
    assert_eq!(check_fd(0), Ok(()));
    assert_eq!(check_fd(-2), Err("invalid fd value `-2`".to_string()));
}

#[test]
fn response_lines_are_told_apart() {
    let line = |text: &str, response| ResponseLine::Line {
        text: text.to_string(),
        response,
    };
    assert_eq!(read_response_line(line(" \t", Err(no()))), None);
    assert_eq!(
        read_response_line(line("{", Err("EOF".to_string()))),
        Some(SidebandResponseEvent::ParseError(
            "invalid sideband response JSON: EOF".to_string()
        ))
    );
    let response = || {
        command_response(
            RequestId::Integer(1),
            CommandExecutionApprovalDecision::Accept,
            "{}",
        )
    };
    assert_eq!(
        read_response_line(line("{}", Ok(response()))),
        Some(SidebandResponseEvent::Response(response()))
    );
    assert_eq!(
        read_response_line(ResponseLine::Ended),
        Some(SidebandResponseEvent::Closed)
    );
    assert_eq!(
        read_response_line(ResponseLine::Failed {
            message: "boom".to_string()
        }),
        Some(SidebandResponseEvent::ReadError(
            "failed to read sideband responses: boom".to_string()
        ))
    );
}

#[test]
fn session_descriptors_follow_the_rules() {
    let none = SessionFds {
        xml_input_fd: None,
        server_request_events_fd: None,
        server_request_responses_fd: None,
        control_events_fd: None,
        control_responses_fd: None,
    };
    assert_eq!(validate_cli_fds(none, false), Ok(()));
    assert_eq!(
        validate_cli_fds(
            SessionFds {
                control_events_fd: Some(3),
                ..none
            },
            false
        ),
        Err("server-request sideband FDs are only supported on Unix targets".to_string())
    );
    assert_eq!(
        validate_cli_fds(
            SessionFds {
                xml_input_fd: Some(3),
                control_events_fd: Some(3),
                ..none
            },
            true
        ),
        Err(
            "fd `3` is configured for both `--xml-input-fd` and `--control-events-fd`; use \
             distinct sideband file descriptors"
                .to_string()
        )
    );
    assert_eq!(
        validate_cli_fds(
            SessionFds {
                server_request_responses_fd: Some(3),
                control_responses_fd: Some(4),
                ..none
            },
            true
        ),
        Err(
            "--server-request-responses-fd and --control-responses-fd are mutually exclusive"
                .to_string()
        )
    );
    assert_eq!(
        validate_cli_fds(
            SessionFds {
                control_responses_fd: Some(4),
                ..none
            },
            true
        ),
        Err(
            "a sideband response fd requires either --server-request-events-fd or \
             --control-events-fd"
                .to_string()
        )
    );
    assert_eq!(
        validate_cli_fds(
            SessionFds {
                server_request_events_fd: Some(3),
                control_responses_fd: Some(4),
                ..none
            },
            true
        ),
        Ok(())
    );
}
