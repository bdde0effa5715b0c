use turn_start_bridge::protocol::{
    ApprovalsReviewer, AskForApproval, RequestId, Thread, ThreadStatus, Turn, TurnStatus,
};
use turn_start_bridge::stdio::undecodable_result;
use turn_start_bridge::turn_client::{
    build_thread_request, build_turn_start_request, build_turn_steer_request,
    session_start, ClientRequest, CodexTurnSession, ThreadSessionRequest, TurnClientError,
    TurnRequest, UserInput,
};

#[test]
fn build_thread_request_uses_resume_when_thread_id_is_present() {
    let request = build_thread_request(
        RequestId::String("thread-resume".to_string()),
        ThreadSessionRequest {
            thread_id: Some("thread-123".to_string()),
            model: Some("gpt-5".to_string()),
            cwd: Some("/tmp/project".to_string()),
            approval_policy: Some(AskForApproval::OnRequest),
            approvals_reviewer: Some(ApprovalsReviewer::GuardianSubagent),
            base_instructions: None,
        },
    );

    match request {
        ClientRequest::ThreadResume { request_id, params } => {
            assert_eq!(request_id, RequestId::String("thread-resume".to_string()));
            assert_eq!(params.thread_id, "thread-123");
            assert_eq!(params.model, Some("gpt-5".to_string()));
            assert_eq!(params.cwd, Some("/tmp/project".to_string()));
            assert_eq!(params.approval_policy, Some(AskForApproval::OnRequest));
            assert_eq!(
                params.approvals_reviewer,
                Some(ApprovalsReviewer::GuardianSubagent)
            );
        }
        other => panic!("expected ThreadResume request, got {other:?}"),
    }
}

#[test]
fn build_thread_request_sets_base_instructions_for_thread_start() {
    let request = build_thread_request(
        RequestId::String("thread-start".to_string()),
        ThreadSessionRequest {
            thread_id: None,
            model: None,
            cwd: None,
            approval_policy: None,
            approvals_reviewer: Some(ApprovalsReviewer::User),
            base_instructions: Some("system prompt".to_string()),
        },
    );

    match request {
        ClientRequest::ThreadStart { params, .. } => {
            assert_eq!(params.base_instructions, Some("system prompt".to_string()));
            assert_eq!(params.approvals_reviewer, Some(ApprovalsReviewer::User));
        }
        other => panic!("expected ThreadStart request, got {other:?}"),
    }
}

#[test]
fn build_thread_request_sets_base_instructions_for_thread_resume() {
    let request = build_thread_request(
        RequestId::String("thread-resume".to_string()),
        ThreadSessionRequest {
            thread_id: Some("thread-123".to_string()),
            model: None,
            cwd: None,
            approval_policy: None,
            approvals_reviewer: Some(ApprovalsReviewer::User),
            base_instructions: Some("system prompt".to_string()),
        },
    );

    match request {
        ClientRequest::ThreadResume { params, .. } => {
            assert_eq!(params.base_instructions, Some("system prompt".to_string()));
            assert_eq!(params.approvals_reviewer, Some(ApprovalsReviewer::User));
        }
        other => panic!("expected ThreadResume request, got {other:?}"),
    }
}

#[test]
fn build_turn_start_request_uses_session_thread_and_turn_overrides() {
    let request = build_turn_start_request(
        RequestId::String("turn-start-1".to_string()),
        "thread-1",
        TurnRequest {
            text: "hello".to_string(),
            model: Some("gpt-5".to_string()),
            cwd: Some("/tmp/project".to_string()),
            approval_policy: Some(AskForApproval::OnRequest),
            approvals_reviewer: Some(ApprovalsReviewer::GuardianSubagent),
        },
    );

    match request {
        ClientRequest::TurnStart { request_id, params } => {
            assert_eq!(request_id, RequestId::String("turn-start-1".to_string()));
            assert_eq!(params.thread_id, "thread-1");
            assert_eq!(params.model, Some("gpt-5".to_string()));
            assert_eq!(params.cwd, Some("/tmp/project".to_string()));
            assert_eq!(params.approval_policy, Some(AskForApproval::OnRequest));
            assert_eq!(
                params.approvals_reviewer,
                Some(ApprovalsReviewer::GuardianSubagent)
            );
            assert_eq!(
                params.input,
                vec![UserInput::Text {
                    text: "hello".to_string(),
                    text_elements: Vec::new(),
                }]
            );
        }
        other => panic!("expected TurnStart request, got {other:?}"),
    }
}

#[test]
fn build_turn_steer_request_uses_expected_turn_id() {
    let request = build_turn_steer_request(
        RequestId::String("turn-steer-1".to_string()),
        "thread-1",
        "turn-1".to_string(),
        "interrupt".to_string(),
    );

    match request {
        ClientRequest::TurnSteer { request_id, params } => {
            assert_eq!(request_id, RequestId::String("turn-steer-1".to_string()));
            assert_eq!(params.thread_id, "thread-1");
            assert_eq!(params.expected_turn_id, "turn-1");
            assert_eq!(
                params.input,
                vec![UserInput::Text {
                    text: "interrupt".to_string(),
                    text_elements: Vec::new(),
                }]
            );
        }
        other => panic!("expected TurnSteer request, got {other:?}"),
    }
}

fn turn(id: &str, status: TurnStatus) -> Turn {
    Turn {
        id: id.to_string(),
        status,
    }
}

#[test]
fn session_restores_latest_in_progress_turn_from_active_thread() {
    let session = CodexTurnSession::from_thread(&Thread {
        id: "thread-1".to_string(),
        turns: vec![
            turn("turn-1", TurnStatus::Completed),
            turn("turn-2", TurnStatus::InProgress),
        ],
        status: ThreadStatus::Active,
    });

    assert_eq!(session.thread_id(), "thread-1");
    assert_eq!(session.active_turn_id(), Some("turn-2"));
}

#[test]
fn idle_thread_has_no_active_turn() {
    let session = CodexTurnSession::from_thread(&Thread {
        id: "thread-1".to_string(),
        turns: vec![turn("turn-1", TurnStatus::InProgress)],
        status: ThreadStatus::Idle,
    });

    assert_eq!(session.active_turn_id(), None);
}

#[test]
fn latest_of_several_turns_in_progress_wins() {
    let session = CodexTurnSession::from_thread(&Thread {
        id: "thread-1".to_string(),
        turns: vec![
            turn("turn-1", TurnStatus::InProgress),
            turn("turn-2", TurnStatus::InProgress),
            turn("turn-3", TurnStatus::Failed),
        ],
        status: ThreadStatus::Active,
    });

    assert_eq!(session.active_turn_id(), Some("turn-2"));
}

#[test]
fn session_follows_its_own_thread_only() {
    let mut session = CodexTurnSession::from_thread(&Thread {
        id: "thread-1".to_string(),
        turns: Vec::new(),
        status: ThreadStatus::Idle,
    });

    session.on_turn_started("thread-2", "turn-1");
    assert_eq!(session.active_turn_id(), None);
    session.on_turn_started("thread-1", "turn-1");
    assert_eq!(session.active_turn_id(), Some("turn-1"));
    session.on_turn_completed("thread-1", "turn-9");
    assert_eq!(session.active_turn_id(), Some("turn-1"));
    let copy = session.clone();
    session.on_turn_completed("thread-1", "turn-1");
    assert_eq!(session.active_turn_id(), None);
    assert_eq!(copy.active_turn_id(), Some("turn-1"));
}

#[test]
fn session_start_keeps_the_thread() {
    let start = session_start(Thread {
        id: "thread-1".to_string(),
        turns: vec![turn("turn-1", TurnStatus::InProgress)],
        status: ThreadStatus::Active,
    });

    assert_eq!(start.thread.id, "thread-1");
    assert_eq!(start.session.active_turn_id(), Some("turn-1"));
}

#[test]
fn turn_client_errors_are_shown() {
    assert_eq!(
        TurnClientError::MissingThread.to_string(),
        "thread session is not initialized"
    );
    let source = undecodable_result("thread/start".to_string(), "boom".to_string());
    assert_eq!(
        TurnClientError::from(source).to_string(),
        "thread/start response decode error: boom"
    );
}

#[test]
fn default_requests_ask_for_nothing() {
    let thread = ThreadSessionRequest::default();
    assert_eq!(thread.thread_id, None);
    assert_eq!(thread.base_instructions, None);
    let turn = TurnRequest::default();
    assert_eq!(turn.text, "");
    assert_eq!(turn.approval_policy, None);
}

#[test]
fn requests_name_their_method() {
    let resume = ThreadSessionRequest {
        thread_id: Some("thread-1".to_string()),
        ..ThreadSessionRequest::default()
    };
    let id = || RequestId::Integer(1);
    assert_eq!(build_thread_request(id(), resume).method(), "thread/resume");
    assert_eq!(
        build_thread_request(id(), ThreadSessionRequest::default()).method(),
        "thread/start"
    );
    let other = ClientRequest::Other {
        request_id: id(),
        method: "account/read".to_string(),
        params: "{}".to_string(),
    };
    assert_eq!(other.method(), "account/read");
}
