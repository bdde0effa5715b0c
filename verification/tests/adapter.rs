use turn_start_bridge::adapter::{
    active_turn_steer_race, begin_release, bind_structured_input_for_current_thread,
    handle_structured_input_event, is_active_turn_not_steerable_message,
    model_supports_personality, structured_input_preview, structured_input_session_state,
    structured_input_steer_failure, structured_input_turn_context, ActionQueue,
    ActiveTurnSteerRace, ActiveTurnUpdate, CollaborationMode, ModelPreset, ReleaseNext,
    ReleaseReply, StructuredInputSteerFailure, ThreadInputState, ThreadSession, ThreadStore,
    TurnContext,
};
use turn_start_bridge::controller::{
    ControllerEvent, QueuedMessage, ReleaseAction, ReleaseDecision, ReleaseReason,
};
use turn_start_bridge::message::{ParsedMessage, ParsedXmlInput};
use turn_start_bridge::protocol::JSONRPCErrorError;
use turn_start_bridge::queue_mode::QueueMode;
use turn_start_bridge::stdio::{
    undecodable_result, TransportError, TransportErrorKind, TypedRequestError,
};
use turn_start_bridge::structured_input::{
    StructuredInputAction, StructuredInputPreviewEntry, StructuredInputReaderEvent,
    StructuredInputRuntime,
};
use turn_start_bridge::thread_map::ThreadId;

fn server_error(message: &str) -> TypedRequestError {
    TypedRequestError::Server {
        method: "turn/steer".to_string(),
        source: JSONRPCErrorError {
            code: -32602,
            message: message.to_string(),
            data: None,
        },
    }
}

fn thread() -> ThreadId {
    ThreadId::from_canonical("67e55044-10b1-426f-9247-bb680e5fe0c8")
}

fn queued(queue_mode: QueueMode, text: &str) -> QueuedMessage {
    QueuedMessage {
        queue_mode,
        text: text.to_string(),
    }
}

#[test]
fn structured_input_steer_failure_treats_typed_non_steerable_error_as_requeueable() {
    let error = server_error("cannot steer a review turn");

    assert_eq!(
        structured_input_steer_failure(&error, true, "turn-attempted", false),
        Some(StructuredInputSteerFailure::Requeue)
    );
}

#[test]
fn structured_input_steer_failure_treats_missing_active_turn_as_start_turn() {
    let error = server_error("no active turn to steer");

    assert_eq!(
        structured_input_steer_failure(&error, false, "turn-attempted", false),
        Some(StructuredInputSteerFailure::StartTurn)
    );
}

#[test]
fn structured_input_steer_failure_retries_expected_turn_mismatch_once() {
    let error = server_error("expected active turn id `turn-attempted` but found `turn-actual`");

    assert_eq!(
        structured_input_steer_failure(&error, false, "turn-attempted", false),
        Some(StructuredInputSteerFailure::RetryWithTurnId {
            turn_id: "turn-actual".to_string(),
        })
    );
}

#[test]
fn structured_input_steer_failure_fails_on_repeated_expected_turn_mismatch() {
    let error = server_error("expected active turn id `turn-attempted` but found `turn-actual`");

    assert_eq!(
        structured_input_steer_failure(&error, false, "turn-attempted", true),
        Some(StructuredInputSteerFailure::UpdateActiveTurnAndFail {
            turn_id: "turn-actual".to_string(),
        })
    );
}

#[test]
fn a_mismatch_that_names_the_attempted_turn_is_not_retried() {
    let error = server_error("expected active turn id `turn-old` but found `turn-attempted`");

    assert_eq!(
        structured_input_steer_failure(&error, false, "turn-attempted", false),
        Some(StructuredInputSteerFailure::UpdateActiveTurnAndFail {
            turn_id: "turn-attempted".to_string(),
        })
    );
}

#[test]
fn other_failures_reveal_no_race() {
    assert_eq!(active_turn_steer_race(&server_error("boom")), None);
    assert_eq!(
        active_turn_steer_race(&server_error("expected active turn id `a` but found `b")),
        None
    );
    assert_eq!(
        active_turn_steer_race(&TypedRequestError::Server {
            method: "turn/start".to_string(),
            source: JSONRPCErrorError {
                code: 1,
                message: "no active turn to steer".to_string(),
                data: None,
            },
        }),
        None
    );
    assert_eq!(
        active_turn_steer_race(&TypedRequestError::Transport {
            method: "turn/steer".to_string(),
            source: TransportError {
                kind: TransportErrorKind::BrokenPipe,
                message: "no active turn to steer".to_string(),
            },
        }),
        None
    );
    assert_eq!(
        structured_input_steer_failure(
            &undecodable_result("turn/steer".to_string(), "bad".to_string()),
            false,
            "turn-1",
            false,
        ),
        None
    );
    assert_eq!(
        active_turn_steer_race(&server_error("no active turn to steer")),
        Some(ActiveTurnSteerRace::Missing)
    );
}

#[test]
fn not_steerable_messages_name_both_words() {
    assert!(is_active_turn_not_steerable_message(
        "the active turn is not steerable"
    ));
    assert!(!is_active_turn_not_steerable_message("the active turn"));
    assert!(!is_active_turn_not_steerable_message("not steerable"));
}

fn steer_decision(turn_id: &str) -> ReleaseDecision {
    ReleaseDecision {
        action: ReleaseAction::SteerTurn {
            turn_id: turn_id.to_string(),
        },
        reason: ReleaseReason::Immediate,
        message: queued(QueueMode::Immediate, "interrupt"),
    }
}

fn running_runtime(thread_id: &ThreadId, turn_id: &str) -> Option<StructuredInputRuntime> {
    let mut runtime = StructuredInputRuntime::new();
    let _ = runtime.sync_active_turn(thread_id, turn_id.to_string());
    Some(runtime)
}

#[test]
fn a_release_without_a_session_is_reported() {
    let (mut release, next) = begin_release(thread(), steer_decision("turn-1"), false);
    assert_eq!(
        next,
        ReleaseNext::Finish(vec![StructuredInputAction::Error(
            "No configured thread session is available for structured input on thread \
             67e55044-10b1-426f-9247-bb680e5fe0c8."
                .to_string()
        )])
    );
    let mut runtime = None;
    assert_eq!(
        release.execute_structured_input_release(
            &mut runtime,
            ReleaseReply::Steered {
                turn_id: "turn-1".to_string()
            }
        ),
        (ActiveTurnUpdate::Keep, ReleaseNext::Nothing)
    );
}

#[test]
fn a_steer_into_another_turn_is_retried_once_and_then_reported() {
    let mut runtime = running_runtime(&thread(), "turn-1");
    let (mut release, next) = begin_release(thread(), steer_decision("turn-1"), true);
    assert_eq!(
        next,
        ReleaseNext::SteerTurn {
            turn_id: "turn-1".to_string(),
            text: "interrupt".to_string(),
        }
    );

    let reply = ReleaseReply::SteerFailed {
        error: server_error("expected active turn id `turn-1` but found `turn-2`"),
        not_steerable: false,
        message: "turn/steer failed: mismatch".to_string(),
    };
    assert_eq!(
        release.execute_structured_input_release(&mut runtime, reply),
        (
            ActiveTurnUpdate::Note {
                turn_id: "turn-2".to_string()
            },
            ReleaseNext::SteerTurn {
                turn_id: "turn-2".to_string(),
                text: "interrupt".to_string(),
            }
        )
    );

    let reply = ReleaseReply::SteerFailed {
        error: server_error("expected active turn id `turn-2` but found `turn-3`"),
        not_steerable: false,
        message: "mismatch".to_string(),
    };
    assert_eq!(
        release.execute_structured_input_release(&mut runtime, reply),
        (
            ActiveTurnUpdate::Note {
                turn_id: "turn-3".to_string()
            },
            ReleaseNext::Finish(vec![StructuredInputAction::Error(
                "Structured input turn/steer failed for thread \
                 67e55044-10b1-426f-9247-bb680e5fe0c8: mismatch"
                    .to_string()
            )])
        )
    );
}

#[test]
fn a_steer_that_finds_no_turn_starts_one() {
    let mut runtime = running_runtime(&thread(), "turn-1");
    let (mut release, _) = begin_release(thread(), steer_decision("turn-1"), true);
    let reply = ReleaseReply::SteerFailed {
        error: server_error("no active turn to steer"),
        not_steerable: false,
        message: "none".to_string(),
    };
    assert_eq!(
        release.execute_structured_input_release(&mut runtime, reply),
        (
            ActiveTurnUpdate::Clear,
            ReleaseNext::Finish(vec![
                StructuredInputAction::RefreshPreview,
                StructuredInputAction::Release {
                    thread_id: thread(),
                    decision: ReleaseDecision {
                        action: ReleaseAction::StartTurn,
                        reason: ReleaseReason::Immediate,
                        message: queued(QueueMode::Immediate, "interrupt"),
                    },
                },
            ])
        )
    );
}

#[test]
fn a_steer_that_is_refused_waits_for_the_next_turn() {
    let mut runtime = running_runtime(&thread(), "turn-1");
    let _ = runtime.as_mut().expect("runtime").handle_controller_event(
        &thread(),
        ControllerEvent::MessageReceived(queued(QueueMode::Immediate, "interrupt")),
    );
    let (mut release, _) = begin_release(thread(), steer_decision("turn-1"), true);
    let reply = ReleaseReply::SteerFailed {
        error: server_error("cannot steer a review turn"),
        not_steerable: true,
        message: "review".to_string(),
    };
    assert_eq!(
        release.execute_structured_input_release(&mut runtime, reply),
        (
            ActiveTurnUpdate::Keep,
            ReleaseNext::Finish(vec![StructuredInputAction::RefreshPreview])
        )
    );
    assert_eq!(
        structured_input_preview(&runtime, Some(&thread())),
        vec![StructuredInputPreviewEntry {
            queue_mode: QueueMode::NextTurn,
            text: "interrupt".to_string(),
        }]
    );
}

#[test]
fn a_turn_that_cannot_be_started_is_reported() {
    let decision = ReleaseDecision {
        action: ReleaseAction::StartTurn,
        reason: ReleaseReason::Idle,
        message: queued(QueueMode::Default, "hello"),
    };
    let mut runtime = running_runtime(&thread(), "turn-1");
    let (mut release, next) = begin_release(thread(), decision, true);
    assert_eq!(
        next,
        ReleaseNext::StartTurn {
            text: "hello".to_string()
        }
    );
    assert_eq!(
        release.execute_structured_input_release(
            &mut runtime,
            ReleaseReply::TurnStartFailed {
                message: "network timeout".to_string()
            }
        ),
        (
            ActiveTurnUpdate::Keep,
            ReleaseNext::Finish(vec![StructuredInputAction::Error(
                "Structured input turn/start failed for thread \
                 67e55044-10b1-426f-9247-bb680e5fe0c8: network timeout"
                    .to_string()
            )])
        )
    );
}

#[test]
fn an_accepted_start_is_told_to_the_controller() {
    let mut runtime = Some(StructuredInputRuntime::new());
    let event = StructuredInputReaderEvent::Parsed(ParsedXmlInput::Message(ParsedMessage {
        queue_mode: QueueMode::Default,
        text: "hello".to_string(),
    }));
    let actions = handle_structured_input_event(&mut runtime, event, Some(&thread()), None);
    let mut queue = ActionQueue::new(actions);
    assert_eq!(queue.next(), Some(StructuredInputAction::RefreshPreview));
    let Some(StructuredInputAction::Release {
        thread_id,
        decision,
    }) = queue.next()
    else {
        panic!("the message should be released");
    };
    let (mut release, _) = begin_release(thread_id, decision, true);
    let (update, next) = release.execute_structured_input_release(
        &mut runtime,
        ReleaseReply::TurnStarted {
            turn_id: "turn-1".to_string(),
        },
    );
    assert_eq!(update, ActiveTurnUpdate::Keep);
    let ReleaseNext::Finish(actions) = next else {
        panic!("the release should be over");
    };
    queue.extend(actions);
    assert_eq!(queue.next(), Some(StructuredInputAction::RefreshPreview));
    assert_eq!(queue.next(), None);
}

#[test]
fn binding_without_a_thread_refreshes_the_preview() {
    let mut runtime = Some(StructuredInputRuntime::new());
    assert_eq!(
        bind_structured_input_for_current_thread(&mut runtime, None, None),
        vec![StructuredInputAction::RefreshPreview]
    );
    let mut none = None;
    assert_eq!(
        bind_structured_input_for_current_thread(&mut none, Some(&thread()), None),
        Vec::new()
    );
    assert_eq!(structured_input_preview(&none, Some(&thread())), Vec::new());
}

#[test]
fn binding_respects_a_turn_that_runs() {
    let mut runtime = Some(StructuredInputRuntime::new());
    let event = StructuredInputReaderEvent::Parsed(ParsedXmlInput::Message(ParsedMessage {
        queue_mode: QueueMode::Default,
        text: "hello".to_string(),
    }));
    let _ = handle_structured_input_event(&mut runtime, event, None, None);
    let actions = bind_structured_input_for_current_thread(
        &mut runtime,
        Some(&thread()),
        Some("turn-1".to_string()),
    );
    assert_eq!(
        actions,
        vec![
            StructuredInputAction::RefreshPreview,
            StructuredInputAction::RefreshPreview,
        ]
    );
    assert_eq!(
        structured_input_preview(&runtime, Some(&thread())),
        vec![StructuredInputPreviewEntry {
            queue_mode: QueueMode::AfterToolCall,
            text: "hello".to_string(),
        }]
    );
}

fn presets() -> Option<Vec<ModelPreset>> {
    Some(vec![
        ModelPreset {
            model: "plain".to_string(),
            supports_personality: false,
        },
        ModelPreset {
            model: "warm".to_string(),
            supports_personality: true,
        },
    ])
}

fn input_state(model: Option<&str>) -> ThreadInputState {
    ThreadInputState {
        collaboration_mode: model.map(|model| CollaborationMode {
            model: model.to_string(),
            json: "{}".to_string(),
        }),
        personality: Some("friendly".to_string()),
    }
}

#[test]
fn only_listed_models_take_on_a_personality() {
    assert!(model_supports_personality(&presets(), "warm"));
    assert!(!model_supports_personality(&presets(), "plain"));
    assert!(!model_supports_personality(&presets(), "other"));
    assert!(!model_supports_personality(&None, "warm"));
}

#[test]
fn the_personality_follows_the_target_model() {
    let warm = input_state(Some("warm"));
    let context =
        structured_input_turn_context(None, "plain", Some(&warm), true, &presets());
    assert_eq!(context.personality, Some("friendly".to_string()));
    assert_eq!(
        context.collaboration_mode.map(|mode| mode.model),
        Some("warm".to_string())
    );

    let plain = input_state(None);
    let context = structured_input_turn_context(None, "plain", Some(&plain), true, &presets());
    assert_eq!(context.personality, None);
    let context = structured_input_turn_context(None, "warm", Some(&plain), false, &presets());
    assert_eq!(context.personality, None);
    let context = structured_input_turn_context(None, "warm", None, true, &presets());
    assert_eq!(context.personality, None);

    let displayed = TurnContext {
        collaboration_mode: None,
        personality: Some("dry".to_string()),
    };
    let context =
        structured_input_turn_context(Some(displayed), "plain", Some(&plain), false, &None);
    assert_eq!(context.personality, Some("dry".to_string()));
}

#[test]
fn the_primary_thread_has_its_own_session() {
    let session = |model: &str| ThreadSession {
        model: model.to_string(),
        json: "{}".to_string(),
    };
    let store = || ThreadStore {
        session: Some(session("warm")),
        input_state: Some(input_state(None)),
    };

    let state = structured_input_session_state(
        true,
        Some(session("warm")),
        Some(store()),
        None,
        true,
        &presets(),
    )
    .expect("primary session");
    assert_eq!(state.1.personality, None);

    let state =
        structured_input_session_state(false, None, Some(store()), None, true, &presets())
            .expect("kept session");
    assert_eq!(state.0, session("warm"));
    assert_eq!(state.1.personality, Some("friendly".to_string()));

    assert_eq!(
        structured_input_session_state(true, None, Some(store()), None, true, &presets()),
        None
    );
    assert_eq!(
        structured_input_session_state(false, Some(session("warm")), None, None, true, &None),
        None
    );
}
