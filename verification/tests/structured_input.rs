use turn_start_bridge::controller::{
    CompletionSignal, ControllerEvent, QueuedMessage, ReleaseAction, ReleaseDecision,
    ReleaseReason,
};
use turn_start_bridge::items::{
    classify_item_completed, ContentItem, ReasoningItemReasoningSummary, ResponseItem,
    ServerNotification, ThreadItem,
};
use turn_start_bridge::message::{ParsedMessage, ParsedXmlInput};
use turn_start_bridge::queue_mode::QueueMode;
use turn_start_bridge::structured_input::{
    DrainInput, DrainStage, StructuredInputAction, StructuredInputPreviewEntry,
    StructuredInputReaderEvent, StructuredInputRuntime,
};
use turn_start_bridge::thread_map::ThreadId;

fn thread() -> ThreadId {
    ThreadId::from_canonical("67e55044-10b1-426f-9247-bb680e5fe0c8")
}

fn other_thread() -> ThreadId {
    ThreadId::from_canonical("00000000-10b1-426f-9247-bb680e5fe0c8")
}

fn message(queue_mode: QueueMode, text: &str) -> StructuredInputReaderEvent {
    StructuredInputReaderEvent::Parsed(ParsedXmlInput::Message(ParsedMessage {
        queue_mode,
        text: text.to_string(),
    }))
}

fn entry(queue_mode: QueueMode, text: &str) -> StructuredInputPreviewEntry {
    StructuredInputPreviewEntry {
        queue_mode,
        text: text.to_string(),
    }
}

fn queued(queue_mode: QueueMode, text: &str) -> QueuedMessage {
    QueuedMessage {
        queue_mode,
        text: text.to_string(),
    }
}

fn started(thread_id: &ThreadId, turn_id: &str) -> ControllerEvent {
    ControllerEvent::TurnStarted {
        thread_id: thread_id.to_string(),
        turn_id: turn_id.to_string(),
    }
}

#[test]
fn first_bound_message_respects_existing_active_turn() {
    let thread_id = thread();
    let mut runtime = StructuredInputRuntime::new();

    let sync_actions = runtime.sync_active_turn(&thread_id, "turn-1".to_string());
    let actions = runtime.handle_reader_event(
        message(QueueMode::Default, "queued while busy"),
        Some(&thread_id),
    );

    assert_eq!(sync_actions, vec![StructuredInputAction::RefreshPreview]);
    assert_eq!(actions, vec![StructuredInputAction::RefreshPreview]);
    assert_eq!(
        runtime.preview_for_thread(Some(&thread_id)),
        vec![entry(QueueMode::AfterToolCall, "queued while busy")]
    );
}

/// Drains a channel that holds some events and then, after a while, more.
fn drain(
    runtime: &mut StructuredInputRuntime,
    ready: Vec<StructuredInputReaderEvent>,
    later: Vec<StructuredInputReaderEvent>,
) -> (Vec<StructuredInputAction>, usize) {
    let mut stage = DrainStage::Waiting;
    let mut actions = Vec::new();
    let mut inputs: Vec<DrainInput> = ready.into_iter().map(DrainInput::Event).collect();
    inputs.push(DrainInput::NothingReady);
    inputs.extend(later.into_iter().map(DrainInput::Event));
    inputs.push(DrainInput::NothingReady);
    inputs.push(DrainInput::Closed);
    let mut taken = 0;
    for input in inputs {
        if stage == DrainStage::Finished {
            break;
        }
        taken += 1;
        let (next, more) = runtime.drain_startup(stage, input);
        stage = next;
        actions.extend(more);
    }
    assert_eq!(stage, DrainStage::Finished);
    (actions, taken)
}

#[test]
fn drain_startup_captures_system_prompt_and_unbound_message() {
    let mut runtime = StructuredInputRuntime::new();
    let (actions, _) = drain(
        &mut runtime,
        vec![
            StructuredInputReaderEvent::Parsed(ParsedXmlInput::SystemPrompt(
                "be terse".to_string(),
            )),
            message(QueueMode::AfterToolCall, "hello"),
            StructuredInputReaderEvent::StartupDrainComplete,
        ],
        Vec::new(),
    );

    assert_eq!(actions, vec![StructuredInputAction::RefreshPreview]);
    assert_eq!(runtime.startup_system_prompt(), Some("be terse".to_string()));
    assert_eq!(
        runtime.preview_for_thread(None),
        vec![entry(QueueMode::AfterToolCall, "hello")]
    );
}

#[test]
fn drain_startup_waits_for_initial_reader_drain_completion() {
    let mut runtime = StructuredInputRuntime::new();
    let (actions, _) = drain(
        &mut runtime,
        Vec::new(),
        vec![
            StructuredInputReaderEvent::Parsed(ParsedXmlInput::SystemPrompt(
                "be terse".to_string(),
            )),
            StructuredInputReaderEvent::StartupDrainComplete,
        ],
    );

    assert_eq!(actions, Vec::<StructuredInputAction>::new());
    assert_eq!(runtime.startup_system_prompt(), Some("be terse".to_string()));
}

#[test]
fn drain_startup_returns_after_initial_reader_drain_without_events() {
    let mut runtime = StructuredInputRuntime::new();
    let (actions, _) = drain(
        &mut runtime,
        Vec::new(),
        vec![StructuredInputReaderEvent::StartupDrainComplete],
    );

    assert_eq!(actions, Vec::<StructuredInputAction>::new());
}

#[test]
fn the_drain_takes_what_is_ready_behind_its_end() {
    let mut runtime = StructuredInputRuntime::new();
    let (actions, taken) = drain(
        &mut runtime,
        vec![
            StructuredInputReaderEvent::StartupDrainComplete,
            message(QueueMode::Default, "early"),
        ],
        vec![message(QueueMode::Default, "late")],
    );

    assert_eq!(taken, 3);
    assert_eq!(actions, vec![StructuredInputAction::RefreshPreview]);
    assert_eq!(
        runtime.preview_for_thread(None),
        vec![entry(QueueMode::Default, "early")]
    );
}

#[test]
fn eof_disables_reader_without_dropping_unbound_messages() {
    let mut runtime = StructuredInputRuntime::new();
    runtime
        .unbound_messages
        .push(queued(QueueMode::AfterToolCall, "hello"));

    let actions = runtime.handle_reader_event(StructuredInputReaderEvent::Eof, None);

    assert_eq!(
        actions,
        vec![StructuredInputAction::Info(
            "Structured input channel closed; sideband XML input is now disabled.".to_string()
        )]
    );
    assert!(!runtime.has_reader());
    assert_eq!(
        runtime.preview_for_thread(None),
        vec![entry(QueueMode::AfterToolCall, "hello")]
    );
}

#[test]
fn a_read_error_disables_the_reader() {
    let mut runtime = StructuredInputRuntime::new();
    assert!(runtime.has_reader());
    assert_eq!(
        runtime.handle_reader_event(
            StructuredInputReaderEvent::ReadError("gone".to_string()),
            None
        ),
        vec![StructuredInputAction::Error("gone".to_string())]
    );
    assert!(!runtime.has_reader());
    assert_eq!(
        runtime.handle_reader_event(
            StructuredInputReaderEvent::ParseError("odd".to_string()),
            None
        ),
        vec![StructuredInputAction::Error("odd".to_string())]
    );
}

#[test]
fn bind_unbound_messages_releases_first_message_for_first_thread() {
    let mut runtime = StructuredInputRuntime::new();
    let thread_id = thread();
    runtime
        .unbound_messages
        .push(queued(QueueMode::AfterToolCall, "hello"));

    let actions = runtime.bind_unbound_messages(&thread_id);

    assert_eq!(runtime.unbound_messages, Vec::<QueuedMessage>::new());
    assert!(actions
        .iter()
        .any(|action| matches!(action, StructuredInputAction::Release { .. })));
}

#[test]
fn bind_unbound_after_any_item_message_starts_idle_thread() {
    let mut runtime = StructuredInputRuntime::new();
    let thread_id = thread();
    runtime
        .unbound_messages
        .push(queued(QueueMode::AfterAnyItem, "hello"));

    let actions = runtime.bind_unbound_messages(&thread_id);

    assert_eq!(
        actions,
        vec![
            StructuredInputAction::RefreshPreview,
            StructuredInputAction::Release {
                thread_id,
                decision: ReleaseDecision {
                    action: ReleaseAction::StartTurn,
                    reason: ReleaseReason::Idle,
                    message: queued(QueueMode::AfterAnyItem, "hello"),
                },
            },
        ]
    );
}

#[test]
fn binding_keeps_every_message() {
    let mut runtime = StructuredInputRuntime::new();
    let thread_id = thread();
    for text in ["one", "two", "three"] {
        runtime
            .unbound_messages
            .push(queued(QueueMode::NextTurn, text));
    }

    let actions = runtime.bind_unbound_messages(&thread_id);

    assert_eq!(
        actions
            .iter()
            .filter(|action| matches!(action, StructuredInputAction::Release { .. }))
            .count(),
        1
    );
    assert_eq!(
        runtime.preview_for_thread(Some(&thread_id)),
        vec![
            entry(QueueMode::NextTurn, "two"),
            entry(QueueMode::NextTurn, "three")
        ]
    );
    assert_eq!(runtime.preview_for_thread(Some(&other_thread())), Vec::new());
}

#[test]
fn late_system_prompt_is_rejected() {
    let mut runtime = StructuredInputRuntime::new();
    runtime.lock_startup();

    let actions = runtime.handle_reader_event(
        StructuredInputReaderEvent::Parsed(ParsedXmlInput::SystemPrompt("late".to_string())),
        None,
    );

    assert_eq!(actions.len(), 1);
    assert!(matches!(actions[0], StructuredInputAction::Error(_)));
    assert_eq!(runtime.startup_system_prompt(), None);
}

#[test]
fn thread_close_drops_queued_messages() {
    let thread_id = thread();
    let mut runtime = StructuredInputRuntime::new();
    runtime.controllers.ensure(&thread_id);
    runtime.handle_controller_event(&thread_id, started(&thread_id, "turn-1"));
    let _ = runtime.handle_reader_event(
        message(QueueMode::AfterToolCall, "hello"),
        Some(&thread_id),
    );

    let actions = runtime.drop_thread(&thread_id);

    assert!(actions
        .iter()
        .any(|action| matches!(action, StructuredInputAction::Error(_))));
    assert_eq!(
        actions[1],
        StructuredInputAction::Error(
            "Dropped 1 queued structured-input message(s) for closed thread \
             67e55044-10b1-426f-9247-bb680e5fe0c8."
                .to_string()
        )
    );
    assert_eq!(runtime.drop_thread(&thread_id), Vec::new());
}

#[test]
fn a_close_notification_drops_the_thread() {
    let thread_id = thread();
    let mut runtime = StructuredInputRuntime::new();
    runtime.controllers.ensure(&thread_id);
    let notification = ServerNotification::ThreadClosed {
        thread_id: thread_id.to_string(),
    };

    assert_eq!(
        runtime.handle_server_notification(&notification, None),
        Vec::new()
    );
    assert_eq!(
        runtime.handle_server_notification(&notification, Some(&thread_id)),
        vec![StructuredInputAction::RefreshPreview]
    );
    assert_eq!(
        runtime.handle_server_notification(&notification, Some(&thread_id)),
        Vec::new()
    );
}

#[test]
fn reconcile_active_turn_updates_controller_state() {
    let thread_id = thread();
    let mut runtime = StructuredInputRuntime::new();
    runtime.controllers.ensure(&thread_id);
    runtime.handle_controller_event(&thread_id, started(&thread_id, "turn-1"));
    runtime.handle_controller_event(
        &thread_id,
        ControllerEvent::MessageReceived(queued(QueueMode::Immediate, "interrupt")),
    );

    let actions = runtime.reconcile_active_turn(&thread_id, "turn-2".to_string());

    assert_eq!(actions, vec![StructuredInputAction::RefreshPreview]);
    assert_eq!(
        runtime.handle_controller_event(
            &thread_id,
            ControllerEvent::SteerAccepted {
                turn_id: "turn-2".to_string(),
            },
        ),
        vec![StructuredInputAction::RefreshPreview]
    );
    assert_eq!(
        runtime.handle_controller_event(&thread_id, started(&thread_id, "turn-2")),
        vec![StructuredInputAction::RefreshPreview]
    );
}

#[test]
fn contradictions_of_the_server_are_reported() {
    let thread_id = thread();
    let mut runtime = StructuredInputRuntime::new();
    let _ = runtime.sync_active_turn(&thread_id, "turn-1".to_string());

    let actions = runtime.handle_controller_event(&thread_id, started(&thread_id, "turn-2"));

    assert_eq!(actions.len(), 2);
    let StructuredInputAction::Error(message) = &actions[1] else {
        panic!("expected a report");
    };
    assert!(message.starts_with(
        "Structured input controller validation error for thread \
         67e55044-10b1-426f-9247-bb680e5fe0c8: "
    ));
}

#[test]
fn mod_classify_item_completed_releases_after_agent_message_items() {
    assert_eq!(
        classify_item_completed(&ThreadItem::AgentMessage {
            id: "item-1".to_string(),
            text: "hello".to_string(),
        }),
        CompletionSignal::ReleasesAfterAnyItem
    );
}

#[test]
fn classify_item_completed_ignores_user_message_items() {
    assert_eq!(
        classify_item_completed(&ThreadItem::UserMessage {
            id: "item-1".to_string(),
        }),
        CompletionSignal::Ignore
    );
}

fn running_runtime_with_after_any_item(thread_id: &ThreadId) -> StructuredInputRuntime {
    let mut runtime = StructuredInputRuntime::new();
    runtime.controllers.ensure(thread_id);
    runtime.handle_controller_event(thread_id, started(thread_id, "turn-1"));
    let _ =
        runtime.handle_reader_event(message(QueueMode::AfterAnyItem, "queued"), Some(thread_id));
    runtime
}

fn complete(runtime: &mut StructuredInputRuntime, item: ResponseItem) -> bool {
    let notification = ServerNotification::RawResponseItemCompleted {
        thread_id: thread().to_string(),
        turn_id: "turn-1".to_string(),
        item,
    };
    let actions = runtime.handle_server_notification(&notification, Some(&thread()));
    actions.iter().any(|action| {
        matches!(
            action,
            StructuredInputAction::Release {
                decision: ReleaseDecision {
                    reason: ReleaseReason::AfterAnyItem,
                    ..
                },
                ..
            }
        )
    })
}

#[test]
fn raw_assistant_message_completion_releases_after_any_item() {
    let mut runtime = running_runtime_with_after_any_item(&thread());
    assert!(complete(
        &mut runtime,
        ResponseItem::Message {
            id: Some("msg-1".to_string()),
            role: "assistant".to_string(),
            content: vec![ContentItem::OutputText {
                text: "hello".to_string(),
            }],
        }
    ));
}

#[test]
fn raw_reasoning_completion_releases_after_any_item() {
    let mut runtime = running_runtime_with_after_any_item(&thread());
    assert!(complete(
        &mut runtime,
        ResponseItem::Reasoning {
            id: "reasoning-1".to_string(),
            summary: vec![ReasoningItemReasoningSummary::SummaryText {
                text: "thinking".to_string(),
            }],
            content: None,
        }
    ));
}

#[test]
fn raw_tool_call_completion_releases_after_any_item() {
    let mut runtime = running_runtime_with_after_any_item(&thread());
    assert!(complete(
        &mut runtime,
        ResponseItem::FunctionCall {
            call_id: "call-1".to_string(),
        }
    ));
}

#[test]
fn raw_user_message_completion_does_not_release_after_any_item() {
    let mut runtime = running_runtime_with_after_any_item(&thread());
    assert!(!complete(
        &mut runtime,
        ResponseItem::Message {
            id: Some("msg-1".to_string()),
            role: "user".to_string(),
            content: vec![ContentItem::InputText {
                text: "hello".to_string(),
            }],
        }
    ));
}

#[test]
fn raw_tool_output_completion_does_not_release_after_any_item() {
    let mut runtime = running_runtime_with_after_any_item(&thread());
    assert!(!complete(
        &mut runtime,
        ResponseItem::FunctionCallOutput {
            call_id: "call-1".to_string(),
        }
    ));
}

#[test]
fn threads_have_controllers_of_their_own() {
    let mut runtime = StructuredInputRuntime::new();
    let _ = runtime.sync_active_turn(&thread(), "turn-1".to_string());
    let _ = runtime.handle_reader_event(message(QueueMode::NextTurn, "mine"), Some(&thread()));
    let before = runtime.preview_for_thread(Some(&thread()));

    let actions =
        runtime.handle_reader_event(message(QueueMode::NextTurn, "yours"), Some(&other_thread()));

    assert_eq!(actions.len(), 2);
    assert_eq!(runtime.preview_for_thread(Some(&thread())), before);
    assert_eq!(runtime.preview_for_thread(Some(&other_thread())), Vec::new());
    let _ = runtime.drop_thread(&other_thread());
    assert_eq!(runtime.preview_for_thread(Some(&thread())), before);
}

#[test]
fn preview_entries_keep_mode_and_text() {
    let parsed = ParsedMessage {
        queue_mode: QueueMode::AfterToolCall,
        text: "parsed".to_string(),
    };
    assert_eq!(
        StructuredInputPreviewEntry::from(parsed),
        entry(QueueMode::AfterToolCall, "parsed")
    );
    assert_eq!(
        StructuredInputPreviewEntry::from(queued(QueueMode::NextTurn, "queued")),
        entry(QueueMode::NextTurn, "queued")
    );
}
