use turn_start_bridge::controller::{
    BridgeController, CompletionSignal, ControllerEvent, QueuedMessage, ReleaseAction,
    ReleaseDecision, ReleaseReason, TurnState,
};
use turn_start_bridge::queue_mode::QueueMode;

fn queued(queue_mode: QueueMode, text: &str) -> QueuedMessage {
    QueuedMessage {
        queue_mode,
        text: text.to_string(),
    }
}

fn running_controller() -> BridgeController {
    let mut controller = BridgeController::new("thread-1");
    assert_eq!(
        controller.on_event(ControllerEvent::TurnStarted {
            thread_id: "thread-1".to_string(),
            turn_id: "turn-1".to_string(),
        }),
        None
    );
    controller
}

#[test]
fn idle_messages_release_immediately_regardless_of_queue_mode() {
    for mode in [
        QueueMode::Default,
        QueueMode::Immediate,
        QueueMode::AfterToolCall,
        QueueMode::AfterAnyItem,
        QueueMode::NextTurn,
    ] {
        let mut controller = BridgeController::new("thread-1");

        assert_eq!(
            controller.on_event(ControllerEvent::MessageReceived(queued(mode, "hello"))),
            Some(ReleaseDecision {
                action: ReleaseAction::StartTurn,
                reason: ReleaseReason::Idle,
                message: queued(mode, "hello"),
            })
        );
        assert_eq!(
            controller.turn_state(),
            &TurnState::TurnStartPending {
                reserved_turn_id: None,
            }
        );
        assert_eq!(
            controller.pending_turn_message(),
            Some(&queued(mode, "hello"))
        );
    }
}

#[test]
fn turn_start_pending_binds_reserved_turn_before_request_succeeds() {
    let mut controller = BridgeController::new("thread-1");
    let start = controller.on_event(ControllerEvent::MessageReceived(queued(
        QueueMode::AfterToolCall,
        "hello",
    )));

    assert_eq!(
        start,
        Some(ReleaseDecision {
            action: ReleaseAction::StartTurn,
            reason: ReleaseReason::Idle,
            message: queued(QueueMode::AfterToolCall, "hello"),
        })
    );
    assert_eq!(
        controller.on_event(ControllerEvent::TurnStarted {
            thread_id: "thread-1".to_string(),
            turn_id: "turn-1".to_string(),
        }),
        None
    );
    assert_eq!(
        controller.turn_state(),
        &TurnState::TurnStartPending {
            reserved_turn_id: Some("turn-1".to_string()),
        }
    );
    assert_eq!(
        controller.on_event(ControllerEvent::TurnStartAccepted),
        None
    );
    assert_eq!(
        controller.turn_state(),
        &TurnState::Running {
            turn_id: "turn-1".to_string(),
        }
    );
    assert_eq!(controller.active_turn_id(), Some("turn-1"));
    assert_eq!(controller.pending_turn_message(), None);
}

#[test]
fn terminal_interaction_releases_exactly_one_message_and_prefers_after_tool_call() {
    let mut controller = running_controller();
    assert_eq!(
        controller.on_event(ControllerEvent::MessageReceived(queued(
            QueueMode::AfterAnyItem,
            "any",
        ))),
        None
    );
    assert_eq!(
        controller.on_event(ControllerEvent::MessageReceived(queued(
            QueueMode::AfterToolCall,
            "tool-1",
        ))),
        None
    );
    assert_eq!(
        controller.on_event(ControllerEvent::MessageReceived(queued(
            QueueMode::AfterToolCall,
            "tool-2",
        ))),
        None
    );

    assert_eq!(
        controller.on_event(ControllerEvent::TerminalInteraction {
            thread_id: "thread-1".to_string(),
            turn_id: "turn-1".to_string(),
        }),
        Some(ReleaseDecision {
            action: ReleaseAction::SteerTurn {
                turn_id: "turn-1".to_string(),
            },
            reason: ReleaseReason::AfterToolCall,
            message: queued(QueueMode::AfterToolCall, "tool-1"),
        })
    );
    assert_eq!(controller.queued_counts(), (1, 1, 0));
}

#[test]
fn terminal_interaction_does_not_release_another_message_while_steer_is_pending() {
    let mut controller = running_controller();
    assert_eq!(
        controller.on_event(ControllerEvent::MessageReceived(queued(
            QueueMode::AfterToolCall,
            "tool-1",
        ))),
        None
    );
    assert_eq!(
        controller.on_event(ControllerEvent::MessageReceived(queued(
            QueueMode::AfterToolCall,
            "tool-2",
        ))),
        None
    );

    assert!(matches!(
        controller.on_event(ControllerEvent::TerminalInteraction {
            thread_id: "thread-1".to_string(),
            turn_id: "turn-1".to_string(),
        }),
        Some(ReleaseDecision {
            reason: ReleaseReason::AfterToolCall,
            ..
        })
    ));
    assert_eq!(
        controller.on_event(ControllerEvent::TerminalInteraction {
            thread_id: "thread-1".to_string(),
            turn_id: "turn-1".to_string(),
        }),
        None
    );
    assert_eq!(controller.queued_counts(), (1, 0, 0));
}

#[test]
fn item_completed_releases_after_any_item_but_not_terminal_interaction_only_items() {
    let mut controller = running_controller();
    assert_eq!(
        controller.on_event(ControllerEvent::MessageReceived(queued(
            QueueMode::AfterToolCall,
            "tool",
        ))),
        None
    );
    assert_eq!(
        controller.on_event(ControllerEvent::MessageReceived(queued(
            QueueMode::AfterAnyItem,
            "any",
        ))),
        None
    );

    assert_eq!(
        controller.on_event(ControllerEvent::ItemCompleted {
            thread_id: "thread-1".to_string(),
            turn_id: "turn-1".to_string(),
            signal: CompletionSignal::Ignore,
        }),
        None
    );
    assert_eq!(controller.queued_counts(), (1, 1, 0));
    assert_eq!(
        controller.on_event(ControllerEvent::ItemCompleted {
            thread_id: "thread-1".to_string(),
            turn_id: "turn-1".to_string(),
            signal: CompletionSignal::ReleasesAfterAnyItem,
        }),
        Some(ReleaseDecision {
            action: ReleaseAction::SteerTurn {
                turn_id: "turn-1".to_string(),
            },
            reason: ReleaseReason::AfterAnyItem,
            message: queued(QueueMode::AfterAnyItem, "any"),
        })
    );
    assert_eq!(controller.queued_counts(), (1, 0, 0));
}

#[test]
fn item_completed_does_not_release_another_message_while_steer_is_pending() {
    let mut controller = running_controller();
    assert_eq!(
        controller.on_event(ControllerEvent::MessageReceived(queued(
            QueueMode::AfterAnyItem,
            "any-1",
        ))),
        None
    );
    assert_eq!(
        controller.on_event(ControllerEvent::MessageReceived(queued(
            QueueMode::AfterAnyItem,
            "any-2",
        ))),
        None
    );

    assert!(matches!(
        controller.on_event(ControllerEvent::ItemCompleted {
            thread_id: "thread-1".to_string(),
            turn_id: "turn-1".to_string(),
            signal: CompletionSignal::ReleasesAfterAnyItem,
        }),
        Some(ReleaseDecision {
            reason: ReleaseReason::AfterAnyItem,
            ..
        })
    ));
    assert_eq!(
        controller.on_event(ControllerEvent::ItemCompleted {
            thread_id: "thread-1".to_string(),
            turn_id: "turn-1".to_string(),
            signal: CompletionSignal::ReleasesAfterAnyItem,
        }),
        None
    );
    assert_eq!(controller.queued_counts(), (0, 1, 0));
}

#[test]
fn after_any_item_includes_terminal_interaction_fallback() {
    let mut controller = running_controller();
    assert_eq!(
        controller.on_event(ControllerEvent::MessageReceived(queued(
            QueueMode::AfterAnyItem,
            "any",
        ))),
        None
    );

    assert_eq!(
        controller.on_event(ControllerEvent::TerminalInteraction {
            thread_id: "thread-1".to_string(),
            turn_id: "turn-1".to_string(),
        }),
        Some(ReleaseDecision {
            action: ReleaseAction::SteerTurn {
                turn_id: "turn-1".to_string(),
            },
            reason: ReleaseReason::AfterAnyItem,
            message: queued(QueueMode::AfterAnyItem, "any"),
        })
    );
}

#[test]
fn immediate_steers_same_turn_and_downgrades_only_on_explicit_failure() {
    let mut controller = running_controller();

    assert_eq!(
        controller.on_event(ControllerEvent::MessageReceived(queued(
            QueueMode::Immediate,
            "interrupt",
        ))),
        Some(ReleaseDecision {
            action: ReleaseAction::SteerTurn {
                turn_id: "turn-1".to_string(),
            },
            reason: ReleaseReason::Immediate,
            message: queued(QueueMode::Immediate, "interrupt"),
        })
    );
    assert_eq!(controller.queued_counts(), (0, 0, 0));

    assert_eq!(
        controller.on_event(ControllerEvent::SteerRejectedActiveTurnNotSteerable {
            message: queued(QueueMode::Immediate, "interrupt"),
        }),
        None
    );
    assert_eq!(controller.queued_counts(), (0, 0, 1));
}

#[test]
fn immediate_during_turn_start_pending_is_retained_for_same_turn_release() {
    let mut controller = BridgeController::new("thread-1");
    assert_eq!(
        controller.on_event(ControllerEvent::MessageReceived(queued(
            QueueMode::AfterToolCall,
            "hello",
        ))),
        Some(ReleaseDecision {
            action: ReleaseAction::StartTurn,
            reason: ReleaseReason::Idle,
            message: queued(QueueMode::AfterToolCall, "hello"),
        })
    );

    assert_eq!(
        controller.on_event(ControllerEvent::MessageReceived(queued(
            QueueMode::Immediate,
            "interrupt",
        ))),
        None
    );
    assert_eq!(controller.queued_counts(), (0, 0, 0));

    assert_eq!(
        controller.on_event(ControllerEvent::TurnStarted {
            thread_id: "thread-1".to_string(),
            turn_id: "turn-1".to_string(),
        }),
        None
    );
    assert_eq!(
        controller.on_event(ControllerEvent::TurnStartAccepted),
        Some(ReleaseDecision {
            action: ReleaseAction::SteerTurn {
                turn_id: "turn-1".to_string(),
            },
            reason: ReleaseReason::Immediate,
            message: queued(QueueMode::Immediate, "interrupt"),
        })
    );
    assert_eq!(controller.queued_counts(), (0, 0, 0));
}

#[test]
fn immediate_during_turn_start_pending_is_retained_across_start_rejection_when_turn_id_is_known()
 {
    let mut controller = BridgeController::new("thread-1");
    assert_eq!(
        controller.on_event(ControllerEvent::MessageReceived(queued(
            QueueMode::AfterToolCall,
            "hello",
        ))),
        Some(ReleaseDecision {
            action: ReleaseAction::StartTurn,
            reason: ReleaseReason::Idle,
            message: queued(QueueMode::AfterToolCall, "hello"),
        })
    );
    assert_eq!(
        controller.on_event(ControllerEvent::MessageReceived(queued(
            QueueMode::Immediate,
            "interrupt",
        ))),
        None
    );
    assert_eq!(
        controller.on_event(ControllerEvent::TurnStarted {
            thread_id: "thread-1".to_string(),
            turn_id: "turn-1".to_string(),
        }),
        None
    );

    assert_eq!(
        controller.on_event(ControllerEvent::TurnStartRejectedActiveTurnNotSteerable),
        Some(ReleaseDecision {
            action: ReleaseAction::SteerTurn {
                turn_id: "turn-1".to_string(),
            },
            reason: ReleaseReason::Immediate,
            message: queued(QueueMode::Immediate, "interrupt"),
        })
    );
}

#[test]
fn immediate_during_busy_unknown_turn_is_retained_until_turn_id_is_known() {
    let mut controller = BridgeController::new("thread-1");
    controller.restore_busy_unknown_turn();

    assert_eq!(
        controller.on_event(ControllerEvent::MessageReceived(queued(
            QueueMode::Immediate,
            "interrupt",
        ))),
        None
    );
    assert_eq!(controller.queued_counts(), (0, 0, 0));

    assert_eq!(
        controller.on_event(ControllerEvent::TurnStarted {
            thread_id: "thread-1".to_string(),
            turn_id: "turn-1".to_string(),
        }),
        Some(ReleaseDecision {
            action: ReleaseAction::SteerTurn {
                turn_id: "turn-1".to_string(),
            },
            reason: ReleaseReason::Immediate,
            message: queued(QueueMode::Immediate, "interrupt"),
        })
    );
    assert_eq!(controller.queued_counts(), (0, 0, 0));
}

#[test]
fn turn_completed_uses_fallback_priority_after_tool_call_then_after_any_item_then_next_turn() {
    let mut controller = running_controller();
    assert_eq!(
        controller.on_event(ControllerEvent::MessageReceived(queued(
            QueueMode::NextTurn,
            "next",
        ))),
        None
    );
    assert_eq!(
        controller.on_event(ControllerEvent::MessageReceived(queued(
            QueueMode::AfterAnyItem,
            "any",
        ))),
        None
    );
    assert_eq!(
        controller.on_event(ControllerEvent::MessageReceived(queued(
            QueueMode::AfterToolCall,
            "tool",
        ))),
        None
    );

    assert_eq!(
        controller.on_event(ControllerEvent::TurnCompleted {
            thread_id: "thread-1".to_string(),
            turn_id: "turn-1".to_string(),
        }),
        Some(ReleaseDecision {
            action: ReleaseAction::StartTurn,
            reason: ReleaseReason::AfterToolCall,
            message: queued(QueueMode::AfterToolCall, "tool"),
        })
    );
    assert_eq!(controller.queued_counts(), (0, 1, 1));
}

#[test]
fn running_controller_reports_mismatched_turn_started_notifications() {
    let mut controller = running_controller();

    assert_eq!(
        controller.on_event(ControllerEvent::TurnStarted {
            thread_id: "thread-1".to_string(),
            turn_id: "turn-2".to_string(),
        }),
        None
    );
    assert_eq!(
        controller.take_validation_error(),
        Some("turn/started turn id `turn-2` did not match active turn id `turn-1`".to_string())
    );
}

#[test]
fn reconciled_active_turn_updates_pending_steer_target_and_avoids_later_mismatch() {
    let mut controller = running_controller();

    assert_eq!(
        controller.on_event(ControllerEvent::MessageReceived(queued(
            QueueMode::Immediate,
            "interrupt",
        ))),
        Some(ReleaseDecision {
            action: ReleaseAction::SteerTurn {
                turn_id: "turn-1".to_string(),
            },
            reason: ReleaseReason::Immediate,
            message: queued(QueueMode::Immediate, "interrupt"),
        })
    );

    assert_eq!(
        controller.on_event(ControllerEvent::ActiveTurnReconciled {
            thread_id: "thread-1".to_string(),
            turn_id: "turn-2".to_string(),
        }),
        None
    );
    assert_eq!(
        controller.turn_state(),
        &TurnState::Running {
            turn_id: "turn-2".to_string(),
        }
    );

    assert_eq!(
        controller.on_event(ControllerEvent::SteerAccepted {
            turn_id: "turn-2".to_string(),
        }),
        None
    );
    assert_eq!(
        controller.on_event(ControllerEvent::TurnStarted {
            thread_id: "thread-1".to_string(),
            turn_id: "turn-2".to_string(),
        }),
        None
    );
    assert_eq!(controller.take_validation_error(), None);
}

#[test]
fn completion_before_steer_error_keeps_older_message_ahead_of_later_next_turn_work() {
    let mut controller = running_controller();
    assert_eq!(
        controller.on_event(ControllerEvent::MessageReceived(queued(
            QueueMode::NextTurn,
            "later-next",
        ))),
        None
    );
    assert_eq!(
        controller.on_event(ControllerEvent::MessageReceived(queued(
            QueueMode::Immediate,
            "older-immediate",
        ))),
        Some(ReleaseDecision {
            action: ReleaseAction::SteerTurn {
                turn_id: "turn-1".to_string(),
            },
            reason: ReleaseReason::Immediate,
            message: queued(QueueMode::Immediate, "older-immediate"),
        })
    );
    assert_eq!(
        controller.on_event(ControllerEvent::TurnCompleted {
            thread_id: "thread-1".to_string(),
            turn_id: "turn-1".to_string(),
        }),
        None
    );
    assert_eq!(
        controller.turn_state(),
        &TurnState::Running {
            turn_id: "turn-1".to_string()
        }
    );

    assert_eq!(
        controller.on_event(ControllerEvent::SteerRejectedActiveTurnNotSteerable {
            message: queued(QueueMode::Immediate, "older-immediate"),
        }),
        Some(ReleaseDecision {
            action: ReleaseAction::StartTurn,
            reason: ReleaseReason::NextTurn,
            message: queued(QueueMode::NextTurn, "older-immediate"),
        })
    );
    assert_eq!(controller.queued_counts(), (0, 0, 1));
}

#[test]
fn completion_before_pending_steer_response_does_not_treat_new_input_as_idle() {
    let mut controller = running_controller();
    assert!(matches!(
        controller.on_event(ControllerEvent::MessageReceived(queued(
            QueueMode::Immediate,
            "older-immediate",
        ))),
        Some(ReleaseDecision {
            reason: ReleaseReason::Immediate,
            ..
        })
    ));
    assert_eq!(
        controller.on_event(ControllerEvent::TurnCompleted {
            thread_id: "thread-1".to_string(),
            turn_id: "turn-1".to_string(),
        }),
        None
    );

    assert_eq!(
        controller.on_event(ControllerEvent::MessageReceived(queued(
            QueueMode::AfterToolCall,
            "later-tool",
        ))),
        None
    );
    assert_eq!(
        controller.turn_state(),
        &TurnState::Running {
            turn_id: "turn-1".to_string()
        }
    );
    assert_eq!(controller.pending_turn_message(), None);
}

#[test]
fn completion_before_after_tool_call_steer_error_keeps_older_message_ahead_of_later_next_turn_work()
 {
    let mut controller = running_controller();
    assert_eq!(
        controller.on_event(ControllerEvent::MessageReceived(queued(
            QueueMode::AfterToolCall,
            "older-tool",
        ))),
        None
    );
    assert_eq!(
        controller.on_event(ControllerEvent::MessageReceived(queued(
            QueueMode::NextTurn,
            "later-next",
        ))),
        None
    );
    assert_eq!(
        controller.on_event(ControllerEvent::TerminalInteraction {
            thread_id: "thread-1".to_string(),
            turn_id: "turn-1".to_string(),
        }),
        Some(ReleaseDecision {
            action: ReleaseAction::SteerTurn {
                turn_id: "turn-1".to_string(),
            },
            reason: ReleaseReason::AfterToolCall,
            message: queued(QueueMode::AfterToolCall, "older-tool"),
        })
    );
    assert_eq!(
        controller.on_event(ControllerEvent::TurnCompleted {
            thread_id: "thread-1".to_string(),
            turn_id: "turn-1".to_string(),
        }),
        None
    );

    assert_eq!(
        controller.on_event(ControllerEvent::SteerRejectedActiveTurnNotSteerable {
            message: queued(QueueMode::AfterToolCall, "older-tool"),
        }),
        Some(ReleaseDecision {
            action: ReleaseAction::StartTurn,
            reason: ReleaseReason::NextTurn,
            message: queued(QueueMode::NextTurn, "older-tool"),
        })
    );
    assert_eq!(controller.queued_counts(), (0, 0, 1));
}

#[test]
fn immediate_during_pending_steer_retries_same_turn_after_prior_steer_succeeds() {
    let mut controller = running_controller();
    assert!(matches!(
        controller.on_event(ControllerEvent::MessageReceived(queued(
            QueueMode::Immediate,
            "first",
        ))),
        Some(ReleaseDecision {
            reason: ReleaseReason::Immediate,
            ..
        })
    ));

    assert_eq!(
        controller.on_event(ControllerEvent::MessageReceived(queued(
            QueueMode::Immediate,
            "second",
        ))),
        None
    );
    assert_eq!(controller.queued_counts(), (0, 0, 0));

    assert_eq!(
        controller.on_event(ControllerEvent::SteerAccepted {
            turn_id: "turn-1".to_string(),
        }),
        Some(ReleaseDecision {
            action: ReleaseAction::SteerTurn {
                turn_id: "turn-1".to_string(),
            },
            reason: ReleaseReason::Immediate,
            message: queued(QueueMode::Immediate, "second"),
        })
    );
}

#[test]
fn downgrade_of_multiple_retained_immediates_preserves_fifo_order() {
    let mut controller = BridgeController::new("thread-1");
    assert_eq!(
        controller.on_event(ControllerEvent::MessageReceived(queued(
            QueueMode::AfterToolCall,
            "start",
        ))),
        Some(ReleaseDecision {
            action: ReleaseAction::StartTurn,
            reason: ReleaseReason::Idle,
            message: queued(QueueMode::AfterToolCall, "start"),
        })
    );
    assert_eq!(
        controller.on_event(ControllerEvent::MessageReceived(queued(
            QueueMode::Immediate,
            "first",
        ))),
        None
    );
    assert_eq!(
        controller.on_event(ControllerEvent::MessageReceived(queued(
            QueueMode::Immediate,
            "second",
        ))),
        None
    );
    assert_eq!(
        controller.on_event(ControllerEvent::TurnCompleted {
            thread_id: "thread-1".to_string(),
            turn_id: "turn-1".to_string(),
        }),
        None
    );

    assert_eq!(
        controller.on_event(ControllerEvent::TurnStartAcceptedWithTurnId {
            turn_id: "turn-1".to_string(),
        }),
        Some(ReleaseDecision {
            action: ReleaseAction::StartTurn,
            reason: ReleaseReason::NextTurn,
            message: queued(QueueMode::NextTurn, "first"),
        })
    );
    assert_eq!(
        controller.on_event(ControllerEvent::TurnStartAcceptedWithTurnId {
            turn_id: "turn-2".to_string(),
        }),
        None
    );
    assert_eq!(
        controller.on_event(ControllerEvent::TurnCompleted {
            thread_id: "thread-1".to_string(),
            turn_id: "turn-2".to_string(),
        }),
        Some(ReleaseDecision {
            action: ReleaseAction::StartTurn,
            reason: ReleaseReason::NextTurn,
            message: queued(QueueMode::NextTurn, "second"),
        })
    );
}

#[test]
fn turn_start_accept_response_reports_mismatched_reserved_turn_id() {
    let mut controller = BridgeController::new("thread-1");
    assert_eq!(
        controller.on_event(ControllerEvent::MessageReceived(queued(
            QueueMode::AfterToolCall,
            "hello",
        ))),
        Some(ReleaseDecision {
            action: ReleaseAction::StartTurn,
            reason: ReleaseReason::Idle,
            message: queued(QueueMode::AfterToolCall, "hello"),
        })
    );
    assert_eq!(
        controller.on_event(ControllerEvent::TurnStarted {
            thread_id: "thread-1".to_string(),
            turn_id: "turn-1".to_string(),
        }),
        None
    );

    assert_eq!(
        controller.on_event(ControllerEvent::TurnStartAcceptedWithTurnId {
            turn_id: "turn-2".to_string(),
        }),
        None
    );
    assert_eq!(
        controller.take_validation_error(),
        Some(
            "turn/start response turn id `turn-2` did not match reserved turn id `turn-1`"
                .to_string()
        )
    );
}

#[test]
fn active_turn_not_steerable_during_start_moves_retained_message_to_next_turn_queue() {
    let mut controller = BridgeController::new("thread-1");
    assert_eq!(
        controller.on_event(ControllerEvent::MessageReceived(queued(
            QueueMode::Immediate,
            "hello",
        ))),
        Some(ReleaseDecision {
            action: ReleaseAction::StartTurn,
            reason: ReleaseReason::Idle,
            message: queued(QueueMode::Immediate, "hello"),
        })
    );

    assert_eq!(
        controller.on_event(ControllerEvent::TurnStartRejectedActiveTurnNotSteerable),
        None
    );
    assert_eq!(controller.turn_state(), &TurnState::BusyUnknownTurn);
    assert_eq!(controller.pending_turn_message(), None);
    assert_eq!(controller.queued_counts(), (0, 0, 1));
}

#[test]
fn pending_turn_completion_before_start_acceptance_releases_next_queued_message() {
    let mut controller = BridgeController::new("thread-1");
    assert_eq!(
        controller.on_event(ControllerEvent::MessageReceived(queued(
            QueueMode::AfterToolCall,
            "hello",
        ))),
        Some(ReleaseDecision {
            action: ReleaseAction::StartTurn,
            reason: ReleaseReason::Idle,
            message: queued(QueueMode::AfterToolCall, "hello"),
        })
    );
    assert_eq!(
        controller.on_event(ControllerEvent::MessageReceived(queued(
            QueueMode::NextTurn,
            "next",
        ))),
        None
    );
    assert_eq!(
        controller.on_event(ControllerEvent::TurnStarted {
            thread_id: "thread-1".to_string(),
            turn_id: "turn-1".to_string(),
        }),
        None
    );
    assert_eq!(
        controller.on_event(ControllerEvent::TurnCompleted {
            thread_id: "thread-1".to_string(),
            turn_id: "turn-1".to_string(),
        }),
        None
    );

    assert_eq!(
        controller.on_event(ControllerEvent::TurnStartAccepted),
        Some(ReleaseDecision {
            action: ReleaseAction::StartTurn,
            reason: ReleaseReason::NextTurn,
            message: queued(QueueMode::NextTurn, "next"),
        })
    );
}

#[test]
fn steer_rejection_after_turn_completion_starts_next_turn_immediately() {
    let mut controller = running_controller();
    assert_eq!(
        controller.on_event(ControllerEvent::TurnCompleted {
            thread_id: "thread-1".to_string(),
            turn_id: "turn-1".to_string(),
        }),
        None
    );
    assert_eq!(controller.turn_state(), &TurnState::Idle);

    assert_eq!(
        controller.on_event(ControllerEvent::SteerRejectedActiveTurnNotSteerable {
            message: queued(QueueMode::Immediate, "retry-me"),
        }),
        Some(ReleaseDecision {
            action: ReleaseAction::StartTurn,
            reason: ReleaseReason::NextTurn,
            message: queued(QueueMode::NextTurn, "retry-me"),
        })
    );
}

#[test]
fn start_rejection_preserves_queue_priority_and_next_turn_order() {
    let mut controller = BridgeController::new("thread-1");
    assert_eq!(
        controller.on_event(ControllerEvent::MessageReceived(queued(
            QueueMode::Immediate,
            "retry-me",
        ))),
        Some(ReleaseDecision {
            action: ReleaseAction::StartTurn,
            reason: ReleaseReason::Idle,
            message: queued(QueueMode::Immediate, "retry-me"),
        })
    );
    assert_eq!(
        controller.on_event(ControllerEvent::MessageReceived(queued(
            QueueMode::NextTurn,
            "older-next",
        ))),
        None
    );
    assert_eq!(
        controller.on_event(ControllerEvent::MessageReceived(queued(
            QueueMode::AfterToolCall,
            "tool",
        ))),
        None
    );

    assert_eq!(
        controller.on_event(ControllerEvent::TurnStartRejectedActiveTurnNotSteerable),
        None
    );
    assert_eq!(controller.queued_counts(), (1, 0, 2));

    let _ = controller.on_event(ControllerEvent::TurnStarted {
        thread_id: "thread-1".to_string(),
        turn_id: "turn-1".to_string(),
    });

    assert_eq!(
        controller.on_event(ControllerEvent::TurnCompleted {
            thread_id: "thread-1".to_string(),
            turn_id: "turn-1".to_string(),
        }),
        Some(ReleaseDecision {
            action: ReleaseAction::StartTurn,
            reason: ReleaseReason::AfterToolCall,
            message: queued(QueueMode::AfterToolCall, "tool"),
        })
    );

    assert_eq!(controller.queued_counts(), (0, 0, 2));
}

#[test]
fn turn_start_accepted_without_reserved_turn_keeps_pending_state() {
    let mut controller = BridgeController::new("thread-1");
    assert_eq!(
        controller.on_event(ControllerEvent::MessageReceived(queued(
            QueueMode::AfterToolCall,
            "hello",
        ))),
        Some(ReleaseDecision {
            action: ReleaseAction::StartTurn,
            reason: ReleaseReason::Idle,
            message: queued(QueueMode::AfterToolCall, "hello"),
        })
    );

    assert_eq!(
        controller.on_event(ControllerEvent::TurnStartAccepted),
        None
    );
    assert_eq!(
        controller.turn_state(),
        &TurnState::TurnStartPending {
            reserved_turn_id: None,
        }
    );
    assert_eq!(
        controller.pending_turn_message(),
        Some(&queued(QueueMode::AfterToolCall, "hello"))
    );
}

#[test]
fn recover_missing_active_turn_releases_start_turn_for_inflight_steer_message() {
    let mut controller = running_controller();
    assert_eq!(
        controller.on_event(ControllerEvent::MessageReceived(queued(
            QueueMode::Immediate,
            "steer-me",
        ))),
        Some(ReleaseDecision {
            action: ReleaseAction::SteerTurn {
                turn_id: "turn-1".to_string(),
            },
            reason: ReleaseReason::Immediate,
            message: queued(QueueMode::Immediate, "steer-me"),
        })
    );

    let release = controller
        .recover_missing_active_turn(
            queued(QueueMode::Immediate, "steer-me"),
            ReleaseReason::Immediate,
        )
        .expect("missing active turn should start a new turn");

    assert_eq!(
        release,
        ReleaseDecision {
            action: ReleaseAction::StartTurn,
            reason: ReleaseReason::Immediate,
            message: queued(QueueMode::Immediate, "steer-me"),
        }
    );
    assert_eq!(
        controller.turn_state(),
        &TurnState::TurnStartPending {
            reserved_turn_id: None,
        }
    );
}

#[test]
fn recover_missing_active_turn_releases_buffered_immediate_after_fresh_turn_starts() {
    let mut controller = running_controller();
    assert_eq!(
        controller.on_event(ControllerEvent::MessageReceived(queued(
            QueueMode::Immediate,
            "steer-me",
        ))),
        Some(ReleaseDecision {
            action: ReleaseAction::SteerTurn {
                turn_id: "turn-1".to_string(),
            },
            reason: ReleaseReason::Immediate,
            message: queued(QueueMode::Immediate, "steer-me"),
        })
    );
    assert_eq!(
        controller.on_event(ControllerEvent::MessageReceived(queued(
            QueueMode::Immediate,
            "follow-up",
        ))),
        None
    );

    assert_eq!(
        controller.recover_missing_active_turn(
            queued(QueueMode::Immediate, "steer-me"),
            ReleaseReason::Immediate,
        ),
        Some(ReleaseDecision {
            action: ReleaseAction::StartTurn,
            reason: ReleaseReason::Immediate,
            message: queued(QueueMode::Immediate, "steer-me"),
        })
    );
    assert_eq!(
        controller.on_event(ControllerEvent::TurnStartAcceptedWithTurnId {
            turn_id: "turn-2".to_string(),
        }),
        Some(ReleaseDecision {
            action: ReleaseAction::SteerTurn {
                turn_id: "turn-2".to_string(),
            },
            reason: ReleaseReason::Immediate,
            message: queued(QueueMode::Immediate, "follow-up"),
        })
    );
}

#[test]
fn recover_missing_active_turn_routes_buffered_default_into_fresh_turn() {
    let mut controller = running_controller();
    assert_eq!(
        controller.on_event(ControllerEvent::MessageReceived(queued(
            QueueMode::Immediate,
            "steer-me",
        ))),
        Some(ReleaseDecision {
            action: ReleaseAction::SteerTurn {
                turn_id: "turn-1".to_string(),
            },
            reason: ReleaseReason::Immediate,
            message: queued(QueueMode::Immediate, "steer-me"),
        })
    );
    assert_eq!(
        controller.on_event(ControllerEvent::MessageReceived(queued(
            QueueMode::Default,
            "buffered-default",
        ))),
        None
    );

    assert_eq!(
        controller.recover_missing_active_turn(
            queued(QueueMode::Immediate, "steer-me"),
            ReleaseReason::Immediate,
        ),
        Some(ReleaseDecision {
            action: ReleaseAction::StartTurn,
            reason: ReleaseReason::Immediate,
            message: queued(QueueMode::Immediate, "steer-me"),
        })
    );
    assert_eq!(
        controller.on_event(ControllerEvent::TurnStartAcceptedWithTurnId {
            turn_id: "turn-2".to_string(),
        }),
        None
    );
    assert_eq!(
        controller.on_event(ControllerEvent::TerminalInteraction {
            thread_id: "thread-1".to_string(),
            turn_id: "turn-2".to_string(),
        }),
        Some(ReleaseDecision {
            action: ReleaseAction::SteerTurn {
                turn_id: "turn-2".to_string(),
            },
            reason: ReleaseReason::AfterToolCall,
            message: queued(QueueMode::AfterToolCall, "buffered-default"),
        })
    );
}
