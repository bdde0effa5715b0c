//! What the bridge sends, and when: how messages and what the server says turn
//! into requests.

use vstd::prelude::*;

use crate::bridge;
use crate::bridge::{
    BridgeActionView, BridgeInput, BridgeStageView, BridgeView, InFlightView,
    PendingRequestOutcome,
};
use crate::bridge_input::{BridgeError, BridgeErrorView};
use crate::channel_laws;
use crate::controller::{
    BridgeController, CompletionSignal, QueuedMessage, ReleaseDecision, ReleaseReason,
};
use crate::controller_model;
use crate::controller_model::{
    ActionView, ControllerView, DecisionView, EventView, MessageView, TurnStateView,
};
use crate::items::{ServerNotification, ThreadItem};
use crate::message;
use crate::message::ParsedMessage;
use crate::protocol;
use crate::protocol::{ErrorView, Thread, ThreadStatus};
use crate::queue_mode::QueueMode;
use crate::release_laws;
use crate::side_channel;
use crate::side_channel::SidebandResponseEvent;
use crate::sideband;
use crate::sideband::{ManagedView, ServerRequest, SidebandResponseEnvelope};
use crate::stdio::AppServerEvent;
use crate::text;
use crate::text_laws;
use crate::turn_client::{CodexTurnSession, SessionView};

verus! {

/// Whether a bridge runs with nothing unanswered, no decision that waits and
/// nothing to report.
pub open spec fn quiet(state: BridgeView) -> bool {
    &&& state.stage == BridgeStageView::Running
    &&& state.in_flight is None
    &&& state.decisions.len() == 0
    &&& state.controller.validation_error is None
}

/// The steer of a turn with a text, as the next request of a bridge.
pub open spec fn next_steer(
    state: BridgeView,
    turn_id: Seq<char>,
    text: Seq<char>,
) -> BridgeActionView {
    BridgeActionView::SteerTurn {
        request_id: "turn-steer-"@ + text::decimal_int(state.next_request_id),
        thread_id: state.session.thread_id,
        turn_id,
        text,
    }
}

/// The start of a turn with a text, as the next request of a bridge: with all
/// that the bridge was set up with.
pub open spec fn next_start(state: BridgeView, text: Seq<char>) -> BridgeActionView {
    BridgeActionView::StartTurn {
        request_id: "turn-start-"@ + text::decimal_int(state.next_request_id),
        thread_id: state.session.thread_id,
        text,
        model: state.model,
        cwd: state.cwd,
        approval_policy: Some(state.approval_policy),
        approvals_reviewer: state.approvals_reviewer,
    }
}

/// A completed item of the agent steers the oldest message that waits for any
/// item into the turn, and does nothing else; the others go on waiting. What the
/// user or a hook said releases nothing.
pub proof fn an_item_steers_what_waits_for_it(
    state: BridgeView,
    thread_id: String,
    turn_id: String,
    item: ThreadItem,
    requires_delivery: bool,
)
    requires
        quiet(state),
        state.controller.thread_id == thread_id@,
        state.controller.turn_state == (TurnStateView::Running { turn_id: turn_id@ }),
        state.controller.pending_steer_turn_id is None,
        state.controller.after_any_item.len() > 0,
    ensures
        ({
            let (after, actions) = state.step(
                BridgeInput::App(
                    AppServerEvent::ServerNotification {
                        notification: ServerNotification::ItemCompleted { thread_id, turn_id, item },
                        requires_delivery,
                    },
                ),
            );
            let waiting = state.controller.after_any_item;
            if item is UserMessage || item is HookPrompt {
                after == state && actions.len() == 0
            } else {
                &&& actions == seq![next_steer(state, turn_id@, waiting[0].text)]
                &&& after.controller.after_any_item == waiting.skip(1)
                &&& after.controller.pending_steer_turn_id == Some(turn_id@)
                &&& after.in_flight == Some(InFlightView::TurnSteer { message: waiting[0] })
                &&& after.next_request_id == state.next_request_id + 1
                &&& after.stage is Running
            }
        }),
{
    assert(state.controller.after_any_item.skip(1) =~= state.controller.after_any_item.drop_first());
    let decision = DecisionView {
        action: ActionView::SteerTurn { turn_id: turn_id@ },
        reason: ReleaseReason::AfterAnyItem,
        message: state.controller.after_any_item.first(),
    };
    assert(state.decisions.push(decision).drop_first() =~= state.decisions);
    assert(state.decisions.push(decision).first() == decision);
}

/// A tool call steers the oldest message that waits for one into the turn, or
/// else the oldest that waits for any item; with neither, nothing happens.
pub proof fn a_tool_call_steers_what_waits_for_it(
    state: BridgeView,
    thread_id: String,
    turn_id: String,
    requires_delivery: bool,
)
    requires
        quiet(state),
        state.controller.thread_id == thread_id@,
        state.controller.turn_state == (TurnStateView::Running { turn_id: turn_id@ }),
        state.controller.pending_steer_turn_id is None,
    ensures
        ({
            let (after, actions) = state.step(
                BridgeInput::App(
                    AppServerEvent::ServerNotification {
                        notification: ServerNotification::TerminalInteraction {
                            thread_id,
                            turn_id,
                        },
                        requires_delivery,
                    },
                ),
            );
            let called = state.controller.after_tool_call;
            let waiting = state.controller.after_any_item;
            if called.len() > 0 {
                &&& actions == seq![next_steer(state, turn_id@, called[0].text)]
                &&& after.controller.after_tool_call == called.skip(1)
                &&& after.controller.after_any_item == waiting
            } else if waiting.len() > 0 {
                &&& actions == seq![next_steer(state, turn_id@, waiting[0].text)]
                &&& after.controller.after_any_item == waiting.skip(1)
            } else {
                after == state && actions.len() == 0
            }
        }),
{
    let called = state.controller.after_tool_call;
    let waiting = state.controller.after_any_item;
    if called.len() > 0 {
        assert(called.skip(1) =~= called.drop_first());
    }
    if waiting.len() > 0 {
        assert(waiting.skip(1) =~= waiting.drop_first());
    }
    assert forall|decision: DecisionView|
        #[trigger] state.decisions.push(decision).drop_first() =~= state.decisions
            && state.decisions.push(decision).first() == decision by {}
}

/// When the turn ends, the next turn is started with what has waited longest: a
/// message for a tool call, one for any item, or one for the next turn, in this
/// order. With nothing that waits, nothing is sent while more input can come.
pub proof fn an_ended_turn_starts_what_waits(
    state: BridgeView,
    thread_id: String,
    turn_id: String,
    requires_delivery: bool,
)
    requires
        quiet(state),
        state.controller.thread_id == thread_id@,
        state.controller.turn_state == (TurnStateView::Running { turn_id: turn_id@ }),
        state.controller.pending_steer_turn_id is None,
        state.controller.steer_pending.len() == 0,
        state.controller.pending_immediate.len() == 0,
        !state.stdin_closed,
    ensures
        ({
            let (after, actions) = state.step(
                BridgeInput::App(
                    AppServerEvent::ServerNotification {
                        notification: ServerNotification::TurnCompleted { thread_id, turn_id },
                        requires_delivery,
                    },
                ),
            );
            let held = state.controller;
            if held.after_tool_call.len() > 0 {
                actions == seq![next_start(state, held.after_tool_call[0].text)]
            } else if held.after_any_item.len() > 0 {
                actions == seq![next_start(state, held.after_any_item[0].text)]
            } else if held.next_turn.len() > 0 {
                actions == seq![next_start(state, held.next_turn[0].text)]
            } else {
                actions.len() == 0 && after.controller.turn_state is Idle
            }
        }),
{
    let idle = ControllerView {
        turn_state: TurnStateView::Idle,
        ..state.controller.downgraded()
    };
    assert(idle.steer_pending =~= Seq::empty());
    assert(idle.next_turn =~= state.controller.next_turn);
    controller_model::lemma_buffered_nothing(idle);
    assert forall|decision: DecisionView|
        #[trigger] state.decisions.push(decision).drop_first() =~= state.decisions
            && state.decisions.push(decision).first() == decision by {}
}

/// A turn that the server says has started is taken up by the session and the
/// controller; where the thread was busy, the oldest retained message is steered
/// into it.
pub proof fn a_started_turn_is_followed(
    state: BridgeView,
    thread_id: String,
    turn_id: String,
    requires_delivery: bool,
)
    requires
        quiet(state),
        state.session.thread_id == thread_id@,
        state.controller.thread_id == thread_id@,
        state.controller.turn_state is BusyUnknownTurn,
        state.controller.pending_steer_turn_id is None,
        state.controller.pending_immediate.len() > 0,
    ensures
        ({
            let (after, actions) = state.step(
                BridgeInput::App(
                    AppServerEvent::ServerNotification {
                        notification: ServerNotification::TurnStarted { thread_id, turn_id },
                        requires_delivery,
                    },
                ),
            );
            let retained = state.controller.pending_immediate;
            &&& actions == seq![next_steer(state, turn_id@, retained[0].text)]
            &&& after.session.active_turn_id == Some(turn_id@)
            &&& after.controller.turn_state == (TurnStateView::Running { turn_id: turn_id@ })
            &&& after.controller.pending_immediate == retained.skip(1)
        }),
{
    let retained = state.controller.pending_immediate;
    assert(retained.skip(1) =~= retained.drop_first());
    assert forall|decision: DecisionView|
        #[trigger] state.decisions.push(decision).drop_first() =~= state.decisions
            && state.decisions.push(decision).first() == decision by {}
}

/// Raw items, closed threads and other notifications do nothing, and neither
/// does a warning that events were dropped.
pub proof fn other_notifications_do_nothing(
    state: BridgeView,
    notification: ServerNotification,
    requires_delivery: bool,
    skipped: usize,
)
    requires
        quiet(state),
        !state.stdin_closed,
        notification is RawResponseItemCompleted || notification is ThreadClosed || notification
            is Other,
    ensures
        state.step(
            BridgeInput::App(AppServerEvent::ServerNotification { notification, requires_delivery }),
        ) == (state, Seq::<BridgeActionView>::empty()),
        state.step(BridgeInput::App(AppServerEvent::Lagged { skipped })) == (
            state,
            Seq::<BridgeActionView>::empty(),
        ),
{
}

/// A message that finds the thread idle starts a turn with its text.
pub proof fn a_message_starts_an_idle_thread(state: BridgeView, message: ParsedMessage)
    requires
        quiet(state),
        state.controller.turn_state is Idle,
    ensures
        ({
            let (after, actions) = state.step(BridgeInput::Chunk(message));
            &&& actions == seq![next_start(state, message@.text)]
            &&& after.in_flight == Some(InFlightView::TurnStart)
            &&& after.pending_start == Some(
                "turn-start-"@ + text::decimal_int(state.next_request_id),
            )
            &&& after.controller.turn_state == (TurnStateView::TurnStartPending {
                reserved_turn_id: None,
            })
            &&& after.next_request_id == state.next_request_id + 1
        }),
{
    let decision = DecisionView {
        action: ActionView::StartTurn,
        reason: ReleaseReason::Idle,
        message: message@,
    };
    assert(state.decisions.push(decision).drop_first() =~= state.decisions);
    assert(state.decisions.push(decision).first() == decision);
}

/// While a turn runs, an immediate message is steered into it at once, and any
/// other is not sent: it goes to the end of the queue of its mode.
pub proof fn a_message_joins_or_waits(state: BridgeView, turn_id: Seq<char>, message: ParsedMessage)
    requires
        quiet(state),
        state.controller.turn_state == (TurnStateView::Running { turn_id }),
        state.controller.pending_steer_turn_id is None,
    ensures
        ({
            let (after, actions) = state.step(BridgeInput::Chunk(message));
            let text = message@.text;
            match message@.queue_mode {
                QueueMode::Immediate => actions == seq![next_steer(state, turn_id, text)],
                QueueMode::Default | QueueMode::AfterToolCall => {
                    &&& actions.len() == 0
                    &&& after.controller.after_tool_call == state.controller.after_tool_call.push(
                        MessageView { queue_mode: QueueMode::AfterToolCall, text },
                    )
                },
                QueueMode::AfterAnyItem => {
                    &&& actions.len() == 0
                    &&& after.controller.after_any_item == state.controller.after_any_item.push(
                        MessageView { queue_mode: QueueMode::AfterAnyItem, text },
                    )
                },
                QueueMode::NextTurn => {
                    &&& actions.len() == 0
                    &&& after.controller.next_turn == state.controller.next_turn.push(
                        MessageView { queue_mode: QueueMode::NextTurn, text },
                    )
                },
            }
        }),
{
    if message@.queue_mode == QueueMode::Immediate {
        let decision = DecisionView {
            action: ActionView::SteerTurn { turn_id },
            reason: ReleaseReason::Immediate,
            message: message@,
        };
        assert(state.decisions.push(decision).drop_first() =~= state.decisions);
        assert(state.decisions.push(decision).first() == decision);
    } else {
        release_laws::arrivals_wait_behind_earlier_ones(state.controller, message@);
    }
}

/// A raw chunk without the prefix that names a queue mode is sent nowhere while
/// a turn runs: the whole of it waits for a tool call, behind what waits
/// already.
pub proof fn a_plain_chunk_waits_for_a_tool_call(
    state: BridgeView,
    turn_id: Seq<char>,
    input: Seq<char>,
    message: ParsedMessage,
)
    requires
        quiet(state),
        state.controller.turn_state == (TurnStateView::Running { turn_id }),
        state.controller.pending_steer_turn_id is None,
        !"CODEX_QUEUE_MODE="@.is_prefix_of(input),
        message@ == message::prefixed_message(input),
    ensures
        message@ == (MessageView { queue_mode: QueueMode::Default, text: input }),
        ({
            let (after, actions) = state.step(BridgeInput::Chunk(message));
            &&& actions.len() == 0
            &&& after.in_flight is None
            &&& after.controller.pending_steer_turn_id is None
            &&& after.controller.after_tool_call == state.controller.after_tool_call.push(
                MessageView { queue_mode: QueueMode::AfterToolCall, text: input },
            )
        }),
{
    a_message_joins_or_waits(state, turn_id, message);
    release_laws::arrivals_wait_behind_earlier_ones(state.controller, message@);
}

/// An accepted turn start is over as a request, and its turn runs; the oldest
/// message that was retained meanwhile is steered into it.
pub proof fn an_accepted_start_is_followed_up(state: BridgeView, turn_id: String)
    requires
        state.stage is Running,
        state.in_flight == Some(InFlightView::TurnStart),
        state.decisions.len() == 0,
        state.controller.validation_error is None,
        state.controller.turn_state == (TurnStateView::TurnStartPending { reserved_turn_id: None }),
        state.controller.pending_turn_completed_id is None,
        state.controller.steer_pending.len() == 0,
    ensures
        ({
            let (after, actions) = state.step(BridgeInput::Answered(Ok(turn_id)));
            let retained = state.controller.pending_immediate;
            &&& after.pending_start is None
            &&& after.stage is Running
            &&& after.controller.turn_state == (TurnStateView::Running { turn_id: turn_id@ })
            &&& if retained.len() == 0 {
                actions.len() == 0 && after.in_flight is None
            } else {
                &&& actions == seq![next_steer(state, turn_id@, retained[0].text)]
                &&& after.controller.pending_immediate == retained.skip(1)
            }
        }),
{
    let controller = state.controller;
    let retained = controller.pending_immediate;
    if retained.len() > 0 {
        assert(retained =~= seq![retained[0]] + retained.skip(1));
        release_laws::retained_immediates_are_steered_oldest_first(
            controller,
            turn_id@,
            retained[0],
            retained.skip(1),
        );
    } else {
        release_laws::an_accepted_start_runs_its_turn(controller, turn_id@);
    }
    assert forall|decision: DecisionView|
        #[trigger] state.decisions.push(decision).drop_first() =~= state.decisions
            && state.decisions.push(decision).first() == decision by {}
}

/// An accepted steer is over as a request; with nothing behind it, the turn
/// just runs on.
pub proof fn an_accepted_steer_is_over(state: BridgeView, turn_id: String, message: MessageView)
    requires
        state.stage is Running,
        state.in_flight == Some(InFlightView::TurnSteer { message }),
        state.decisions.len() == 0,
        state.controller.validation_error is None,
        state.controller.turn_state == (TurnStateView::Running { turn_id: turn_id@ }),
        state.controller.pending_steer_turn_id == Some(turn_id@),
        state.controller.pending_turn_completed_id is None,
        state.controller.steer_pending.len() == 0,
        state.controller.pending_immediate.len() == 0,
    ensures
        state.step(BridgeInput::Answered(Ok(turn_id))) == (
            BridgeView {
                in_flight: None,
                controller: ControllerView { pending_steer_turn_id: None, ..state.controller },
                ..state
            },
            Seq::<BridgeActionView>::empty(),
        ),
{
    assert(state.controller.steer_pending =~= Seq::empty());
}

/// Whether a text holds one of the words for a turn that cannot be steered.
pub open spec fn names_a_closed_turn(failure: Seq<char>) -> bool {
    exists|before: Seq<char>, behind: Seq<char>, word: Seq<char>|
        failure == #[trigger] (before + word + behind) && (word == "ActiveTurnNotSteerable"@ || word
            == "cannot accept same-turn steering"@ || word == "cannot steer a review turn"@ || word
            == "cannot steer a compact turn"@)
}

/// Whether a text holds one of the words for a turn that is over or another one.
pub open spec fn names_a_passed_turn(failure: Seq<char>) -> bool {
    exists|before: Seq<char>, behind: Seq<char>, word: Seq<char>|
        failure == #[trigger] (before + word + behind) && (word == "expected_turn_id"@ || word
            == "expected turn"@ || word == "expected active turn id"@ || word
            == "no active turn to steer"@ || word == "stale"@ || word == "turn completed"@)
}

proof fn lemma_word(failure: Seq<char>, word: Seq<char>)
    ensures
        text::holds(failure, word) <==> exists|before: Seq<char>, behind: Seq<char>|
            failure == #[trigger] (before + word + behind),
{
    if text::holds(failure, word) {
        let pieces = text_laws::what_a_text_holds_is_a_piece_of_it(failure, word);
        assert(failure == pieces.0 + word + pieces.1);
    }
    if exists|before: Seq<char>, behind: Seq<char>| failure == #[trigger] (before + word + behind) {
        let (before, behind) = choose|before: Seq<char>, behind: Seq<char>|
            failure == #[trigger] (before + word + behind);
        text_laws::a_text_holds_its_pieces(before, word, behind);
    }
}

/// A failure says that the turn cannot be steered exactly where it holds one of
/// four phrases, wherever in it that stands; it says that a steer came too early
/// or too late where it holds one of those or of six more.
pub proof fn failures_are_told_by_their_words(failure: Seq<char>)
    ensures
        bridge::says_not_steerable(failure) <==> names_a_closed_turn(failure),
        bridge::says_stale(failure) <==> names_a_closed_turn(failure) || names_a_passed_turn(
            failure,
        ),
{
    lemma_word(failure, "ActiveTurnNotSteerable"@);
    lemma_word(failure, "cannot accept same-turn steering"@);
    lemma_word(failure, "cannot steer a review turn"@);
    lemma_word(failure, "cannot steer a compact turn"@);
    lemma_word(failure, "expected_turn_id"@);
    lemma_word(failure, "expected turn"@);
    lemma_word(failure, "expected active turn id"@);
    lemma_word(failure, "no active turn to steer"@);
    lemma_word(failure, "stale"@);
    lemma_word(failure, "turn completed"@);
}

/// A turn start that fails because a turn runs that cannot be steered is no
/// failure of the bridge: its text waits first for the next turn. Any other
/// failure ends the bridge, with the cause.
pub proof fn a_failed_start_waits_or_ends_the_bridge(
    state: BridgeView,
    message: MessageView,
    failure: String,
)
    requires
        state.stage is Running,
        state.in_flight == Some(InFlightView::TurnStart),
        state.decisions.len() == 0,
        state.controller.validation_error is None,
        state.controller.turn_state == (TurnStateView::TurnStartPending { reserved_turn_id: None }),
        state.controller.pending_turn_message == Some(message),
        state.controller.pending_turn_completed_id is None,
        state.controller.pending_immediate.len() == 0,
    ensures
        ({
            let (after, actions) = state.step(BridgeInput::Answered(Err(failure)));
            &&& after.pending_start is None
            &&& after.in_flight is None
            &&& if names_a_closed_turn(failure@) {
                &&& actions.len() == 0
                &&& after.stage is Running
                &&& after.controller.turn_state is BusyUnknownTurn
                &&& after.controller.next_turn == seq![
                    MessageView { queue_mode: QueueMode::NextTurn, text: message.text },
                ] + state.controller.next_turn
            } else {
                &&& after.stage is Ended
                &&& actions == seq![
                    BridgeActionView::Fail(
                        BridgeErrorView {
                            message: "turn/start failed"@,
                            cause: Some(failure@),
                        },
                    ),
                ]
            }
        }),
{
    failures_are_told_by_their_words(failure@);
    release_laws::a_refused_start_comes_first_next_time(state.controller, message);
}

/// A steer that fails because its turn cannot be steered, is over or is another
/// one is no failure of the bridge: its text waits for the next turn, behind the
/// others. Any other failure ends the bridge, with the cause.
pub proof fn a_failed_steer_waits_or_ends_the_bridge(
    state: BridgeView,
    turn_id: Seq<char>,
    message: MessageView,
    failure: String,
)
    requires
        state.stage is Running,
        state.in_flight == Some(InFlightView::TurnSteer { message }),
        state.decisions.len() == 0,
        state.controller.validation_error is None,
        state.controller.turn_state == (TurnStateView::Running { turn_id }),
        state.controller.pending_steer_turn_id == Some(turn_id),
        state.controller.pending_turn_completed_id is None,
        state.controller.pending_immediate.len() == 0,
        state.controller.steer_pending.len() == 0,
    ensures
        ({
            let (after, actions) = state.step(BridgeInput::Answered(Err(failure)));
            &&& after.in_flight is None
            &&& if names_a_closed_turn(failure@) || names_a_passed_turn(failure@) {
                &&& actions.len() == 0
                &&& after.stage is Running
                &&& after.controller.pending_steer_turn_id is None
                &&& after.controller.next_turn == state.controller.next_turn.push(
                    MessageView { queue_mode: QueueMode::NextTurn, text: message.text },
                )
            } else {
                &&& after.stage is Ended
                &&& actions == seq![
                    BridgeActionView::Fail(
                        BridgeErrorView {
                            message: "turn/steer failed"@,
                            cause: Some(failure@),
                        },
                    ),
                ]
            }
        }),
{
    failures_are_told_by_their_words(failure@);
    release_laws::a_refused_steer_waits_for_the_next_turn(state.controller, turn_id, message);
}

/// Decisions are carried out one after the other in the order in which they were
/// made: while a request is unanswered a new one waits behind the others, and
/// when the answer comes the oldest is sent.
pub proof fn decisions_are_carried_out_in_order(
    state: BridgeView,
    oldest: DecisionView,
    others: Seq<DecisionView>,
    decision: DecisionView,
)
    requires
        state.decisions == seq![oldest] + others,
        state.stage is Running,
        state.controller.validation_error is None,
    ensures
        state.queued(Some(decision)).decisions == seq![oldest] + others + seq![decision],
        state.in_flight is Some ==> state.checked().0.decisions == state.decisions
            && state.checked().1.len() == 0,
        state.in_flight is None ==> {
            let (after, actions) = state.checked();
            &&& after.decisions == others
            &&& actions == seq![
                match oldest.action {
                    ActionView::StartTurn => next_start(state, oldest.message.text),
                    ActionView::SteerTurn { turn_id } => next_steer(
                        state,
                        turn_id,
                        oldest.message.text,
                    ),
                },
            ]
        },
{
    assert(state.decisions.drop_first() =~= others);
    assert(state.decisions.first() == oldest);
    assert(state.decisions.push(decision) =~= seq![oldest] + others + seq![decision]);
}

/// A contradiction that the controller has found ends the bridge with that
/// message, and is then no longer held.
pub proof fn a_contradiction_ends_the_bridge(state: BridgeView, message: Seq<char>)
    requires
        state.stage is Running,
        state.controller.validation_error == Some(message),
    ensures
        ({
            let (after, actions) = state.checked();
            &&& after.stage is Ended
            &&& after.controller.validation_error is None
            &&& actions == seq![
                BridgeActionView::Fail(BridgeErrorView { message, cause: None }),
            ]
        }),
{
}

/// Input that fails, a server that goes away and an answer that is lost end the
/// bridge, with what is known of it. A server that has said all shuts it down.
pub proof fn a_lost_side_ends_the_bridge(state: BridgeView, message: String)
    requires
        state.stage is Running,
    ensures
        ({
            let (failed, failure) = state.step(BridgeInput::InputFailed { message });
            let (gone, going) = state.step(
                BridgeInput::App(AppServerEvent::Disconnected { message }),
            );
            let (lost, losing) = state.step(BridgeInput::AnswerLost);
            let (closed, closing) = state.step(BridgeInput::AppClosed);
            &&& failed.stage is Ended && gone.stage is Ended && lost.stage is Ended && closed.stage
                is Ended
            &&& failure == seq![
                BridgeActionView::Fail(BridgeErrorView { message: message@, cause: None }),
            ]
            &&& going == seq![
                BridgeActionView::Fail(
                    BridgeErrorView {
                        message: "app-server disconnected: "@ + message@,
                        cause: None,
                    },
                ),
            ]
            &&& losing == seq![
                BridgeActionView::Fail(
                    BridgeErrorView {
                        message: "pending request task dropped before returning a response"@,
                        cause: None,
                    },
                ),
            ]
            &&& closing == seq![BridgeActionView::ShutDown]
        }),
{
}

/// The end of the input ends the bridge exactly where nothing is left to do: no
/// request or start is unanswered, no turn runs or is awaited, and no message
/// waits.
pub proof fn the_end_of_the_input_ends_an_idle_bridge(state: BridgeView)
    requires
        state.stage is Running,
        state.decisions.len() == 0,
    ensures
        ({
            let (after, actions) = state.step(BridgeInput::ChunksClosed);
            let held = state.controller;
            &&& after.stdin_closed
            &&& if state.in_flight is None && state.pending_start is None && held.turn_state is Idle
                && held.pending_turn_message is None && held.after_tool_call.len() == 0
                && held.after_any_item.len() == 0 && held.next_turn.len() == 0 {
                actions == seq![BridgeActionView::ShutDown] && after.stage is Ended
            } else {
                actions.len() == 0 && after.stage is Running
            }
        }),
{
}

/// A request of the server that can be answered is told before anything else
/// happens, and then waits for its response.
pub proof fn a_request_is_told_and_waits(
    state: BridgeView,
    request: ManagedView,
    method: Seq<char>,
    failure: String,
)
    requires
        state.stage == (BridgeStageView::Telling { request, method }),
        state.in_flight is Some,
        state.controller.validation_error is None,
        forall|i: int|
            0 <= i < state.requests.len() ==> (#[trigger] state.requests[i]).request_id@
                != request.request_id@,
    ensures
        ({
            let (told, telling) = state.step(BridgeInput::Told(Ok(())));
            let (failed, failing) = state.step(BridgeInput::Told(Err(failure)));
            let unanswerable = "turn-start bridge received interactive server request `"@ + method
                + "` but no sideband response fd is configured"@;
            &&& state.response_available ==> {
                &&& telling.len() == 0
                &&& told.stage is Running
                &&& told.requests.len() == state.requests.len() + 1
                &&& told.requests.contains(request)
            }
            &&& !state.response_available ==> {
                &&& told.stage is Ended
                &&& telling == seq![
                    BridgeActionView::Reject {
                        request_id: request.request_id@,
                        error: ErrorView { code: -32601, message: unanswerable, data: None },
                        context: "reject supported request without sideband response lane"@,
                    },
                    BridgeActionView::Fail(
                        BridgeErrorView { message: unanswerable, cause: None },
                    ),
                ]
            }
            &&& failed.stage is Ended
            &&& failing.len() == 2
            &&& failing[0] matches BridgeActionView::Reject { request_id, error, context }
            &&& request_id == request.request_id@
            &&& error.code == -32000
            &&& error.message == "turn-start bridge failed to emit sideband event for `"@
                + request.kind.request_name() + "`: "@ + failure@
            &&& failing[1] == BridgeActionView::Fail(
                BridgeErrorView {
                    message: "write sideband server-request event"@,
                    cause: Some(failure@),
                },
            )
        }),
{
    let (told, telling) = state.step(BridgeInput::Told(Ok(())));
    if state.response_available {
        let requests = state.requests;
        channel_laws::requests_wait_in_order(requests, request, requests.len() as int);
        assert(told.requests[requests.len() as int] == request);
    } else {
        let unanswerable = "turn-start bridge received interactive server request `"@ + method
            + "` but no sideband response fd is configured"@;
        assert(telling =~= seq![
            BridgeActionView::Reject {
                request_id: request.request_id@,
                error: ErrorView { code: -32601, message: unanswerable, data: None },
                context: "reject supported request without sideband response lane"@,
            },
            BridgeActionView::Fail(BridgeErrorView { message: unanswerable, cause: None }),
        ]);
    }
}
/// A response to a request that waits is applied as that request takes it; one
/// that is no answer, or that no request waits for, is only warned of, and so is
/// a line that is no response.
pub proof fn a_response_is_applied_or_warned_of(
    state: BridgeView,
    response: SidebandResponseEnvelope,
    message: String,
    at: int,
)
    requires
        quiet(state),
        !state.stdin_closed,
        0 <= at <= state.requests.len(),
        forall|i: int|
            0 <= i < at ==> (#[trigger] state.requests[i]).request_id@ != response.request_id@,
    ensures
        ({
            let (after, actions) = state.step(
                BridgeInput::Response(SidebandResponseEvent::Response(response)),
            );
            let request_id = response.request_id@;
            &&& after.stage is Running
            &&& at == state.requests.len() ==> after == state && actions == seq![
                BridgeActionView::Warn(
                    "turn-start bridge ignoring sideband response for unknown request id `"@
                        + request_id.shown() + "`"@,
                ),
            ]
            &&& at < state.requests.len() && state.requests[at].request_id@ == request_id
                ==> match state.requests[at].kind.answered(response) {
                Ok(resolution) => {
                    &&& after.requests == state.requests.take(at) + state.requests.skip(at + 1)
                    &&& actions == seq![
                        BridgeActionView::Apply {
                            request_id,
                            resolution,
                            context: "apply sideband server-request resolution"@,
                        },
                    ]
                },
                Err(reason) => after == state && actions == seq![
                    BridgeActionView::Warn(
                        "turn-start bridge ignoring invalid sideband response for request id `"@
                            + request_id.shown() + "`: "@ + reason,
                    ),
                ],
            }
        }),
        state.step(BridgeInput::Response(SidebandResponseEvent::ParseError(message))) == (
            state,
            seq![BridgeActionView::Warn(message@)],
        ),
{
    channel_laws::a_response_meets_its_request(state.requests, response, at);
    let actions = state.step(BridgeInput::Response(SidebandResponseEvent::Response(response))).1;
    assert(actions =~= seq![actions[0]]);
    let warned = state.step(
        BridgeInput::Response(SidebandResponseEvent::ParseError(message)),
    ).1;
    assert(warned =~= seq![BridgeActionView::Warn(message@)]);
}

/// A response lane that fails, or that closes while requests wait, gives every
/// request that waits its fallback answer and ends the bridge; one that closes
/// while none waits only means that no response can come any more.
pub proof fn a_lost_response_lane_leaves_no_request(state: BridgeView, message: String, at: int)
    requires
        quiet(state),
        !state.stdin_closed,
        0 <= at < state.requests.len(),
    ensures
        ({
            let (failed, failing) = state.step(
                BridgeInput::Response(SidebandResponseEvent::ReadError(message)),
            );
            let bare = BridgeView { requests: Seq::empty(), ..state };
            let (closed, closing) = bare.step(BridgeInput::Response(SidebandResponseEvent::Closed));
            &&& failed.stage is Ended
            &&& failed.requests.len() == 0
            &&& failing.len() == state.requests.len() + 1
            &&& failing[at] == (BridgeActionView::Apply {
                request_id: state.requests[at].request_id@,
                resolution: state.requests[at].kind.fallback(),
                context: "apply fallback resolution after `"@ + message@ + "`"@,
            })
            &&& failing.last() == BridgeActionView::Fail(
                BridgeErrorView { message: message@, cause: None },
            )
            &&& closed == (BridgeView { response_available: false, ..bare })
            &&& closing.len() == 0
        }),
{
}

/// A request that the side channel cannot answer is refused as unsupported, with
/// its method, and ends the bridge; one that it can answer is told at once, and
/// nothing else happens before.
pub proof fn requests_are_told_or_refused(state: BridgeView, request: ServerRequest)
    requires
        state.stage is Running,
    ensures
        ({
            let (after, actions) = state.step(
                BridgeInput::App(AppServerEvent::ServerRequest(request)),
            );
            let method = bridge::method_name(request);
            let unsupported = "turn-start bridge does not support interactive server request `"@
                + method + "`"@;
            if request.body is Other {
                &&& after.stage is Ended
                &&& actions == seq![
                    BridgeActionView::Reject {
                        request_id: request.request_id@,
                        error: ErrorView { code: -32601, message: unsupported, data: None },
                        context: "reject unsupported app-server request"@,
                    },
                    BridgeActionView::Fail(BridgeErrorView { message: unsupported, cause: None }),
                ]
            } else {
                &&& actions == seq![BridgeActionView::Tell]
                &&& after == (BridgeView {
                    stage: BridgeStageView::Telling {
                        request: sideband::managed(request)->0,
                        method,
                    },
                    ..state
                })
            }
        }),
{
    channel_laws::requests_are_taken_as_they_are(request);
    if request.body is Other {
        let actions = state.step(BridgeInput::App(AppServerEvent::ServerRequest(request))).1;
        assert(actions =~= seq![actions[0], actions[1]]);
    }
}

/// The method of a request is the one that its JSON names; without one it is not
/// known.
pub proof fn a_method_is_read_from_the_request(request: ServerRequest, method: Seq<char>)
    ensures
        request.json is None ==> bridge::method_name(request) == "<unknown>"@,
        request.json matches Some(json) ==> {
            &&& bridge::json_text(json@, "method"@) == Some(method) ==> bridge::method_name(request)
                == method
            &&& bridge::json_text(json@, "method"@) is None ==> bridge::method_name(request)
                == "<unknown>"@
        },
{
}

/// A controller that is told of its thread waits for the turn that is under way,
/// knows that it is busy where no such turn is known, and stays as it is where
/// the thread is not active.
pub proof fn a_restored_controller_knows_its_turn(thread: Thread)
    ensures
        ({
            let fresh = ControllerView::fresh(thread.id@);
            let controller = bridge::restored(fresh, thread);
            &&& thread.status != ThreadStatus::Active ==> controller == fresh
            &&& thread.status == ThreadStatus::Active
                ==> match protocol::last_in_progress(thread.turns@) {
                Some(turn_id) => controller == (ControllerView {
                    turn_state: TurnStateView::Running { turn_id },
                    ..fresh
                }),
                None => controller == (ControllerView {
                    turn_state: TurnStateView::BusyUnknownTurn,
                    ..fresh
                }),
            }
        }),
{
}

/// A session notes the turn that its thread has started, and forgets it when
/// that turn ends, but not when another one does.
pub proof fn a_session_notes_its_turn(
    session: SessionView,
    turn_id: Seq<char>,
    other: Seq<char>,
)
    requires
        turn_id != other,
    ensures
        ({
            let started = session.turn_started(session.thread_id, turn_id);
            &&& started == (SessionView {
                thread_id: session.thread_id,
                active_turn_id: Some(turn_id),
            })
            &&& started.turn_completed(session.thread_id, other) == started
            &&& started.turn_completed(session.thread_id, turn_id) == (SessionView {
                thread_id: session.thread_id,
                active_turn_id: None,
            })
        }),
{
}

/// What starts and ends on the thread is noted by the session and handed to the
/// controller, with the same thread and turn.
pub proof fn notifications_reach_session_and_controller(
    session: SessionView,
    controller: ControllerView,
    thread_id: String,
    turn_id: String,
    item: ThreadItem,
)
    ensures
        ({
            let (t, u) = (thread_id@, turn_id@);
            let started = bridge::notified(
                session,
                controller,
                ServerNotification::TurnStarted { thread_id, turn_id },
            );
            let completed = bridge::notified(
                session,
                controller,
                ServerNotification::TurnCompleted { thread_id, turn_id },
            );
            let called = bridge::notified(
                session,
                controller,
                ServerNotification::TerminalInteraction { thread_id, turn_id },
            );
            let done = bridge::notified(
                session,
                controller,
                ServerNotification::ItemCompleted { thread_id, turn_id, item },
            );
            let signal = if item is UserMessage || item is HookPrompt {
                CompletionSignal::Ignore
            } else {
                CompletionSignal::ReleasesAfterAnyItem
            };
            &&& started.0 == session.turn_started(t, u)
            &&& (started.1, started.2) == controller.step(
                EventView::TurnStarted { thread_id: t, turn_id: u },
            )
            &&& completed.0 == session.turn_completed(t, u)
            &&& (completed.1, completed.2) == controller.step(
                EventView::TurnCompleted { thread_id: t, turn_id: u },
            )
            &&& called.0 == session
            &&& (called.1, called.2) == controller.step(
                EventView::TerminalInteraction { thread_id: t, turn_id: u },
            )
            &&& done.0 == session
            &&& (done.1, done.2) == controller.step(
                EventView::ItemCompleted { thread_id: t, turn_id: u, signal },
            )
        }),
{
}

/// While a request is unanswered nothing is sent: what a message or a
/// notification releases waits behind the decisions that were made before, and
/// the controller has moved on.
pub proof fn releases_wait_for_the_answer(
    state: BridgeView,
    message: ParsedMessage,
    thread_id: String,
    turn_id: String,
    item: ThreadItem,
    requires_delivery: bool,
)
    requires
        state.stage is Running,
        state.in_flight is Some,
        state.controller.validation_error is None,
        !(item is UserMessage),
        !(item is HookPrompt),
    ensures
        ({
            let arrived = state.controller.step(EventView::MessageReceived(message@));
            let done = state.controller.step(
                EventView::ItemCompleted {
                    thread_id: thread_id@,
                    turn_id: turn_id@,
                    signal: CompletionSignal::ReleasesAfterAnyItem,
                },
            );
            &&& state.step(BridgeInput::Chunk(message)) == (
                BridgeView {
                    controller: arrived.0,
                    decisions: match arrived.1 {
                        Some(decision) => state.decisions.push(decision),
                        None => state.decisions,
                    },
                    ..state
                },
                Seq::<BridgeActionView>::empty(),
            )
            &&& state.step(
                BridgeInput::App(
                    AppServerEvent::ServerNotification {
                        notification: ServerNotification::ItemCompleted { thread_id, turn_id, item },
                        requires_delivery,
                    },
                ),
            ) == (
                BridgeView {
                    controller: done.0,
                    decisions: match done.1 {
                        Some(decision) => state.decisions.push(decision),
                        None => state.decisions,
                    },
                    ..state
                },
                Seq::<BridgeActionView>::empty(),
            )
        }),
{
    if message@.queue_mode != QueueMode::Immediate && !(state.controller.turn_state is Idle)
        && state.controller.pending_steer_turn_id is None {
        release_laws::arrivals_wait_behind_earlier_ones(state.controller, message@);
    }
}

/// When an answer comes while decisions wait, the oldest is sent, and what the
/// answer itself releases waits behind the others.
pub proof fn an_answer_sends_the_oldest_decision(
    state: BridgeView,
    turn_id: String,
    oldest: DecisionView,
    others: Seq<DecisionView>,
)
    requires
        state.stage is Running,
        state.in_flight == Some(InFlightView::TurnStart),
        state.decisions == seq![oldest] + others,
        state.controller.step(
            EventView::TurnStartAcceptedWithTurnId { turn_id: turn_id@ },
        ).0.validation_error is None,
    ensures
        ({
            let (after, actions) = state.step(BridgeInput::Answered(Ok(turn_id)));
            let released = state.controller.step(
                EventView::TurnStartAcceptedWithTurnId { turn_id: turn_id@ },
            ).1;
            &&& actions == seq![
                match oldest.action {
                    ActionView::StartTurn => next_start(state, oldest.message.text),
                    ActionView::SteerTurn { turn_id } => next_steer(
                        state,
                        turn_id,
                        oldest.message.text,
                    ),
                },
            ]
            &&& after.decisions == match released {
                Some(decision) => others.push(decision),
                None => others,
            }
        }),
{
    let released = state.controller.step(
        EventView::TurnStartAcceptedWithTurnId { turn_id: turn_id@ },
    ).1;
    if let Some(decision) = released {
        assert(state.decisions.push(decision).drop_first() =~= others.push(decision));
        assert(state.decisions.push(decision).first() == oldest);
    } else {
        assert(state.decisions.drop_first() =~= others);
        assert(state.decisions.first() == oldest);
    }
}

/// A server that names another turn than the one that runs ends the bridge, with
/// both names in the report.
pub proof fn a_contradicted_turn_ends_the_bridge(
    state: BridgeView,
    thread_id: String,
    turn_id: String,
    running: Seq<char>,
    requires_delivery: bool,
)
    requires
        state.stage is Running,
        state.controller.thread_id == thread_id@,
        state.controller.turn_state == (TurnStateView::Running { turn_id: running }),
        running != turn_id@,
    ensures
        ({
            let (after, actions) = state.step(
                BridgeInput::App(
                    AppServerEvent::ServerNotification {
                        notification: ServerNotification::TurnStarted { thread_id, turn_id },
                        requires_delivery,
                    },
                ),
            );
            &&& after.stage is Ended
            &&& actions == seq![
                BridgeActionView::Fail(
                    BridgeErrorView {
                        message: "turn/started turn id `"@ + turn_id@
                            + "` did not match active turn id `"@ + running + "`"@,
                        cause: None,
                    },
                ),
            ]
        }),
{
    release_laws::contradictions_are_reported(state.controller, turn_id@, running);
}

/// The end of the last turn ends the bridge where the input has ended and
/// nothing waits.
pub proof fn the_last_turn_ends_the_bridge(
    state: BridgeView,
    thread_id: String,
    turn_id: String,
    requires_delivery: bool,
)
    requires
        quiet(state),
        state.stdin_closed,
        state.pending_start is None,
        state.controller.thread_id == thread_id@,
        state.controller.turn_state == (TurnStateView::Running { turn_id: turn_id@ }),
        state.controller.pending_turn_message is None,
        state.controller.pending_steer_turn_id is None,
        state.controller.steer_pending.len() == 0,
        state.controller.pending_immediate.len() == 0,
        state.controller.after_tool_call.len() == 0,
        state.controller.after_any_item.len() == 0,
    ensures
        ({
            let (after, actions) = state.step(
                BridgeInput::App(
                    AppServerEvent::ServerNotification {
                        notification: ServerNotification::TurnCompleted { thread_id, turn_id },
                        requires_delivery,
                    },
                ),
            );
            if state.controller.next_turn.len() == 0 {
                actions == seq![BridgeActionView::ShutDown] && after.stage is Ended
            } else {
                actions == seq![next_start(state, state.controller.next_turn[0].text)]
                    && after.stage is Running
            }
        }),
{
    let idle = ControllerView {
        turn_state: TurnStateView::Idle,
        ..state.controller.downgraded()
    };
    assert(idle.steer_pending =~= Seq::empty());
    assert(idle.next_turn =~= state.controller.next_turn);
    controller_model::lemma_buffered_nothing(idle);
    assert forall|decision: DecisionView|
        #[trigger] state.decisions.push(decision).drop_first() =~= state.decisions
            && state.decisions.push(decision).first() == decision by {}
}

/// What came of a request reaches the controller in the same way wherever it is
/// taken in: an accepted start and an accepted steer with their turn, and a
/// refused one with its message; any other failure leaves the controller as it
/// is.
pub proof fn outcomes_reach_the_controller(
    controller: ControllerView,
    message: QueuedMessage,
    turn_id: String,
    failure: String,
)
    ensures
        ({
            let started = bridge::outcome_handled(
                controller,
                PendingRequestOutcome::TurnStart { result: Ok(turn_id) },
            );
            let unstarted = bridge::outcome_handled(
                controller,
                PendingRequestOutcome::TurnStart { result: Err(failure) },
            );
            let steered = bridge::outcome_handled(
                controller,
                PendingRequestOutcome::TurnSteer { message, result: Ok(turn_id) },
            );
            let unsteered = bridge::outcome_handled(
                controller,
                PendingRequestOutcome::TurnSteer { message, result: Err(failure) },
            );
            let accepted = controller.step(
                EventView::TurnStartAcceptedWithTurnId { turn_id: turn_id@ },
            );
            let refused = controller.step(EventView::TurnStartRejectedActiveTurnNotSteerable);
            let joined = controller.step(EventView::SteerAccepted { turn_id: turn_id@ });
            let late = controller.step(
                EventView::SteerRejectedActiveTurnNotSteerable { message: message@ },
            );
            &&& started == (accepted.0, Ok::<Option<DecisionView>, BridgeErrorView>(accepted.1))
            &&& steered == (joined.0, Ok::<Option<DecisionView>, BridgeErrorView>(joined.1))
            &&& unstarted == if names_a_closed_turn(failure@) {
                (refused.0, Ok::<Option<DecisionView>, BridgeErrorView>(refused.1))
            } else {
                (
                    controller,
                    Err(
                        BridgeErrorView {
                            message: "turn/start failed"@,
                            cause: Some(failure@),
                        },
                    ),
                )
            }
            &&& unsteered == if names_a_closed_turn(failure@) || names_a_passed_turn(failure@) {
                (late.0, Ok::<Option<DecisionView>, BridgeErrorView>(late.1))
            } else {
                (
                    controller,
                    Err(
                        BridgeErrorView {
                            message: "turn/steer failed"@,
                            cause: Some(failure@),
                        },
                    ),
                )
            }
        }),
{
    failures_are_told_by_their_words(failure@);
}

/// A start that is answered, however it is answered, is no longer pending; the
/// answer to a steer leaves a pending start as it is.
pub proof fn only_its_answer_ends_a_pending_start(
    controller: &mut BridgeController,
    pending: &mut Option<String>,
    outcome: PendingRequestOutcome,
    answered: Result<Option<ReleaseDecision>, BridgeError>,
)
    requires
        call_ensures(
            bridge::handle_pending_request_outcome,
            (controller, pending, outcome),
            answered,
        ),
    ensures
        outcome is TurnStart ==> *final(pending) is None,
        outcome is TurnSteer ==> *final(pending) == *old(pending),
{
}

/// A notification leaves a pending start as it is.
pub proof fn a_notification_ends_no_pending_start(
    session: &mut CodexTurnSession,
    controller: &mut BridgeController,
    pending: &mut Option<String>,
    notification: ServerNotification,
    decision: Option<ReleaseDecision>,
)
    requires
        call_ensures(
            bridge::on_notification,
            (session, controller, pending, notification),
            decision,
        ),
    ensures
        *final(pending) == *old(pending),
{
}

/// Whether a bridge carries on from what it has taken in: a new decision is the
/// last, and where no request is unanswered the oldest decision is sent; else
/// nothing is, but that a bridge whose work is done is shut down.
pub open spec fn carries_on(
    taken: BridgeView,
    decision: Option<DecisionView>,
    after: BridgeView,
    actions: Seq<BridgeActionView>,
) -> bool {
    let all = match decision {
        Some(decision) => taken.decisions.push(decision),
        None => taken.decisions,
    };
    &&& after.controller == taken.controller
    &&& after.session == taken.session
    &&& after.requests == taken.requests
    &&& after.stdin_closed == taken.stdin_closed
    &&& after.response_available == taken.response_available
    &&& if taken.in_flight is None && all.len() > 0 {
        let oldest = all[0];
        &&& after.stage is Running
        &&& after.decisions == all.skip(1)
        &&& after.next_request_id == taken.next_request_id + 1
        &&& match oldest.action {
            ActionView::StartTurn => {
                &&& after.in_flight == Some(InFlightView::TurnStart)
                &&& actions == seq![next_start(taken, oldest.message.text)]
            },
            ActionView::SteerTurn { turn_id } => {
                &&& after.in_flight == Some(InFlightView::TurnSteer { message: oldest.message })
                &&& after.pending_start == taken.pending_start
                &&& actions == seq![next_steer(taken, turn_id, oldest.message.text)]
            },
        }
    } else {
        &&& after.decisions == all
        &&& after.in_flight == taken.in_flight
        &&& after.pending_start == taken.pending_start
        &&& after.next_request_id == taken.next_request_id
        &&& after.stage is Running ==> actions.len() == 0
        &&& !(after.stage is Running) ==> after.stage is Ended && taken.stdin_closed
            && taken.controller.turn_state is Idle && actions == seq![BridgeActionView::ShutDown]
    }
}

proof fn lemma_carries_on(taken: BridgeView, decision: Option<DecisionView>)
    requires
        taken.stage is Running,
        taken.controller.validation_error is None,
    ensures
        ({
            let (after, actions) = taken.queued(decision).checked();
            carries_on(taken, decision, after, actions)
        }),
{
    let all = taken.queued(decision).decisions;
    if all.len() > 0 {
        assert(all.skip(1) =~= all.drop_first());
    }
}

/// Whatever its state, a running bridge takes in a message, a notification and
/// the answer to its request just as its session and its controller do, and
/// carries on with what that releases.
pub proof fn whatever_comes_is_taken_in(
    state: BridgeView,
    message: ParsedMessage,
    notification: ServerNotification,
    requires_delivery: bool,
    turn_id: String,
)
    requires
        state.stage is Running,
    ensures
        ({
            let arrived = state.controller.step(EventView::MessageReceived(message@));
            let (after, actions) = state.step(BridgeInput::Chunk(message));
            arrived.0.validation_error is None ==> carries_on(
                BridgeView { controller: arrived.0, ..state },
                arrived.1,
                after,
                actions,
            )
        }),
        ({
            let (session, controller, decision) = bridge::notified(
                state.session,
                state.controller,
                notification,
            );
            let (after, actions) = state.step(
                BridgeInput::App(
                    AppServerEvent::ServerNotification { notification, requires_delivery },
                ),
            );
            controller.validation_error is None ==> carries_on(
                BridgeView { session, controller, ..state },
                decision,
                after,
                actions,
            )
        }),
        ({
            let started = state.controller.step(
                EventView::TurnStartAcceptedWithTurnId { turn_id: turn_id@ },
            );
            let steered = state.controller.step(EventView::SteerAccepted { turn_id: turn_id@ });
            let (after, actions) = state.step(BridgeInput::Answered(Ok(turn_id)));
            &&& state.in_flight == Some(InFlightView::TurnStart) && started.0.validation_error
                is None ==> carries_on(
                BridgeView {
                    controller: started.0,
                    in_flight: None,
                    pending_start: None,
                    ..state
                },
                started.1,
                after,
                actions,
            )
            &&& state.in_flight is Some && state.in_flight->0 is TurnSteer
                && steered.0.validation_error is None ==> carries_on(
                BridgeView { controller: steered.0, in_flight: None, ..state },
                steered.1,
                after,
                actions,
            )
            &&& state.in_flight is None ==> after == state && actions.len() == 0
        }),
{
    let arrived = state.controller.step(EventView::MessageReceived(message@));
    if arrived.0.validation_error is None {
        lemma_carries_on(BridgeView { controller: arrived.0, ..state }, arrived.1);
    }
    let (session, controller, decision) = bridge::notified(
        state.session,
        state.controller,
        notification,
    );
    if controller.validation_error is None {
        lemma_carries_on(BridgeView { session, controller, ..state }, decision);
    }
    let started = state.controller.step(
        EventView::TurnStartAcceptedWithTurnId { turn_id: turn_id@ },
    );
    if started.0.validation_error is None {
        lemma_carries_on(
            BridgeView { controller: started.0, in_flight: None, pending_start: None, ..state },
            started.1,
        );
    }
    let steered = state.controller.step(EventView::SteerAccepted { turn_id: turn_id@ });
    if steered.0.validation_error is None {
        lemma_carries_on(
            BridgeView { controller: steered.0, in_flight: None, ..state },
            steered.1,
        );
    }
}

/// A bridge also carries on after a response, a line that is none, a request
/// that was told, a warning of dropped events and the end of the input: whatever
/// waits then is sent, and a bridge whose work is done is shut down.
pub proof fn a_bridge_carries_on_after_anything(
    state: BridgeView,
    response: SidebandResponseEnvelope,
    message: String,
    skipped: usize,
)
    requires
        state.controller.validation_error is None,
    ensures
        ({
            let (answered, answering) = state.step(
                BridgeInput::Response(SidebandResponseEvent::Response(response)),
            );
            let (warned, warning) = state.step(
                BridgeInput::Response(SidebandResponseEvent::ParseError(message)),
            );
            let (lagged, lagging) = state.step(
                BridgeInput::App(AppServerEvent::Lagged { skipped }),
            );
            let (closed, closing) = state.step(BridgeInput::ChunksClosed);
            let (told, telling) = state.step(BridgeInput::Told(Ok(())));
            let requests = side_channel::responded(state.requests, response).0;
            &&& state.stage is Running ==> {
                &&& answering.len() > 0
                &&& carries_on(
                    BridgeView { requests, ..state },
                    None,
                    answered,
                    answering.skip(1),
                )
                &&& warning.len() > 0
                &&& carries_on(state, None, warned, warning.skip(1))
                &&& carries_on(state, None, lagged, lagging)
                &&& carries_on(BridgeView { stdin_closed: true, ..state }, None, closed, closing)
            }
            &&& state.stage is Telling && state.response_available ==> carries_on(
                BridgeView {
                    stage: BridgeStageView::Running,
                    requests: side_channel::with_request(state.requests, state.stage->request),
                    ..state
                },
                None,
                told,
                telling,
            )
        }),
{
    if state.stage is Running {
        let requests = side_channel::responded(state.requests, response).0;
        let taken = BridgeView { requests, ..state };
        lemma_carries_on(taken, None);
        lemma_carries_on(state, None);
        lemma_carries_on(BridgeView { stdin_closed: true, ..state }, None);
        let answering = state.step(
            BridgeInput::Response(SidebandResponseEvent::Response(response)),
        ).1;
        let warning = state.step(
            BridgeInput::Response(SidebandResponseEvent::ParseError(message)),
        ).1;
        assert(answering.skip(1) =~= taken.go_on().1);
        assert(warning.skip(1) =~= state.go_on().1);
    } else if state.stage is Telling && state.response_available {
        lemma_carries_on(
            BridgeView {
                stage: BridgeStageView::Running,
                requests: side_channel::with_request(state.requests, state.stage->request),
                ..state
            },
            None,
        );
    }
}


} // verus!
