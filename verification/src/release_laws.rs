//! In which order a controller sends what it holds, and where each message
//! waits until then.

use vstd::prelude::*;

use crate::controller::{CompletionSignal, ReleaseReason};
use crate::controller_model;
use crate::controller_model::{
    ActionView, ControllerView, DecisionView, EventView, MessageView, TurnStateView,
};
use crate::queue_mode::QueueMode;

verus! {

/// Retained immediate messages are steered oldest first. Wherever a turn is
/// found to run with no steer unanswered and nothing behind one, the oldest
/// retained message is steered into that turn, and the others stay as they were:
/// when a turn start is accepted, with or without the turn's identifier, when
/// the start of a reserved turn is refused, when a busy thread tells its turn,
/// and when a steer is accepted.
pub proof fn retained_immediates_are_steered_oldest_first(
    state: ControllerView,
    turn_id: Seq<char>,
    oldest: MessageView,
    others: Seq<MessageView>,
)
    requires
        state.pending_immediate == seq![oldest] + others,
        state.steer_pending.len() == 0,
        state.pending_turn_completed_id is None,
    ensures
        ({
            let thread_id = state.thread_id;
            let steered = Some(
                DecisionView {
                    action: ActionView::SteerTurn { turn_id },
                    reason: ReleaseReason::Immediate,
                    message: oldest,
                },
            );
            let steering = ControllerView {
                turn_state: TurnStateView::Running { turn_id },
                pending_steer_turn_id: Some(turn_id),
                pending_immediate: others,
                ..state
            };
            let started = ControllerView { pending_turn_message: None, ..steering };
            &&& state.turn_state == (TurnStateView::TurnStartPending { reserved_turn_id: None })
                ==> state.step(EventView::TurnStartAcceptedWithTurnId { turn_id }) == (
                started,
                steered,
            )
            &&& state.turn_state == (TurnStateView::TurnStartPending {
                reserved_turn_id: Some(turn_id),
            }) ==> {
                &&& state.step(EventView::TurnStartAcceptedWithTurnId { turn_id }) == (
                    started,
                    steered,
                )
                &&& state.step(EventView::TurnStartAccepted) == (started, steered)
                &&& state.pending_turn_message is None ==> state.step(
                    EventView::TurnStartRejectedActiveTurnNotSteerable,
                ) == (started, steered)
                &&& state.pending_turn_message matches Some(message) ==> state.step(
                    EventView::TurnStartRejectedActiveTurnNotSteerable,
                ) == (
                    ControllerView {
                        next_turn: seq![
                            MessageView { queue_mode: QueueMode::NextTurn, text: message.text },
                        ] + state.next_turn,
                        ..started
                    },
                    steered,
                )
            }
            &&& state.turn_state is BusyUnknownTurn && state.pending_steer_turn_id is None
                ==> state.step(EventView::TurnStarted { thread_id, turn_id }) == (steering, steered)
            &&& state.turn_state == (TurnStateView::Running { turn_id })
                && state.pending_steer_turn_id == Some(turn_id) ==> state.step(
                EventView::SteerAccepted { turn_id },
            ) == (steering, steered)
            &&& state.turn_state == (TurnStateView::Running { turn_id })
                && state.pending_steer_turn_id is None ==> {
                &&& state.release_immediate() == (steering, steered)
                &&& state.resume_running() == (steering, steered)
            }
        }),
{
    assert(state.pending_immediate.drop_first() =~= others);
    assert(state.pending_immediate.first() == oldest);
    assert(state.steer_pending =~= Seq::empty());
    assert((ControllerView { steer_pending: Seq::empty(), ..state }) == state);
}

/// A controller with nothing retained has no immediate message to steer when its
/// turn start is accepted: the turn then simply runs.
pub proof fn an_accepted_start_runs_its_turn(state: ControllerView, turn_id: Seq<char>)
    requires
        state.pending_immediate.len() == 0,
        state.steer_pending.len() == 0,
        state.pending_turn_completed_id != Some(turn_id),
        state.turn_state == (TurnStateView::TurnStartPending { reserved_turn_id: None })
            || state.turn_state == (TurnStateView::TurnStartPending {
            reserved_turn_id: Some(turn_id),
        }),
    ensures
        state.step(EventView::TurnStartAcceptedWithTurnId { turn_id }) == (
            ControllerView {
                turn_state: TurnStateView::Running { turn_id },
                pending_turn_message: None,
                pending_turn_completed_id: None,
                pending_steer_turn_id: None,
                ..state
            },
            None::<DecisionView>,
        ),
{
    assert(state.steer_pending =~= Seq::empty());
}

/// A turn start that is accepted without the turn's identifier is accepted with
/// the identifier that the thread has told; before it has told one, nothing
/// happens.
pub proof fn an_accepted_start_takes_the_reserved_turn(state: ControllerView, turn_id: Seq<char>)
    requires
        state.pending_turn_completed_id is None || state.pending_turn_completed_id == Some(turn_id),
    ensures
        state.turn_state == (TurnStateView::TurnStartPending { reserved_turn_id: Some(turn_id) })
            ==> state.step(EventView::TurnStartAccepted) == state.step(
            EventView::TurnStartAcceptedWithTurnId { turn_id },
        ),
        state.turn_state == (TurnStateView::TurnStartPending { reserved_turn_id: None })
            ==> state.step(EventView::TurnStartAccepted) == (state, None::<DecisionView>),
        !(state.turn_state is TurnStartPending) ==> {
            &&& state.step(EventView::TurnStartAccepted) == (state, None::<DecisionView>)
            &&& state.step(EventView::TurnStartAcceptedWithTurnId { turn_id }) == (
                state,
                None::<DecisionView>,
            )
            &&& state.step(EventView::TurnStartRejectedActiveTurnNotSteerable) == (
                state,
                None::<DecisionView>,
            )
        },
{
}

/// A message that is not immediate and finds a turn under way is sent to nobody:
/// it goes to the end of the queue of its mode, and nothing else changes. One
/// without a mode of its own waits for a tool call.
pub proof fn arrivals_wait_behind_earlier_ones(state: ControllerView, message: MessageView)
    requires
        !(state.turn_state is Idle),
        state.pending_steer_turn_id is None,
        message.queue_mode != QueueMode::Immediate,
    ensures
        ({
            let (after, released) = state.step(EventView::MessageReceived(message));
            let text = message.text;
            &&& released is None
            &&& match message.queue_mode {
                QueueMode::AfterAnyItem => after == (ControllerView {
                    after_any_item: state.after_any_item.push(
                        MessageView { queue_mode: QueueMode::AfterAnyItem, text },
                    ),
                    ..state
                }),
                QueueMode::NextTurn => after == (ControllerView {
                    next_turn: state.next_turn.push(
                        MessageView { queue_mode: QueueMode::NextTurn, text },
                    ),
                    ..state
                }),
                _ => after == (ControllerView {
                    after_tool_call: state.after_tool_call.push(
                        MessageView { queue_mode: QueueMode::AfterToolCall, text },
                    ),
                    ..state
                }),
            }
        }),
{
    controller_model::lemma_waiting_in_single(message);
    let after = state.buffered(seq![message]);
    assert(message.with_mode(message.waiting_mode()).text == message.text);
    if message.queue_mode == QueueMode::AfterAnyItem {
        assert(after.after_tool_call =~= state.after_tool_call);
        assert(after.next_turn =~= state.next_turn);
        assert(after.after_any_item =~= state.after_any_item.push(
            MessageView { queue_mode: QueueMode::AfterAnyItem, text: message.text },
        ));
    } else if message.queue_mode == QueueMode::NextTurn {
        assert(after.after_tool_call =~= state.after_tool_call);
        assert(after.after_any_item =~= state.after_any_item);
        assert(after.next_turn =~= state.next_turn.push(
            MessageView { queue_mode: QueueMode::NextTurn, text: message.text },
        ));
    } else {
        assert(after.after_any_item =~= state.after_any_item);
        assert(after.next_turn =~= state.next_turn);
        assert(after.after_tool_call =~= state.after_tool_call.push(
            MessageView { queue_mode: QueueMode::AfterToolCall, text: message.text },
        ));
    }
}

/// An immediate message is steered into the turn that runs, at once and as it
/// is, unless a steer is unanswered. While no turn is known it is retained
/// behind the others. While a steer is unanswered every message of a running
/// turn waits for the answer, behind what arrived before.
pub proof fn immediate_arrivals_join_the_turn(state: ControllerView, message: MessageView)
    ensures
        ({
            let (after, released) = state.step(EventView::MessageReceived(message));
            &&& message.queue_mode == QueueMode::Immediate ==> {
                &&& state.turn_state is Running && state.pending_steer_turn_id is None ==> after
                    == (ControllerView {
                    pending_steer_turn_id: Some(state.turn_state->turn_id),
                    ..state
                }) && released == Some(
                    DecisionView {
                        action: ActionView::SteerTurn { turn_id: state.turn_state->turn_id },
                        reason: ReleaseReason::Immediate,
                        message,
                    },
                )
                &&& state.turn_state is TurnStartPending || state.turn_state is BusyUnknownTurn
                    ==> released is None && after == (ControllerView {
                    pending_immediate: state.pending_immediate.push(message),
                    ..state
                })
            }
            &&& state.turn_state is Running && state.pending_steer_turn_id is Some
                ==> released is None && after == (ControllerView {
                steer_pending: state.steer_pending.push(message),
                ..state
            })
        }),
{
}

/// A message that finds the thread idle is the one whose turn start is awaited;
/// what else is held stays held.
pub proof fn an_idle_thread_awaits_its_start(state: ControllerView, message: MessageView)
    requires
        state.turn_state is Idle,
    ensures
        state.step(EventView::MessageReceived(message)).0 == (ControllerView {
            turn_state: TurnStateView::TurnStartPending { reserved_turn_id: None },
            pending_turn_message: Some(message),
            pending_turn_completed_id: None,
            pending_steer_turn_id: None,
            ..state
        }),
{
}

/// Two messages of the same mode that arrive while a turn runs are steered into
/// it in the order in which they came, one for each occasion.
pub proof fn first_come_first_steered(
    state: ControllerView,
    turn_id: Seq<char>,
    first: MessageView,
    second: MessageView,
)
    requires
        state.turn_state == (TurnStateView::Running { turn_id }),
        state.pending_steer_turn_id is None,
        state.pending_turn_completed_id is None,
        state.pending_immediate.len() == 0,
        state.steer_pending.len() == 0,
        state.after_tool_call.len() == 0,
        state.after_any_item.len() == 0,
        first.queue_mode == second.queue_mode,
    ensures
        ({
            let thread_id = state.thread_id;
            let waiting = state.step(EventView::MessageReceived(first)).0.step(
                EventView::MessageReceived(second),
            ).0;
            let occasion = if first.queue_mode == QueueMode::AfterAnyItem {
                EventView::ItemCompleted {
                    thread_id,
                    turn_id,
                    signal: CompletionSignal::ReleasesAfterAnyItem,
                }
            } else {
                EventView::TerminalInteraction { thread_id, turn_id }
            };
            let (steering, released) = waiting.step(occasion);
            let (again, later) = steering.step(EventView::SteerAccepted { turn_id }).0.step(
                occasion,
            );
            first.queue_mode != QueueMode::Immediate && first.queue_mode != QueueMode::NextTurn
                ==> {
                &&& released matches Some(decision)
                &&& decision.action == ActionView::SteerTurn { turn_id }
                &&& decision.message.text == first.text
                &&& later matches Some(decision)
                &&& decision.action == ActionView::SteerTurn { turn_id }
                &&& decision.message.text == second.text
            }
        }),
{
    if first.queue_mode != QueueMode::Immediate && first.queue_mode != QueueMode::NextTurn {
        arrivals_wait_behind_earlier_ones(state, first);
        let one = state.step(EventView::MessageReceived(first)).0;
        arrivals_wait_behind_earlier_ones(one, second);
        let two = one.step(EventView::MessageReceived(second)).0;
        assert(two.steer_pending =~= Seq::empty());
    }
}

/// When a turn ends while nothing waits but messages for the next turn, the
/// oldest of them starts the next turn and the others keep their order; retained
/// immediate messages come before all of them, in their own order.
pub proof fn next_turn_messages_keep_their_order(state: ControllerView, turn_id: Seq<char>, i: int)
    requires
        state.turn_state == (TurnStateView::Running { turn_id }),
        state.pending_steer_turn_id is None,
        state.steer_pending.len() == 0,
        state.after_tool_call.len() == 0,
        state.after_any_item.len() == 0,
        0 < i < state.pending_immediate.len() + state.next_turn.len(),
    ensures
        ({
            let retained = state.pending_immediate;
            let (after, released) = state.step(
                EventView::TurnCompleted { thread_id: state.thread_id, turn_id },
            );
            &&& released matches Some(decision)
            &&& decision.action is StartTurn
            &&& decision.reason == ReleaseReason::NextTurn
            &&& decision.message.text == if retained.len() > 0 {
                retained[0].text
            } else {
                state.next_turn[0].text
            }
            &&& decision.message.queue_mode == QueueMode::NextTurn
            &&& after.pending_turn_message == Some(decision.message)
            &&& after.turn_state == (TurnStateView::TurnStartPending { reserved_turn_id: None })
            &&& after.pending_immediate.len() == 0
            &&& after.next_turn.len() == retained.len() + state.next_turn.len() - 1
            &&& after.next_turn[i - 1].text == if i < retained.len() {
                retained[i].text
            } else {
                state.next_turn[i - retained.len()].text
            }
            &&& i < retained.len() ==> after.next_turn[i - 1].queue_mode == QueueMode::NextTurn
        }),
{
    let idle = ControllerView { turn_state: TurnStateView::Idle, ..state.downgraded() };
    assert(idle.steer_pending =~= Seq::empty());
    controller_model::lemma_buffered_nothing(idle);
}

/// When a turn ends while messages wait for a tool call, the oldest of them
/// starts the next turn, as a message of that mode, and all others stay where
/// they wait; failing those, the oldest that waits for any item.
pub proof fn an_ended_turn_takes_the_oldest(state: ControllerView, turn_id: Seq<char>)
    requires
        state.turn_state == (TurnStateView::Running { turn_id }) || state.turn_state
            is BusyUnknownTurn,
        state.pending_steer_turn_id is None,
        state.steer_pending.len() == 0,
        state.pending_immediate.len() == 0,
    ensures
        ({
            let (after, released) = state.step(
                EventView::TurnCompleted { thread_id: state.thread_id, turn_id },
            );
            let started = ControllerView {
                turn_state: TurnStateView::TurnStartPending { reserved_turn_id: None },
                pending_turn_completed_id: None,
                ..state
            };
            if state.after_tool_call.len() > 0 {
                let message = MessageView {
                    queue_mode: QueueMode::AfterToolCall,
                    text: state.after_tool_call[0].text,
                };
                &&& after == (ControllerView {
                    pending_turn_message: Some(message),
                    after_tool_call: state.after_tool_call.skip(1),
                    ..started
                })
                &&& released == Some(
                    DecisionView {
                        action: ActionView::StartTurn,
                        reason: ReleaseReason::AfterToolCall,
                        message,
                    },
                )
            } else if state.after_any_item.len() > 0 {
                &&& after == (ControllerView {
                    pending_turn_message: Some(state.after_any_item[0]),
                    after_any_item: state.after_any_item.skip(1),
                    ..started
                })
                &&& released == Some(
                    DecisionView {
                        action: ActionView::StartTurn,
                        reason: ReleaseReason::AfterAnyItem,
                        message: state.after_any_item[0],
                    },
                )
            } else {
                state.next_turn.len() == 0 ==> after == (ControllerView {
                    turn_state: TurnStateView::Idle,
                    ..state
                }) && released is None
            }
        }),
{
    let idle = ControllerView { turn_state: TurnStateView::Idle, ..state.downgraded() };
    assert(idle.steer_pending =~= Seq::empty());
    assert(idle.next_turn =~= state.next_turn);
    assert(idle.pending_immediate =~= state.pending_immediate);
    assert(state.steer_pending =~= Seq::empty());
    controller_model::lemma_buffered_nothing(idle);
    if state.after_tool_call.len() > 0 {
        assert(state.after_tool_call.skip(1) =~= state.after_tool_call.drop_first());
    } else if state.after_any_item.len() > 0 {
        assert(state.after_any_item.skip(1) =~= state.after_any_item.drop_first());
    }
}

/// A turn start that is refused because another turn runs loses nothing: its
/// message becomes the first for the next turn, and the thread counts as
/// running the turn that it has told, or else as busy with an unknown one.
pub proof fn a_refused_start_comes_first_next_time(state: ControllerView, message: MessageView)
    requires
        state.turn_state is TurnStartPending,
        state.pending_turn_message == Some(message),
        state.pending_turn_completed_id is None,
        state.pending_immediate.len() == 0,
    ensures
        ({
            let (after, released) = state.step(EventView::TurnStartRejectedActiveTurnNotSteerable);
            &&& released is None
            &&& after == (ControllerView {
                turn_state: match state.turn_state->reserved_turn_id {
                    Some(turn_id) => TurnStateView::Running { turn_id },
                    None => TurnStateView::BusyUnknownTurn,
                },
                pending_turn_message: None,
                pending_steer_turn_id: None,
                next_turn: seq![
                    MessageView { queue_mode: QueueMode::NextTurn, text: message.text },
                ] + state.next_turn,
                ..state
            })
        }),
{
}

/// A turn start that is refused after the turn in its way has ended starts the
/// next turn at once, with its own message where nothing waits for an item.
pub proof fn a_refused_start_is_repeated_when_the_turn_is_over(
    state: ControllerView,
    message: MessageView,
)
    requires
        state.turn_state is TurnStartPending,
        state.pending_turn_message == Some(message),
        state.pending_turn_completed_id is Some,
        state.pending_immediate.len() == 0,
        state.steer_pending.len() == 0,
        state.after_tool_call.len() == 0,
        state.after_any_item.len() == 0,
    ensures
        ({
            let (after, released) = state.step(EventView::TurnStartRejectedActiveTurnNotSteerable);
            let again = MessageView { queue_mode: QueueMode::NextTurn, text: message.text };
            &&& released == Some(
                DecisionView {
                    action: ActionView::StartTurn,
                    reason: ReleaseReason::NextTurn,
                    message: again,
                },
            )
            &&& after == (ControllerView {
                turn_state: TurnStateView::TurnStartPending { reserved_turn_id: None },
                pending_turn_message: Some(again),
                pending_turn_completed_id: None,
                pending_steer_turn_id: None,
                ..state
            })
        }),
{
    let waiting = ControllerView {
        next_turn: seq![message.with_mode(QueueMode::NextTurn)] + state.next_turn,
        pending_turn_message: None,
        pending_steer_turn_id: None,
        pending_turn_completed_id: None,
        ..state
    };
    let idle = ControllerView { turn_state: TurnStateView::Idle, ..waiting.downgraded() };
    assert(idle.next_turn =~= waiting.next_turn);
    assert(idle.pending_immediate =~= state.pending_immediate);
    assert(idle.steer_pending =~= Seq::empty());
    assert(state.steer_pending =~= Seq::empty());
    controller_model::lemma_buffered_nothing(idle);
    assert(idle.next_turn.drop_first() =~= state.next_turn);
}

/// A steer that is refused loses nothing while its turn runs on: its message
/// becomes the last for the next turn, and no steer is unanswered any more.
/// Where its turn has ended meanwhile, it becomes the first, and starts the next
/// turn where nothing else comes before.
pub proof fn a_refused_steer_waits_for_the_next_turn(
    state: ControllerView,
    turn_id: Seq<char>,
    message: MessageView,
)
    requires
        state.turn_state == (TurnStateView::Running { turn_id }),
        state.pending_steer_turn_id is Some,
        state.steer_pending.len() == 0,
        state.pending_immediate.len() == 0,
    ensures
        ({
            let (after, released) = state.step(
                EventView::SteerRejectedActiveTurnNotSteerable { message },
            );
            let again = MessageView { queue_mode: QueueMode::NextTurn, text: message.text };
            &&& state.pending_turn_completed_id is None ==> released is None && after == (
            ControllerView {
                pending_steer_turn_id: None,
                next_turn: state.next_turn.push(again),
                ..state
            })
            &&& state.pending_turn_completed_id is Some && state.after_tool_call.len() == 0
                && state.after_any_item.len() == 0 ==> {
                &&& released == Some(
                    DecisionView {
                        action: ActionView::StartTurn,
                        reason: ReleaseReason::NextTurn,
                        message: again,
                    },
                )
                &&& after == (ControllerView {
                    turn_state: TurnStateView::TurnStartPending { reserved_turn_id: None },
                    pending_turn_message: Some(again),
                    pending_turn_completed_id: None,
                    pending_steer_turn_id: None,
                    ..state
                })
            }
        }),
{
    let again = message.with_mode(QueueMode::NextTurn);
    let answered = ControllerView {
        pending_steer_turn_id: None,
        pending_turn_completed_id: None,
        next_turn: if state.pending_turn_completed_id is Some {
            seq![again] + state.next_turn
        } else {
            state.next_turn.push(again)
        },
        ..state
    };
    assert(state.steer_pending =~= Seq::empty());
    controller_model::lemma_buffered_nothing(answered);
    let downgraded = answered.downgraded();
    assert(downgraded.next_turn =~= answered.next_turn);
    assert(downgraded.pending_immediate =~= state.pending_immediate);
    let idle = ControllerView { turn_state: TurnStateView::Idle, ..downgraded };
    controller_model::lemma_buffered_nothing(idle);
    if state.pending_turn_completed_id is Some {
        assert(answered.next_turn.drop_first() =~= state.next_turn);
    }
}

/// When a refused steer still has messages behind it, they follow its message in
/// the order in which they came, and retained immediate messages come before
/// what waited for the next turn.
pub proof fn a_refused_steer_keeps_the_order(
    state: ControllerView,
    turn_id: Seq<char>,
    message: MessageView,
    behind: MessageView,
    retained: MessageView,
)
    requires
        state.turn_state == (TurnStateView::Running { turn_id }),
        state.pending_steer_turn_id is Some,
        state.pending_turn_completed_id is None,
        state.steer_pending == seq![behind],
        state.pending_immediate == seq![retained],
        behind.queue_mode == QueueMode::Immediate || behind.queue_mode == QueueMode::NextTurn,
    ensures
        ({
            let (after, released) = state.step(
                EventView::SteerRejectedActiveTurnNotSteerable { message },
            );
            let late = QueueMode::NextTurn;
            &&& released is None
            &&& after.turn_state == state.turn_state
            &&& after.pending_immediate.len() == 0
            &&& after.steer_pending.len() == 0
            &&& after.next_turn == seq![MessageView { queue_mode: late, text: retained.text }]
                + state.next_turn + seq![
                MessageView { queue_mode: late, text: message.text },
                MessageView { queue_mode: late, text: behind.text },
            ]
        }),
{
    controller_model::lemma_waiting_in_single(behind);
    let after = state.step(EventView::SteerRejectedActiveTurnNotSteerable { message }).0;
    let late = QueueMode::NextTurn;
    assert(after.next_turn =~= seq![MessageView { queue_mode: late, text: retained.text }]
        + state.next_turn + seq![
        MessageView { queue_mode: late, text: message.text },
        MessageView { queue_mode: late, text: behind.text },
    ]);
}

/// The end of a turn whose start or steer is unanswered is remembered, and takes
/// effect with the answer: the accepted turn is then over, and the thread is
/// idle where nothing waits.
pub proof fn an_early_end_takes_effect_with_the_answer(state: ControllerView, turn_id: Seq<char>)
    requires
        state.steer_pending.len() == 0,
        state.pending_immediate.len() == 0,
        state.after_tool_call.len() == 0,
        state.after_any_item.len() == 0,
        state.next_turn.len() == 0,
    ensures
        ({
            let thread_id = state.thread_id;
            let (ended, released) = state.step(EventView::TurnCompleted { thread_id, turn_id });
            let started = ended.step(EventView::TurnStartAcceptedWithTurnId { turn_id });
            let steered = ended.step(EventView::SteerAccepted { turn_id });
            &&& state.turn_state == (TurnStateView::TurnStartPending { reserved_turn_id: None })
                || state.turn_state == (TurnStateView::TurnStartPending {
                reserved_turn_id: Some(turn_id),
            }) ==> {
                &&& released is None
                &&& ended == (ControllerView { pending_turn_completed_id: Some(turn_id), ..state })
                &&& started.1 is None
                &&& started.0.turn_state is Idle
                &&& started.0.pending_turn_completed_id is None
                &&& started.0.pending_turn_message is None
            }
            &&& state.turn_state == (TurnStateView::Running { turn_id })
                && state.pending_steer_turn_id == Some(turn_id) ==> {
                &&& released is None
                &&& ended == (ControllerView { pending_turn_completed_id: Some(turn_id), ..state })
                &&& steered.1 is None
                &&& steered.0.turn_state is Idle
                &&& steered.0.pending_turn_completed_id is None
                &&& steered.0.pending_steer_turn_id is None
            }
        }),
{
    let ended = state.step(
        EventView::TurnCompleted { thread_id: state.thread_id, turn_id },
    ).0;
    assert(state.steer_pending =~= Seq::empty());
    let started = ControllerView {
        pending_turn_message: None,
        pending_turn_completed_id: None,
        ..ended
    };
    let idle = ControllerView { turn_state: TurnStateView::Idle, ..started.downgraded() };
    assert(idle.next_turn =~= Seq::empty());
    controller_model::lemma_buffered_nothing(idle);
    let answered = ControllerView {
        pending_steer_turn_id: None,
        pending_turn_completed_id: None,
        ..ended
    };
    controller_model::lemma_buffered_nothing(answered);
    let over = ControllerView { turn_state: TurnStateView::Idle, ..answered.downgraded() };
    assert(over.next_turn =~= Seq::empty());
    controller_model::lemma_buffered_nothing(over);
}

/// The end of another turn than the one that runs or is reserved, and any end
/// while the thread is idle, changes nothing.
pub proof fn other_turns_ends_do_not_matter(state: ControllerView, turn_id: Seq<char>)
    requires
        match state.turn_state {
            TurnStateView::Idle => true,
            TurnStateView::TurnStartPending { reserved_turn_id: Some(reserved) } => reserved
                != turn_id,
            TurnStateView::Running { turn_id: active } => active != turn_id,
            _ => false,
        },
    ensures
        state.step(EventView::TurnCompleted { thread_id: state.thread_id, turn_id }) == (
            state,
            None::<DecisionView>,
        ),
{
}

/// What the thread tells of a started turn is taken up: it is reserved for the
/// turn start under way, or it is the turn that an idle or busy thread runs. Of
/// a turn that is known already nothing changes.
pub proof fn a_started_turn_is_taken_up(state: ControllerView, turn_id: Seq<char>)
    requires
        state.turn_state is BusyUnknownTurn ==> state.pending_immediate.len() == 0,
    ensures
        ({
            let (after, released) = state.step(
                EventView::TurnStarted { thread_id: state.thread_id, turn_id },
            );
            &&& released is None
            &&& match state.turn_state {
                TurnStateView::TurnStartPending { reserved_turn_id: None } => after == (
                ControllerView {
                    turn_state: TurnStateView::TurnStartPending { reserved_turn_id: Some(turn_id) },
                    ..state
                }),
                TurnStateView::TurnStartPending { reserved_turn_id: Some(reserved) } => reserved
                    == turn_id ==> after == state,
                TurnStateView::Running { turn_id: active } => active == turn_id ==> after == state,
                TurnStateView::Idle | TurnStateView::BusyUnknownTurn => after == (ControllerView {
                    turn_state: TurnStateView::Running { turn_id },
                    ..state
                }),
            }
        }),
{
}

/// A turn that the thread names otherwise than before is reported, with both
/// names, and nothing else changes: neither for a started turn nor for the
/// answer to a turn start. A steer that is answered with another turn is
/// reported too, and is then no longer unanswered.
pub proof fn contradictions_are_reported(
    state: ControllerView,
    turn_id: Seq<char>,
    expected: Seq<char>,
)
    requires
        turn_id != expected,
    ensures
        ({
            let started = state.step(
                EventView::TurnStarted { thread_id: state.thread_id, turn_id },
            );
            let accepted = state.step(EventView::TurnStartAcceptedWithTurnId { turn_id });
            let steered = state.step(EventView::SteerAccepted { turn_id });
            &&& state.turn_state == (TurnStateView::Running { turn_id: expected }) ==> started == (
                ControllerView {
                    validation_error: Some(
                        "turn/started turn id `"@ + turn_id + "` did not match active turn id `"@
                            + expected + "`"@,
                    ),
                    ..state
                },
                None::<DecisionView>,
            )
            &&& state.turn_state == (TurnStateView::TurnStartPending {
                reserved_turn_id: Some(expected),
            }) ==> {
                &&& started == (
                    ControllerView {
                        validation_error: Some(
                            "turn/started turn id `"@ + turn_id
                                + "` did not match reserved turn id `"@ + expected + "`"@,
                        ),
                        ..state
                    },
                    None::<DecisionView>,
                )
                &&& accepted == (
                    ControllerView {
                        validation_error: Some(
                            "turn/start response turn id `"@ + turn_id
                                + "` did not match reserved turn id `"@ + expected + "`"@,
                        ),
                        ..state
                    },
                    None::<DecisionView>,
                )
            }
            &&& state.pending_steer_turn_id == Some(expected) ==> steered == (
                ControllerView {
                    pending_steer_turn_id: None,
                    validation_error: Some(
                        "turn/steer response turn id `"@ + turn_id
                            + "` did not match pending steer turn id `"@ + expected + "`"@,
                    ),
                    ..state
                },
                None::<DecisionView>,
            )
        }),
{
}

/// A reconciled turn is the one that the controller then goes by, for the start
/// under way, for the turn that runs and for the unanswered steer. Nothing is
/// sent, and no message moves.
pub proof fn a_reconciled_turn_is_gone_by(state: ControllerView, turn_id: Seq<char>)
    ensures
        ({
            let (after, released) = state.step(
                EventView::ActiveTurnReconciled { thread_id: state.thread_id, turn_id },
            );
            &&& released is None
            &&& state.turn_state is TurnStartPending ==> after.turn_state == (
            TurnStateView::TurnStartPending { reserved_turn_id: Some(turn_id) })
            &&& !(state.turn_state is TurnStartPending) ==> after.turn_state == (
            TurnStateView::Running { turn_id })
            &&& after.pending_steer_turn_id is Some <==> state.pending_steer_turn_id is Some
            &&& after.pending_steer_turn_id is Some ==> after.pending_steer_turn_id == Some(turn_id)
            &&& after.pending_turn_completed_id is Some <==> state.pending_turn_completed_id
                == Some(turn_id)
            &&& after.pending_turn_completed_id is Some ==> after.pending_turn_completed_id
                == Some(turn_id)
            &&& after.pending_turn_message == state.pending_turn_message
            &&& after.pending_immediate == state.pending_immediate
            &&& after.steer_pending == state.steer_pending
            &&& after.after_tool_call == state.after_tool_call
            &&& after.after_any_item == state.after_any_item
            &&& after.next_turn == state.next_turn
            &&& after.validation_error == state.validation_error
            &&& after.thread_id == state.thread_id
        }),
{
}

/// What arrived behind an accepted steer is released as if it arrived only then:
/// a single message that is not immediate goes to the end of its queue, and the
/// oldest retained message is steered after it.
pub proof fn arrivals_behind_a_steer_are_buffered(
    state: ControllerView,
    turn_id: Seq<char>,
    message: MessageView,
)
    requires
        state.turn_state == (TurnStateView::Running { turn_id }),
        state.pending_steer_turn_id == Some(turn_id),
        state.pending_turn_completed_id is None,
        state.pending_immediate.len() == 0,
        state.steer_pending == seq![message],
    ensures
        state.step(EventView::SteerAccepted { turn_id }) == (ControllerView {
            steer_pending: Seq::empty(),
            pending_steer_turn_id: None,
            ..state
        }).step(EventView::MessageReceived(message)),
{
    let answered = ControllerView {
        steer_pending: Seq::empty(),
        pending_steer_turn_id: None,
        ..state
    };
    assert(seq![message].drop_last() =~= Seq::<MessageView>::empty());
    assert(answered.receive_all(Seq::empty()) == (answered, None::<DecisionView>));
    assert(answered.receive_all(seq![message]) == answered.receive(message));
}

/// A controller starts out idle, for its thread, with nothing held and nothing
/// awaited.
pub proof fn a_new_controller_holds_nothing(thread_id: Seq<char>)
    ensures
        ({
            let state = ControllerView::fresh(thread_id);
            &&& state.thread_id == thread_id
            &&& state.turn_state is Idle
            &&& state.pending_turn_message is None
            &&& state.pending_turn_completed_id is None
            &&& state.pending_steer_turn_id is None
            &&& state.validation_error is None
            &&& state.pending_immediate.len() == 0
            &&& state.steer_pending.len() == 0
            &&& state.after_tool_call.len() == 0
            &&& state.after_any_item.len() == 0
            &&& state.next_turn.len() == 0
        }),
{
}

/// A controller that is marked as busy knows no turn; what it holds stays.
pub proof fn a_busy_controller_knows_no_turn(state: ControllerView)
    ensures
        state.busy_unknown() == (ControllerView {
            turn_state: TurnStateView::BusyUnknownTurn,
            ..state
        }),
{
}

/// A message that a caller has started a turn with by itself is awaited like one
/// that the controller released; what is held stays held.
pub proof fn a_start_awaits_its_message(
    state: ControllerView,
    message: MessageView,
    reason: ReleaseReason,
)
    ensures
        ({
            let (after, released) = state.start(message, reason);
            let sent = MessageView {
                queue_mode: match reason {
                    ReleaseReason::AfterToolCall => QueueMode::AfterToolCall,
                    ReleaseReason::NextTurn => QueueMode::NextTurn,
                    _ => message.queue_mode,
                },
                text: message.text,
            };
            &&& released == Some(
                DecisionView { action: ActionView::StartTurn, reason, message: sent },
            )
            &&& after == (ControllerView {
                turn_state: TurnStateView::TurnStartPending { reserved_turn_id: None },
                pending_turn_message: Some(sent),
                pending_turn_completed_id: None,
                pending_steer_turn_id: None,
                ..state
            })
        }),
{
}
/// An end that came before the answer is made good with the answer: what follows
/// is what would follow if the turn ended just then. So it is for a start that
/// is accepted or refused, and for a steer that is accepted or refused, whatever
/// is held; the message of a refused start or steer is then the first for the
/// next turn.
pub proof fn an_early_end_is_an_end(
    state: ControllerView,
    turn_id: Seq<char>,
    message: MessageView,
)
    requires
        state.pending_turn_completed_id == Some(turn_id),
    ensures
        ({
            let end = EventView::TurnCompleted { thread_id: state.thread_id, turn_id };
            let running = ControllerView {
                turn_state: TurnStateView::Running { turn_id },
                pending_turn_message: None,
                pending_turn_completed_id: None,
                pending_steer_turn_id: None,
                ..state
            };
            let refused = ControllerView {
                next_turn: seq![
                    MessageView { queue_mode: QueueMode::NextTurn, text: message.text },
                ] + state.next_turn,
                ..running
            };
            &&& (state.turn_state == (TurnStateView::TurnStartPending { reserved_turn_id: None })
                || state.turn_state == (TurnStateView::TurnStartPending {
                reserved_turn_id: Some(turn_id),
            })) && state.pending_steer_turn_id is None ==> {
                &&& state.step(EventView::TurnStartAcceptedWithTurnId { turn_id })
                    == running.step(end)
                &&& state.pending_turn_message == Some(message) ==> state.step(
                    EventView::TurnStartRejectedActiveTurnNotSteerable,
                ) == refused.step(end)
            }
            &&& state.turn_state == (TurnStateView::Running { turn_id })
                && state.pending_steer_turn_id == Some(turn_id) && state.pending_turn_message
                is None ==> {
                &&& state.step(EventView::SteerAccepted { turn_id }) == running.step(end)
                &&& state.step(EventView::SteerRejectedActiveTurnNotSteerable { message })
                    == refused.step(end)
            }
        }),
{
    let running = ControllerView {
        turn_state: TurnStateView::Running { turn_id },
        pending_turn_message: None,
        pending_turn_completed_id: None,
        pending_steer_turn_id: None,
        ..state
    };
    let refused = ControllerView {
        next_turn: seq![message.with_mode(QueueMode::NextTurn)] + state.next_turn,
        ..running
    };
    lemma_buffer_before_the_end(running);
    lemma_buffer_before_the_end(refused);
}

/// Buffering what is behind a steer before a turn ends, or as it ends, is the
/// same.
proof fn lemma_buffer_before_the_end(state: ControllerView)
    ensures
        state.steer_pending_buffered().finish_turn() == state.finish_turn(),
        (ControllerView {
            turn_state: TurnStateView::Idle,
            ..state.steer_pending_buffered().downgraded()
        }).after_turn() == state.finish_turn(),
{
    let early = state.steer_pending_buffered();
    let one = ControllerView { turn_state: TurnStateView::Idle, ..early.downgraded() };
    let two = ControllerView { turn_state: TurnStateView::Idle, ..state.downgraded() };
    assert(one.steer_pending =~= Seq::empty());
    controller_model::lemma_buffered_nothing(one);
    assert(one.steer_pending_buffered() == one);
    assert(one.next_turn =~= two.steer_pending_buffered().next_turn);
    assert(one == two.steer_pending_buffered());
}

/// When a turn ends with messages still behind a steer that was never answered,
/// they wait like the others, behind those of their mode.
pub proof fn an_end_takes_up_what_is_behind_a_steer(
    state: ControllerView,
    turn_id: Seq<char>,
    behind: MessageView,
)
    requires
        state.turn_state == (TurnStateView::Running { turn_id }),
        state.pending_steer_turn_id is None,
        state.steer_pending == seq![behind],
        behind.queue_mode != QueueMode::Immediate,
    ensures
        state.step(EventView::TurnCompleted { thread_id: state.thread_id, turn_id }) == (
        ControllerView { steer_pending: Seq::empty(), ..state }).step(
            EventView::MessageReceived(behind),
        ).0.step(EventView::TurnCompleted { thread_id: state.thread_id, turn_id }),
{
    let bare = ControllerView { steer_pending: Seq::empty(), ..state };
    let received = bare.step(EventView::MessageReceived(behind)).0;
    assert(state.steer_pending_buffered() == received);
    lemma_buffer_before_the_end(state);
}


} // verus!
