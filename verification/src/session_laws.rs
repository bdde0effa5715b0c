//! What structured input does for the threads of a session: how notifications
//! reach their thread, and what becomes of what is read.

use vstd::prelude::*;

use crate::controller::{CompletionSignal, ReleaseReason};
use crate::controller_model;
use crate::controller_model::{
    ActionView, ControllerView, DecisionView, EventView, MessageView, TurnStateView,
};
use crate::items;
use crate::items::{ResponseItem, ServerNotification, ThreadItem};
use crate::message::ParsedView;
use crate::queue_mode::QueueMode;
use crate::release_laws;
use crate::structured_input;
use crate::structured_input::{
    DrainInput, DrainStage, ReaderEventView, RuntimeView, SessionActionView,
};
use crate::text;

verus! {

/// Whether a thread's controller took in an event, with nothing to report, and
/// the session is told to show what is held and to carry out what was decided.
pub open spec fn took_in(
    before: RuntimeView,
    after: RuntimeView,
    actions: Seq<SessionActionView>,
    thread_id: Seq<char>,
    event: EventView,
) -> bool {
    let (controller, decision) = before.controllers[thread_id].step(event);
    &&& after == (RuntimeView {
        controllers: before.controllers.insert(
            thread_id,
            ControllerView { validation_error: None, ..controller },
        ),
        ..before
    })
    &&& actions.len() > 0
    &&& actions[0] is RefreshPreview
    &&& controller.validation_error is None ==> match decision {
        Some(decision) => actions == seq![
            SessionActionView::RefreshPreview,
            SessionActionView::Release { thread_id, decision },
        ],
        None => actions == seq![SessionActionView::RefreshPreview],
    }
    &&& controller.validation_error matches Some(message) ==> {
        &&& actions.len() > 1
        &&& actions[1] == SessionActionView::Error(
            "Structured input controller validation error for thread "@ + thread_id + ": "@
                + message,
        )
        &&& match decision {
            Some(decision) => actions.len() == 3 && actions[2] == (SessionActionView::Release {
                thread_id,
                decision,
            }),
            None => actions.len() == 2,
        }
    }
}

/// An event that is handed to the controller of a thread is taken in by it.
pub proof fn events_are_taken_in(
    state: RuntimeView,
    thread_id: Seq<char>,
    event: EventView,
)
    requires
        state.controllers.contains_key(thread_id),
    ensures
        ({
            let (after, actions) = state.controller_event(thread_id, event);
            took_in(state, after, actions, thread_id, event)
        }),
{
    let (after, actions) = state.controller_event(thread_id, event);
    let (controller, decision) = state.controllers[thread_id].step(event);
    if controller.validation_error is None {
        if let Some(decision) = decision {
            assert(actions =~= seq![
                SessionActionView::RefreshPreview,
                SessionActionView::Release { thread_id, decision },
            ]);
        } else {
            assert(actions =~= seq![SessionActionView::RefreshPreview]);
        }
    }
}

/// What the server says of a turn is handed to the controller of its thread as
/// the event of the same kind, with the same thread and turn: that it started,
/// that it ended, that it called a tool, and that an item completed, whether as
/// an item of the thread or as a raw one.
pub proof fn notifications_reach_the_controller(
    state: RuntimeView,
    thread_id: String,
    turn_id: String,
    item: ThreadItem,
    raw: ResponseItem,
)
    requires
        state.controllers.contains_key(thread_id@),
    ensures
        ({
            let (t, u) = (thread_id@, turn_id@);
            let started = state.notified(
                ServerNotification::TurnStarted { thread_id, turn_id },
                Some(t),
            );
            let completed = state.notified(
                ServerNotification::TurnCompleted { thread_id, turn_id },
                Some(t),
            );
            let called = state.notified(
                ServerNotification::TerminalInteraction { thread_id, turn_id },
                Some(t),
            );
            let done = state.notified(
                ServerNotification::ItemCompleted { thread_id, turn_id, item },
                Some(t),
            );
            let raw_done = state.notified(
                ServerNotification::RawResponseItemCompleted { thread_id, turn_id, item: raw },
                Some(t),
            );
            &&& took_in(
                state,
                started.0,
                started.1,
                t,
                EventView::TurnStarted { thread_id: t, turn_id: u },
            )
            &&& took_in(
                state,
                completed.0,
                completed.1,
                t,
                EventView::TurnCompleted { thread_id: t, turn_id: u },
            )
            &&& took_in(
                state,
                called.0,
                called.1,
                t,
                EventView::TerminalInteraction { thread_id: t, turn_id: u },
            )
            &&& took_in(
                state,
                done.0,
                done.1,
                t,
                EventView::ItemCompleted {
                    thread_id: t,
                    turn_id: u,
                    signal: if item is UserMessage || item is HookPrompt {
                        CompletionSignal::Ignore
                    } else {
                        CompletionSignal::ReleasesAfterAnyItem
                    },
                },
            )
            &&& took_in(
                state,
                raw_done.0,
                raw_done.1,
                t,
                EventView::ItemCompleted {
                    thread_id: t,
                    turn_id: u,
                    signal: if items::raw_item_releases(raw) {
                        CompletionSignal::ReleasesAfterAnyItem
                    } else {
                        CompletionSignal::Ignore
                    },
                },
            )
        }),
{
    let (t, u) = (thread_id@, turn_id@);
    events_are_taken_in(state, t, EventView::TurnStarted { thread_id: t, turn_id: u });
    events_are_taken_in(state, t, EventView::TurnCompleted { thread_id: t, turn_id: u });
    events_are_taken_in(state, t, EventView::TerminalInteraction { thread_id: t, turn_id: u });
    events_are_taken_in(
        state,
        t,
        EventView::ItemCompleted { thread_id: t, turn_id: u, signal: items::item_signal(item) },
    );
    events_are_taken_in(
        state,
        t,
        EventView::ItemCompleted {
            thread_id: t,
            turn_id: u,
            signal: if items::raw_item_releases(raw) {
                CompletionSignal::ReleasesAfterAnyItem
            } else {
                CompletionSignal::Ignore
            },
        },
    );
}

/// When the active turn of a thread ends with no steer unanswered, the oldest
/// message that waits starts the next turn, first one for a tool call, then one
/// for any item, then a retained immediate one, then one for the next turn; a
/// thread that holds nothing is then idle.
pub proof fn an_ended_turn_releases_what_waits(
    state: RuntimeView,
    thread_id: String,
    turn_id: String,
)
    requires
        state.controllers.contains_key(thread_id@),
        state.controllers[thread_id@].thread_id == thread_id@,
        state.controllers[thread_id@].turn_state == (TurnStateView::Running { turn_id: turn_id@ }),
        state.controllers[thread_id@].pending_steer_turn_id is None,
        state.controllers[thread_id@].steer_pending.len() == 0,
        state.controllers[thread_id@].validation_error is None,
    ensures
        ({
            let held = state.controllers[thread_id@];
            let (after, actions) = state.notified(
                ServerNotification::TurnCompleted { thread_id, turn_id },
                Some(thread_id@),
            );
            let waits = held.after_tool_call.len() > 0 || held.after_any_item.len() > 0
                || held.pending_immediate.len() > 0 || held.next_turn.len() > 0;
            let first = if held.after_tool_call.len() > 0 {
                held.after_tool_call[0].text
            } else if held.after_any_item.len() > 0 {
                held.after_any_item[0].text
            } else if held.pending_immediate.len() > 0 {
                held.pending_immediate[0].text
            } else {
                held.next_turn[0].text
            };
            &&& waits ==> {
                &&& actions.len() == 2
                &&& actions[0] is RefreshPreview
                &&& actions[1] matches SessionActionView::Release { thread_id: t, decision }
                &&& t == thread_id@
                &&& decision.action is StartTurn
                &&& decision.message.text == first
                &&& after.controllers[t].turn_state is TurnStartPending
            }
            &&& !waits ==> {
                &&& actions == seq![SessionActionView::RefreshPreview]
                &&& after.controllers[thread_id@].turn_state is Idle
            }
        }),
{
    let held = state.controllers[thread_id@];
    events_are_taken_in(
        state,
        thread_id@,
        EventView::TurnCompleted { thread_id: thread_id@, turn_id: turn_id@ },
    );
    let idle = ControllerView { turn_state: TurnStateView::Idle, ..held.downgraded() };
    assert(idle.steer_pending =~= Seq::empty());
    controller_model::lemma_buffered_nothing(idle);
}

/// A completed item of the agent, whether of the thread or a raw one that shows
/// work, steers the oldest message that waits for any item into the turn.
pub proof fn an_item_releases_what_waits(
    state: RuntimeView,
    thread_id: String,
    turn_id: String,
    item: ThreadItem,
    raw: ResponseItem,
)
    requires
        state.controllers.contains_key(thread_id@),
        state.controllers[thread_id@].thread_id == thread_id@,
        state.controllers[thread_id@].turn_state == (TurnStateView::Running { turn_id: turn_id@ }),
        state.controllers[thread_id@].pending_steer_turn_id is None,
        state.controllers[thread_id@].validation_error is None,
        state.controllers[thread_id@].after_any_item.len() > 0,
        !(item is UserMessage),
        !(item is HookPrompt),
        raw is FunctionCall || raw is LocalShellCall || raw is CustomToolCall,
    ensures
        ({
            let waiting = state.controllers[thread_id@].after_any_item;
            let done = state.notified(
                ServerNotification::ItemCompleted { thread_id, turn_id, item },
                Some(thread_id@),
            );
            let raw_done = state.notified(
                ServerNotification::RawResponseItemCompleted { thread_id, turn_id, item: raw },
                Some(thread_id@),
            );
            let steered = seq![
                SessionActionView::RefreshPreview,
                SessionActionView::Release {
                    thread_id: thread_id@,
                    decision: DecisionView {
                        action: ActionView::SteerTurn { turn_id: turn_id@ },
                        reason: ReleaseReason::AfterAnyItem,
                        message: waiting[0],
                    },
                },
            ];
            &&& done.1 == steered
            &&& raw_done.1 == steered
            &&& done.0.controllers[thread_id@].after_any_item == waiting.skip(1)
            &&& raw_done.0.controllers[thread_id@].after_any_item == waiting.skip(1)
        }),
{
    let waiting = state.controllers[thread_id@].after_any_item;
    assert(waiting.skip(1) =~= waiting.drop_first());
    events_are_taken_in(
        state,
        thread_id@,
        EventView::ItemCompleted {
            thread_id: thread_id@,
            turn_id: turn_id@,
            signal: CompletionSignal::ReleasesAfterAnyItem,
        },
    );
}

/// A notification that belongs to no thread, or to a thread without a
/// controller, or that says nothing of a turn, does nothing.
pub proof fn notifications_elsewhere_do_nothing(
    state: RuntimeView,
    notification: ServerNotification,
    thread_id: Seq<char>,
)
    ensures
        state.notified(notification, None) == (state, Seq::<SessionActionView>::empty()),
        !state.controllers.contains_key(thread_id) ==> state.notified(
            notification,
            Some(thread_id),
        ) == (state, Seq::<SessionActionView>::empty()),
        notification is Other ==> state.notified(notification, Some(thread_id)) == (
            state,
            Seq::<SessionActionView>::empty(),
        ),
{
}

/// A closed thread loses its controller, and how many messages it held is said
/// where it held any.
pub proof fn a_closed_thread_says_what_it_drops(
    state: RuntimeView,
    thread_id: String,
)
    requires
        state.controllers.contains_key(thread_id@),
    ensures
        ({
            let held = state.controllers[thread_id@];
            let count = held.pending_immediate.len() + held.steer_pending.len()
                + held.after_tool_call.len() + held.after_any_item.len() + held.next_turn.len();
            let (after, actions) = state.notified(
                ServerNotification::ThreadClosed { thread_id },
                Some(thread_id@),
            );
            &&& after == (RuntimeView {
                controllers: state.controllers.remove(thread_id@),
                ..state
            })
            &&& count == 0 ==> actions == seq![SessionActionView::RefreshPreview]
            &&& count > 0 ==> actions == seq![
                SessionActionView::RefreshPreview,
                SessionActionView::Error(
                    "Dropped "@ + text::decimal(count)
                        + " queued structured-input message(s) for closed thread "@ + thread_id@
                        + "."@,
                ),
            ]
        }),
{
    let actions = state.dropped(thread_id@).1;
    if structured_input::held_count(state.controllers[thread_id@]) > 0 {
        assert(actions =~= seq![actions[0], actions[1]]);
    } else {
        assert(actions =~= seq![SessionActionView::RefreshPreview]);
    }
}

/// A message that is read while a thread is displayed arrives at that thread,
/// which gets a controller where it had none; without a displayed thread it
/// waits behind what was read before.
pub proof fn a_read_message_arrives(
    state: RuntimeView,
    message: MessageView,
    thread_id: Seq<char>,
)
    ensures
        ({
            let event = ReaderEventView::Parsed(ParsedView::Message(message));
            let waiting = state.reader_event(event, None);
            let (after, actions) = state.reader_event(event, Some(thread_id));
            let controller = if state.controllers.contains_key(thread_id) {
                state.controllers[thread_id]
            } else {
                ControllerView::fresh(thread_id)
            };
            let (received, decision) = controller.step(EventView::MessageReceived(message));
            &&& waiting == (
                RuntimeView { unbound: state.unbound.push(message), ..state },
                seq![SessionActionView::RefreshPreview],
            )
            &&& after == (RuntimeView {
                controllers: state.controllers.insert(thread_id, received),
                ..state
            })
            &&& actions == match decision {
                Some(decision) => seq![
                    SessionActionView::RefreshPreview,
                    SessionActionView::Release { thread_id, decision },
                ],
                None => seq![SessionActionView::RefreshPreview],
            }
        }),
{
    let event = ReaderEventView::Parsed(ParsedView::Message(message));
    let (after, actions) = state.reader_event(event, Some(thread_id));
    let controller = state.with_thread(thread_id).controllers[thread_id];
    let (received, decision) = controller.step(EventView::MessageReceived(message));
    assert(after.controllers =~= state.controllers.insert(thread_id, received));
    assert(actions =~= match decision {
        Some(decision) => seq![
            SessionActionView::RefreshPreview,
            SessionActionView::Release { thread_id, decision },
        ],
        None => seq![SessionActionView::RefreshPreview],
    });
}

/// The messages that wait for a thread arrive there in the order in which they
/// were read: binding with one message more is binding without it and then
/// reading it while the thread is displayed.
pub proof fn binding_keeps_the_order(
    state: RuntimeView,
    thread_id: Seq<char>,
    messages: Seq<MessageView>,
    last: MessageView,
)
    requires
        state.unbound == messages.push(last),
    ensures
        ({
            let (before, actions) = (RuntimeView { unbound: messages, ..state }).step(
                structured_input::RuntimeStep::Bind { thread_id },
            );
            let (after, more) = before.reader_event(
                ReaderEventView::Parsed(ParsedView::Message(last)),
                Some(thread_id),
            );
            state.step(structured_input::RuntimeStep::Bind { thread_id }) == (after, actions + more)
        }),
        (RuntimeView { unbound: Seq::empty(), ..state }).step(
            structured_input::RuntimeStep::Bind { thread_id },
        ) == (
            RuntimeView { unbound: Seq::empty(), ..state },
            Seq::<SessionActionView>::empty(),
        ),
{
    assert(state.unbound.drop_last() =~= messages);
    assert(state.unbound.last() == last);
}

/// A system prompt that is read before the session has started is the one that
/// it starts with, and a later one replaces an earlier one; once the session has
/// started a prompt is refused and changes nothing.
pub proof fn the_last_early_prompt_counts(
    state: RuntimeView,
    prompt: Seq<char>,
    current: Option<Seq<char>>,
)
    ensures
        ({
            let event = ReaderEventView::Parsed(ParsedView::SystemPrompt(prompt));
            let read = state.reader_event(event, current);
            &&& !state.startup_locked ==> read == (
                RuntimeView { startup_system_prompt: Some(prompt), ..state },
                Seq::<SessionActionView>::empty(),
            )
            &&& state.startup_locked ==> read == (
                state,
                seq![
                    SessionActionView::Error(
                        "Ignored late structured-input <system_prompt> fragment."@,
                    ),
                ],
            )
        }),
{
}

/// Input that cannot be parsed is reported and changes nothing; a failure to
/// read and the end of the input are told, and the reader is then no longer
/// active; the end of the drain says nothing.
pub proof fn reader_reports_are_told(
    state: RuntimeView,
    message: Seq<char>,
    current: Option<Seq<char>>,
)
    ensures
        state.reader_event(ReaderEventView::ParseError(message), current) == (
            state,
            seq![SessionActionView::Error(message)],
        ),
        state.reader_event(ReaderEventView::ReadError(message), current) == (
            RuntimeView { reader_active: false, ..state },
            seq![SessionActionView::Error(message)],
        ),
        state.reader_event(ReaderEventView::Eof, current) == (
            RuntimeView { reader_active: false, ..state },
            seq![
                SessionActionView::Info(
                    "Structured input channel closed; sideband XML input is now disabled."@,
                ),
            ],
        ),
        state.reader_event(ReaderEventView::StartupDrainComplete, current) == (
            state,
            Seq::<SessionActionView>::empty(),
        ),
{
}

/// The preview shows all that is held for the displayed thread, in the order in
/// which it can come to be sent: retained immediate messages, what is behind a
/// steer, what waits for a tool call, for any item, and for the next turn.
/// Without a displayed thread it shows what waits for one.
pub proof fn the_preview_shows_what_is_held(state: RuntimeView, thread_id: Seq<char>)
    ensures
        state.preview(None) == state.unbound,
        !state.controllers.contains_key(thread_id) ==> state.preview(Some(thread_id)).len() == 0,
        state.controllers.contains_key(thread_id) ==> {
            let held = state.controllers[thread_id];
            state.preview(Some(thread_id)) == held.pending_immediate + held.steer_pending
                + held.after_tool_call + held.after_any_item + held.next_turn
        },
{
}

/// The drain at the start goes on until its end, the end of the input or a
/// failure to read was reported; what is already there is still taken then. A
/// reader that is gone ends it.
pub proof fn the_drain_ends_when_it_is_reported(stage: DrainStage, input: DrainInput)
    ensures
        ({
            let next = structured_input::drain_next(stage, input);
            let ends = input matches DrainInput::Event(event) && (event@ is StartupDrainComplete
                || event@ is Eof || event@ is ReadError);
            &&& stage is Finished ==> next is Finished
            &&& stage is Waiting && input is Event ==> next == DrainStage::Polling { done: ends }
            &&& stage is Waiting && input is NothingReady ==> next is Waiting
            &&& stage is Waiting && input is Closed ==> next is Finished
            &&& stage is Polling && input is Event ==> next == if ends {
                DrainStage::Finished
            } else {
                stage
            }
            &&& stage is Polling && !(input is Event) ==> next == if stage->done {
                DrainStage::Finished
            } else {
                DrainStage::Waiting
            }
        }),
{
}

/// A turn that the session has found to be active is reconciled with the
/// controller of its thread, which gets one where it had none.
pub proof fn a_found_turn_is_reconciled(
    state: RuntimeView,
    thread_id: Seq<char>,
    turn_id: Seq<char>,
)
    ensures
        ({
            let (after, actions) = state.step(
                structured_input::RuntimeStep::Sync { thread_id, turn_id },
            );
            let controller = if state.controllers.contains_key(thread_id) {
                state.controllers[thread_id]
            } else {
                ControllerView::fresh(thread_id)
            };
            let (reconciled, decision) = controller.step(
                EventView::ActiveTurnReconciled { thread_id, turn_id },
            );
            &&& after.controllers == state.controllers.insert(
                thread_id,
                ControllerView { validation_error: None, ..reconciled },
            )
            &&& controller.thread_id == thread_id && controller.turn_state is Idle
                ==> after.controllers[thread_id].turn_state == (TurnStateView::Running { turn_id })
            &&& controller.validation_error is None ==> actions == seq![
                SessionActionView::RefreshPreview,
            ]
        }),
{
    let after = state.step(structured_input::RuntimeStep::Sync { thread_id, turn_id }).0;
    let with = state.with_thread(thread_id);
    events_are_taken_in(with, thread_id, EventView::ActiveTurnReconciled { thread_id, turn_id });
    let reconciled = with.controllers[thread_id].step(
        EventView::ActiveTurnReconciled { thread_id, turn_id },
    ).0;
    assert(after.controllers =~= state.controllers.insert(
        thread_id,
        ControllerView { validation_error: None, ..reconciled },
    ));
}

/// A steer that found no turn starts one with its message, for the same reason.
pub proof fn a_steer_without_a_turn_starts_one(
    state: RuntimeView,
    thread_id: Seq<char>,
    message: MessageView,
    reason: ReleaseReason,
)
    requires
        state.controllers.contains_key(thread_id),
        state.controllers[thread_id].validation_error is None,
    ensures
        ({
            let (after, actions) = state.step(
                structured_input::RuntimeStep::Recover { thread_id, message, reason },
            );
            let again = after.controllers[thread_id].pending_turn_message;
            &&& again matches Some(again)
            &&& again.text == message.text
            &&& after.controllers[thread_id].turn_state == (TurnStateView::TurnStartPending {
                reserved_turn_id: None,
            })
            &&& after.controllers[thread_id].pending_steer_turn_id is None
            &&& actions == seq![
                SessionActionView::RefreshPreview,
                SessionActionView::Release {
                    thread_id,
                    decision: DecisionView {
                        action: ActionView::StartTurn,
                        reason,
                        message: again,
                    },
                },
            ]
        }),
{
    release_laws::a_start_awaits_its_message(state.controllers[thread_id], message, reason);
    let actions = state.step(
        structured_input::RuntimeStep::Recover { thread_id, message, reason },
    ).1;
    assert(actions =~= seq![actions[0], actions[1]]);
}

/// Structured input starts out with an active reader and nothing else.
pub proof fn structured_input_starts_empty(thread_id: Seq<char>)
    ensures
        ({
            let state = RuntimeView::started();
            &&& state.reader_active
            &&& !state.startup_locked
            &&& state.startup_system_prompt is None
            &&& state.unbound.len() == 0
            &&& !state.controllers.contains_key(thread_id)
        }),
{
}

/// A read message of any mode but an immediate one waits, while a turn of the
/// displayed thread runs, at the end of the queue of its mode; an immediate one
/// is steered into the turn at once.
pub proof fn a_read_message_joins_or_waits(
    state: RuntimeView,
    thread_id: Seq<char>,
    turn_id: Seq<char>,
    message: MessageView,
)
    requires
        state.controllers.contains_key(thread_id),
        state.controllers[thread_id].turn_state == (TurnStateView::Running { turn_id }),
        state.controllers[thread_id].pending_steer_turn_id is None,
    ensures
        ({
            let event = ReaderEventView::Parsed(ParsedView::Message(message));
            let (after, actions) = state.reader_event(event, Some(thread_id));
            let held = state.controllers[thread_id];
            let then = after.controllers[thread_id];
            &&& message.queue_mode == QueueMode::Immediate ==> actions == seq![
                SessionActionView::RefreshPreview,
                SessionActionView::Release {
                    thread_id,
                    decision: DecisionView {
                        action: ActionView::SteerTurn { turn_id },
                        reason: ReleaseReason::Immediate,
                        message,
                    },
                },
            ]
            &&& message.queue_mode != QueueMode::Immediate ==> actions == seq![
                SessionActionView::RefreshPreview,
            ]
            &&& message.queue_mode == QueueMode::Default || message.queue_mode
                == QueueMode::AfterToolCall ==> then.after_tool_call.len()
                == held.after_tool_call.len() + 1 && then.after_tool_call.last().text
                == message.text
            &&& message.queue_mode == QueueMode::AfterAnyItem ==> then.after_any_item.len()
                == held.after_any_item.len() + 1 && then.after_any_item.last().text
                == message.text
            &&& message.queue_mode == QueueMode::NextTurn ==> then.next_turn.len()
                == held.next_turn.len() + 1 && then.next_turn.last().text == message.text
        }),
{
    a_read_message_arrives(state, message, thread_id);
    if message.queue_mode != QueueMode::Immediate {
        release_laws::arrivals_wait_behind_earlier_ones(state.controllers[thread_id], message);
    }
}

} // verus!
