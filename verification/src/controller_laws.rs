//! What holds of the turn controller as a whole.

use vstd::multiset::Multiset;
use vstd::prelude::*;

use crate::controller::{CompletionSignal, ReleaseReason};
use crate::controller_model;
use crate::controller_model::{
    ActionView, ControllerView, DecisionView, EventView, MessageView, Outcome, TurnStateView,
};
use crate::queue_mode::QueueMode;

verus! {

/// The texts of some messages, without their order.
pub open spec fn texts_of(messages: Seq<MessageView>) -> Multiset<Seq<char>> {
    messages.map_values(|message: MessageView| message.text).to_multiset()
}

/// The texts of all messages that a controller holds back.
pub open spec fn held(state: ControllerView) -> Multiset<Seq<char>> {
    texts_of(state.pending_immediate).add(texts_of(state.steer_pending)).add(
        texts_of(state.after_tool_call),
    ).add(texts_of(state.after_any_item)).add(texts_of(state.next_turn))
}

/// The text that a decision sends.
pub open spec fn sent(decision: Option<DecisionView>) -> Multiset<Seq<char>> {
    match decision {
        Some(decision) => Multiset::singleton(decision.message.text),
        None => Multiset::empty(),
    }
}

/// The text that an event hands to a controller: a new message, a message whose
/// steer was refused, or the message of a turn start that was refused.
pub open spec fn handed_in(state: ControllerView, event: EventView) -> Multiset<Seq<char>> {
    match event {
        EventView::MessageReceived(message) => Multiset::singleton(message.text),
        EventView::SteerRejectedActiveTurnNotSteerable { message } => Multiset::singleton(
            message.text,
        ),
        EventView::TurnStartRejectedActiveTurnNotSteerable => {
            match (state.turn_state, state.pending_turn_message) {
                (TurnStateView::TurnStartPending { .. }, Some(message)) => Multiset::singleton(
                    message.text,
                ),
                _ => Multiset::empty(),
            }
        },
        _ => Multiset::empty(),
    }
}

/// The texts that are held or sent after an event.
pub open spec fn accounted(outcome: Outcome) -> Multiset<Seq<char>> {
    held(outcome.0).add(sent(outcome.1))
}

proof fn lemma_texts_add(first: Seq<MessageView>, second: Seq<MessageView>)
    ensures
        texts_of(first + second) == texts_of(first).add(texts_of(second)),
{
    let text = |message: MessageView| message.text;
    assert((first + second).map_values(text) =~= first.map_values(text) + second.map_values(text));
    vstd::seq_lib::lemma_multiset_commutative(first.map_values(text), second.map_values(text));
}

proof fn lemma_texts_one(message: MessageView)
    ensures
        texts_of(seq![message]) == Multiset::singleton(message.text),
{
    broadcast use vstd::seq_lib::group_to_multiset_ensures;
    broadcast use vstd::multiset::group_multiset_axioms;

    let text = |message: MessageView| message.text;
    assert(seq![message].map_values(text) =~= Seq::empty().push(message.text));
    assert(Seq::<Seq<char>>::empty().to_multiset() =~= Multiset::empty()) by {
        assert(Seq::<Seq<char>>::empty().to_multiset().len() == 0);
    }
    assert(texts_of(seq![message]) =~= Multiset::singleton(message.text));
}

proof fn lemma_texts_none()
    ensures
        texts_of(Seq::empty()) == Multiset::<Seq<char>>::empty(),
{
    broadcast use vstd::seq_lib::group_to_multiset_ensures;
    broadcast use vstd::multiset::group_multiset_axioms;

    let text = |message: MessageView| message.text;
    assert(Seq::<MessageView>::empty().map_values(text) =~= Seq::empty());
    assert(Seq::<Seq<char>>::empty().to_multiset().len() == 0);
    assert(texts_of(Seq::empty()) =~= Multiset::<Seq<char>>::empty());
}

proof fn lemma_texts_push(messages: Seq<MessageView>, message: MessageView)
    ensures
        texts_of(messages.push(message)) == texts_of(messages).insert(message.text),
{
    broadcast use vstd::multiset::group_multiset_axioms;

    lemma_texts_add(messages, seq![message]);
    lemma_texts_one(message);
    assert(messages.push(message) =~= messages + seq![message]);
    assert(texts_of(messages.push(message)) =~= texts_of(messages).insert(message.text));
}

proof fn lemma_texts_push_front(messages: Seq<MessageView>, message: MessageView)
    ensures
        texts_of(seq![message] + messages) == texts_of(messages).insert(message.text),
{
    broadcast use vstd::multiset::group_multiset_axioms;

    lemma_texts_add(seq![message], messages);
    lemma_texts_one(message);
    assert(texts_of(seq![message] + messages) =~= texts_of(messages).insert(message.text));
}

proof fn lemma_texts_first(messages: Seq<MessageView>)
    requires
        messages.len() > 0,
    ensures
        texts_of(messages) == texts_of(messages.drop_first()).insert(messages.first().text),
{
    lemma_texts_push_front(messages.drop_first(), messages.first());
    assert(messages =~= seq![messages.first()] + messages.drop_first());
}

proof fn lemma_texts_with_mode(messages: Seq<MessageView>, queue_mode: QueueMode)
    ensures
        texts_of(controller_model::all_with_mode(messages, queue_mode)) == texts_of(messages),
{
    let text = |message: MessageView| message.text;
    assert(controller_model::all_with_mode(messages, queue_mode).map_values(text)
        =~= messages.map_values(text));
}

/// Each message waits in exactly one of the three queues.
proof fn lemma_texts_waiting(messages: Seq<MessageView>)
    ensures
        texts_of(messages) == texts_of(
            controller_model::waiting_in(messages, QueueMode::AfterToolCall),
        ).add(texts_of(controller_model::waiting_in(messages, QueueMode::AfterAnyItem))).add(
            texts_of(controller_model::waiting_in(messages, QueueMode::NextTurn)),
        ),
    decreases messages.len(),
{
    broadcast use vstd::multiset::group_multiset_axioms;

    lemma_texts_none();
    if messages.len() == 0 {
        controller_model::lemma_buffered_nothing(ControllerView::fresh(Seq::empty()));
        reveal_with_fuel(Seq::filter, 1);
        assert(messages =~= Seq::empty());
        assert(controller_model::waiting_in(messages, QueueMode::AfterToolCall) =~= Seq::empty());
        assert(controller_model::waiting_in(messages, QueueMode::AfterAnyItem) =~= Seq::empty());
        assert(controller_model::waiting_in(messages, QueueMode::NextTurn) =~= Seq::empty());
        assert(texts_of(messages) =~= texts_of(Seq::empty()).add(texts_of(Seq::empty())).add(
            texts_of(Seq::empty()),
        ));
    } else {
        let rest = messages.drop_last();
        let last = messages.last();
        lemma_texts_waiting(rest);
        lemma_texts_push(rest, last);
        assert(messages =~= rest.push(last));
        assert(messages =~= rest + seq![last]);
        controller_model::lemma_waiting_in_single(last);
        lemma_texts_one(last.with_mode(last.waiting_mode()));
        assert forall|queue_mode: QueueMode|
            #[trigger] texts_of(controller_model::waiting_in(messages, queue_mode)) == texts_of(
                controller_model::waiting_in(rest, queue_mode),
            ).add(
                if last.waiting_mode() == queue_mode {
                    Multiset::singleton(last.text)
                } else {
                    Multiset::empty()
                },
            ) by {
            controller_model::lemma_waiting_in_add(rest, seq![last], queue_mode);
            lemma_texts_add(
                controller_model::waiting_in(rest, queue_mode),
                controller_model::waiting_in(seq![last], queue_mode),
            );
        }
        assert(texts_of(messages) =~= texts_of(
            controller_model::waiting_in(messages, QueueMode::AfterToolCall),
        ).add(texts_of(controller_model::waiting_in(messages, QueueMode::AfterAnyItem))).add(
            texts_of(controller_model::waiting_in(messages, QueueMode::NextTurn)),
        ));
    }
}

proof fn lemma_held_buffered(state: ControllerView, messages: Seq<MessageView>)
    ensures
        held(state.buffered(messages)) == held(state).add(texts_of(messages)),
{
    broadcast use vstd::multiset::group_multiset_axioms;

    lemma_texts_waiting(messages);
    lemma_texts_add(
        state.after_tool_call,
        controller_model::waiting_in(messages, QueueMode::AfterToolCall),
    );
    lemma_texts_add(
        state.after_any_item,
        controller_model::waiting_in(messages, QueueMode::AfterAnyItem),
    );
    lemma_texts_add(
        state.next_turn,
        controller_model::waiting_in(messages, QueueMode::NextTurn),
    );
    assert(held(state.buffered(messages)) =~= held(state).add(texts_of(messages)));
}

proof fn lemma_held_steer_pending_buffered(state: ControllerView)
    ensures
        held(state.steer_pending_buffered()) == held(state),
{
    broadcast use vstd::multiset::group_multiset_axioms;

    lemma_held_buffered(state, state.steer_pending);
    lemma_texts_none();
    let buffered = state.buffered(state.steer_pending);
    assert forall|text: Seq<char>|
        #[trigger] held(state.steer_pending_buffered()).count(text) == held(state).count(text) by {
        assert(held(buffered).count(text) == held(state).count(text) + texts_of(
            state.steer_pending,
        ).count(text));
    }
    assert(held(state.steer_pending_buffered()) =~= held(state));
}

proof fn lemma_held_downgraded(state: ControllerView)
    ensures
        held(state.downgraded()) == held(state),
{
    broadcast use vstd::multiset::group_multiset_axioms;

    let moved = controller_model::all_with_mode(state.pending_immediate, QueueMode::NextTurn);
    lemma_texts_with_mode(state.pending_immediate, QueueMode::NextTurn);
    lemma_texts_add(moved, state.next_turn);
    lemma_texts_none();
    assert(held(state.downgraded()) =~= held(state));
}

proof fn lemma_after_turn_accounted(state: ControllerView)
    ensures
        accounted(state.after_turn()) == held(state),
{
    broadcast use vstd::multiset::group_multiset_axioms;

    lemma_held_steer_pending_buffered(state);
    let flushed = state.steer_pending_buffered();
    if flushed.after_tool_call.len() > 0 {
        lemma_texts_first(flushed.after_tool_call);
    } else if flushed.after_any_item.len() > 0 {
        lemma_texts_first(flushed.after_any_item);
    } else if flushed.next_turn.len() > 0 {
        lemma_texts_first(flushed.next_turn);
    }
    assert(accounted(state.after_turn()) =~= held(state));
}

proof fn lemma_finish_turn_accounted(state: ControllerView)
    ensures
        accounted(state.finish_turn()) == held(state),
{
    lemma_held_downgraded(state);
    lemma_after_turn_accounted(
        ControllerView { turn_state: TurnStateView::Idle, ..state.downgraded() },
    );
}

proof fn lemma_release_immediate_accounted(state: ControllerView)
    ensures
        accounted(state.release_immediate()) == held(state),
{
    broadcast use vstd::multiset::group_multiset_axioms;

    if state.pending_immediate.len() > 0 {
        lemma_texts_first(state.pending_immediate);
    }
    assert(accounted(state.release_immediate()) =~= held(state));
}

proof fn lemma_receive_accounted(state: ControllerView, message: MessageView)
    ensures
        accounted(state.receive(message)) == held(state).insert(message.text),
{
    broadcast use vstd::multiset::group_multiset_axioms;

    lemma_texts_push(state.pending_immediate, message);
    lemma_texts_push(state.steer_pending, message);
    lemma_held_buffered(state, seq![message]);
    lemma_texts_one(message);
    assert(accounted(state.receive(message)) =~= held(state).insert(message.text));
}

/// Whether an arriving message can only be held back.
spec fn quiet(state: ControllerView) -> bool {
    &&& !(state.turn_state is Idle)
    &&& state.turn_state is Running ==> state.pending_steer_turn_id is Some
}

proof fn lemma_receive_all_accounted(state: ControllerView, messages: Seq<MessageView>)
    ensures
        accounted(state.receive_all(messages)) == held(state).add(texts_of(messages)),
        state.receive_all(messages).1 is Some ==> quiet(state.receive_all(messages).0),
    decreases messages.len(),
{
    broadcast use vstd::multiset::group_multiset_axioms;

    lemma_texts_none();
    if messages.len() == 0 {
        assert(messages =~= Seq::empty());
        assert(accounted(state.receive_all(messages)) =~= held(state).add(texts_of(messages)));
    } else {
        let rest = messages.drop_last();
        lemma_receive_all_accounted(state, rest);
        let before = state.receive_all(rest).0;
        lemma_receive_accounted(before, messages.last());
        lemma_texts_push(rest, messages.last());
        assert(messages =~= rest.push(messages.last()));
        let released = state.receive_all(rest).1;
        let (after, last) = before.receive(messages.last());
        assert(released is Some ==> last is None);
        assert forall|text: Seq<char>|
            #[trigger] accounted(state.receive_all(messages)).count(text) == held(state).add(
                texts_of(messages),
            ).count(text) by {
            assert(accounted((before, released)).count(text) == held(state).count(text) + texts_of(
                rest,
            ).count(text));
            assert(accounted((after, last)).count(text) == held(before).insert(
                messages.last().text,
            ).count(text));
        }
        assert(accounted(state.receive_all(messages)) =~= held(state).add(texts_of(messages)));
    }
}

proof fn lemma_resume_accounted(state: ControllerView)
    ensures
        accounted(state.resume_running()) == held(state),
{
    broadcast use vstd::multiset::group_multiset_axioms;

    let flushed = ControllerView { steer_pending: Seq::empty(), ..state };
    lemma_texts_none();
    assert(held(flushed).add(texts_of(state.steer_pending)) =~= held(state));
    lemma_receive_all_accounted(flushed, state.steer_pending);
    let (after, released) = flushed.receive_all(state.steer_pending);
    lemma_release_immediate_accounted(after);
    assert(accounted(state.resume_running()) =~= held(state));
}

proof fn lemma_turn_accepted_accounted(state: ControllerView, turn_id: Seq<char>)
    ensures
        accounted(state.turn_accepted(turn_id)) == held(state),
{
    let done = ControllerView {
        pending_turn_message: None,
        pending_turn_completed_id: None,
        ..state
    };
    let running = ControllerView {
        turn_state: TurnStateView::Running { turn_id },
        pending_turn_message: None,
        pending_steer_turn_id: None,
        ..state
    };
    lemma_finish_turn_accounted(done);
    lemma_resume_accounted(running);
}

proof fn lemma_unreleased_accounted(state: ControllerView)
    ensures
        accounted((state, None)) == held(state),
{
    broadcast use vstd::multiset::group_multiset_axioms;

    assert(accounted((state, None)) =~= held(state));
}

/// No message is lost and none is sent twice: what a controller holds after an
/// event, together with what the event sends, is what it held before, together
/// with what the event hands in.
pub proof fn no_message_is_lost_or_repeated(state: ControllerView, event: EventView)
    ensures
        accounted(state.step(event)) == held(state).add(handed_in(state, event)),
{
    broadcast use vstd::multiset::group_multiset_axioms;

    let after = state.step(event).0;
    lemma_unreleased_accounted(state);
    lemma_unreleased_accounted(after);
    assert(held(state).add(Multiset::empty()) =~= held(state));
    match event {
        EventView::MessageReceived(message) => {
            lemma_receive_accounted(state, message);
            assert(held(state).insert(message.text) =~= held(state).add(
                Multiset::singleton(message.text),
            ));
        },
        EventView::TurnStartAccepted => {
            if let TurnStateView::TurnStartPending { reserved_turn_id: Some(turn_id) } =
                state.turn_state {
                lemma_turn_accepted_accounted(state, turn_id);
            }
        },
        EventView::TurnStartAcceptedWithTurnId { turn_id } => {
            lemma_turn_accepted_accounted(state, turn_id);
            lemma_turn_accepted_accounted(
                ControllerView { pending_turn_completed_id: None, ..state },
                turn_id,
            );
        },
        EventView::TurnStartRejectedActiveTurnNotSteerable => {
            lemma_start_rejected_accounted(state);
        },
        EventView::TurnStarted { thread_id, turn_id } => {
            lemma_release_immediate_accounted(
                ControllerView { turn_state: TurnStateView::Running { turn_id }, ..state },
            );
        },
        EventView::ActiveTurnReconciled { .. } => {},
        EventView::TurnCompleted { .. } => {
            lemma_finish_turn_accounted(state);
        },
        EventView::TerminalInteraction { .. } => {
            if state.after_tool_call.len() > 0 {
                lemma_texts_first(state.after_tool_call);
            }
            if state.after_any_item.len() > 0 {
                lemma_texts_first(state.after_any_item);
            }
            assert(accounted(state.step(event)) =~= held(state));
        },
        EventView::ItemCompleted { .. } => {
            if state.after_any_item.len() > 0 {
                lemma_texts_first(state.after_any_item);
            }
            assert(accounted(state.step(event)) =~= held(state));
        },
        EventView::SteerRejectedActiveTurnNotSteerable { message } => {
            lemma_steer_rejected_accounted(state, message);
        },
        EventView::SteerAccepted { turn_id } => {
            let answered = ControllerView { pending_steer_turn_id: None, ..state };
            let done = ControllerView { pending_turn_completed_id: None, ..answered };
            lemma_held_steer_pending_buffered(done);
            lemma_finish_turn_accounted(done.steer_pending_buffered());
            lemma_resume_accounted(answered);
        },
    }
}

proof fn lemma_start_rejected_accounted(state: ControllerView)
    ensures
        accounted(state.on_turn_start_rejected()) == held(state).add(
            handed_in(state, EventView::TurnStartRejectedActiveTurnNotSteerable),
        ),
{
    broadcast use vstd::multiset::group_multiset_axioms;

    lemma_unreleased_accounted(state);
    assert(held(state).add(Multiset::empty()) =~= held(state));
    if let TurnStateView::TurnStartPending { reserved_turn_id } = state.turn_state {
        let back = ControllerView {
            next_turn: match state.pending_turn_message {
                Some(message) => seq![message.with_mode(QueueMode::NextTurn)] + state.next_turn,
                None => state.next_turn,
            },
            pending_turn_message: None,
            pending_steer_turn_id: None,
            ..state
        };
        if let Some(message) = state.pending_turn_message {
            lemma_texts_push_front(state.next_turn, message.with_mode(QueueMode::NextTurn));
        }
        assert(held(back) =~= held(state).add(
            handed_in(state, EventView::TurnStartRejectedActiveTurnNotSteerable),
        ));
        lemma_finish_turn_accounted(ControllerView { pending_turn_completed_id: None, ..back });
        if let Some(turn_id) = reserved_turn_id {
            lemma_release_immediate_accounted(
                ControllerView { turn_state: TurnStateView::Running { turn_id }, ..back },
            );
        }
        lemma_unreleased_accounted(back.busy_unknown());
    }
}

proof fn lemma_steer_rejected_accounted(state: ControllerView, message: MessageView)
    ensures
        accounted(state.on_steer_rejected(message)) == held(state).add(
            Multiset::singleton(message.text),
        ),
{
    broadcast use vstd::multiset::group_multiset_axioms;

    let moved = message.with_mode(QueueMode::NextTurn);
    let completed = state.pending_turn_completed_id is Some;
    let back = ControllerView {
        pending_steer_turn_id: None,
        pending_turn_completed_id: None,
        next_turn: if completed {
            seq![moved] + state.next_turn
        } else {
            state.next_turn.push(moved)
        },
        ..state
    };
    lemma_texts_push_front(state.next_turn, moved);
    lemma_texts_push(state.next_turn, moved);
    assert(held(back) =~= held(state).add(Multiset::singleton(message.text)));
    lemma_held_steer_pending_buffered(back);
    lemma_held_downgraded(back.steer_pending_buffered());
    let settled = back.steer_pending_buffered().downgraded();
    lemma_after_turn_accounted(ControllerView { turn_state: TurnStateView::Idle, ..settled });
    lemma_after_turn_accounted(settled);
    lemma_unreleased_accounted(settled);
}

/// Whether every message of a queue has the mode of the queue.
pub open spec fn all_in_mode(messages: Seq<MessageView>, queue_mode: QueueMode) -> bool {
    forall|i: int| 0 <= i < messages.len() ==> (#[trigger] messages[i]).queue_mode == queue_mode
}

/// What holds of every controller that was built and driven through its methods:
/// a steer is only unanswered while a turn is under way; a turn start that is
/// under way has its message; an idle thread holds nothing back; and each queue
/// holds messages of its own mode.
pub open spec fn orderly(state: ControllerView) -> bool {
    &&& state.pending_steer_turn_id is Some ==> state.turn_state is Running
        || state.turn_state is BusyUnknownTurn
    &&& state.turn_state is TurnStartPending ==> state.pending_turn_message is Some
    &&& state.turn_state is Idle ==> {
        &&& state.pending_immediate.len() == 0
        &&& state.steer_pending.len() == 0
        &&& state.after_tool_call.len() == 0
        &&& state.after_any_item.len() == 0
        &&& state.next_turn.len() == 0
    }
    &&& all_in_mode(state.pending_immediate, QueueMode::Immediate)
    &&& all_in_mode(state.after_tool_call, QueueMode::AfterToolCall)
    &&& all_in_mode(state.after_any_item, QueueMode::AfterAnyItem)
    &&& all_in_mode(state.next_turn, QueueMode::NextTurn)
}

/// What holds beyond that of a controller that was not marked as busy while a
/// turn start was under way: a message is kept for a turn start only while one
/// is under way.
pub open spec fn sound(state: ControllerView) -> bool {
    &&& orderly(state)
    &&& state.pending_turn_message is Some ==> state.turn_state is TurnStartPending
}

/// Whether each queue holds messages of its own mode.
spec fn sorted(state: ControllerView) -> bool {
    &&& all_in_mode(state.pending_immediate, QueueMode::Immediate)
    &&& all_in_mode(state.after_tool_call, QueueMode::AfterToolCall)
    &&& all_in_mode(state.after_any_item, QueueMode::AfterAnyItem)
    &&& all_in_mode(state.next_turn, QueueMode::NextTurn)
}

proof fn lemma_buffered_sorted(state: ControllerView, messages: Seq<MessageView>)
    requires
        sorted(state),
    ensures
        sorted(state.buffered(messages)),
{
}

/// Once a turn has ended, either the next one is being started or nothing is
/// held back.
proof fn lemma_after_turn_orderly(state: ControllerView)
    requires
        sorted(state),
        state.turn_state is Idle,
        state.pending_immediate.len() == 0,
        state.pending_steer_turn_id is None,
    ensures
        orderly(state.after_turn().0),
{
    lemma_buffered_sorted(state, state.steer_pending);
}

proof fn lemma_finish_turn_orderly(state: ControllerView)
    requires
        sorted(state),
        state.pending_steer_turn_id is None,
    ensures
        orderly(state.finish_turn().0),
{
    lemma_after_turn_orderly(
        ControllerView { turn_state: TurnStateView::Idle, ..state.downgraded() },
    );
}

proof fn lemma_receive_all_orderly(state: ControllerView, messages: Seq<MessageView>)
    requires
        orderly(state),
    ensures
        orderly(state.receive_all(messages).0),
    decreases messages.len(),
{
    if messages.len() > 0 {
        lemma_receive_all_orderly(state, messages.drop_last());
        let before = state.receive_all(messages.drop_last()).0;
        lemma_buffered_sorted(before, seq![messages.last()]);
    }
}

proof fn lemma_resume_orderly(state: ControllerView)
    requires
        orderly(state),
    ensures
        orderly(state.resume_running().0),
{
    lemma_receive_all_orderly(
        ControllerView { steer_pending: Seq::empty(), ..state },
        state.steer_pending,
    );
}

proof fn lemma_receive_all_keeps_message(state: ControllerView, messages: Seq<MessageView>)
    requires
        state.pending_turn_message is Some ==> state.turn_state is TurnStartPending,
    ensures
        ({
            let after = state.receive_all(messages).0;
            after.pending_turn_message is Some ==> after.turn_state is TurnStartPending
        }),
    decreases messages.len(),
{
    if messages.len() > 0 {
        lemma_receive_all_keeps_message(state, messages.drop_last());
    }
}

proof fn lemma_step_keeps_message(state: ControllerView, event: EventView)
    requires
        sound(state),
    ensures
        ({
            let after = state.step(event).0;
            after.pending_turn_message is Some ==> after.turn_state is TurnStartPending
        }),
{
    match event {
        EventView::TurnStartAccepted => {
            if let TurnStateView::TurnStartPending { reserved_turn_id: Some(turn_id) } =
                state.turn_state {
                lemma_turn_accepted_keeps_message(state, turn_id);
            }
        },
        EventView::TurnStartAcceptedWithTurnId { turn_id } => {
            lemma_turn_accepted_keeps_message(state, turn_id);
            lemma_turn_accepted_keeps_message(
                ControllerView { pending_turn_completed_id: None, ..state },
                turn_id,
            );
        },
        EventView::SteerAccepted { turn_id } => {
            lemma_receive_all_keeps_message(
                ControllerView {
                    pending_steer_turn_id: None,
                    steer_pending: Seq::empty(),
                    ..state
                },
                state.steer_pending,
            );
        },
        _ => {},
    }
}

proof fn lemma_turn_accepted_keeps_message(state: ControllerView, turn_id: Seq<char>)
    ensures
        ({
            let after = state.turn_accepted(turn_id).0;
            after.pending_turn_message is Some ==> after.turn_state is TurnStartPending
        }),
{
    lemma_receive_all_keeps_message(
        ControllerView {
            turn_state: TurnStateView::Running { turn_id },
            pending_turn_message: None,
            pending_steer_turn_id: None,
            steer_pending: Seq::empty(),
            ..state
        },
        state.steer_pending,
    );
}

/// A new controller is sound, and every method that changes a controller keeps
/// it sound; but one that is marked as busy while a turn start is under way is
/// only orderly from then on, since it still has the message of that start. What
/// is orderly stays so in any case.
pub proof fn controllers_stay_sound(
    state: ControllerView,
    event: EventView,
    message: MessageView,
    reason: ReleaseReason,
)
    requires
        orderly(state),
    ensures
        sound(ControllerView::fresh(state.thread_id)),
        orderly(state.step(event).0),
        orderly(state.busy_unknown()),
        orderly(ControllerView { validation_error: None, ..state }),
        sound(state.start(message, reason).0),
        sound(state) ==> {
            &&& sound(state.step(event).0)
            &&& sound(ControllerView { validation_error: None, ..state })
            &&& sound(state.busy_unknown()) <==> !(state.turn_state is TurnStartPending)
        },
{
    if sound(state) {
        lemma_step_keeps_message(state, event);
    }
    match event {
        EventView::MessageReceived(message) => {
            lemma_buffered_sorted(state, seq![message]);
        },
        EventView::TurnStartAccepted => {
            if let TurnStateView::TurnStartPending { reserved_turn_id: Some(turn_id) } =
                state.turn_state {
                lemma_turn_accepted_orderly(state, turn_id);
            }
        },
        EventView::TurnStartAcceptedWithTurnId { turn_id } => {
            if state.turn_state is TurnStartPending {
                lemma_turn_accepted_orderly(state, turn_id);
                lemma_turn_accepted_orderly(
                    ControllerView { pending_turn_completed_id: None, ..state },
                    turn_id,
                );
            }
        },
        EventView::TurnStartRejectedActiveTurnNotSteerable => {
            let back = ControllerView {
                next_turn: match state.pending_turn_message {
                    Some(message) => seq![message.with_mode(QueueMode::NextTurn)] + state.next_turn,
                    None => state.next_turn,
                },
                pending_turn_message: None,
                pending_steer_turn_id: None,
                ..state
            };
            lemma_finish_turn_orderly(ControllerView { pending_turn_completed_id: None, ..back });
        },
        EventView::TurnCompleted { .. } => {
            if state.pending_steer_turn_id is None {
                lemma_finish_turn_orderly(state);
            }
        },
        EventView::SteerRejectedActiveTurnNotSteerable { message } => {
            let moved = message.with_mode(QueueMode::NextTurn);
            let back = ControllerView {
                pending_steer_turn_id: None,
                pending_turn_completed_id: None,
                next_turn: if state.pending_turn_completed_id is Some {
                    seq![moved] + state.next_turn
                } else {
                    state.next_turn.push(moved)
                },
                ..state
            };
            lemma_buffered_sorted(back, back.steer_pending);
            let settled = back.steer_pending_buffered().downgraded();
            lemma_after_turn_orderly(
                ControllerView { turn_state: TurnStateView::Idle, ..settled },
            );
            if settled.turn_state is Idle {
                lemma_after_turn_orderly(settled);
            }
        },
        EventView::SteerAccepted { turn_id } => {
            let answered = ControllerView { pending_steer_turn_id: None, ..state };
            let done = ControllerView { pending_turn_completed_id: None, ..answered };
            lemma_buffered_sorted(done, done.steer_pending);
            lemma_finish_turn_orderly(done.steer_pending_buffered());
            lemma_resume_orderly(answered);
        },
        _ => {},
    }
}

proof fn lemma_turn_accepted_orderly(state: ControllerView, turn_id: Seq<char>)
    requires
        orderly(state),
        state.turn_state is TurnStartPending,
    ensures
        orderly(state.turn_accepted(turn_id).0),
{
    lemma_finish_turn_orderly(
        ControllerView { pending_turn_message: None, pending_turn_completed_id: None, ..state },
    );
    lemma_resume_orderly(
        ControllerView {
            turn_state: TurnStateView::Running { turn_id },
            pending_turn_message: None,
            pending_steer_turn_id: None,
            ..state
        },
    );
}

/// A message that finds the thread idle starts a turn at once, unchanged.
pub proof fn an_idle_thread_starts_a_turn(state: ControllerView, message: MessageView)
    requires
        state.turn_state is Idle,
    ensures
        state.step(EventView::MessageReceived(message)).1 == Some(
            DecisionView { action: ActionView::StartTurn, reason: ReleaseReason::Idle, message },
        ),
{
}

/// An event of another thread changes nothing and sends nothing.
pub proof fn other_threads_do_not_matter(
    state: ControllerView,
    thread_id: Seq<char>,
    turn_id: Seq<char>,
    signal: CompletionSignal,
)
    requires
        thread_id != state.thread_id,
    ensures
        state.step(EventView::TurnStarted { thread_id, turn_id }) == (state, None::<DecisionView>),
        state.step(EventView::ActiveTurnReconciled { thread_id, turn_id }) == (
            state,
            None::<DecisionView>,
        ),
        state.step(EventView::TurnCompleted { thread_id, turn_id }) == (
            state,
            None::<DecisionView>,
        ),
        state.step(EventView::TerminalInteraction { thread_id, turn_id }) == (
            state,
            None::<DecisionView>,
        ),
        state.step(EventView::ItemCompleted { thread_id, turn_id, signal }) == (
            state,
            None::<DecisionView>,
        ),
{
}

/// Item events of a turn that is not the active one change nothing.
pub proof fn other_turns_items_do_not_matter(
    state: ControllerView,
    thread_id: Seq<char>,
    turn_id: Seq<char>,
    signal: CompletionSignal,
)
    requires
        state.active_turn() != Some(turn_id),
    ensures
        state.step(EventView::TerminalInteraction { thread_id, turn_id }) == (
            state,
            None::<DecisionView>,
        ),
        state.step(EventView::ItemCompleted { thread_id, turn_id, signal }) == (
            state,
            None::<DecisionView>,
        ),
{
}

/// A steer goes to the turn that then runs, and is then the unanswered one; a
/// turn start leaves no steer unanswered.
pub proof fn a_release_is_what_is_awaited(state: ControllerView, event: EventView)
    ensures
        match state.step(event) {
            (after, Some(decision)) => match decision.action {
                ActionView::SteerTurn { turn_id } => after.pending_steer_turn_id == Some(turn_id)
                    && after.active_turn() == Some(turn_id),
                ActionView::StartTurn => {
                    &&& after.pending_steer_turn_id is None
                    &&& after.turn_state == TurnStateView::TurnStartPending {
                        reserved_turn_id: None,
                    }
                    &&& after.pending_turn_message == Some(decision.message)
                },
            },
            _ => true,
        },
{
    match event {
        EventView::TurnStartAccepted => {
            if let TurnStateView::TurnStartPending { reserved_turn_id: Some(turn_id) } =
                state.turn_state {
                lemma_turn_accepted_release(state, turn_id);
            }
        },
        EventView::TurnStartAcceptedWithTurnId { turn_id } => {
            lemma_turn_accepted_release(state, turn_id);
            lemma_turn_accepted_release(
                ControllerView { pending_turn_completed_id: None, ..state },
                turn_id,
            );
        },
        EventView::SteerAccepted { turn_id } => {
            let answered = ControllerView { pending_steer_turn_id: None, ..state };
            lemma_resume_release(answered);
        },
        _ => {},
    }
}

/// Whether a decision is what the controller then waits for.
spec fn awaited(outcome: Outcome) -> bool {
    match outcome {
        (after, Some(decision)) => match decision.action {
            ActionView::SteerTurn { turn_id } => after.pending_steer_turn_id == Some(turn_id)
                && after.active_turn() == Some(turn_id),
            ActionView::StartTurn => {
                &&& after.pending_steer_turn_id is None
                &&& after.turn_state == TurnStateView::TurnStartPending { reserved_turn_id: None }
                &&& after.pending_turn_message == Some(decision.message)
            },
        },
        _ => true,
    }
}

proof fn lemma_receive_all_release(state: ControllerView, messages: Seq<MessageView>)
    ensures
        awaited(state.receive_all(messages)),
    decreases messages.len(),
{
    if messages.len() > 0 {
        lemma_receive_all_release(state, messages.drop_last());
    }
}

proof fn lemma_resume_release(state: ControllerView)
    ensures
        awaited(state.resume_running()),
{
    lemma_receive_all_release(
        ControllerView { steer_pending: Seq::empty(), ..state },
        state.steer_pending,
    );
}

proof fn lemma_turn_accepted_release(state: ControllerView, turn_id: Seq<char>)
    ensures
        awaited(state.turn_accepted(turn_id)),
{
    lemma_resume_release(
        ControllerView {
            turn_state: TurnStateView::Running { turn_id },
            pending_turn_message: None,
            pending_steer_turn_id: None,
            ..state
        },
    );
}

/// While a steer is unanswered, messages, item events and the end of the turn
/// send nothing.
pub proof fn one_steer_at_a_time(
    state: ControllerView,
    thread_id: Seq<char>,
    turn_id: Seq<char>,
    signal: CompletionSignal,
    message: MessageView,
)
    requires
        orderly(state),
        state.pending_steer_turn_id is Some,
    ensures
        state.step(EventView::MessageReceived(message)).1 is None,
        state.step(EventView::TerminalInteraction { thread_id, turn_id }).1 is None,
        state.step(EventView::ItemCompleted { thread_id, turn_id, signal }).1 is None,
        state.step(EventView::TurnCompleted { thread_id, turn_id }).1 is None,
        state.step(EventView::TurnStarted { thread_id, turn_id }).1 is None,
        state.step(EventView::ActiveTurnReconciled { thread_id, turn_id }).1 is None,
        state.step(EventView::TurnStartAccepted).1 is None,
        state.step(EventView::TurnStartAcceptedWithTurnId { turn_id }).1 is None,
        state.step(EventView::TurnStartRejectedActiveTurnNotSteerable).1 is None,
{
}

/// When the active turn ends while no steer is unanswered, a held message starts
/// the next turn: first one that waits for a tool call, then one that waits for
/// any item, then one of the next turn. With nothing held the thread is idle.
pub proof fn an_ended_turn_is_followed_by_what_waits(state: ControllerView, turn_id: Seq<char>)
    requires
        state.active_turn() == Some(turn_id),
        state.pending_steer_turn_id is None,
        state.steer_pending.len() == 0,
    ensures
        ({
            let (after, released) = state.step(
                EventView::TurnCompleted { thread_id: state.thread_id, turn_id },
            );
            if state.after_tool_call.len() > 0 {
                &&& released matches Some(decision)
                &&& decision.action is StartTurn
                &&& decision.reason == ReleaseReason::AfterToolCall
                &&& decision.message.text == state.after_tool_call.first().text
            } else if state.after_any_item.len() > 0 {
                &&& released matches Some(decision)
                &&& decision.action is StartTurn
                &&& decision.reason == ReleaseReason::AfterAnyItem
                &&& decision.message == state.after_any_item.first()
            } else if state.pending_immediate.len() > 0 {
                &&& released matches Some(decision)
                &&& decision.action is StartTurn
                &&& decision.reason == ReleaseReason::NextTurn
                &&& decision.message.text == state.pending_immediate.first().text
            } else if state.next_turn.len() > 0 {
                &&& released matches Some(decision)
                &&& decision.action is StartTurn
                &&& decision.reason == ReleaseReason::NextTurn
                &&& decision.message.text == state.next_turn.first().text
            } else {
                released is None && after.turn_state is Idle
            }
        }),
{
    let idle = ControllerView { turn_state: TurnStateView::Idle, ..state.downgraded() };
    assert(idle.steer_pending =~= Seq::empty());
    controller_model::lemma_buffered_nothing(idle);
}

/// A reconciled turn agrees with what the server then says about it: neither its
/// start nor the answer to the turn start or to an unanswered steer is reported
/// as a violation.
pub proof fn reconciliation_prevents_mismatches(state: ControllerView, turn_id: Seq<char>)
    requires
        state.validation_error is None,
    ensures
        ({
            let thread_id = state.thread_id;
            let after = state.step(EventView::ActiveTurnReconciled { thread_id, turn_id }).0;
            &&& after.validation_error is None
            &&& after.step(EventView::TurnStarted { thread_id, turn_id }).0.validation_error is None
            &&& after.step(EventView::TurnStartAccepted).0.validation_error is None
            &&& after.step(
                EventView::TurnStartAcceptedWithTurnId { turn_id },
            ).0.validation_error is None
            &&& state.pending_steer_turn_id is Some ==> after.step(
                EventView::SteerAccepted { turn_id },
            ).0.validation_error is None
        }),
{
    let thread_id = state.thread_id;
    let after = state.step(EventView::ActiveTurnReconciled { thread_id, turn_id }).0;
    let running = ControllerView {
        turn_state: TurnStateView::Running { turn_id },
        pending_turn_message: None,
        pending_steer_turn_id: None,
        ..after
    };
    lemma_resume_reports_nothing(running);
    lemma_resume_reports_nothing(ControllerView { pending_turn_completed_id: None, ..running });
    lemma_resume_reports_nothing(ControllerView { pending_steer_turn_id: None, ..after });
}

proof fn lemma_receive_all_reports_nothing(state: ControllerView, messages: Seq<MessageView>)
    ensures
        state.receive_all(messages).0.validation_error == state.validation_error,
    decreases messages.len(),
{
    if messages.len() > 0 {
        lemma_receive_all_reports_nothing(state, messages.drop_last());
    }
}

proof fn lemma_resume_reports_nothing(state: ControllerView)
    ensures
        state.resume_running().0.validation_error == state.validation_error,
{
    lemma_receive_all_reports_nothing(
        ControllerView { steer_pending: Seq::empty(), ..state },
        state.steer_pending,
    );
}

/// Whether no message of a batch wants to be released at once.
pub open spec fn none_immediate(messages: Seq<MessageView>) -> bool {
    forall|i: int|
        0 <= i < messages.len() ==> (#[trigger] messages[i]).queue_mode != QueueMode::Immediate
}

/// What arrived behind an unanswered steer is taken up in order once the steer
/// is accepted: the messages before the first immediate one are buffered, that
/// one steers the turn, and the others wait for the answer to it.
pub proof fn an_accepted_steer_takes_up_the_arrivals(
    state: ControllerView,
    turn_id: Seq<char>,
    before: Seq<MessageView>,
    immediate: MessageView,
    behind: Seq<MessageView>,
)
    requires
        state.active_turn() == Some(turn_id),
        state.pending_steer_turn_id == Some(turn_id),
        state.pending_turn_completed_id is None,
        none_immediate(before),
        immediate.queue_mode == QueueMode::Immediate,
        state.steer_pending == before + seq![immediate] + behind,
    ensures
        state.step(EventView::SteerAccepted { turn_id }) == (
            ControllerView {
                steer_pending: behind,
                pending_steer_turn_id: Some(turn_id),
                ..state.buffered(before)
            },
            Some(
                DecisionView {
                    action: ActionView::SteerTurn { turn_id },
                    reason: ReleaseReason::Immediate,
                    message: immediate,
                },
            ),
        ),
{
    let answered = ControllerView {
        steer_pending: Seq::empty(),
        pending_steer_turn_id: None,
        ..state
    };
    let steering = ControllerView {
        pending_steer_turn_id: Some(turn_id),
        ..answered.buffered(before)
    };
    lemma_receive_all_buffers(answered, before);
    lemma_receive_all_add(answered, before, seq![immediate]);
    lemma_receive_one(answered.buffered(before), immediate);
    lemma_receive_all_add(answered, before + seq![immediate], behind);
    lemma_receive_all_waits(steering, behind);
    assert(steering.steer_pending + behind =~= behind);
    let after = state.step(EventView::SteerAccepted { turn_id }).0;
    assert(after =~= (ControllerView {
        steer_pending: behind,
        pending_steer_turn_id: Some(turn_id),
        ..state.buffered(before)
    }));
}

proof fn lemma_receive_one(state: ControllerView, message: MessageView)
    ensures
        state.receive_all(seq![message]) == state.receive(message),
{
    reveal_with_fuel(ControllerView::receive_all, 2);
    assert(seq![message].drop_last() =~= Seq::empty());
}

proof fn lemma_receive_all_add(
    state: ControllerView,
    first: Seq<MessageView>,
    second: Seq<MessageView>,
)
    ensures
        ({
            let (middle, released) = state.receive_all(first);
            let (after, later) = middle.receive_all(second);
            state.receive_all(first + second) == (
                after,
                if released is Some {
                    released
                } else {
                    later
                },
            )
        }),
    decreases second.len(),
{
    if second.len() == 0 {
        assert(first + second =~= first);
    } else {
        lemma_receive_all_add(state, first, second.drop_last());
        assert((first + second).drop_last() =~= first + second.drop_last());
    }
}

proof fn lemma_receive_all_buffers(state: ControllerView, messages: Seq<MessageView>)
    requires
        state.turn_state is Running,
        state.pending_steer_turn_id is None,
        none_immediate(messages),
    ensures
        state.receive_all(messages) == (state.buffered(messages), None::<DecisionView>),
    decreases messages.len(),
{
    if messages.len() == 0 {
        assert(messages =~= Seq::empty());
        controller_model::lemma_buffered_nothing(state);
    } else {
        lemma_receive_all_buffers(state, messages.drop_last());
        controller_model::lemma_buffered_add(state, messages.drop_last(), seq![messages.last()]);
        assert(messages =~= messages.drop_last() + seq![messages.last()]);
        assert(messages[messages.len() - 1].queue_mode != QueueMode::Immediate);
    }
}

proof fn lemma_receive_all_waits(state: ControllerView, messages: Seq<MessageView>)
    requires
        state.turn_state is Running,
        state.pending_steer_turn_id is Some,
    ensures
        state.receive_all(messages) == (
            ControllerView { steer_pending: state.steer_pending + messages, ..state },
            None::<DecisionView>,
        ),
    decreases messages.len(),
{
    if messages.len() == 0 {
        assert(state.steer_pending + messages =~= state.steer_pending);
    } else {
        lemma_receive_all_waits(state, messages.drop_last());
        assert((state.steer_pending + messages.drop_last()).push(messages.last())
            =~= state.steer_pending + messages);
    }
}

/// While a turn runs and no steer is unanswered, what waits is steered into the
/// turn in its time, oldest first: a completed item of the agent releases what
/// waits for any item, and a tool call also, and before that, what waits for a
/// tool call. Other items release nothing, and what waits for the next turn is
/// released by neither.
pub proof fn items_release_what_waits_for_them(state: ControllerView, turn_id: Seq<char>)
    requires
        state.active_turn() == Some(turn_id),
        state.pending_steer_turn_id is None,
    ensures
        ({
            let thread_id = state.thread_id;
            let ignored = state.step(
                EventView::ItemCompleted { thread_id, turn_id, signal: CompletionSignal::Ignore },
            );
            let completed = state.step(
                EventView::ItemCompleted {
                    thread_id,
                    turn_id,
                    signal: CompletionSignal::ReleasesAfterAnyItem,
                },
            );
            let called = state.step(EventView::TerminalInteraction { thread_id, turn_id });
            let steering = ControllerView { pending_steer_turn_id: Some(turn_id), ..state };
            &&& ignored == (state, None::<DecisionView>)
            &&& completed == if state.after_any_item.len() > 0 {
                (
                    ControllerView { after_any_item: state.after_any_item.drop_first(), ..steering },
                    Some(
                        DecisionView {
                            action: ActionView::SteerTurn { turn_id },
                            reason: ReleaseReason::AfterAnyItem,
                            message: state.after_any_item.first(),
                        },
                    ),
                )
            } else {
                (state, None)
            }
            &&& called == if state.after_tool_call.len() > 0 {
                (
                    ControllerView {
                        after_tool_call: state.after_tool_call.drop_first(),
                        ..steering
                    },
                    Some(
                        DecisionView {
                            action: ActionView::SteerTurn { turn_id },
                            reason: ReleaseReason::AfterToolCall,
                            message: state.after_tool_call.first(),
                        },
                    ),
                )
            } else {
                completed
            }
        }),
{
}

/// A message that comes while a turn runs and waits for any item is steered into
/// that turn, unchanged, by the next completed item of the agent, where nothing
/// else waits for one and no steer is unanswered.
pub proof fn a_message_after_any_item_joins_the_turn(
    state: ControllerView,
    turn_id: Seq<char>,
    message: MessageView,
)
    requires
        state.active_turn() == Some(turn_id),
        state.pending_steer_turn_id is None,
        state.after_any_item.len() == 0,
        message.queue_mode == QueueMode::AfterAnyItem,
    ensures
        ({
            let (waiting, at_once) = state.step(EventView::MessageReceived(message));
            let (after, released) = waiting.step(
                EventView::ItemCompleted {
                    thread_id: state.thread_id,
                    turn_id,
                    signal: CompletionSignal::ReleasesAfterAnyItem,
                },
            );
            &&& at_once is None
            &&& released == Some(
                DecisionView {
                    action: ActionView::SteerTurn { turn_id },
                    reason: ReleaseReason::AfterAnyItem,
                    message,
                },
            )
            &&& after == ControllerView { pending_steer_turn_id: Some(turn_id), ..state }
        }),
{
    controller_model::lemma_waiting_in_single(message);
    let waiting = state.step(EventView::MessageReceived(message)).0;
    assert(waiting.after_any_item =~= seq![message]);
    assert(waiting.after_any_item.drop_first() =~= state.after_any_item);
    assert(waiting.after_tool_call =~= state.after_tool_call);
    assert(waiting.next_turn =~= state.next_turn);
}

} // verus!
