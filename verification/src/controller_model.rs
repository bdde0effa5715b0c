//! The mathematical model of the turn controller: its state, its events and
//! what each event does.

use vstd::prelude::*;

use crate::controller::{CompletionSignal, ReleaseReason};
use crate::queue_mode::QueueMode;

verus! {

/// A message, as text.
#[verifier::ext_equal]
pub struct MessageView {
    pub queue_mode: QueueMode,
    pub text: Seq<char>,
}

/// The state of the thread's turn.
#[verifier::ext_equal]
pub enum TurnStateView {
    Idle,
    TurnStartPending { reserved_turn_id: Option<Seq<char>> },
    Running { turn_id: Seq<char> },
    BusyUnknownTurn,
}

/// What can happen to a controller.
#[verifier::ext_equal]
pub enum EventView {
    MessageReceived(MessageView),
    TurnStartAccepted,
    TurnStartAcceptedWithTurnId { turn_id: Seq<char> },
    TurnStartRejectedActiveTurnNotSteerable,
    TurnStarted { thread_id: Seq<char>, turn_id: Seq<char> },
    ActiveTurnReconciled { thread_id: Seq<char>, turn_id: Seq<char> },
    TurnCompleted { thread_id: Seq<char>, turn_id: Seq<char> },
    TerminalInteraction { thread_id: Seq<char>, turn_id: Seq<char> },
    ItemCompleted { thread_id: Seq<char>, turn_id: Seq<char>, signal: CompletionSignal },
    SteerRejectedActiveTurnNotSteerable { message: MessageView },
    SteerAccepted { turn_id: Seq<char> },
}

/// How a released message reaches the model.
#[verifier::ext_equal]
pub enum ActionView {
    StartTurn,
    SteerTurn { turn_id: Seq<char> },
}

/// A message that leaves the controller.
#[verifier::ext_equal]
pub struct DecisionView {
    pub action: ActionView,
    pub reason: ReleaseReason,
    pub message: MessageView,
}

/// The state of a controller.
#[verifier::ext_equal]
pub struct ControllerView {
    pub thread_id: Seq<char>,
    pub turn_state: TurnStateView,
    pub pending_turn_message: Option<MessageView>,
    pub pending_turn_completed_id: Option<Seq<char>>,
    pub pending_steer_turn_id: Option<Seq<char>>,
    pub pending_immediate: Seq<MessageView>,
    pub steer_pending: Seq<MessageView>,
    pub validation_error: Option<Seq<char>>,
    pub after_tool_call: Seq<MessageView>,
    pub after_any_item: Seq<MessageView>,
    pub next_turn: Seq<MessageView>,
}

/// A controller after an event, with the message that the event released.
pub type Outcome = (ControllerView, Option<DecisionView>);

impl MessageView {
    /// The message under another queue mode.
    pub open spec fn with_mode(self, queue_mode: QueueMode) -> MessageView {
        MessageView { queue_mode, text: self.text }
    }

    /// The queue in which a buffered message waits. A message that asked for
    /// immediate release and missed it waits for the next turn.
    pub open spec fn waiting_mode(self) -> QueueMode {
        match self.queue_mode {
            QueueMode::Default | QueueMode::AfterToolCall => QueueMode::AfterToolCall,
            QueueMode::AfterAnyItem => QueueMode::AfterAnyItem,
            QueueMode::NextTurn | QueueMode::Immediate => QueueMode::NextTurn,
        }
    }
}

/// The messages under another queue mode, in the same order.
pub open spec fn all_with_mode(
    messages: Seq<MessageView>,
    queue_mode: QueueMode,
) -> Seq<MessageView> {
    messages.map_values(|message: MessageView| message.with_mode(queue_mode))
}

/// The messages that wait in one queue, in arrival order, under its mode.
pub open spec fn waiting_in(messages: Seq<MessageView>, queue_mode: QueueMode) -> Seq<MessageView> {
    all_with_mode(
        messages.filter(|message: MessageView| message.waiting_mode() == queue_mode),
        queue_mode,
    )
}

/// An identifier, or nothing where there is none.
pub open spec fn id_or_empty(id: Option<Seq<char>>) -> Seq<char> {
    match id {
        Some(id) => id,
        None => Seq::empty(),
    }
}

/// What is reported when an identifier differs from the expected one.
pub open spec fn mismatch(
    what: Seq<char>,
    got: Seq<char>,
    relation: Seq<char>,
    expected: Seq<char>,
) -> Seq<char> {
    what + got + relation + expected + "`"@
}

impl ControllerView {
    /// A controller for a thread that is idle and has seen nothing.
    pub open spec fn fresh(thread_id: Seq<char>) -> Self {
        ControllerView {
            thread_id,
            turn_state: TurnStateView::Idle,
            pending_turn_message: None,
            pending_turn_completed_id: None,
            pending_steer_turn_id: None,
            pending_immediate: Seq::empty(),
            steer_pending: Seq::empty(),
            validation_error: None,
            after_tool_call: Seq::empty(),
            after_any_item: Seq::empty(),
            next_turn: Seq::empty(),
        }
    }

    /// The thread is busy with a turn whose identifier is not known.
    pub open spec fn busy_unknown(self) -> Self {
        ControllerView { turn_state: TurnStateView::BusyUnknownTurn, ..self }
    }

    /// The turn that is known to run.
    pub open spec fn active_turn(self) -> Option<Seq<char>> {
        match self.turn_state {
            TurnStateView::Running { turn_id } => Some(turn_id),
            _ => None,
        }
    }

    /// Buffers messages, each in the queue of its waiting mode.
    pub open spec fn buffered(self, messages: Seq<MessageView>) -> Self {
        ControllerView {
            after_tool_call: self.after_tool_call + waiting_in(messages, QueueMode::AfterToolCall),
            after_any_item: self.after_any_item + waiting_in(messages, QueueMode::AfterAnyItem),
            next_turn: self.next_turn + waiting_in(messages, QueueMode::NextTurn),
            ..self
        }
    }

    /// Buffers the messages that arrived while a steer was unanswered.
    pub open spec fn steer_pending_buffered(self) -> Self {
        ControllerView { steer_pending: Seq::empty(), ..self.buffered(self.steer_pending) }
    }

    /// Moves the messages that wait for an immediate release to the front of
    /// the next turn, in order.
    pub open spec fn downgraded(self) -> Self {
        ControllerView {
            pending_immediate: Seq::empty(),
            next_turn: all_with_mode(self.pending_immediate, QueueMode::NextTurn) + self.next_turn,
            ..self
        }
    }

    /// Releases a message as the start of a turn.
    pub open spec fn start(self, message: MessageView, reason: ReleaseReason) -> Outcome {
        let message = match reason {
            ReleaseReason::AfterToolCall => message.with_mode(QueueMode::AfterToolCall),
            ReleaseReason::NextTurn => message.with_mode(QueueMode::NextTurn),
            _ => message,
        };
        (
            ControllerView {
                pending_turn_message: Some(message),
                pending_turn_completed_id: None,
                pending_steer_turn_id: None,
                turn_state: TurnStateView::TurnStartPending { reserved_turn_id: None },
                ..self
            },
            Some(DecisionView { action: ActionView::StartTurn, reason, message }),
        )
    }

    /// Releases a message into a running turn.
    pub open spec fn steer(
        self,
        turn_id: Seq<char>,
        message: MessageView,
        reason: ReleaseReason,
    ) -> Outcome {
        (
            ControllerView { pending_steer_turn_id: Some(turn_id), ..self },
            Some(DecisionView { action: ActionView::SteerTurn { turn_id }, reason, message }),
        )
    }

    /// After a turn has ended: what is buffered starts the next one, first what
    /// waits for a tool call, then what waits for any item, then the rest.
    pub open spec fn after_turn(self) -> Outcome {
        let state = self.steer_pending_buffered();
        if state.after_tool_call.len() > 0 {
            ControllerView {
                after_tool_call: state.after_tool_call.drop_first(),
                ..state
            }.start(state.after_tool_call.first(), ReleaseReason::AfterToolCall)
        } else if state.after_any_item.len() > 0 {
            ControllerView {
                after_any_item: state.after_any_item.drop_first(),
                ..state
            }.start(state.after_any_item.first(), ReleaseReason::AfterAnyItem)
        } else if state.next_turn.len() > 0 {
            ControllerView {
                next_turn: state.next_turn.drop_first(),
                ..state
            }.start(state.next_turn.first(), ReleaseReason::NextTurn)
        } else {
            (state, None)
        }
    }

    /// The turn is over: the thread is idle and the next turn may start.
    pub open spec fn finish_turn(self) -> Outcome {
        ControllerView { turn_state: TurnStateView::Idle, ..self.downgraded() }.after_turn()
    }

    /// Steers the running turn with the next message that waits for an
    /// immediate release, unless a steer is unanswered.
    pub open spec fn release_immediate(self) -> Outcome {
        match self.active_turn() {
            Some(turn_id) if self.pending_steer_turn_id is None
                && self.pending_immediate.len() > 0 => ControllerView {
                pending_immediate: self.pending_immediate.drop_first(),
                ..self
            }.steer(turn_id, self.pending_immediate.first(), ReleaseReason::Immediate),
            _ => (self, None),
        }
    }

    /// A message arrives.
    pub open spec fn receive(self, message: MessageView) -> Outcome {
        if self.turn_state is Idle {
            self.start(message, ReleaseReason::Idle)
        } else if message.queue_mode == QueueMode::Immediate && !(self.turn_state is Running) {
            (
                ControllerView { pending_immediate: self.pending_immediate.push(message), ..self },
                None,
            )
        } else if self.pending_steer_turn_id is Some {
            (ControllerView { steer_pending: self.steer_pending.push(message), ..self }, None)
        } else if message.queue_mode == QueueMode::Immediate {
            self.steer(self.turn_state->turn_id, message, ReleaseReason::Immediate)
        } else {
            (self.buffered(seq![message]), None)
        }
    }

    /// Messages arrive one after the other; the first release is reported.
    pub open spec fn receive_all(self, messages: Seq<MessageView>) -> Outcome
        decreases messages.len(),
    {
        if messages.len() == 0 {
            (self, None)
        } else {
            let (before, released) = self.receive_all(messages.drop_last());
            let (after, last) = before.receive(messages.last());
            (after, if released is Some { released } else { last })
        }
    }

    /// What arrived while a steer was unanswered arrives again now; where that
    /// releases nothing, the next immediate message is released.
    pub open spec fn resume_running(self) -> Outcome {
        let (state, released) = ControllerView {
            steer_pending: Seq::empty(),
            ..self
        }.receive_all(self.steer_pending);
        if released is Some {
            (state, released)
        } else {
            state.release_immediate()
        }
    }

    /// The server accepted the turn and its identifier is known.
    pub open spec fn turn_accepted(self, turn_id: Seq<char>) -> Outcome {
        if self.pending_turn_completed_id == Some(turn_id) {
            ControllerView {
                pending_turn_message: None,
                pending_turn_completed_id: None,
                ..self
            }.finish_turn()
        } else {
            ControllerView {
                turn_state: TurnStateView::Running { turn_id },
                pending_turn_message: None,
                pending_steer_turn_id: None,
                ..self
            }.resume_running()
        }
    }

    pub open spec fn on_turn_start_accepted(self) -> Outcome {
        match self.turn_state {
            TurnStateView::TurnStartPending { reserved_turn_id: Some(turn_id) } =>
                self.turn_accepted(turn_id),
            _ => (self, None),
        }
    }

    pub open spec fn on_turn_start_accepted_with_turn_id(self, turn_id: Seq<char>) -> Outcome {
        match self.turn_state {
            TurnStateView::TurnStartPending { reserved_turn_id } => {
                if reserved_turn_id is Some && reserved_turn_id != Some(turn_id) {
                    (
                        ControllerView {
                            validation_error: Some(
                                mismatch(
                                    "turn/start response turn id `"@,
                                    turn_id,
                                    "` did not match reserved turn id `"@,
                                    id_or_empty(reserved_turn_id),
                                ),
                            ),
                            ..self
                        },
                        None,
                    )
                } else if self.pending_turn_completed_id == Some(turn_id) {
                    self.turn_accepted(turn_id)
                } else {
                    ControllerView { pending_turn_completed_id: None, ..self }.turn_accepted(turn_id)
                }
            },
            _ => (self, None),
        }
    }

    pub open spec fn on_turn_start_rejected(self) -> Outcome {
        match self.turn_state {
            TurnStateView::TurnStartPending { reserved_turn_id } => {
                let state = ControllerView {
                    next_turn: match self.pending_turn_message {
                        Some(message) => seq![message.with_mode(QueueMode::NextTurn)]
                            + self.next_turn,
                        None => self.next_turn,
                    },
                    pending_turn_message: None,
                    pending_steer_turn_id: None,
                    ..self
                };
                if state.pending_turn_completed_id is Some {
                    ControllerView { pending_turn_completed_id: None, ..state }.finish_turn()
                } else {
                    match reserved_turn_id {
                        Some(turn_id) => ControllerView {
                            turn_state: TurnStateView::Running { turn_id },
                            ..state
                        }.release_immediate(),
                        None => (
                            ControllerView { turn_state: TurnStateView::BusyUnknownTurn, ..state },
                            None,
                        ),
                    }
                }
            },
            _ => (self, None),
        }
    }

    pub open spec fn on_turn_started(self, turn_id: Seq<char>) -> Outcome {
        match self.turn_state {
            TurnStateView::TurnStartPending { reserved_turn_id: None } => (
                ControllerView {
                    turn_state: TurnStateView::TurnStartPending { reserved_turn_id: Some(turn_id) },
                    ..self
                },
                None,
            ),
            TurnStateView::TurnStartPending { reserved_turn_id: Some(reserved) } => (
                if reserved == turn_id {
                    self
                } else {
                    ControllerView {
                        validation_error: Some(
                            mismatch(
                                "turn/started turn id `"@,
                                turn_id,
                                "` did not match reserved turn id `"@,
                                reserved,
                            ),
                        ),
                        ..self
                    }
                },
                None,
            ),
            TurnStateView::BusyUnknownTurn => ControllerView {
                turn_state: TurnStateView::Running { turn_id },
                ..self
            }.release_immediate(),
            TurnStateView::Running { turn_id: active } => (
                if active == turn_id {
                    self
                } else {
                    ControllerView {
                        validation_error: Some(
                            mismatch(
                                "turn/started turn id `"@,
                                turn_id,
                                "` did not match active turn id `"@,
                                active,
                            ),
                        ),
                        ..self
                    }
                },
                None,
            ),
            TurnStateView::Idle => (
                ControllerView { turn_state: TurnStateView::Running { turn_id }, ..self },
                None,
            ),
        }
    }

    pub open spec fn on_active_turn_reconciled(self, turn_id: Seq<char>) -> Outcome {
        (
            ControllerView {
                pending_turn_completed_id: if self.pending_turn_completed_id == Some(turn_id) {
                    Some(turn_id)
                } else {
                    None
                },
                turn_state: if self.turn_state is TurnStartPending {
                    TurnStateView::TurnStartPending { reserved_turn_id: Some(turn_id) }
                } else {
                    TurnStateView::Running { turn_id }
                },
                pending_steer_turn_id: if self.pending_steer_turn_id is Some {
                    Some(turn_id)
                } else {
                    None
                },
                ..self
            },
            None,
        )
    }

    pub open spec fn on_turn_completed(self, turn_id: Seq<char>) -> Outcome {
        let remembered = ControllerView { pending_turn_completed_id: Some(turn_id), ..self };
        match self.turn_state {
            TurnStateView::Idle => (self, None),
            TurnStateView::TurnStartPending { reserved_turn_id } => {
                if reserved_turn_id is None || reserved_turn_id == Some(turn_id) {
                    (remembered, None)
                } else {
                    (self, None)
                }
            },
            TurnStateView::Running { turn_id: active } if active != turn_id => (self, None),
            _ => {
                if self.pending_steer_turn_id is Some {
                    (remembered, None)
                } else {
                    self.finish_turn()
                }
            },
        }
    }

    pub open spec fn on_steer_rejected(self, message: MessageView) -> Outcome {
        let message = message.with_mode(QueueMode::NextTurn);
        let completed = self.pending_turn_completed_id is Some;
        let state = ControllerView {
            pending_steer_turn_id: None,
            pending_turn_completed_id: None,
            next_turn: if completed {
                seq![message] + self.next_turn
            } else {
                self.next_turn.push(message)
            },
            ..self
        }.steer_pending_buffered().downgraded();
        if completed && state.turn_state is Running {
            ControllerView { turn_state: TurnStateView::Idle, ..state }.after_turn()
        } else if state.turn_state is Idle {
            state.after_turn()
        } else {
            (state, None)
        }
    }

    pub open spec fn on_steer_accepted(self, turn_id: Seq<char>) -> Outcome {
        let answered = ControllerView { pending_steer_turn_id: None, ..self };
        if self.pending_steer_turn_id != Some(turn_id) {
            (
                ControllerView {
                    validation_error: Some(
                        mismatch(
                            "turn/steer response turn id `"@,
                            turn_id,
                            "` did not match pending steer turn id `"@,
                            id_or_empty(self.pending_steer_turn_id),
                        ),
                    ),
                    ..answered
                },
                None,
            )
        } else if self.pending_turn_completed_id is Some {
            ControllerView {
                pending_turn_completed_id: None,
                ..answered
            }.steer_pending_buffered().finish_turn()
        } else {
            answered.resume_running()
        }
    }

    /// Whether a release into this turn of this thread is possible now.
    pub open spec fn may_steer(self, thread_id: Seq<char>, turn_id: Seq<char>) -> bool {
        &&& thread_id == self.thread_id
        &&& self.active_turn() == Some(turn_id)
        &&& self.pending_steer_turn_id is None
    }

    /// Steers with the next message that waits for any item.
    pub open spec fn release_after_any_item(self, turn_id: Seq<char>) -> Outcome {
        if self.after_any_item.len() > 0 {
            ControllerView {
                after_any_item: self.after_any_item.drop_first(),
                ..self
            }.steer(turn_id, self.after_any_item.first(), ReleaseReason::AfterAnyItem)
        } else {
            (self, None)
        }
    }

    pub open spec fn on_terminal_interaction(
        self,
        thread_id: Seq<char>,
        turn_id: Seq<char>,
    ) -> Outcome {
        if !self.may_steer(thread_id, turn_id) {
            (self, None)
        } else if self.after_tool_call.len() > 0 {
            ControllerView {
                after_tool_call: self.after_tool_call.drop_first(),
                ..self
            }.steer(turn_id, self.after_tool_call.first(), ReleaseReason::AfterToolCall)
        } else {
            self.release_after_any_item(turn_id)
        }
    }

    pub open spec fn on_item_completed(
        self,
        thread_id: Seq<char>,
        turn_id: Seq<char>,
        signal: CompletionSignal,
    ) -> Outcome {
        if signal == CompletionSignal::ReleasesAfterAnyItem && self.may_steer(thread_id, turn_id) {
            self.release_after_any_item(turn_id)
        } else {
            (self, None)
        }
    }

    /// What an event does.
    pub open spec fn step(self, event: EventView) -> Outcome {
        match event {
            EventView::MessageReceived(message) => self.receive(message),
            EventView::TurnStartAccepted => self.on_turn_start_accepted(),
            EventView::TurnStartAcceptedWithTurnId { turn_id } =>
                self.on_turn_start_accepted_with_turn_id(turn_id),
            EventView::TurnStartRejectedActiveTurnNotSteerable => self.on_turn_start_rejected(),
            EventView::TurnStarted { thread_id, turn_id } => if thread_id == self.thread_id {
                self.on_turn_started(turn_id)
            } else {
                (self, None)
            },
            EventView::ActiveTurnReconciled { thread_id, turn_id } => if thread_id
                == self.thread_id {
                self.on_active_turn_reconciled(turn_id)
            } else {
                (self, None)
            },
            EventView::TurnCompleted { thread_id, turn_id } => if thread_id == self.thread_id {
                self.on_turn_completed(turn_id)
            } else {
                (self, None)
            },
            EventView::TerminalInteraction { thread_id, turn_id } =>
                self.on_terminal_interaction(thread_id, turn_id),
            EventView::ItemCompleted { thread_id, turn_id, signal } =>
                self.on_item_completed(thread_id, turn_id, signal),
            EventView::SteerRejectedActiveTurnNotSteerable { message } =>
                self.on_steer_rejected(message),
            EventView::SteerAccepted { turn_id } => self.on_steer_accepted(turn_id),
        }
    }
}

/// One message waits in the queue of its waiting mode, and in no other.
pub proof fn lemma_waiting_in_single(message: MessageView)
    ensures
        forall|queue_mode: QueueMode|
            #[trigger] waiting_in(seq![message], queue_mode) == if message.waiting_mode()
                == queue_mode {
                seq![message.with_mode(queue_mode)]
            } else {
                Seq::empty()
            },
{
    assert forall|queue_mode: QueueMode|
        #[trigger] waiting_in(seq![message], queue_mode) == if message.waiting_mode()
            == queue_mode {
            seq![message.with_mode(queue_mode)]
        } else {
            Seq::empty()
        } by {
        let waits = |message: MessageView| message.waiting_mode() == queue_mode;
        reveal_with_fuel(Seq::filter, 2);
        assert(seq![message].drop_last() =~= Seq::empty());
        assert(seq![message].filter(waits) =~= if waits(message) {
            seq![message]
        } else {
            Seq::empty()
        });
        assert(waiting_in(seq![message], queue_mode) =~= if waits(message) {
            seq![message.with_mode(queue_mode)]
        } else {
            Seq::empty()
        });
    }
}

/// What waits of two batches is what waits of the first, then of the second.
pub proof fn lemma_waiting_in_add(
    first: Seq<MessageView>,
    second: Seq<MessageView>,
    queue_mode: QueueMode,
)
    ensures
        waiting_in(first + second, queue_mode) == waiting_in(first, queue_mode) + waiting_in(
            second,
            queue_mode,
        ),
{
    let waits = |message: MessageView| message.waiting_mode() == queue_mode;
    Seq::filter_distributes_over_add(first, second, waits);
    assert(waiting_in(first + second, queue_mode) =~= waiting_in(first, queue_mode) + waiting_in(
        second,
        queue_mode,
    ));
}

/// Buffering two batches one after the other buffers both at once.
pub proof fn lemma_buffered_add(
    state: ControllerView,
    first: Seq<MessageView>,
    second: Seq<MessageView>,
)
    ensures
        state.buffered(first).buffered(second) == state.buffered(first + second),
{
    lemma_waiting_in_add(first, second, QueueMode::AfterToolCall);
    lemma_waiting_in_add(first, second, QueueMode::AfterAnyItem);
    lemma_waiting_in_add(first, second, QueueMode::NextTurn);
    assert(state.buffered(first).buffered(second) =~= state.buffered(first + second));
}

/// Buffering nothing changes nothing.
pub proof fn lemma_buffered_nothing(state: ControllerView)
    ensures
        state.buffered(Seq::empty()) == state,
{
    assert forall|queue_mode: QueueMode|
        #[trigger] waiting_in(Seq::empty(), queue_mode) == Seq::<MessageView>::empty() by {
        reveal_with_fuel(Seq::filter, 1);
        assert(waiting_in(Seq::empty(), queue_mode) =~= Seq::<MessageView>::empty());
    }
    assert(state.buffered(Seq::empty()) =~= state);
}

/// Buffering the first message that arrived while a steer was unanswered, and
/// then the others, buffers them all.
pub proof fn lemma_buffer_first(state: ControllerView)
    requires
        state.steer_pending.len() > 0,
    ensures
        (ControllerView {
            steer_pending: state.steer_pending.drop_first(),
            ..state
        }).buffered(seq![state.steer_pending.first()]).steer_pending_buffered()
            == state.steer_pending_buffered(),
{
    let all = state.steer_pending;
    let tail = ControllerView { steer_pending: all.drop_first(), ..state };
    assert(all =~= seq![all.first()] + all.drop_first());
    lemma_buffered_add(tail, seq![all.first()], all.drop_first());
    assert(tail.buffered(seq![all.first()]).steer_pending_buffered()
        =~= state.steer_pending_buffered());
}

/// Moving the last immediate message to the next turn, and then the others,
/// moves them all.
pub proof fn lemma_downgrade_last(state: ControllerView)
    requires
        state.pending_immediate.len() > 0,
    ensures
        (ControllerView {
            pending_immediate: state.pending_immediate.drop_last(),
            next_turn: seq![state.pending_immediate.last().with_mode(QueueMode::NextTurn)]
                + state.next_turn,
            ..state
        }).downgraded() == state.downgraded(),
{
    let all = state.pending_immediate;
    let moved = ControllerView {
        pending_immediate: all.drop_last(),
        next_turn: seq![all.last().with_mode(QueueMode::NextTurn)] + state.next_turn,
        ..state
    };
    assert(moved.downgraded() =~= state.downgraded());
}

} // verus!
