//! The controller that decides when each message of a thread is released to the
//! model: as the start of a turn, as a steer of the running turn, or later.

use std::collections::VecDeque;

use vstd::prelude::*;

use crate::controller_model;
use crate::controller_model::{
    ActionView, ControllerView, DecisionView, EventView, MessageView, TurnStateView,
};
use crate::queue_mode::QueueMode;
use crate::text;

verus! {

/// A message with the point at which it wants to be released.
#[derive(Debug, PartialEq, Eq)]
pub struct QueuedMessage {
    pub queue_mode: QueueMode,
    pub text: String,
}

/// Copies of all queues of a controller.
#[derive(Clone, Debug, PartialEq, Eq)]
pub struct ControllerQueueSnapshot {
    pub pending_immediate: Vec<QueuedMessage>,
    pub steer_pending: Vec<QueuedMessage>,
    pub after_tool_call: Vec<QueuedMessage>,
    pub after_any_item: Vec<QueuedMessage>,
    pub next_turn: Vec<QueuedMessage>,
}

/// Where the thread stands with its turn.
#[derive(Clone, Debug, PartialEq, Eq)]
pub enum TurnState {
    Idle,
    TurnStartPending { reserved_turn_id: Option<String> },
    Running { turn_id: String },
    BusyUnknownTurn,
}

/// Whether a completed item lets messages go that wait for any item.
#[derive(Clone, Copy, Debug, PartialEq, Eq, Structural)]
pub enum CompletionSignal {
    ReleasesAfterAnyItem,
    Ignore,
}

/// What can happen to a thread.
#[derive(Clone, Debug, PartialEq, Eq)]
pub enum ControllerEvent {
    MessageReceived(QueuedMessage),
    TurnStartAccepted,
    TurnStartAcceptedWithTurnId { turn_id: String },
    TurnStartRejectedActiveTurnNotSteerable,
    TurnStarted { thread_id: String, turn_id: String },
    ActiveTurnReconciled { thread_id: String, turn_id: String },
    TurnCompleted { thread_id: String, turn_id: String },
    TerminalInteraction { thread_id: String, turn_id: String },
    ItemCompleted { thread_id: String, turn_id: String, signal: CompletionSignal },
    SteerRejectedActiveTurnNotSteerable { message: QueuedMessage },
    SteerAccepted { turn_id: String },
}

/// How a released message reaches the model.
#[derive(Debug, PartialEq, Eq)]
pub enum ReleaseAction {
    StartTurn,
    SteerTurn { turn_id: String },
}

/// Why a message is released.
#[derive(Clone, Copy, Debug, PartialEq, Eq, Structural)]
pub enum ReleaseReason {
    Idle,
    Immediate,
    AfterToolCall,
    AfterAnyItem,
    NextTurn,
}

/// A message that is to be sent now.
#[derive(Debug, PartialEq, Eq)]
pub struct ReleaseDecision {
    pub action: ReleaseAction,
    pub reason: ReleaseReason,
    pub message: QueuedMessage,
}

/// The queues and the turn state of one thread.
#[derive(Clone, Debug, PartialEq, Eq)]
pub struct BridgeController {
    thread_id: String,
    turn_state: TurnState,
    pending_turn_message: Option<QueuedMessage>,
    pending_turn_completed_id: Option<String>,
    pending_steer_turn_id: Option<String>,
    pending_immediate_queue: VecDeque<QueuedMessage>,
    steer_pending_queue: VecDeque<QueuedMessage>,
    validation_error: Option<String>,
    after_tool_call_queue: VecDeque<QueuedMessage>,
    after_any_item_queue: VecDeque<QueuedMessage>,
    next_turn_queue: VecDeque<QueuedMessage>,
}

impl Clone for QueuedMessage {
    fn clone(&self) -> (copy: Self)
        ensures
            copy == *self,
    {
        QueuedMessage { queue_mode: self.queue_mode, text: self.text.clone() }
    }
}

impl Clone for ReleaseAction {
    fn clone(&self) -> (copy: Self)
        ensures
            copy == *self,
    {
        match self {
            ReleaseAction::StartTurn => ReleaseAction::StartTurn,
            ReleaseAction::SteerTurn { turn_id } => ReleaseAction::SteerTurn {
                turn_id: turn_id.clone(),
            },
        }
    }
}

impl Clone for ReleaseDecision {
    fn clone(&self) -> (copy: Self)
        ensures
            copy == *self,
    {
        ReleaseDecision {
            action: self.action.clone(),
            reason: self.reason,
            message: self.message.clone(),
        }
    }
}

impl Default for ControllerQueueSnapshot {
    fn default() -> (empty: Self)
        ensures
            empty.pending_immediate@.len() == 0,
            empty.steer_pending@.len() == 0,
            empty.after_tool_call@.len() == 0,
            empty.after_any_item@.len() == 0,
            empty.next_turn@.len() == 0,
    {
        ControllerQueueSnapshot {
            pending_immediate: Vec::new(),
            steer_pending: Vec::new(),
            after_tool_call: Vec::new(),
            after_any_item: Vec::new(),
            next_turn: Vec::new(),
        }
    }
}

impl View for QueuedMessage {
    type V = MessageView;

    open spec fn view(&self) -> MessageView {
        MessageView { queue_mode: self.queue_mode, text: self.text@ }
    }
}

impl View for TurnState {
    type V = TurnStateView;

    open spec fn view(&self) -> TurnStateView {
        match *self {
            TurnState::Idle => TurnStateView::Idle,
            TurnState::TurnStartPending { reserved_turn_id } => TurnStateView::TurnStartPending {
                reserved_turn_id: text::opt_text(reserved_turn_id),
            },
            TurnState::Running { turn_id } => TurnStateView::Running { turn_id: turn_id@ },
            TurnState::BusyUnknownTurn => TurnStateView::BusyUnknownTurn,
        }
    }
}

impl View for ControllerEvent {
    type V = EventView;

    open spec fn view(&self) -> EventView {
        match *self {
            ControllerEvent::MessageReceived(message) => EventView::MessageReceived(message@),
            ControllerEvent::TurnStartAccepted => EventView::TurnStartAccepted,
            ControllerEvent::TurnStartAcceptedWithTurnId { turn_id } =>
                EventView::TurnStartAcceptedWithTurnId { turn_id: turn_id@ },
            ControllerEvent::TurnStartRejectedActiveTurnNotSteerable =>
                EventView::TurnStartRejectedActiveTurnNotSteerable,
            ControllerEvent::TurnStarted { thread_id, turn_id } => EventView::TurnStarted {
                thread_id: thread_id@,
                turn_id: turn_id@,
            },
            ControllerEvent::ActiveTurnReconciled { thread_id, turn_id } =>
                EventView::ActiveTurnReconciled { thread_id: thread_id@, turn_id: turn_id@ },
            ControllerEvent::TurnCompleted { thread_id, turn_id } => EventView::TurnCompleted {
                thread_id: thread_id@,
                turn_id: turn_id@,
            },
            ControllerEvent::TerminalInteraction { thread_id, turn_id } =>
                EventView::TerminalInteraction { thread_id: thread_id@, turn_id: turn_id@ },
            ControllerEvent::ItemCompleted { thread_id, turn_id, signal } =>
                EventView::ItemCompleted { thread_id: thread_id@, turn_id: turn_id@, signal },
            ControllerEvent::SteerRejectedActiveTurnNotSteerable { message } =>
                EventView::SteerRejectedActiveTurnNotSteerable { message: message@ },
            ControllerEvent::SteerAccepted { turn_id } => EventView::SteerAccepted {
                turn_id: turn_id@,
            },
        }
    }
}

impl View for ReleaseAction {
    type V = ActionView;

    open spec fn view(&self) -> ActionView {
        match *self {
            ReleaseAction::StartTurn => ActionView::StartTurn,
            ReleaseAction::SteerTurn { turn_id } => ActionView::SteerTurn { turn_id: turn_id@ },
        }
    }
}

impl View for ReleaseDecision {
    type V = DecisionView;

    open spec fn view(&self) -> DecisionView {
        DecisionView { action: self.action@, reason: self.reason, message: self.message@ }
    }
}

/// The released message, if any.
pub open spec fn released(decision: Option<ReleaseDecision>) -> Option<DecisionView> {
    match decision {
        Some(decision) => Some(decision@),
        None => None,
    }
}

/// The message held by an option.
pub open spec fn opt_message(message: Option<QueuedMessage>) -> Option<MessageView> {
    match message {
        Some(message) => Some(message@),
        None => None,
    }
}

/// The messages of a queue, in order.
pub open spec fn messages(queue: Seq<QueuedMessage>) -> Seq<MessageView> {
    queue.map_values(|message: QueuedMessage| message@)
}

impl View for BridgeController {
    type V = ControllerView;

    closed spec fn view(&self) -> ControllerView {
        ControllerView {
            thread_id: self.thread_id@,
            turn_state: self.turn_state@,
            pending_turn_message: opt_message(self.pending_turn_message),
            pending_turn_completed_id: text::opt_text(self.pending_turn_completed_id),
            pending_steer_turn_id: text::opt_text(self.pending_steer_turn_id),
            pending_immediate: messages(self.pending_immediate_queue@),
            steer_pending: messages(self.steer_pending_queue@),
            validation_error: text::opt_text(self.validation_error),
            after_tool_call: messages(self.after_tool_call_queue@),
            after_any_item: messages(self.after_any_item_queue@),
            next_turn: messages(self.next_turn_queue@),
        }
    }
}

/// Queue operations seen through the messages.
broadcast proof fn lemma_messages_push(queue: Seq<QueuedMessage>, message: QueuedMessage)
    ensures
        #[trigger] messages(queue.push(message)) == messages(queue).push(message@),
{
    assert(messages(queue.push(message)) =~= messages(queue).push(message@));
}

broadcast proof fn lemma_messages_push_front(queue: Seq<QueuedMessage>, message: QueuedMessage)
    ensures
        #[trigger] messages(seq![message] + queue) == seq![message@] + messages(queue),
{
    assert(messages(seq![message] + queue) =~= seq![message@] + messages(queue));
}

broadcast proof fn lemma_messages_subrange(queue: Seq<QueuedMessage>, from: int, to: int)
    requires
        0 <= from <= to <= queue.len(),
    ensures
        #[trigger] messages(queue.subrange(from, to)) == messages(queue).subrange(from, to),
{
    assert(messages(queue.subrange(from, to)) =~= messages(queue).subrange(from, to));
}

broadcast group group_messages {
    lemma_messages_push,
    lemma_messages_push_front,
    lemma_messages_subrange,
}

/// The message under the mode of messages that wait for a tool call.
fn as_after_tool_call(message: QueuedMessage) -> (moved: QueuedMessage)
    ensures
        moved@ == message@.with_mode(QueueMode::AfterToolCall),
{
    QueuedMessage { queue_mode: QueueMode::AfterToolCall, text: message.text }
}

/// The message under the mode of messages that wait for the next turn.
fn as_next_turn(message: QueuedMessage) -> (moved: QueuedMessage)
    ensures
        moved@ == message@.with_mode(QueueMode::NextTurn),
{
    QueuedMessage { queue_mode: QueueMode::NextTurn, text: message.text }
}

impl BridgeController {
    /// A controller for an idle thread, with empty queues.
    pub fn new(thread_id: &str) -> (controller: Self)
        ensures
            controller@ == ControllerView::fresh(thread_id@),
    {
        let controller = BridgeController {
            thread_id: thread_id.to_owned(),
            turn_state: TurnState::Idle,
            pending_turn_message: None,
            pending_turn_completed_id: None,
            pending_steer_turn_id: None,
            pending_immediate_queue: VecDeque::new(),
            steer_pending_queue: VecDeque::new(),
            validation_error: None,
            after_tool_call_queue: VecDeque::new(),
            after_any_item_queue: VecDeque::new(),
            next_turn_queue: VecDeque::new(),
        };
        assert(messages(Seq::<QueuedMessage>::empty()) =~= Seq::<MessageView>::empty());
        controller
    }

    /// Releases a message as the start of a turn.
    fn release_start(&mut self, message: QueuedMessage, reason: ReleaseReason) -> (decision: Option<
        ReleaseDecision,
    >)
        ensures
            (final(self)@, released(decision)) == old(self)@.start(message@, reason),
    {
        let message = match reason {
            ReleaseReason::AfterToolCall => as_after_tool_call(message),
            ReleaseReason::NextTurn => as_next_turn(message),
            _ => message,
        };
        self.pending_turn_message = Some(message.clone());
        self.pending_turn_completed_id = None;
        self.pending_steer_turn_id = None;
        self.turn_state = TurnState::TurnStartPending { reserved_turn_id: None };
        Some(ReleaseDecision { action: ReleaseAction::StartTurn, reason, message })
    }

    /// Releases a message into the running turn `turn_id`.
    fn release_steer(
        &mut self,
        turn_id: String,
        message: QueuedMessage,
        reason: ReleaseReason,
    ) -> (decision: Option<ReleaseDecision>)
        ensures
            (final(self)@, released(decision)) == old(self)@.steer(turn_id@, message@, reason),
    {
        self.pending_steer_turn_id = Some(turn_id.clone());
        Some(ReleaseDecision { action: ReleaseAction::SteerTurn { turn_id }, reason, message })
    }

    /// Buffers one message in the queue of its waiting mode.
    fn route_buffered_message(&mut self, message: QueuedMessage)
        ensures
            final(self)@ == old(self)@.buffered(seq![message@]),
    {
        broadcast use group_messages;

        proof {
            controller_model::lemma_waiting_in_single(message@);
        }
        match message.queue_mode {
            QueueMode::Default | QueueMode::AfterToolCall => {
                self.after_tool_call_queue.push_back(as_after_tool_call(message));
            },
            QueueMode::AfterAnyItem => {
                self.after_any_item_queue.push_back(message);
            },
            QueueMode::NextTurn => {
                self.next_turn_queue.push_back(message);
            },
            QueueMode::Immediate => {
                self.next_turn_queue.push_back(as_next_turn(message));
            },
        }
        assert(self@ =~= old(self)@.buffered(seq![message@]));
    }

    /// Buffers what arrived while a steer was unanswered.
    fn flush_steer_pending_queue_as_buffered(&mut self)
        ensures
            final(self)@ == old(self)@.steer_pending_buffered(),
    {
        broadcast use group_messages;

        while self.steer_pending_queue.len() > 0
            invariant
                self@.steer_pending_buffered() == old(self)@.steer_pending_buffered(),
            decreases self.steer_pending_queue@.len(),
        {
            let ghost before = self@;
            if let Some(message) = self.steer_pending_queue.pop_front() {
                assert(message@ == before.steer_pending.first());
                assert(self@ =~= (ControllerView {
                    steer_pending: before.steer_pending.drop_first(),
                    ..before
                }));
                self.route_buffered_message(message);
                proof {
                    controller_model::lemma_buffer_first(before);
                }
            }
        }
        proof {
            controller_model::lemma_buffered_nothing(self@);
            assert(self@.steer_pending =~= Seq::empty());
            assert(self@.steer_pending_buffered() =~= self@);
        }
    }

    /// Moves what waits for an immediate release to the front of the next turn.
    fn downgrade_pending_immediates_to_retry_queue(&mut self)
        ensures
            final(self)@ == old(self)@.downgraded(),
    {
        broadcast use group_messages;

        while self.pending_immediate_queue.len() > 0
            invariant
                self@.downgraded() == old(self)@.downgraded(),
            decreases self.pending_immediate_queue@.len(),
        {
            let ghost before = self@;
            if let Some(message) = self.pending_immediate_queue.pop_back() {
                assert(message@ == before.pending_immediate.last());
                assert(messages(self.pending_immediate_queue@)
                    =~= before.pending_immediate.drop_last());
                self.next_turn_queue.push_front(as_next_turn(message));
                proof {
                    controller_model::lemma_downgrade_last(before);
                    assert(self@ =~= (ControllerView {
                        pending_immediate: before.pending_immediate.drop_last(),
                        next_turn: seq![message@.with_mode(QueueMode::NextTurn)] + before.next_turn,
                        ..before
                    }));
                }
            }
        }
        assert(self@ =~= self@.downgraded());
    }

    /// The turn that is known to run.
    pub fn active_turn_id(&self) -> (turn_id: Option<&str>)
        ensures
            match turn_id {
                Some(turn_id) => self@.active_turn() == Some(turn_id@),
                None => self@.active_turn() is None,
            },
    {
        match &self.turn_state {
            TurnState::Running { turn_id } => Some(turn_id.as_str()),
            _ => None,
        }
    }

    /// Releases what is buffered after a turn has ended.
    fn release_from_turn_completed(&mut self) -> (decision: Option<ReleaseDecision>)
        ensures
            (final(self)@, released(decision)) == old(self)@.after_turn(),
    {
        broadcast use group_messages;

        self.flush_steer_pending_queue_as_buffered();
        let ghost state = self@;

        if let Some(message) = self.after_tool_call_queue.pop_front() {
            assert(self@ =~= (ControllerView {
                after_tool_call: state.after_tool_call.drop_first(),
                ..state
            }));
            return self.release_start(message, ReleaseReason::AfterToolCall);
        }
        if let Some(message) = self.after_any_item_queue.pop_front() {
            assert(self@ =~= (ControllerView {
                after_any_item: state.after_any_item.drop_first(),
                ..state
            }));
            return self.release_start(message, ReleaseReason::AfterAnyItem);
        }
        if let Some(message) = self.next_turn_queue.pop_front() {
            assert(self@ =~= (ControllerView {
                next_turn: state.next_turn.drop_first(),
                ..state
            }));
            return self.release_start(message, ReleaseReason::NextTurn);
        }
        None
    }

    /// Steers the running turn with the next message that waits for an
    /// immediate release, unless a steer is unanswered.
    fn release_pending_immediate(&mut self) -> (decision: Option<ReleaseDecision>)
        ensures
            (final(self)@, released(decision)) == old(self)@.release_immediate(),
    {
        broadcast use group_messages;

        if self.pending_steer_turn_id.is_some() {
            return None;
        }
        let turn_id = match self.active_turn_id() {
            Some(turn_id) => turn_id.to_owned(),
            None => return None,
        };
        let ghost state = self@;
        let message = match self.pending_immediate_queue.pop_front() {
            Some(message) => message,
            None => return None,
        };
        assert(self@ =~= (ControllerView {
            pending_immediate: state.pending_immediate.drop_first(),
            ..state
        }));
        self.release_steer(turn_id, message, ReleaseReason::Immediate)
    }

    /// Steers the running turn with a message that wants to be released at
    /// once; where no turn is known to run, it waits for the next turn.
    fn release_immediate_or_queue(&mut self, message: QueuedMessage) -> (decision: Option<
        ReleaseDecision,
    >)
        ensures
            (final(self)@, released(decision)) == match old(self)@.active_turn() {
                Some(turn_id) => old(self)@.steer(turn_id, message@, ReleaseReason::Immediate),
                None => (
                    ControllerView {
                        next_turn: old(self)@.next_turn.push(
                            message@.with_mode(QueueMode::NextTurn),
                        ),
                        ..old(self)@
                    },
                    None,
                ),
            },
    {
        broadcast use group_messages;

        let turn_id = match self.active_turn_id() {
            Some(turn_id) => turn_id.to_owned(),
            None => {
                self.next_turn_queue.push_back(as_next_turn(message));
                return None;
            },
        };
        self.release_steer(turn_id, message, ReleaseReason::Immediate)
    }

    fn on_message_received(&mut self, message: QueuedMessage) -> (decision: Option<ReleaseDecision>)
        ensures
            (final(self)@, released(decision)) == old(self)@.receive(message@),
    {
        broadcast use group_messages;

        if matches!(self.turn_state, TurnState::Idle) {
            return self.release_start(message, ReleaseReason::Idle);
        }
        if matches!(message.queue_mode, QueueMode::Immediate)
            && matches!(
                self.turn_state,
                TurnState::TurnStartPending { .. } | TurnState::BusyUnknownTurn
            )
        {
            self.pending_immediate_queue.push_back(message);
            return None;
        }
        if self.pending_steer_turn_id.is_some() {
            self.steer_pending_queue.push_back(message);
            return None;
        }
        if matches!(message.queue_mode, QueueMode::Immediate) {
            self.release_immediate_or_queue(message)
        } else {
            self.route_buffered_message(message);
            None
        }
    }

    /// Lets what arrived while a steer was unanswered arrive again.
    fn flush_steer_pending_queue_for_current_state(&mut self) -> (decision: Option<ReleaseDecision>)
        ensures
            (final(self)@, released(decision)) == (ControllerView {
                steer_pending: Seq::empty(),
                ..old(self)@
            }).receive_all(old(self)@.steer_pending),
    {
        broadcast use group_messages;

        let mut buffered: VecDeque<QueuedMessage> = VecDeque::new();
        std::mem::swap(&mut buffered, &mut self.steer_pending_queue);
        let ghost start = self@;
        let ghost all = messages(buffered@);
        let ghost mut done: int = 0;
        assert(messages(Seq::<QueuedMessage>::empty()) =~= Seq::<MessageView>::empty());
        assert(start =~= (ControllerView { steer_pending: Seq::empty(), ..old(self)@ }));
        assert(all.subrange(0, 0) =~= Seq::empty());
        assert(all.subrange(0, all.len() as int) =~= all);
        let mut decision: Option<ReleaseDecision> = None;
        while buffered.len() > 0
            invariant
                0 <= done <= all.len(),
                messages(buffered@) == all.subrange(done, all.len() as int),
                (self@, released(decision)) == start.receive_all(all.subrange(0, done)),
            decreases buffered@.len(),
        {
            let ghost queue = buffered@;
            if let Some(message) = buffered.pop_front() {
                assert(messages(queue).len() == queue.len());
                assert(message@ == messages(queue)[0]);
                let next = self.on_message_received(message);
                if decision.is_none() {
                    decision = next;
                }
                proof {
                    assert(all.subrange(0, done + 1).drop_last() =~= all.subrange(0, done));
                    assert(messages(buffered@) =~= messages(queue).drop_first());
                    assert(messages(queue).drop_first() =~= all.subrange(done + 1, all.len() as int));
                    done = done + 1;
                }
            }
        }
        assert(all.subrange(0, done) =~= all);
        decision
    }

    /// Lets buffered arrivals go on in a running turn.
    fn resume_running(&mut self) -> (decision: Option<ReleaseDecision>)
        ensures
            (final(self)@, released(decision)) == old(self)@.resume_running(),
    {
        let decision = self.flush_steer_pending_queue_for_current_state();
        if decision.is_some() {
            return decision;
        }
        self.release_pending_immediate()
    }

    /// The turn is over: the thread is idle and the next turn may start.
    fn finish_turn(&mut self) -> (decision: Option<ReleaseDecision>)
        ensures
            (final(self)@, released(decision)) == old(self)@.finish_turn(),
    {
        self.downgrade_pending_immediates_to_retry_queue();
        self.turn_state = TurnState::Idle;
        self.release_from_turn_completed()
    }

    /// The server accepted the turn `turn_id`.
    fn turn_accepted(&mut self, turn_id: String) -> (decision: Option<ReleaseDecision>)
        ensures
            (final(self)@, released(decision)) == old(self)@.turn_accepted(turn_id@),
    {
        if text::opt_is(&self.pending_turn_completed_id, turn_id.as_str()) {
            self.pending_turn_message = None;
            self.pending_turn_completed_id = None;
            return self.finish_turn();
        }
        self.turn_state = TurnState::Running { turn_id };
        self.pending_turn_message = None;
        self.pending_steer_turn_id = None;
        self.resume_running()
    }

    fn on_turn_start_accepted(&mut self) -> (decision: Option<ReleaseDecision>)
        ensures
            (final(self)@, released(decision)) == old(self)@.on_turn_start_accepted(),
    {
        let turn_id = match &self.turn_state {
            TurnState::TurnStartPending { reserved_turn_id: Some(turn_id) } => turn_id.clone(),
            _ => return None,
        };
        self.turn_accepted(turn_id)
    }

    fn on_turn_start_accepted_with_turn_id(&mut self, turn_id: String) -> (decision: Option<
        ReleaseDecision,
    >)
        ensures
            (final(self)@, released(decision)) == old(self)@.on_turn_start_accepted_with_turn_id(
                turn_id@,
            ),
    {
        let reserved_turn_id = match &self.turn_state {
            TurnState::TurnStartPending { reserved_turn_id } => text::opt_clone(reserved_turn_id),
            _ => return None,
        };
        if let Some(reserved_turn_id) = &reserved_turn_id {
            if !text::text_eq(reserved_turn_id.as_str(), turn_id.as_str()) {
                self.validation_error = Some(
                    text::concat5(
                        "turn/start response turn id `",
                        turn_id.as_str(),
                        "` did not match reserved turn id `",
                        reserved_turn_id.as_str(),
                        "`",
                    ),
                );
                return None;
            }
        }
        if !text::opt_is(&self.pending_turn_completed_id, turn_id.as_str()) {
            self.pending_turn_completed_id = None;
        }
        self.turn_accepted(turn_id)
    }

    fn on_turn_start_rejected_active_turn_not_steerable(&mut self) -> (decision: Option<
        ReleaseDecision,
    >)
        ensures
            (final(self)@, released(decision)) == old(self)@.on_turn_start_rejected(),
    {
        broadcast use group_messages;

        let reserved_turn_id = match &self.turn_state {
            TurnState::TurnStartPending { reserved_turn_id } => text::opt_clone(reserved_turn_id),
            _ => return None,
        };
        if let Some(message) = self.pending_turn_message.take() {
            self.next_turn_queue.push_front(as_next_turn(message));
        }
        self.pending_steer_turn_id = None;
        if self.pending_turn_completed_id.is_some() {
            self.pending_turn_completed_id = None;
            return self.finish_turn();
        }
        match reserved_turn_id {
            Some(turn_id) => {
                self.turn_state = TurnState::Running { turn_id };
                self.release_pending_immediate()
            },
            None => {
                self.turn_state = TurnState::BusyUnknownTurn;
                None
            },
        }
    }

    fn on_turn_started(&mut self, thread_id: String, turn_id: String) -> (decision: Option<
        ReleaseDecision,
    >)
        ensures
            (final(self)@, released(decision)) == old(self)@.step(
                EventView::TurnStarted { thread_id: thread_id@, turn_id: turn_id@ },
            ),
    {
        if !text::text_eq(thread_id.as_str(), self.thread_id.as_str()) {
            return None;
        }
        match &self.turn_state {
            TurnState::TurnStartPending { reserved_turn_id: None } => {
                self.turn_state = TurnState::TurnStartPending { reserved_turn_id: Some(turn_id) };
                None
            },
            TurnState::TurnStartPending { reserved_turn_id: Some(reserved_turn_id) } => {
                if !text::text_eq(reserved_turn_id.as_str(), turn_id.as_str()) {
                    self.validation_error = Some(
                        text::concat5(
                            "turn/started turn id `",
                            turn_id.as_str(),
                            "` did not match reserved turn id `",
                            reserved_turn_id.as_str(),
                            "`",
                        ),
                    );
                }
                None
            },
            TurnState::BusyUnknownTurn => {
                self.turn_state = TurnState::Running { turn_id };
                self.release_pending_immediate()
            },
            TurnState::Running { turn_id: active_turn_id } => {
                if !text::text_eq(active_turn_id.as_str(), turn_id.as_str()) {
                    self.validation_error = Some(
                        text::concat5(
                            "turn/started turn id `",
                            turn_id.as_str(),
                            "` did not match active turn id `",
                            active_turn_id.as_str(),
                            "`",
                        ),
                    );
                }
                None
            },
            TurnState::Idle => {
                self.turn_state = TurnState::Running { turn_id };
                None
            },
        }
    }

    fn on_active_turn_reconciled(&mut self, thread_id: String, turn_id: String) -> (decision: Option<
        ReleaseDecision,
    >)
        ensures
            (final(self)@, released(decision)) == old(self)@.step(
                EventView::ActiveTurnReconciled { thread_id: thread_id@, turn_id: turn_id@ },
            ),
    {
        if !text::text_eq(thread_id.as_str(), self.thread_id.as_str()) {
            return None;
        }
        if !text::opt_is(&self.pending_turn_completed_id, turn_id.as_str()) {
            self.pending_turn_completed_id = None;
        }
        self.turn_state = match &self.turn_state {
            TurnState::TurnStartPending { .. } => TurnState::TurnStartPending {
                reserved_turn_id: Some(turn_id.clone()),
            },
            _ => TurnState::Running { turn_id: turn_id.clone() },
        };
        if self.pending_steer_turn_id.is_some() {
            self.pending_steer_turn_id = Some(turn_id);
        }
        None
    }

    fn on_turn_completed(&mut self, thread_id: String, turn_id: String) -> (decision: Option<
        ReleaseDecision,
    >)
        ensures
            (final(self)@, released(decision)) == old(self)@.step(
                EventView::TurnCompleted { thread_id: thread_id@, turn_id: turn_id@ },
            ),
    {
        if !text::text_eq(thread_id.as_str(), self.thread_id.as_str()) {
            return None;
        }
        match &self.turn_state {
            TurnState::Idle => return None,
            TurnState::TurnStartPending { reserved_turn_id } => {
                if reserved_turn_id.is_none() || text::opt_is(reserved_turn_id, turn_id.as_str()) {
                    self.pending_turn_completed_id = Some(turn_id);
                }
                return None;
            },
            TurnState::Running { turn_id: active_turn_id } => {
                if !text::text_eq(active_turn_id.as_str(), turn_id.as_str()) {
                    return None;
                }
            },
            TurnState::BusyUnknownTurn => {},
        }
        if self.pending_steer_turn_id.is_some() {
            self.pending_turn_completed_id = Some(turn_id);
            return None;
        }
        self.finish_turn()
    }

    fn on_steer_rejected_active_turn_not_steerable(&mut self, message: QueuedMessage) -> (decision:
        Option<ReleaseDecision>)
        ensures
            (final(self)@, released(decision)) == old(self)@.on_steer_rejected(message@),
    {
        broadcast use group_messages;

        self.pending_steer_turn_id = None;
        let message = as_next_turn(message);
        let completed = self.pending_turn_completed_id.is_some();
        self.pending_turn_completed_id = None;
        if completed {
            self.next_turn_queue.push_front(message);
        } else {
            self.next_turn_queue.push_back(message);
        }
        self.flush_steer_pending_queue_as_buffered();
        self.downgrade_pending_immediates_to_retry_queue();
        if completed && matches!(self.turn_state, TurnState::Running { .. }) {
            self.turn_state = TurnState::Idle;
            return self.release_from_turn_completed();
        }
        if matches!(self.turn_state, TurnState::Idle) {
            return self.release_from_turn_completed();
        }
        None
    }

    fn on_steer_accepted(&mut self, turn_id: String) -> (decision: Option<ReleaseDecision>)
        ensures
            (final(self)@, released(decision)) == old(self)@.on_steer_accepted(turn_id@),
    {
        if !text::opt_is(&self.pending_steer_turn_id, turn_id.as_str()) {
            let expected = match &self.pending_steer_turn_id {
                Some(expected) => expected.clone(),
                None => String::new(),
            };
            self.validation_error = Some(
                text::concat5(
                    "turn/steer response turn id `",
                    turn_id.as_str(),
                    "` did not match pending steer turn id `",
                    expected.as_str(),
                    "`",
                ),
            );
            self.pending_steer_turn_id = None;
            return None;
        }
        self.pending_steer_turn_id = None;
        if self.pending_turn_completed_id.is_some() {
            self.pending_turn_completed_id = None;
            self.flush_steer_pending_queue_as_buffered();
            return self.finish_turn();
        }
        self.resume_running()
    }

    /// Whether the turn runs and no steer is unanswered.
    fn may_steer(&self, thread_id: &str, turn_id: &str) -> (may: bool)
        ensures
            may == self@.may_steer(thread_id@, turn_id@),
    {
        self.matches_active_turn(thread_id, turn_id) && self.pending_steer_turn_id.is_none()
    }

    fn matches_active_turn(&self, thread_id: &str, turn_id: &str) -> (matching: bool)
        ensures
            matching == (thread_id@ == self@.thread_id && self@.active_turn() == Some(turn_id@)),
    {
        if !text::text_eq(thread_id, self.thread_id.as_str()) {
            return false;
        }
        match &self.turn_state {
            TurnState::Running { turn_id: active_turn_id } => text::text_eq(
                active_turn_id.as_str(),
                turn_id,
            ),
            _ => false,
        }
    }

    fn release_after_any_item(&mut self, turn_id: String) -> (decision: Option<ReleaseDecision>)
        ensures
            (final(self)@, released(decision)) == old(self)@.release_after_any_item(turn_id@),
    {
        broadcast use group_messages;

        let ghost state = self@;
        match self.after_any_item_queue.pop_front() {
            Some(message) => {
                assert(self@ =~= (ControllerView {
                    after_any_item: state.after_any_item.drop_first(),
                    ..state
                }));
                self.release_steer(turn_id, message, ReleaseReason::AfterAnyItem)
            },
            None => None,
        }
    }

    fn on_terminal_interaction(&mut self, thread_id: String, turn_id: String) -> (decision: Option<
        ReleaseDecision,
    >)
        ensures
            (final(self)@, released(decision)) == old(self)@.on_terminal_interaction(
                thread_id@,
                turn_id@,
            ),
    {
        broadcast use group_messages;

        if !self.may_steer(thread_id.as_str(), turn_id.as_str()) {
            return None;
        }
        let ghost state = self@;
        match self.after_tool_call_queue.pop_front() {
            Some(message) => {
                assert(self@ =~= (ControllerView {
                    after_tool_call: state.after_tool_call.drop_first(),
                    ..state
                }));
                self.release_steer(turn_id, message, ReleaseReason::AfterToolCall)
            },
            None => self.release_after_any_item(turn_id),
        }
    }

    fn on_item_completed(
        &mut self,
        thread_id: String,
        turn_id: String,
        signal: CompletionSignal,
    ) -> (decision: Option<ReleaseDecision>)
        ensures
            (final(self)@, released(decision)) == old(self)@.on_item_completed(
                thread_id@,
                turn_id@,
                signal,
            ),
    {
        if signal != CompletionSignal::ReleasesAfterAnyItem || !self.may_steer(
            thread_id.as_str(),
            turn_id.as_str(),
        ) {
            return None;
        }
        self.release_after_any_item(turn_id)
    }

    /// Takes an event in and says which message, if any, is to be sent now.
    pub fn on_event(&mut self, event: ControllerEvent) -> (decision: Option<ReleaseDecision>)
        ensures
            (final(self)@, released(decision)) == old(self)@.step(event@),
    {
        match event {
            ControllerEvent::MessageReceived(message) => self.on_message_received(message),
            ControllerEvent::TurnStartAccepted => self.on_turn_start_accepted(),
            ControllerEvent::TurnStartAcceptedWithTurnId { turn_id } =>
                self.on_turn_start_accepted_with_turn_id(turn_id),
            ControllerEvent::TurnStartRejectedActiveTurnNotSteerable =>
                self.on_turn_start_rejected_active_turn_not_steerable(),
            ControllerEvent::TurnStarted { thread_id, turn_id } => self.on_turn_started(
                thread_id,
                turn_id,
            ),
            ControllerEvent::ActiveTurnReconciled { thread_id, turn_id } =>
                self.on_active_turn_reconciled(thread_id, turn_id),
            ControllerEvent::TurnCompleted { thread_id, turn_id } => self.on_turn_completed(
                thread_id,
                turn_id,
            ),
            ControllerEvent::TerminalInteraction { thread_id, turn_id } =>
                self.on_terminal_interaction(thread_id, turn_id),
            ControllerEvent::ItemCompleted { thread_id, turn_id, signal } =>
                self.on_item_completed(thread_id, turn_id, signal),
            ControllerEvent::SteerRejectedActiveTurnNotSteerable { message } =>
                self.on_steer_rejected_active_turn_not_steerable(message),
            ControllerEvent::SteerAccepted { turn_id } => self.on_steer_accepted(turn_id),
        }
    }

    /// The thread of this controller.
    pub fn thread_id(&self) -> (thread_id: &str)
        ensures
            thread_id@ == self@.thread_id,
    {
        self.thread_id.as_str()
    }

    /// Where the thread stands with its turn.
    pub fn turn_state(&self) -> (turn_state: &TurnState)
        ensures
            turn_state@ == self@.turn_state,
    {
        &self.turn_state
    }

    /// Marks the thread as busy with a turn whose identifier is not known.
    pub fn restore_busy_unknown_turn(&mut self)
        ensures
            final(self)@ == old(self)@.busy_unknown(),
    {
        self.turn_state = TurnState::BusyUnknownTurn;
    }

    /// Starts a turn with a message whose steer found no turn to steer.
    pub fn recover_missing_active_turn(&mut self, message: QueuedMessage, reason: ReleaseReason) -> (
    decision: Option<ReleaseDecision>)
        ensures
            (final(self)@, released(decision)) == old(self)@.start(message@, reason),
    {
        self.pending_steer_turn_id = None;
        self.release_start(message, reason)
    }

    /// The message of the turn start that is not yet answered.
    pub fn pending_turn_message(&self) -> (message: Option<&QueuedMessage>)
        ensures
            match message {
                Some(message) => self@.pending_turn_message == Some(message@),
                None => self@.pending_turn_message is None,
            },
    {
        self.pending_turn_message.as_ref()
    }

    /// Hands out the last protocol violation and forgets it.
    pub fn take_validation_error(&mut self) -> (error: Option<String>)
        ensures
            text::opt_text(error) == old(self)@.validation_error,
            final(self)@ == (ControllerView { validation_error: None, ..old(self)@ }),
    {
        self.validation_error.take()
    }

    /// The lengths of the queues that wait for a tool call, for any item and
    /// for the next turn.
    pub fn queued_counts(&self) -> (counts: (usize, usize, usize))
        ensures
            counts.0 == self@.after_tool_call.len(),
            counts.1 == self@.after_any_item.len(),
            counts.2 == self@.next_turn.len(),
    {
        (
            self.after_tool_call_queue.len(),
            self.after_any_item_queue.len(),
            self.next_turn_queue.len(),
        )
    }

    /// Copies of all queues.
    pub fn queue_snapshot(&self) -> (snapshot: ControllerQueueSnapshot)
        ensures
            messages(snapshot.pending_immediate@) == self@.pending_immediate,
            messages(snapshot.steer_pending@) == self@.steer_pending,
            messages(snapshot.after_tool_call@) == self@.after_tool_call,
            messages(snapshot.after_any_item@) == self@.after_any_item,
            messages(snapshot.next_turn@) == self@.next_turn,
    {
        ControllerQueueSnapshot {
            pending_immediate: copy_queue(&self.pending_immediate_queue),
            steer_pending: copy_queue(&self.steer_pending_queue),
            after_tool_call: copy_queue(&self.after_tool_call_queue),
            after_any_item: copy_queue(&self.after_any_item_queue),
            next_turn: copy_queue(&self.next_turn_queue),
        }
    }
}

/// The messages of a queue as a vector.
fn copy_queue(queue: &VecDeque<QueuedMessage>) -> (copy: Vec<QueuedMessage>)
    ensures
        copy@ == queue@,
{
    let mut copy: Vec<QueuedMessage> = Vec::new();
    let mut i: usize = 0;
    while i < queue.len()
        invariant
            i <= queue@.len(),
            copy@ == queue@.subrange(0, i as int),
        decreases queue@.len() - i,
    {
        copy.push(queue[i].clone());
        i += 1;
        assert(copy@ =~= queue@.subrange(0, i as int));
    }
    assert(copy@ =~= queue@);
    copy
}

} // verus!
