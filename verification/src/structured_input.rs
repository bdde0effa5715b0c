//! Structured input of an interactive session: messages that arrive before a
//! thread is bound, one controller per thread, and what the session is to do.

use vstd::multiset::Multiset;
use vstd::prelude::*;

use crate::controller;
use crate::controller::{
    BridgeController, CompletionSignal, ControllerEvent, QueuedMessage, ReleaseDecision,
    ReleaseReason,
};
use crate::controller_laws;
use crate::controller_model;
use crate::controller_model::{
    ActionView, ControllerView, DecisionView, EventView, MessageView, TurnStateView,
};
use crate::items;
use crate::items::ServerNotification;
use crate::message::{ParsedMessage, ParsedView, ParsedXmlInput};
use crate::queue_mode::QueueMode;
use crate::text;
use crate::thread_map::{ThreadControllers, ThreadId};

verus! {

/// What the reader of structured input reports.
#[derive(Debug, PartialEq, Eq)]
pub enum StructuredInputReaderEvent {
    Parsed(ParsedXmlInput),
    StartupDrainComplete,
    ParseError(String),
    Eof,
    ReadError(String),
}

/// What the reader of structured input reports, as mathematical text.
#[verifier::ext_equal]
pub enum ReaderEventView {
    Parsed(ParsedView),
    StartupDrainComplete,
    ParseError(Seq<char>),
    Eof,
    ReadError(Seq<char>),
}

impl View for StructuredInputReaderEvent {
    type V = ReaderEventView;

    open spec fn view(&self) -> ReaderEventView {
        match *self {
            StructuredInputReaderEvent::Parsed(item) => ReaderEventView::Parsed(item@),
            StructuredInputReaderEvent::StartupDrainComplete =>
                ReaderEventView::StartupDrainComplete,
            StructuredInputReaderEvent::ParseError(message) => ReaderEventView::ParseError(
                message@,
            ),
            StructuredInputReaderEvent::Eof => ReaderEventView::Eof,
            StructuredInputReaderEvent::ReadError(message) => ReaderEventView::ReadError(message@),
        }
    }
}

/// What the session is to do.
#[derive(Debug, PartialEq, Eq)]
pub enum StructuredInputAction {
    Release { thread_id: ThreadId, decision: ReleaseDecision },
    Info(String),
    Error(String),
    RefreshPreview,
}

/// What the session is to do, as mathematical text.
#[verifier::ext_equal]
pub enum SessionActionView {
    Release { thread_id: Seq<char>, decision: DecisionView },
    Info(Seq<char>),
    Error(Seq<char>),
    RefreshPreview,
}

impl View for StructuredInputAction {
    type V = SessionActionView;

    open spec fn view(&self) -> SessionActionView {
        match *self {
            StructuredInputAction::Release { thread_id, decision } => SessionActionView::Release {
                thread_id: thread_id@,
                decision: decision@,
            },
            StructuredInputAction::Info(message) => SessionActionView::Info(message@),
            StructuredInputAction::Error(message) => SessionActionView::Error(message@),
            StructuredInputAction::RefreshPreview => SessionActionView::RefreshPreview,
        }
    }
}

/// What the session is to do, in order.
pub open spec fn session_actions(actions: Seq<StructuredInputAction>) -> Seq<SessionActionView> {
    actions.map_values(|action: StructuredInputAction| action@)
}

/// A held message as the session shows it.
#[derive(Clone, Debug, PartialEq, Eq)]
pub struct StructuredInputPreviewEntry {
    pub queue_mode: QueueMode,
    pub text: String,
}

impl View for StructuredInputPreviewEntry {
    type V = MessageView;

    open spec fn view(&self) -> MessageView {
        MessageView { queue_mode: self.queue_mode, text: self.text@ }
    }
}

/// The shown messages, in order.
pub open spec fn preview_entries(entries: Seq<StructuredInputPreviewEntry>) -> Seq<MessageView> {
    entries.map_values(|entry: StructuredInputPreviewEntry| entry@)
}

impl From<ParsedMessage> for StructuredInputPreviewEntry {
    fn from(message: ParsedMessage) -> (entry: Self) {
        StructuredInputPreviewEntry { queue_mode: message.queue_mode, text: message.text }
    }
}

impl vstd::std_specs::convert::FromSpecImpl<ParsedMessage> for StructuredInputPreviewEntry {
    open spec fn obeys_from_spec() -> bool {
        true
    }

    /// A parsed message as the session shows it.
    open spec fn from_spec(message: ParsedMessage) -> Self {
        StructuredInputPreviewEntry { queue_mode: message.queue_mode, text: message.text }
    }
}

impl From<QueuedMessage> for StructuredInputPreviewEntry {
    fn from(message: QueuedMessage) -> (entry: Self) {
        StructuredInputPreviewEntry { queue_mode: message.queue_mode, text: message.text }
    }
}

impl vstd::std_specs::convert::FromSpecImpl<QueuedMessage> for StructuredInputPreviewEntry {
    open spec fn obeys_from_spec() -> bool {
        true
    }

    /// A queued message as the session shows it.
    open spec fn from_spec(message: QueuedMessage) -> Self {
        StructuredInputPreviewEntry { queue_mode: message.queue_mode, text: message.text }
    }
}

/// The state of structured input, as mathematical values.
#[verifier::ext_equal]
pub struct RuntimeView {
    pub reader_active: bool,
    pub startup_system_prompt: Option<Seq<char>>,
    pub startup_locked: bool,
    pub unbound: Seq<MessageView>,
    pub controllers: Map<Seq<char>, ControllerView>,
}

/// What a controller's outcome asks of the session: the preview changes, a
/// violation is reported, a decision is carried out.
pub open spec fn outcome_actions(
    thread_id: Seq<char>,
    violation: Option<Seq<char>>,
    decision: Option<DecisionView>,
) -> Seq<SessionActionView> {
    seq![SessionActionView::RefreshPreview] + match violation {
        Some(message) => seq![
            SessionActionView::Error(
                "Structured input controller validation error for thread "@ + thread_id + ": "@
                    + message,
            ),
        ],
        None => Seq::empty(),
    } + match decision {
        Some(decision) => seq![SessionActionView::Release { thread_id, decision }],
        None => Seq::empty(),
    }
}

impl RuntimeView {
    /// Structured input whose reader has just been started.
    pub open spec fn started() -> Self {
        RuntimeView {
            reader_active: true,
            startup_system_prompt: None,
            startup_locked: false,
            unbound: Seq::empty(),
            controllers: Map::empty(),
        }
    }

    /// The controllers with one for a thread, which is fresh where there was
    /// none.
    pub open spec fn with_thread(self, thread_id: Seq<char>) -> Self {
        if self.controllers.contains_key(thread_id) {
            self
        } else {
            RuntimeView {
                controllers: self.controllers.insert(thread_id, ControllerView::fresh(thread_id)),
                ..self
            }
        }
    }

    /// A controller takes in an event.
    pub open spec fn controller_event(self, thread_id: Seq<char>, event: EventView) -> (
        Self,
        Seq<SessionActionView>,
    ) {
        if !self.controllers.contains_key(thread_id) {
            (self, Seq::empty())
        } else {
            let (after, decision) = self.controllers[thread_id].step(event);
            (
                RuntimeView {
                    controllers: self.controllers.insert(
                        thread_id,
                        ControllerView { validation_error: None, ..after },
                    ),
                    ..self
                },
                outcome_actions(thread_id, after.validation_error, decision),
            )
        }
    }

    /// A steer found no turn: its message starts one.
    pub open spec fn recovered(
        self,
        thread_id: Seq<char>,
        message: MessageView,
        reason: ReleaseReason,
    ) -> (Self, Seq<SessionActionView>) {
        if !self.controllers.contains_key(thread_id) {
            (self, Seq::empty())
        } else {
            let (after, decision) = self.controllers[thread_id].start(message, reason);
            (
                RuntimeView {
                    controllers: self.controllers.insert(
                        thread_id,
                        ControllerView { validation_error: None, ..after },
                    ),
                    ..self
                },
                outcome_actions(thread_id, after.validation_error, decision),
            )
        }
    }

    /// A message arrives for a thread.
    pub open spec fn pushed(self, thread_id: Seq<char>, message: MessageView) -> (
        Self,
        Seq<SessionActionView>,
    ) {
        let bound = self.with_thread(thread_id);
        let (after, decision) = bound.controllers[thread_id].receive(message);
        (
            RuntimeView { controllers: bound.controllers.insert(thread_id, after), ..bound },
            outcome_actions(thread_id, None, decision),
        )
    }

    /// Messages arrive for a thread, one after the other.
    pub open spec fn pushed_all(self, thread_id: Seq<char>, messages: Seq<MessageView>) -> (
        Self,
        Seq<SessionActionView>,
    )
        decreases messages.len(),
    {
        if messages.len() == 0 {
            (self, Seq::empty())
        } else {
            let (before, actions) = self.pushed_all(thread_id, messages.drop_last());
            let (after, more) = before.pushed(thread_id, messages.last());
            (after, actions + more)
        }
    }

    /// The messages that arrived before a thread was bound go to a thread.
    pub open spec fn bound(self, thread_id: Seq<char>) -> (Self, Seq<SessionActionView>) {
        RuntimeView { unbound: Seq::empty(), ..self }.pushed_all(thread_id, self.unbound)
    }

    /// The reader reports something while `current` is displayed.
    pub open spec fn reader_event(self, event: ReaderEventView, current: Option<Seq<char>>) -> (
        Self,
        Seq<SessionActionView>,
    ) {
        match event {
            ReaderEventView::Parsed(ParsedView::SystemPrompt(prompt)) => if self.startup_locked {
                (
                    self,
                    seq![
                        SessionActionView::Error(
                            "Ignored late structured-input <system_prompt> fragment."@,
                        ),
                    ],
                )
            } else {
                (RuntimeView { startup_system_prompt: Some(prompt), ..self }, Seq::empty())
            },
            ReaderEventView::Parsed(ParsedView::Message(message)) => match current {
                Some(thread_id) => self.pushed(thread_id, message),
                None => (
                    RuntimeView { unbound: self.unbound.push(message), ..self },
                    seq![SessionActionView::RefreshPreview],
                ),
            },
            ReaderEventView::ParseError(message) => (self, seq![SessionActionView::Error(message)]),
            ReaderEventView::StartupDrainComplete => (self, Seq::empty()),
            ReaderEventView::ReadError(message) => (
                RuntimeView { reader_active: false, ..self },
                seq![SessionActionView::Error(message)],
            ),
            ReaderEventView::Eof => (
                RuntimeView { reader_active: false, ..self },
                seq![
                    SessionActionView::Info(
                        "Structured input channel closed; sideband XML input is now disabled."@,
                    ),
                ],
            ),
        }
    }

    /// A thread is closed: what it holds is dropped, and said so.
    pub open spec fn dropped(self, thread_id: Seq<char>) -> (Self, Seq<SessionActionView>) {
        if !self.controllers.contains_key(thread_id) {
            (self, Seq::empty())
        } else {
            let count = held_count(self.controllers[thread_id]);
            (
                RuntimeView { controllers: self.controllers.remove(thread_id), ..self },
                seq![SessionActionView::RefreshPreview] + if count > 0 {
                    seq![
                        SessionActionView::Error(
                            "Dropped "@ + text::decimal(count)
                                + " queued structured-input message(s) for closed thread "@
                                + thread_id + "."@,
                        ),
                    ]
                } else {
                    Seq::empty()
                },
            )
        }
    }

    /// The server notifies of something on a thread.
    pub open spec fn notified(self, notification: ServerNotification, thread: Option<Seq<char>>) -> (
        Self,
        Seq<SessionActionView>,
    ) {
        match thread {
            None => (self, Seq::empty()),
            Some(thread_id) => if notification is ThreadClosed {
                self.dropped(thread_id)
            } else {
                match notification_event(notification) {
                    Some(event) => self.controller_event(thread_id, event),
                    None => (self, Seq::empty()),
                }
            },
        }
    }

    /// What is held for the displayed thread, or for none.
    pub open spec fn preview(self, thread_id: Option<Seq<char>>) -> Seq<MessageView> {
        match thread_id {
            None => self.unbound,
            Some(thread_id) => if self.controllers.contains_key(thread_id) {
                all_held(self.controllers[thread_id])
            } else {
                Seq::empty()
            },
        }
    }
}

/// The number of messages that a controller holds back.
pub open spec fn held_count(controller: ControllerView) -> nat {
    controller.pending_immediate.len() + controller.steer_pending.len()
        + controller.after_tool_call.len() + controller.after_any_item.len()
        + controller.next_turn.len()
}

/// The messages that a controller holds back, in the order of the preview.
pub open spec fn all_held(controller: ControllerView) -> Seq<MessageView> {
    controller.pending_immediate + controller.steer_pending + controller.after_tool_call
        + controller.after_any_item + controller.next_turn
}

/// What a notification means for the controller of its thread.
pub open spec fn notification_event(notification: ServerNotification) -> Option<EventView> {
    match notification {
        ServerNotification::TurnStarted { thread_id, turn_id } => Some(
            EventView::TurnStarted { thread_id: thread_id@, turn_id: turn_id@ },
        ),
        ServerNotification::TurnCompleted { thread_id, turn_id } => Some(
            EventView::TurnCompleted { thread_id: thread_id@, turn_id: turn_id@ },
        ),
        ServerNotification::TerminalInteraction { thread_id, turn_id } => Some(
            EventView::TerminalInteraction { thread_id: thread_id@, turn_id: turn_id@ },
        ),
        ServerNotification::ItemCompleted { thread_id, turn_id, item } => Some(
            EventView::ItemCompleted {
                thread_id: thread_id@,
                turn_id: turn_id@,
                signal: items::item_signal(item),
            },
        ),
        ServerNotification::RawResponseItemCompleted { thread_id, turn_id, item } => Some(
            EventView::ItemCompleted {
                thread_id: thread_id@,
                turn_id: turn_id@,
                signal: if items::raw_item_releases(item) {
                    CompletionSignal::ReleasesAfterAnyItem
                } else {
                    CompletionSignal::Ignore
                },
            },
        ),
        ServerNotification::ThreadClosed { .. } | ServerNotification::Other { .. } => None,
    }
}

/// Reads a notification as an event of the controller of its thread.
pub fn controller_event_from_notification(notification: &ServerNotification) -> (event: Option<
    ControllerEvent,
>)
    ensures
        match event {
            Some(event) => notification_event(*notification) == Some(event@),
            None => notification_event(*notification) is None,
        },
{
    match notification {
        ServerNotification::TurnStarted { thread_id, turn_id } => Some(
            ControllerEvent::TurnStarted {
                thread_id: thread_id.clone(),
                turn_id: turn_id.clone(),
            },
        ),
        ServerNotification::TurnCompleted { thread_id, turn_id } => Some(
            ControllerEvent::TurnCompleted {
                thread_id: thread_id.clone(),
                turn_id: turn_id.clone(),
            },
        ),
        ServerNotification::TerminalInteraction { thread_id, turn_id } => Some(
            ControllerEvent::TerminalInteraction {
                thread_id: thread_id.clone(),
                turn_id: turn_id.clone(),
            },
        ),
        ServerNotification::ItemCompleted { thread_id, turn_id, item } => Some(
            ControllerEvent::ItemCompleted {
                thread_id: thread_id.clone(),
                turn_id: turn_id.clone(),
                signal: items::classify_item_completed(item),
            },
        ),
        ServerNotification::RawResponseItemCompleted { thread_id, turn_id, item } => {
            let (signal, _item_key) = items::classify_raw_response_item_completed(item);
            Some(
                ControllerEvent::ItemCompleted {
                    thread_id: thread_id.clone(),
                    turn_id: turn_id.clone(),
                    signal,
                },
            )
        },
        ServerNotification::ThreadClosed { .. } | ServerNotification::Other { .. } => None,
    }
}

/// Structured input of an interactive session.
#[derive(Debug, PartialEq, Eq)]
pub struct StructuredInputRuntime {
    pub reader_active: bool,
    pub startup_system_prompt: Option<String>,
    pub startup_locked: bool,
    pub unbound_messages: Vec<QueuedMessage>,
    pub controllers: ThreadControllers,
}

impl View for StructuredInputRuntime {
    type V = RuntimeView;

    open spec fn view(&self) -> RuntimeView {
        RuntimeView {
            reader_active: self.reader_active,
            startup_system_prompt: text::opt_text(self.startup_system_prompt),
            startup_locked: self.startup_locked,
            unbound: controller::messages(self.unbound_messages@),
            controllers: self.controllers@,
        }
    }
}

/// The actions for a controller's outcome.
fn actions_for_outcome(
    thread_id: &ThreadId,
    violation: Option<String>,
    decision: Option<ReleaseDecision>,
) -> (actions: Vec<StructuredInputAction>)
    ensures
        session_actions(actions@) == outcome_actions(
            thread_id@,
            text::opt_text(violation),
            controller::released(decision),
        ),
{
    let mut actions: Vec<StructuredInputAction> = Vec::new();
    actions.push(StructuredInputAction::RefreshPreview);
    if let Some(message) = &violation {
        let subject = text::concat2(
            "Structured input controller validation error for thread ",
            thread_id.as_str(),
        );
        actions.push(
            StructuredInputAction::Error(
                text::concat3(subject.as_str(), ": ", message.as_str()),
            ),
        );
    }
    if let Some(decision) = decision {
        actions.push(StructuredInputAction::Release { thread_id: thread_id.clone(), decision });
    }
    assert(session_actions(actions@) =~= outcome_actions(
        thread_id@,
        text::opt_text(violation),
        controller::released(decision),
    ));
    actions
}

/// No actions.
fn no_actions() -> (actions: Vec<StructuredInputAction>)
    ensures
        session_actions(actions@) == Seq::<SessionActionView>::empty(),
{
    let actions: Vec<StructuredInputAction> = Vec::new();
    assert(session_actions(actions@) =~= Seq::empty());
    actions
}

/// One action.
fn one_action(action: StructuredInputAction) -> (actions: Vec<StructuredInputAction>)
    ensures
        session_actions(actions@) == seq![action@],
{
    let mut actions: Vec<StructuredInputAction> = Vec::new();
    actions.push(action);
    assert(session_actions(actions@) =~= seq![action@]);
    actions
}

/// Two batches of actions, one behind the other.
pub fn join_actions(
    first: Vec<StructuredInputAction>,
    second: Vec<StructuredInputAction>,
) -> (joined: Vec<StructuredInputAction>)
    ensures
        session_actions(joined@) == session_actions(first@) + session_actions(second@),
{
    let mut joined = first;
    let mut second = second;
    let ghost left = joined@;
    let ghost right = second@;
    joined.append(&mut second);
    assert(session_actions(left + right) =~= session_actions(left) + session_actions(right));
    joined
}

impl StructuredInputRuntime {
    /// Whether each thread has at most one controller.
    pub open spec fn wf(&self) -> bool {
        self.controllers.wf()
    }

    /// Structured input whose reader has just been started.
    pub fn new() -> (runtime: Self)
        ensures
            runtime.wf(),
            runtime@ == RuntimeView::started(),
    {
        let runtime = StructuredInputRuntime {
            reader_active: true,
            startup_system_prompt: None,
            startup_locked: false,
            unbound_messages: Vec::new(),
            controllers: ThreadControllers::new(),
        };
        assert(runtime@ =~= RuntimeView::started());
        runtime
    }

    /// Whether the reader still delivers input.
    pub fn has_reader(&self) -> (active: bool)
        ensures
            active == self@.reader_active,
    {
        self.reader_active
    }

    /// The system prompt that came before the session started.
    pub fn startup_system_prompt(&self) -> (prompt: Option<String>)
        ensures
            text::opt_text(prompt) == self@.startup_system_prompt,
    {
        text::opt_clone(&self.startup_system_prompt)
    }

    /// Ends the time in which a system prompt is taken.
    pub fn lock_startup(&mut self)
        requires
            old(self).wf(),
        ensures
            final(self).wf(),
            final(self)@ == (RuntimeView { startup_locked: true, ..old(self)@ }),
    {
        self.startup_locked = true;
    }

    fn push_message(&mut self, thread_id: &ThreadId, message: QueuedMessage) -> (actions: Vec<
        StructuredInputAction,
    >)
        requires
            old(self).wf(),
        ensures
            final(self).wf(),
            (final(self)@, session_actions(actions@)) == old(self)@.pushed(thread_id@, message@),
    {
        self.controllers.ensure(thread_id);
        let decision = self.controllers.push_event(
            thread_id,
            ControllerEvent::MessageReceived(message),
        );
        actions_for_outcome(thread_id, None, decision)
    }

    /// Hands the messages that arrived before a thread was bound to a thread.
    pub fn bind_unbound_messages(&mut self, thread_id: &ThreadId) -> (actions: Vec<
        StructuredInputAction,
    >)
        requires
            old(self).wf(),
        ensures
            final(self).wf(),
            (final(self)@, session_actions(actions@)) == old(self)@.bound(thread_id@),
    {
        let mut messages: Vec<QueuedMessage> = Vec::new();
        std::mem::swap(&mut messages, &mut self.unbound_messages);
        let ghost all = controller::messages(messages@);
        let ghost start = self@;
        assert(start =~= (RuntimeView { unbound: Seq::empty(), ..old(self)@ }));
        let mut actions = no_actions();
        let mut i: usize = 0;
        assert(all.take(0) =~= Seq::empty());
        while i < messages.len()
            invariant
                i <= messages@.len(),
                all == controller::messages(messages@),
                self.wf(),
                (self@, session_actions(actions@)) == start.pushed_all(
                    thread_id@,
                    all.take(i as int),
                ),
            decreases messages@.len() - i,
        {
            let message = messages[i].clone();
            proof {
                assert(all.take(i + 1).drop_last() =~= all.take(i as int));
                assert(all.take(i + 1).last() == message@);
            }
            let more = self.push_message(thread_id, message);
            actions = join_actions(actions, more);
            i += 1;
        }
        assert(all.take(i as int) =~= all);
        actions
    }

    /// Takes in what the reader reports while a thread is displayed, or none.
    pub fn handle_reader_event(
        &mut self,
        event: StructuredInputReaderEvent,
        current_thread_id: Option<&ThreadId>,
    ) -> (actions: Vec<StructuredInputAction>)
        requires
            old(self).wf(),
        ensures
            final(self).wf(),
            (final(self)@, session_actions(actions@)) == old(self)@.reader_event(
                event@,
                match current_thread_id {
                    Some(thread_id) => Some(thread_id@),
                    None => None,
                },
            ),
    {
        match event {
            StructuredInputReaderEvent::Parsed(ParsedXmlInput::SystemPrompt(prompt)) => {
                if self.startup_locked {
                    one_action(
                        StructuredInputAction::Error(
                            "Ignored late structured-input <system_prompt> fragment.".to_owned(),
                        ),
                    )
                } else {
                    self.startup_system_prompt = Some(prompt);
                    no_actions()
                }
            },
            StructuredInputReaderEvent::Parsed(ParsedXmlInput::Message(message)) => {
                let queued = QueuedMessage { queue_mode: message.queue_mode, text: message.text };
                match current_thread_id {
                    Some(thread_id) => self.push_message(thread_id, queued),
                    None => {
                        self.unbound_messages.push(queued);
                        assert(controller::messages(self.unbound_messages@)
                            =~= old(self)@.unbound.push(message@));
                        one_action(StructuredInputAction::RefreshPreview)
                    },
                }
            },
            StructuredInputReaderEvent::ParseError(message) => one_action(
                StructuredInputAction::Error(message),
            ),
            StructuredInputReaderEvent::StartupDrainComplete => no_actions(),
            StructuredInputReaderEvent::ReadError(message) => {
                self.reader_active = false;
                one_action(StructuredInputAction::Error(message))
            },
            StructuredInputReaderEvent::Eof => {
                self.reader_active = false;
                one_action(
                    StructuredInputAction::Info(
                        "Structured input channel closed; sideband XML input is now disabled.".to_owned(),
                    ),
                )
            },
        }
    }

    /// Takes in a notification of the server; `thread` is the thread that its
    /// text names, where it names one.
    pub fn handle_server_notification(
        &mut self,
        notification: &ServerNotification,
        thread: Option<&ThreadId>,
    ) -> (actions: Vec<StructuredInputAction>)
        requires
            old(self).wf(),
        ensures
            final(self).wf(),
            (final(self)@, session_actions(actions@)) == old(self)@.notified(
                *notification,
                match thread {
                    Some(thread_id) => Some(thread_id@),
                    None => None,
                },
            ),
    {
        let thread_id = match thread {
            Some(thread_id) => thread_id,
            None => return no_actions(),
        };
        if let ServerNotification::ThreadClosed { .. } = notification {
            return self.drop_thread(thread_id);
        }
        match controller_event_from_notification(notification) {
            Some(event) => self.handle_controller_event(thread_id, event),
            None => no_actions(),
        }
    }

    /// Lets the controller of a thread take in an event.
    pub fn handle_controller_event(&mut self, thread_id: &ThreadId, event: ControllerEvent) -> (
    actions: Vec<StructuredInputAction>)
        requires
            old(self).wf(),
        ensures
            final(self).wf(),
            (final(self)@, session_actions(actions@)) == old(self)@.controller_event(
                thread_id@,
                event@,
            ),
    {
        match self.controllers.on_event(thread_id, event) {
            Some((decision, violation)) => actions_for_outcome(thread_id, violation, decision),
            None => no_actions(),
        }
    }

    /// Starts a turn with a message whose steer found no turn.
    pub fn recover_missing_active_turn(
        &mut self,
        thread_id: &ThreadId,
        message: QueuedMessage,
        reason: ReleaseReason,
    ) -> (actions: Vec<StructuredInputAction>)
        requires
            old(self).wf(),
        ensures
            final(self).wf(),
            (final(self)@, session_actions(actions@)) == old(self)@.recovered(
                thread_id@,
                message@,
                reason,
            ),
    {
        match self.controllers.recover(thread_id, message, reason) {
            Some((decision, violation)) => actions_for_outcome(thread_id, violation, decision),
            None => no_actions(),
        }
    }

    /// Tells the controller of a thread which turn is active.
    pub fn reconcile_active_turn(&mut self, thread_id: &ThreadId, turn_id: String) -> (actions: Vec<
        StructuredInputAction,
    >)
        requires
            old(self).wf(),
        ensures
            final(self).wf(),
            (final(self)@, session_actions(actions@)) == old(self)@.controller_event(
                thread_id@,
                EventView::ActiveTurnReconciled { thread_id: thread_id@, turn_id: turn_id@ },
            ),
    {
        let event = ControllerEvent::ActiveTurnReconciled {
            thread_id: thread_id.to_string(),
            turn_id,
        };
        self.handle_controller_event(thread_id, event)
    }

    /// Tells the controller of a thread which turn is active; a thread without
    /// a controller gets one.
    pub fn sync_active_turn(&mut self, thread_id: &ThreadId, turn_id: String) -> (actions: Vec<
        StructuredInputAction,
    >)
        requires
            old(self).wf(),
        ensures
            final(self).wf(),
            (final(self)@, session_actions(actions@)) == old(self)@.with_thread(
                thread_id@,
            ).controller_event(
                thread_id@,
                EventView::ActiveTurnReconciled { thread_id: thread_id@, turn_id: turn_id@ },
            ),
    {
        self.controllers.ensure(thread_id);
        self.reconcile_active_turn(thread_id, turn_id)
    }

    /// What is held for the displayed thread, or for none.
    pub fn preview_for_thread(&self, thread_id: Option<&ThreadId>) -> (entries: Vec<
        StructuredInputPreviewEntry,
    >)
        requires
            self.wf(),
        ensures
            preview_entries(entries@) == self@.preview(
                match thread_id {
                    Some(thread_id) => Some(thread_id@),
                    None => None,
                },
            ),
    {
        match thread_id {
            Some(thread_id) => match self.controllers.get(thread_id) {
                Some(controller) => preview_entries_for_controller(controller),
                None => {
                    let entries: Vec<StructuredInputPreviewEntry> = Vec::new();
                    assert(preview_entries(entries@) =~= Seq::empty());
                    entries
                },
            },
            None => {
                let mut entries: Vec<StructuredInputPreviewEntry> = Vec::new();
                append_entries(&mut entries, &self.unbound_messages);
                assert(preview_entries(entries@) =~= self@.unbound);
                entries
            },
        }
    }

    /// Drops a closed thread.
    pub fn drop_thread(&mut self, thread_id: &ThreadId) -> (actions: Vec<StructuredInputAction>)
        requires
            old(self).wf(),
        ensures
            final(self).wf(),
            (final(self)@, session_actions(actions@)) == old(self)@.dropped(thread_id@),
    {
        let controller = match self.controllers.remove(thread_id) {
            Some(controller) => controller,
            None => {
                assert(self@ =~= old(self)@);
                return no_actions();
            },
        };
        let snapshot = controller.queue_snapshot();
        let count: u128 = snapshot.pending_immediate.len() as u128
            + snapshot.steer_pending.len() as u128 + snapshot.after_tool_call.len() as u128
            + snapshot.after_any_item.len() as u128 + snapshot.next_turn.len() as u128;
        proof {
            let view = old(self)@.controllers[thread_id@];
            assert(snapshot.pending_immediate@.len() == view.pending_immediate.len());
            assert(snapshot.steer_pending@.len() == view.steer_pending.len());
            assert(snapshot.after_tool_call@.len() == view.after_tool_call.len());
            assert(snapshot.after_any_item@.len() == view.after_any_item.len());
            assert(snapshot.next_turn@.len() == view.next_turn.len());
        }
        let refresh = one_action(StructuredInputAction::RefreshPreview);
        if count == 0 {
            assert(seq![SessionActionView::RefreshPreview] + Seq::empty()
                =~= seq![SessionActionView::RefreshPreview]);
            return refresh;
        }
        let mut message = text::concat3(
            "Dropped ",
            text::decimal_u128(count).as_str(),
            " queued structured-input message(s) for closed thread ",
        );
        message.append(thread_id.as_str());
        message.append(".");
        join_actions(refresh, one_action(StructuredInputAction::Error(message)))
    }
}

/// Appends messages to shown entries.
fn append_entries(entries: &mut Vec<StructuredInputPreviewEntry>, messages: &Vec<QueuedMessage>)
    ensures
        preview_entries(final(entries)@) == preview_entries(old(entries)@) + controller::messages(
            messages@,
        ),
{
    let ghost all = controller::messages(messages@);
    let ghost before = preview_entries(entries@);
    let mut i: usize = 0;
    assert(before + all.take(0) =~= before);
    while i < messages.len()
        invariant
            i <= messages@.len(),
            all == controller::messages(messages@),
            preview_entries(entries@) == before + all.take(i as int),
        decreases messages@.len() - i,
    {
        let ghost earlier = entries@;
        entries.push(StructuredInputPreviewEntry::from(messages[i].clone()));
        proof {
            assert(preview_entries(entries@) =~= preview_entries(earlier).push(all[i as int]));
            assert(before + all.take(i + 1) =~= (before + all.take(i as int)).push(all[i as int]));
        }
        i += 1;
    }
    assert(all.take(i as int) =~= all);
}

/// What a controller holds back, as the session shows it.
fn preview_entries_for_controller(controller: &BridgeController) -> (entries: Vec<
    StructuredInputPreviewEntry,
>)
    ensures
        preview_entries(entries@) == all_held(controller@),
{
    let snapshot = controller.queue_snapshot();
    let mut entries: Vec<StructuredInputPreviewEntry> = Vec::new();
    append_entries(&mut entries, &snapshot.pending_immediate);
    append_entries(&mut entries, &snapshot.steer_pending);
    append_entries(&mut entries, &snapshot.after_tool_call);
    append_entries(&mut entries, &snapshot.after_any_item);
    append_entries(&mut entries, &snapshot.next_turn);
    assert(preview_entries(entries@) =~= all_held(controller@));
    entries
}

/// How far the drain at the start of a session has come.
#[derive(Clone, Copy, Debug, PartialEq, Eq, Structural)]
pub enum DrainStage {
    /// The next event is waited for.
    Waiting,
    /// What is already there is taken; `done` once the drain was reported to be
    /// over.
    Polling { done: bool },
    /// The session may go on.
    Finished,
}

/// What came from the reader during the drain.
#[derive(Debug, PartialEq, Eq)]
pub enum DrainInput {
    Event(StructuredInputReaderEvent),
    NothingReady,
    Closed,
}

/// Whether an event ends the drain at the start of a session.
pub open spec fn ends_drain(event: ReaderEventView) -> bool {
    event is StartupDrainComplete || event is Eof || event is ReadError
}

/// Where the drain goes from a stage.
pub open spec fn drain_next(stage: DrainStage, input: DrainInput) -> DrainStage {
    match (stage, input) {
        (DrainStage::Finished, _) => DrainStage::Finished,
        (DrainStage::Waiting, DrainInput::Event(event)) => DrainStage::Polling {
            done: ends_drain(event@),
        },
        (DrainStage::Waiting, DrainInput::NothingReady) => DrainStage::Waiting,
        (DrainStage::Waiting, DrainInput::Closed) => DrainStage::Finished,
        (DrainStage::Polling { done }, DrainInput::Event(event)) => if ends_drain(event@) {
            DrainStage::Finished
        } else {
            DrainStage::Polling { done }
        },
        (DrainStage::Polling { done }, _) => if done {
            DrainStage::Finished
        } else {
            DrainStage::Waiting
        },
    }
}

impl StructuredInputRuntime {
    /// One step of the drain at the start of a session: an event is taken in
    /// before any thread is displayed, and the next stage is given.
    pub fn drain_startup(&mut self, stage: DrainStage, input: DrainInput) -> (drained: (
        DrainStage,
        Vec<StructuredInputAction>,
    ))
        requires
            old(self).wf(),
        ensures
            final(self).wf(),
            drained.0 == drain_next(stage, input),
            (final(self)@, session_actions(drained.1@)) == match input {
                DrainInput::Event(event) if !(stage is Finished) => old(self)@.reader_event(
                    event@,
                    None,
                ),
                _ => (old(self)@, Seq::empty()),
            },
    {
        match stage {
            DrainStage::Finished => (DrainStage::Finished, no_actions()),
            DrainStage::Waiting => match input {
                DrainInput::Event(event) => {
                    let done = reader_event_ends_drain(&event);
                    (DrainStage::Polling { done }, self.handle_reader_event(event, None))
                },
                DrainInput::NothingReady => (DrainStage::Waiting, no_actions()),
                DrainInput::Closed => (DrainStage::Finished, no_actions()),
            },
            DrainStage::Polling { done } => match input {
                DrainInput::Event(event) => {
                    let next = if reader_event_ends_drain(&event) {
                        DrainStage::Finished
                    } else {
                        DrainStage::Polling { done }
                    };
                    (next, self.handle_reader_event(event, None))
                },
                DrainInput::NothingReady | DrainInput::Closed => {
                    let next = if done {
                        DrainStage::Finished
                    } else {
                        DrainStage::Waiting
                    };
                    (next, no_actions())
                },
            },
        }
    }
}

fn reader_event_ends_drain(event: &StructuredInputReaderEvent) -> (ends: bool)
    ensures
        ends == ends_drain(event@),
{
    match event {
        StructuredInputReaderEvent::StartupDrainComplete
        | StructuredInputReaderEvent::Eof
        | StructuredInputReaderEvent::ReadError(_) => true,
        _ => false,
    }
}

/// What a session does to the structured input.
pub enum RuntimeStep {
    Reader { event: ReaderEventView, current: Option<Seq<char>> },
    Bind { thread_id: Seq<char> },
    Controller { thread_id: Seq<char>, event: EventView },
    Recover { thread_id: Seq<char>, message: MessageView, reason: ReleaseReason },
    Sync { thread_id: Seq<char>, turn_id: Seq<char> },
    Close { thread_id: Seq<char> },
}

impl RuntimeView {
    /// The state after a step, with what the session is to do.
    pub open spec fn step(self, step: RuntimeStep) -> (Self, Seq<SessionActionView>) {
        match step {
            RuntimeStep::Reader { event, current } => self.reader_event(event, current),
            RuntimeStep::Bind { thread_id } => self.bound(thread_id),
            RuntimeStep::Controller { thread_id, event } => self.controller_event(thread_id, event),
            RuntimeStep::Recover { thread_id, message, reason } => self.recovered(
                thread_id,
                message,
                reason,
            ),
            RuntimeStep::Sync { thread_id, turn_id } => self.with_thread(
                thread_id,
            ).controller_event(
                thread_id,
                EventView::ActiveTurnReconciled { thread_id, turn_id },
            ),
            RuntimeStep::Close { thread_id } => self.dropped(thread_id),
        }
    }

    /// The controller of a thread, which is fresh where there is none.
    pub open spec fn controller_of(self, thread_id: Seq<char>) -> ControllerView {
        self.with_thread(thread_id).controllers[thread_id]
    }
}

/// The thread that a step is about.
pub open spec fn step_thread(step: RuntimeStep) -> Option<Seq<char>> {
    match step {
        RuntimeStep::Reader { current, .. } => current,
        RuntimeStep::Bind { thread_id } => Some(thread_id),
        RuntimeStep::Controller { thread_id, .. } => Some(thread_id),
        RuntimeStep::Recover { thread_id, .. } => Some(thread_id),
        RuntimeStep::Sync { thread_id, .. } => Some(thread_id),
        RuntimeStep::Close { thread_id } => Some(thread_id),
    }
}

proof fn lemma_pushed_all_keeps_other_threads(
    state: RuntimeView,
    thread_id: Seq<char>,
    messages: Seq<MessageView>,
    other: Seq<char>,
)
    requires
        other != thread_id,
    ensures
        state.pushed_all(thread_id, messages).0.controllers.contains_key(other)
            == state.controllers.contains_key(other),
        state.pushed_all(thread_id, messages).0.controllers[other] == state.controllers[other],
    decreases messages.len(),
{
    if messages.len() > 0 {
        lemma_pushed_all_keeps_other_threads(state, thread_id, messages.drop_last(), other);
    }
}

/// Threads do not interfere: a step about one thread, or about none, leaves the
/// controller and the preview of every other thread as they were.
pub proof fn threads_do_not_interfere(state: RuntimeView, step: RuntimeStep, other: Seq<char>)
    requires
        step_thread(step) != Some(other),
    ensures
        state.step(step).0.controllers.contains_key(other) == state.controllers.contains_key(other),
        state.controllers.contains_key(other) ==> state.step(step).0.controllers[other]
            == state.controllers[other],
        state.step(step).0.preview(Some(other)) == state.preview(Some(other)),
{
    if let RuntimeStep::Bind { thread_id } = step {
        lemma_pushed_all_keeps_other_threads(
            RuntimeView { unbound: Seq::empty(), ..state },
            thread_id,
            state.unbound,
            other,
        );
    }
}

proof fn lemma_pushed_all_keeps_the_rest(
    state: RuntimeView,
    thread_id: Seq<char>,
    messages: Seq<MessageView>,
)
    ensures
        state.pushed_all(thread_id, messages).0 == (RuntimeView {
            controllers: state.pushed_all(thread_id, messages).0.controllers,
            ..state
        }),
    decreases messages.len(),
{
    if messages.len() > 0 {
        lemma_pushed_all_keeps_the_rest(state, thread_id, messages.drop_last());
    }
}

/// Once the start of the session is over, its system prompt stays what it is.
pub proof fn a_late_prompt_changes_nothing(state: RuntimeView, step: RuntimeStep)
    requires
        state.startup_locked,
    ensures
        state.step(step).0.startup_locked,
        state.step(step).0.startup_system_prompt == state.startup_system_prompt,
{
    if let RuntimeStep::Bind { thread_id } = step {
        lemma_pushed_all_keeps_the_rest(
            RuntimeView { unbound: Seq::empty(), ..state },
            thread_id,
            state.unbound,
        );
    }
}

/// The end of the input, or a failure to read it, drops no message: neither
/// those that wait for a thread nor those that a thread holds.
pub proof fn the_end_of_the_input_drops_nothing(
    state: RuntimeView,
    event: ReaderEventView,
    current: Option<Seq<char>>,
)
    requires
        event is Eof || event is ReadError,
    ensures
        !state.reader_event(event, current).0.reader_active,
        state.reader_event(event, current).0.unbound == state.unbound,
        state.reader_event(event, current).0.controllers == state.controllers,
{
}

/// The texts that some actions send.
pub open spec fn sent_by(actions: Seq<SessionActionView>) -> Multiset<Seq<char>>
    decreases actions.len(),
{
    if actions.len() == 0 {
        Multiset::empty()
    } else {
        sent_by(actions.drop_last()).add(
            match actions.last() {
                SessionActionView::Release { decision, .. } => Multiset::singleton(
                    decision.message.text,
                ),
                _ => Multiset::empty(),
            },
        )
    }
}

proof fn lemma_sent_by_add(first: Seq<SessionActionView>, second: Seq<SessionActionView>)
    ensures
        sent_by(first + second) == sent_by(first).add(sent_by(second)),
    decreases second.len(),
{
    broadcast use vstd::multiset::group_multiset_axioms;

    if second.len() == 0 {
        assert(first + second =~= first);
        assert(sent_by(first).add(Multiset::empty()) =~= sent_by(first));
    } else {
        lemma_sent_by_add(first, second.drop_last());
        assert((first + second).drop_last() =~= first + second.drop_last());
        assert((first + second).last() == second.last());
        assert(sent_by(first + second) =~= sent_by(first).add(sent_by(second)));
    }
}

proof fn lemma_sent_by_outcome(
    thread_id: Seq<char>,
    violation: Option<Seq<char>>,
    decision: Option<DecisionView>,
)
    ensures
        sent_by(outcome_actions(thread_id, violation, decision)) == controller_laws::sent(decision),
{
    broadcast use vstd::multiset::group_multiset_axioms;

    reveal_with_fuel(sent_by, 4);
    let refresh = seq![SessionActionView::RefreshPreview];
    let report = match violation {
        Some(message) => seq![
            SessionActionView::Error(
                "Structured input controller validation error for thread "@ + thread_id + ": "@
                    + message,
            ),
        ],
        None => Seq::empty(),
    };
    let release = match decision {
        Some(decision) => seq![SessionActionView::Release { thread_id, decision }],
        None => Seq::empty(),
    };
    lemma_sent_by_add(refresh, report);
    lemma_sent_by_add(refresh + report, release);
    assert(sent_by(refresh) =~= Multiset::empty()) by {
        assert(refresh.drop_last() =~= Seq::empty());
    }
    assert(sent_by(report) =~= Multiset::empty()) by {
        if violation is Some {
            assert(report.drop_last() =~= Seq::empty());
        }
    }
    assert(sent_by(release) =~= controller_laws::sent(decision)) by {
        if decision is Some {
            assert(release.drop_last() =~= Seq::empty());
        }
    }
    assert(sent_by(outcome_actions(thread_id, violation, decision)) =~= controller_laws::sent(
        decision,
    ));
}

proof fn lemma_pushed_accounted(state: RuntimeView, thread_id: Seq<char>, message: MessageView)
    ensures
        state.pushed(thread_id, message).0.controllers.contains_key(thread_id),
        controller_laws::held(state.pushed(thread_id, message).0.controllers[thread_id]).add(
            sent_by(state.pushed(thread_id, message).1),
        ) == controller_laws::held(state.controller_of(thread_id)).add(
            Multiset::singleton(message.text),
        ),
{
    let controller = state.controller_of(thread_id);
    controller_laws::no_message_is_lost_or_repeated(controller, EventView::MessageReceived(message));
    lemma_sent_by_outcome(thread_id, None, controller.receive(message).1);
}

proof fn lemma_pushed_all_accounted(
    state: RuntimeView,
    thread_id: Seq<char>,
    messages: Seq<MessageView>,
)
    ensures
        controller_laws::held(state.pushed_all(thread_id, messages).0.controller_of(thread_id)).add(
            sent_by(state.pushed_all(thread_id, messages).1),
        ) == controller_laws::held(state.controller_of(thread_id)).add(
            controller_laws::texts_of(messages),
        ),
    decreases messages.len(),
{
    broadcast use vstd::multiset::group_multiset_axioms;
    broadcast use vstd::seq_lib::group_to_multiset_ensures;

    let text = |message: MessageView| message.text;
    let before = controller_laws::held(state.controller_of(thread_id));
    if messages.len() == 0 {
        assert(messages.map_values(text) =~= Seq::empty());
        assert(controller_laws::texts_of(messages) =~= Multiset::empty());
        assert(before.add(sent_by(Seq::empty())) =~= before.add(
            controller_laws::texts_of(messages),
        ));
    } else {
        let front = messages.drop_last();
        let last = messages.last();
        let (middle, actions) = state.pushed_all(thread_id, front);
        let (after, more) = middle.pushed(thread_id, last);
        lemma_pushed_all_accounted(state, thread_id, front);
        lemma_pushed_accounted(middle, thread_id, last);
        lemma_sent_by_add(actions, more);
        assert(messages.map_values(text) =~= front.map_values(text).push(last.text));
        assert(controller_laws::texts_of(messages) =~= controller_laws::texts_of(front).insert(
            last.text,
        ));
        let held = controller_laws::held(after.controllers[thread_id]);
        let held_middle = controller_laws::held(middle.controller_of(thread_id));
        assert(held.add(sent_by(more)) == held_middle.add(Multiset::singleton(last.text)));
        assert(held.add(sent_by(actions + more)) =~= held.add(sent_by(more)).add(sent_by(actions)));
        assert(held_middle.add(Multiset::singleton(last.text)).add(sent_by(actions))
            =~= held_middle.add(sent_by(actions)).add(Multiset::singleton(last.text)));
        assert(before.add(controller_laws::texts_of(messages)) =~= before.add(
            controller_laws::texts_of(front),
        ).add(Multiset::singleton(last.text)));
    }
}

/// Binding a thread loses no message and sends none twice: what waited for a
/// thread, together with what the thread held, is then held by the thread or
/// sent, and nothing waits for a thread any more.
pub proof fn binding_loses_nothing(state: RuntimeView, thread_id: Seq<char>)
    ensures
        state.bound(thread_id).0.unbound.len() == 0,
        controller_laws::held(state.bound(thread_id).0.controller_of(thread_id)).add(
            sent_by(state.bound(thread_id).1),
        ) == controller_laws::held(state.controller_of(thread_id)).add(
            controller_laws::texts_of(state.unbound),
        ),
{
    let empty = RuntimeView { unbound: Seq::empty(), ..state };
    lemma_pushed_all_keeps_the_rest(empty, thread_id, state.unbound);
    lemma_pushed_all_accounted(empty, thread_id, state.unbound);
}

/// A message for a thread that is displayed is held by the thread or sent.
pub proof fn a_message_for_a_thread_is_held_or_sent(
    state: RuntimeView,
    thread_id: Seq<char>,
    message: MessageView,
)
    ensures
        ({
            let event = ReaderEventView::Parsed(ParsedView::Message(message));
            let (after, actions) = state.reader_event(event, Some(thread_id));
            controller_laws::held(after.controller_of(thread_id)).add(sent_by(actions))
                == controller_laws::held(state.controller_of(thread_id)).add(
                Multiset::singleton(message.text),
            )
        }),
{
    lemma_pushed_accounted(state, thread_id, message);
}

/// Where a thread is known to be busy before its first message arrives, the
/// message starts no turn: it waits, or it is steered into the running turn.
pub proof fn a_busy_thread_is_respected(
    state: RuntimeView,
    thread_id: Seq<char>,
    turn_id: Seq<char>,
    message: MessageView,
)
    requires
        !state.controllers.contains_key(thread_id),
    ensures
        ({
            let (synced, _) = state.step(RuntimeStep::Sync { thread_id, turn_id });
            let (after, actions) = synced.pushed(thread_id, message);
            &&& after.controllers[thread_id].active_turn() == Some(turn_id)
            &&& if message.queue_mode == QueueMode::Immediate {
                actions == seq![
                    SessionActionView::RefreshPreview,
                    SessionActionView::Release {
                        thread_id,
                        decision: (DecisionView {
                            action: ActionView::SteerTurn { turn_id },
                            reason: ReleaseReason::Immediate,
                            message,
                        }),
                    },
                ]
            } else {
                &&& actions == seq![SessionActionView::RefreshPreview]
                &&& after.preview(Some(thread_id)) == seq![
                    message.with_mode(message.waiting_mode()),
                ]
            }
        }),
{
    let (synced, _) = state.step(RuntimeStep::Sync { thread_id, turn_id });
    let (after, actions) = synced.pushed(thread_id, message);
    let controller = synced.controllers[thread_id];
    assert(controller == ControllerView {
        turn_state: TurnStateView::Running { turn_id },
        ..ControllerView::fresh(thread_id)
    });
    if message.queue_mode == QueueMode::Immediate {
        let decision = DecisionView {
            action: ActionView::SteerTurn { turn_id },
            reason: ReleaseReason::Immediate,
            message,
        };
        assert(actions =~= seq![
            SessionActionView::RefreshPreview,
            SessionActionView::Release { thread_id, decision },
        ]);
    } else {
        controller_model::lemma_waiting_in_single(message);
        assert(actions =~= seq![SessionActionView::RefreshPreview]);
        assert(after.preview(Some(thread_id)) =~= seq![message.with_mode(message.waiting_mode())]);
    }
}

/// A closed thread is forgotten, and the number of messages that are lost with
/// it is the number of those that the preview showed.
pub proof fn a_closed_thread_is_forgotten(state: RuntimeView, thread_id: Seq<char>)
    requires
        state.controllers.contains_key(thread_id),
    ensures
        state.dropped(thread_id).0.preview(Some(thread_id)) == Seq::<MessageView>::empty(),
        held_count(state.controllers[thread_id]) == state.preview(Some(thread_id)).len(),
        state.dropped(thread_id).1.len() == 1 <==> state.preview(Some(thread_id)).len() == 0,
{
}

} // verus!
