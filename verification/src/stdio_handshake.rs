//! How a connection to the app server is set up: the client introduces itself,
//! waits for the answer, and confirms it.

use vstd::prelude::*;

use crate::protocol::{RequestId, RequestIdView};
use crate::stdio;
use crate::stdio::{
    AppServerEvent, AppServerEventView, ClientNotification, IncomingMessage, OutgoingMessage,
    OutgoingView, TransportError, TransportErrorKind, TransportErrorView,
};
use crate::text;

verus! {

/// How far the setup has come.
#[derive(Clone, Copy, Debug, PartialEq, Eq, Structural)]
pub enum HandshakeStage {
    /// The introduction is being written.
    Introducing,
    /// The answer to the introduction is waited for.
    Awaiting,
    /// The refusal of an unknown request is being written meanwhile.
    Refusing,
    /// The confirmation is being written.
    Confirming,
    Connected,
    Failed,
}

/// What came about during the setup.
#[derive(Debug, PartialEq, Eq)]
pub enum HandshakeInput {
    Written(Result<(), TransportError>),
    /// A line was read; it is a message, or why it is none.
    Line(Result<IncomingMessage, String>),
    LinesEnded,
    LinesFailed { message: String },
    TimedOut,
}

/// What is to be done next during the setup.
#[derive(Debug, PartialEq, Eq)]
pub enum HandshakeAction {
    Write(OutgoingMessage),
    ReadLine,
    Finish,
    Fail(TransportError),
}

/// What is to be done next during the setup, as mathematical values.
#[verifier::ext_equal]
pub enum HandshakeActionView {
    Write(OutgoingView),
    ReadLine,
    Finish,
    Fail(TransportErrorView),
}

impl View for HandshakeAction {
    type V = HandshakeActionView;

    open spec fn view(&self) -> HandshakeActionView {
        match *self {
            HandshakeAction::Write(message) => HandshakeActionView::Write(message@),
            HandshakeAction::ReadLine => HandshakeActionView::ReadLine,
            HandshakeAction::Finish => HandshakeActionView::Finish,
            HandshakeAction::Fail(error) => HandshakeActionView::Fail(error@),
        }
    }
}

/// The state of a setup, as mathematical values. Events that come meanwhile are
/// kept in order.
#[verifier::ext_equal]
pub struct HandshakeView {
    pub label: Seq<char>,
    pub stage: HandshakeStage,
    pub events: Seq<AppServerEventView>,
}

/// A state, with what is to be done next; nothing where the input was not
/// waited for.
pub type HandshakeOutcome = (HandshakeView, Option<HandshakeActionView>);

/// The identifier of the introduction.
pub open spec fn initialize_id() -> RequestIdView {
    RequestIdView::String("initialize"@)
}

impl HandshakeView {
    pub open spec fn at(self, stage: HandshakeStage) -> Self {
        HandshakeView { stage, ..self }
    }

    pub open spec fn fail(self, error: TransportErrorView) -> HandshakeOutcome {
        (self.at(HandshakeStage::Failed), Some(HandshakeActionView::Fail(error)))
    }

    /// The next line is read.
    pub open spec fn await_answer(self) -> HandshakeOutcome {
        (self.at(HandshakeStage::Awaiting), Some(HandshakeActionView::ReadLine))
    }

    /// An event is kept, and the next line is read.
    pub open spec fn keep(self, event: AppServerEventView) -> HandshakeOutcome {
        HandshakeView { events: self.events.push(event), ..self }.await_answer()
    }

    /// A message comes before the connection is set up.
    pub open spec fn message(self, message: IncomingMessage) -> HandshakeOutcome {
        match message {
            IncomingMessage::Response { id, .. } => if id@ == initialize_id() {
                (
                    self.at(HandshakeStage::Confirming),
                    Some(
                        HandshakeActionView::Write(
                            OutgoingView::Notification(ClientNotification::Initialized),
                        ),
                    ),
                )
            } else {
                self.await_answer()
            },
            IncomingMessage::Error { id, error } => if id@ == initialize_id() {
                self.fail(
                    TransportErrorView::other(
                        self.label + " rejected initialize: "@ + error.message@,
                    ),
                )
            } else {
                self.await_answer()
            },
            IncomingMessage::Notification { notification, requires_delivery } =>
                match stdio::notification_event(notification, requires_delivery) {
                    Some(event) => self.keep(event),
                    None => self.await_answer(),
                },
            IncomingMessage::Request { id, method, request } => match request {
                Some(request) => self.keep(AppServerEventView::ServerRequest(request)),
                None => (
                    self.at(HandshakeStage::Refusing),
                    Some(
                        HandshakeActionView::Write(
                            OutgoingView::Error {
                                id: id@,
                                error: stdio::unsupported_request(method@),
                            },
                        ),
                    ),
                ),
            },
        }
    }

    /// What comes of an input. An input that is not waited for changes nothing.
    pub open spec fn step(self, input: HandshakeInput) -> HandshakeOutcome {
        match (self.stage, input) {
            (
                HandshakeStage::Introducing | HandshakeStage::Refusing | HandshakeStage::Confirming,
                HandshakeInput::Written(Err(error)),
            ) => self.fail(error@),
            (
                HandshakeStage::Introducing | HandshakeStage::Refusing,
                HandshakeInput::Written(Ok(_)),
            ) => self.await_answer(),
            (HandshakeStage::Confirming, HandshakeInput::Written(Ok(_))) => (
                self.at(HandshakeStage::Connected),
                Some(HandshakeActionView::Finish),
            ),
            (HandshakeStage::Awaiting, HandshakeInput::Line(Ok(message))) => self.message(message),
            (HandshakeStage::Awaiting, HandshakeInput::Line(Err(message))) => self.fail(
                TransportErrorView::other(
                    self.label + " sent invalid initialize response: "@ + message@,
                ),
            ),
            (HandshakeStage::Awaiting, HandshakeInput::LinesEnded) => self.fail(
                TransportErrorView {
                    kind: TransportErrorKind::UnexpectedEof,
                    message: self.label + " closed during initialize"@,
                },
            ),
            (HandshakeStage::Awaiting, HandshakeInput::LinesFailed { message }) => self.fail(
                TransportErrorView::other(
                    self.label + " transport failed during initialize: "@ + message@,
                ),
            ),
            (
                HandshakeStage::Awaiting | HandshakeStage::Refusing,
                HandshakeInput::TimedOut,
            ) => self.fail(
                TransportErrorView {
                    kind: TransportErrorKind::TimedOut,
                    message: "timed out waiting for initialize response from "@ + self.label,
                },
            ),
            _ => (self, None),
        }
    }
}

/// Events in order, as mathematical values.
pub open spec fn event_views(events: Seq<AppServerEvent>) -> Seq<AppServerEventView> {
    events.map_values(|event: AppServerEvent| event@)
}

/// What is to be done next, where there is something.
pub open spec fn next_action(action: Option<HandshakeAction>) -> Option<HandshakeActionView> {
    match action {
        Some(action) => Some(action@),
        None => None,
    }
}

/// The setup of a connection.
#[derive(Debug, PartialEq, Eq)]
pub struct StdioHandshake {
    pub label: String,
    pub stage: HandshakeStage,
    pub pending_events: Vec<AppServerEvent>,
}

impl View for StdioHandshake {
    type V = HandshakeView;

    open spec fn view(&self) -> HandshakeView {
        HandshakeView {
            label: self.label@,
            stage: self.stage,
            events: event_views(self.pending_events@),
        }
    }
}

impl StdioHandshake {
    /// Starts the setup: the introduction, with its parameters as JSON text, is
    /// to be written.
    pub fn new(label: String, params: String) -> (started: (Self, HandshakeAction))
        ensures
            started.0@ == (HandshakeView {
                label: label@,
                stage: HandshakeStage::Introducing,
                events: Seq::empty(),
            }),
            started.1@ == HandshakeActionView::Write(
                OutgoingView::Initialize { id: initialize_id(), params: params@ },
            ),
    {
        let handshake = StdioHandshake {
            label,
            stage: HandshakeStage::Introducing,
            pending_events: Vec::new(),
        };
        assert(handshake@.events =~= Seq::empty());
        let id = RequestId::String("initialize".to_owned());
        (handshake, HandshakeAction::Write(OutgoingMessage::Initialize { id, params }))
    }

    fn fail(&mut self, error: TransportError) -> (action: Option<HandshakeAction>)
        ensures
            (final(self)@, next_action(action)) == old(self)@.fail(error@),
    {
        self.stage = HandshakeStage::Failed;
        Some(HandshakeAction::Fail(error))
    }

    fn await_answer(&mut self) -> (action: Option<HandshakeAction>)
        ensures
            (final(self)@, next_action(action)) == old(self)@.await_answer(),
    {
        self.stage = HandshakeStage::Awaiting;
        Some(HandshakeAction::ReadLine)
    }

    fn keep(&mut self, event: AppServerEvent) -> (action: Option<HandshakeAction>)
        ensures
            (final(self)@, next_action(action)) == old(self)@.keep(event@),
    {
        self.pending_events.push(event);
        assert(event_views(self.pending_events@) =~= old(self)@.events.push(event@));
        self.await_answer()
    }

    fn is_initialize(id: &RequestId) -> (same: bool)
        ensures
            same == (id@ == initialize_id()),
    {
        match id {
            RequestId::String(text) => text::text_eq(text.as_str(), "initialize"),
            RequestId::Integer(_) => false,
        }
    }

    fn message(&mut self, message: IncomingMessage) -> (action: Option<HandshakeAction>)
        ensures
            (final(self)@, next_action(action)) == old(self)@.message(message),
    {
        match message {
            IncomingMessage::Response { id, .. } => {
                if !Self::is_initialize(&id) {
                    return self.await_answer();
                }
                self.stage = HandshakeStage::Confirming;
                Some(
                    HandshakeAction::Write(
                        OutgoingMessage::Notification(ClientNotification::Initialized),
                    ),
                )
            },
            IncomingMessage::Error { id, error } => {
                if !Self::is_initialize(&id) {
                    return self.await_answer();
                }
                let message = text::concat3(
                    self.label.as_str(),
                    " rejected initialize: ",
                    error.message.as_str(),
                );
                self.fail(TransportError::other(message))
            },
            IncomingMessage::Notification { notification, requires_delivery } => {
                match stdio::app_server_event_from_notification(notification, requires_delivery) {
                    Some(event) => self.keep(event),
                    None => self.await_answer(),
                }
            },
            IncomingMessage::Request { id, method, request } => match request {
                Some(request) => self.keep(AppServerEvent::ServerRequest(request)),
                None => {
                    self.stage = HandshakeStage::Refusing;
                    let error = stdio::unsupported_request_error(method.as_str());
                    Some(HandshakeAction::Write(OutgoingMessage::Error { id, error }))
                },
            },
        }
    }

    /// Takes in what came about, and says what is to be done next. An input
    /// that is not waited for changes nothing.
    pub fn step(&mut self, input: HandshakeInput) -> (action: Option<HandshakeAction>)
        ensures
            (final(self)@, next_action(action)) == old(self)@.step(input),
    {
        match (self.stage, input) {
            (
                HandshakeStage::Introducing | HandshakeStage::Refusing | HandshakeStage::Confirming,
                HandshakeInput::Written(Err(error)),
            ) => self.fail(error),
            (
                HandshakeStage::Introducing | HandshakeStage::Refusing,
                HandshakeInput::Written(Ok(_)),
            ) => self.await_answer(),
            (HandshakeStage::Confirming, HandshakeInput::Written(Ok(_))) => {
                self.stage = HandshakeStage::Connected;
                Some(HandshakeAction::Finish)
            },
            (HandshakeStage::Awaiting, HandshakeInput::Line(Ok(message))) => self.message(message),
            (HandshakeStage::Awaiting, HandshakeInput::Line(Err(message))) => {
                let message = text::concat3(
                    self.label.as_str(),
                    " sent invalid initialize response: ",
                    message.as_str(),
                );
                self.fail(TransportError::other(message))
            },
            (HandshakeStage::Awaiting, HandshakeInput::LinesEnded) => {
                let message = text::concat2(self.label.as_str(), " closed during initialize");
                self.fail(TransportError { kind: TransportErrorKind::UnexpectedEof, message })
            },
            (HandshakeStage::Awaiting, HandshakeInput::LinesFailed { message }) => {
                let message = text::concat3(
                    self.label.as_str(),
                    " transport failed during initialize: ",
                    message.as_str(),
                );
                self.fail(TransportError::other(message))
            },
            (
                HandshakeStage::Awaiting | HandshakeStage::Refusing,
                HandshakeInput::TimedOut,
            ) => {
                let message = text::concat2(
                    "timed out waiting for initialize response from ",
                    self.label.as_str(),
                );
                self.fail(TransportError { kind: TransportErrorKind::TimedOut, message })
            },
            _ => None,
        }
    }
}

/// The connection is confirmed only in reply to the answer to the introduction,
/// and is set up only once that has been written.
pub proof fn confirmed_only_when_answered(state: HandshakeView, input: HandshakeInput)
    ensures
        ({
            let (after, action) = state.step(input);
            &&& action == Some(
                HandshakeActionView::Write(
                    OutgoingView::Notification(ClientNotification::Initialized),
                ),
            ) <==> state.stage == HandshakeStage::Awaiting && (input matches HandshakeInput::Line(
                Ok(IncomingMessage::Response { id, .. }),
            ) && id@ == initialize_id())
            &&& after.stage == HandshakeStage::Connected && state.stage
                != HandshakeStage::Connected <==> state.stage == HandshakeStage::Confirming && (
            input matches HandshakeInput::Written(written) && written is Ok)
        }),
{
}

/// No event is lost during the setup: events are only added, in the order in
/// which they come, and every request and every known notification is kept.
pub proof fn early_events_are_kept(state: HandshakeView, input: HandshakeInput)
    ensures
        ({
            let after = state.step(input).0;
            &&& state.events.is_prefix_of(after.events)
            &&& after.events.len() <= state.events.len() + 1
            &&& state.stage == HandshakeStage::Awaiting ==> {
                &&& input matches HandshakeInput::Line(
                    Ok(IncomingMessage::Request { request: Some(request), .. }),
                ) ==> after.events == state.events.push(AppServerEventView::ServerRequest(request))
                &&& input matches HandshakeInput::Line(
                    Ok(
                        IncomingMessage::Notification {
                            notification: Some(notification),
                            requires_delivery,
                        },
                    ),
                ) ==> after.events == state.events.push(
                    AppServerEventView::ServerNotification { notification, requires_delivery },
                )
            }
        }),
{
    let after = state.step(input).0;
    assert(after.events.len() >= state.events.len());
    assert(state.events =~= after.events.subrange(0, state.events.len() as int));
}

} // verus!
