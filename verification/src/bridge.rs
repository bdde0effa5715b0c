//! The bridge itself: it feeds messages into turns of one thread, lets a side
//! channel answer requests of the server, and ends when its work is done.

use std::collections::VecDeque;

use vstd::multiset::Multiset;
use vstd::prelude::*;

use crate::bridge_input::{BridgeError, BridgeErrorView};
use crate::controller;
use crate::controller::{
    BridgeController, ControllerEvent, QueuedMessage, ReleaseAction, ReleaseDecision, TurnState,
};
use crate::controller_laws;
use crate::controller_model::{ActionView, ControllerView, DecisionView, EventView, MessageView};
use crate::items;
use crate::items::ServerNotification;
use crate::message::ParsedMessage;
use crate::protocol::{
    ApprovalsReviewer, AskForApproval, ErrorView, JSONRPCErrorError, RequestId, RequestIdView,
    Thread, ThreadStatus,
};
use crate::side_channel;
use crate::side_channel::{
    PendingRequests, ResponseOutcome, ResponseOutcomeView, SidebandResponseEvent,
};
use crate::sideband;
use crate::sideband::{
    ManagedServerRequest, ManagedView, ResolutionView, ServerRequest, ServerRequestResolution,
};
use crate::stdio::AppServerEvent;
use crate::text;
use crate::turn_client::{CodexTurnSession, SessionView, TurnRequest};

verus! {

/// A parsed message as it is queued.
pub fn parsed_to_queued(message: ParsedMessage) -> (queued: QueuedMessage)
    ensures
        queued@ == message@,
{
    QueuedMessage { queue_mode: message.queue_mode, text: message.text }
}

/// A controller for a thread that may be busy already: it knows the turn that
/// is under way, or only that there is one.
pub open spec fn restored(controller: ControllerView, thread: Thread) -> ControllerView {
    if thread.status != ThreadStatus::Active {
        controller
    } else {
        match thread.turn_in_progress() {
            Some(turn_id) => controller.step(
                EventView::TurnStarted { thread_id: thread.id@, turn_id },
            ).0,
            None => controller.busy_unknown(),
        }
    }
}

/// Tells a controller what is known of its thread.
pub fn restore_controller_from_thread(controller: &mut BridgeController, thread: &Thread)
    ensures
        final(controller)@ == restored(old(controller)@, *thread),
{
    if thread.status != ThreadStatus::Active {
        return;
    }
    match thread.active_turn() {
        Some(turn_id) => {
            let _ignored = controller.on_event(
                ControllerEvent::TurnStarted { thread_id: thread.id.clone(), turn_id },
            );
        },
        None => controller.restore_busy_unknown_turn(),
    }
}

/// Whether the bridge is done: the input has ended, and nothing is under way,
/// queued or unanswered.
pub open spec fn work_is_done(
    controller: ControllerView,
    start_pending: bool,
    request_in_flight: bool,
    stdin_closed: bool,
) -> bool {
    &&& stdin_closed
    &&& !start_pending
    &&& !request_in_flight
    &&& controller.pending_turn_message is None
    &&& controller.turn_state is Idle
    &&& controller.after_tool_call.len() == 0
    &&& controller.after_any_item.len() == 0
    &&& controller.next_turn.len() == 0
}

/// Tells whether the bridge is done.
pub fn should_exit_bridge(
    controller: &BridgeController,
    pending_start_request_id: Option<&String>,
    pending_request_in_flight: bool,
    stdin_closed: bool,
) -> (done: bool)
    ensures
        done == work_is_done(
            controller@,
            pending_start_request_id is Some,
            pending_request_in_flight,
            stdin_closed,
        ),
{
    let (after_tool_call, after_any_item, next_turn) = controller.queued_counts();
    let idle = match controller.turn_state() {
        TurnState::Idle => true,
        _ => false,
    };
    stdin_closed && pending_start_request_id.is_none() && !pending_request_in_flight
        && controller.pending_turn_message().is_none() && idle && after_tool_call == 0
        && after_any_item == 0 && next_turn == 0
}

/// What a notification of the server does to the session and the controller.
pub open spec fn notified(
    session: SessionView,
    controller: ControllerView,
    notification: ServerNotification,
) -> (SessionView, ControllerView, Option<DecisionView>) {
    match notification {
        ServerNotification::TurnStarted { thread_id, turn_id } => {
            let (after, decision) = controller.step(
                EventView::TurnStarted { thread_id: thread_id@, turn_id: turn_id@ },
            );
            (session.turn_started(thread_id@, turn_id@), after, decision)
        },
        ServerNotification::TurnCompleted { thread_id, turn_id } => {
            let (after, decision) = controller.step(
                EventView::TurnCompleted { thread_id: thread_id@, turn_id: turn_id@ },
            );
            (session.turn_completed(thread_id@, turn_id@), after, decision)
        },
        ServerNotification::TerminalInteraction { thread_id, turn_id } => {
            let (after, decision) = controller.step(
                EventView::TerminalInteraction { thread_id: thread_id@, turn_id: turn_id@ },
            );
            (session, after, decision)
        },
        ServerNotification::ItemCompleted { thread_id, turn_id, item } => {
            let (after, decision) = controller.step(
                EventView::ItemCompleted {
                    thread_id: thread_id@,
                    turn_id: turn_id@,
                    signal: items::item_signal(item),
                },
            );
            (session, after, decision)
        },
        ServerNotification::RawResponseItemCompleted { .. }
        | ServerNotification::ThreadClosed { .. }
        | ServerNotification::Other { .. } => (session, controller, None),
    }
}

/// Takes in a notification of the server. A turn that has started does not
/// answer the request that starts it.
pub fn on_notification(
    session: &mut CodexTurnSession,
    controller: &mut BridgeController,
    pending_start_request_id: &mut Option<String>,
    notification: ServerNotification,
) -> (decision: Option<ReleaseDecision>)
    ensures
        (final(session)@, final(controller)@, controller::released(decision)) == notified(
            old(session)@,
            old(controller)@,
            notification,
        ),
        *final(pending_start_request_id) == *old(pending_start_request_id),
{
    match notification {
        ServerNotification::TurnStarted { thread_id, turn_id } => {
            session.on_turn_started(thread_id.as_str(), turn_id.as_str());
            controller.on_event(ControllerEvent::TurnStarted { thread_id, turn_id })
        },
        ServerNotification::TurnCompleted { thread_id, turn_id } => {
            session.on_turn_completed(thread_id.as_str(), turn_id.as_str());
            controller.on_event(ControllerEvent::TurnCompleted { thread_id, turn_id })
        },
        ServerNotification::TerminalInteraction { thread_id, turn_id } => {
            controller.on_event(ControllerEvent::TerminalInteraction { thread_id, turn_id })
        },
        ServerNotification::ItemCompleted { thread_id, turn_id, item } => {
            let signal = items::classify_item_completed(&item);
            controller.on_event(ControllerEvent::ItemCompleted { thread_id, turn_id, signal })
        },
        ServerNotification::RawResponseItemCompleted { .. }
        | ServerNotification::ThreadClosed { .. }
        | ServerNotification::Other { .. } => None,
    }
}

/// Whether a message says that the active turn cannot be steered.
pub open spec fn says_not_steerable(message: Seq<char>) -> bool {
    text::holds(message, "ActiveTurnNotSteerable"@) || text::holds(
        message,
        "cannot accept same-turn steering"@,
    ) || text::holds(message, "cannot steer a review turn"@) || text::holds(
        message,
        "cannot steer a compact turn"@,
    )
}

/// Whether a message says that a steer came too early or too late.
pub open spec fn says_stale(message: Seq<char>) -> bool {
    says_not_steerable(message) || text::holds(message, "expected_turn_id"@) || text::holds(
        message,
        "expected turn"@,
    ) || text::holds(message, "expected active turn id"@) || text::holds(
        message,
        "no active turn to steer"@,
    ) || text::holds(message, "stale"@) || text::holds(message, "turn completed"@)
}

/// Tells whether a message says that the active turn cannot be steered.
pub fn is_active_turn_not_steerable(message: &str) -> (not_steerable: bool)
    ensures
        not_steerable == says_not_steerable(message@),
{
    text::contains(message, "ActiveTurnNotSteerable") || text::contains(
        message,
        "cannot accept same-turn steering",
    ) || text::contains(message, "cannot steer a review turn") || text::contains(
        message,
        "cannot steer a compact turn",
    )
}

/// Tells whether a steer that failed is to wait for the next turn.
pub fn should_retry_steer_next_turn(message: &str) -> (retry: bool)
    ensures
        retry == says_stale(message@),
{
    is_active_turn_not_steerable(message) || text::contains(message, "expected_turn_id")
        || text::contains(message, "expected turn") || text::contains(
        message,
        "expected active turn id",
    ) || text::contains(message, "no active turn to steer") || text::contains(message, "stale")
        || text::contains(message, "turn completed")
}

/// What came of a request that starts or steers a turn: the turn, or what the
/// failure shows.
#[derive(Debug, PartialEq, Eq)]
pub enum PendingRequestOutcome {
    TurnStart { result: Result<String, String> },
    TurnSteer { message: QueuedMessage, result: Result<String, String> },
}

/// What an outcome does to the controller.
pub open spec fn outcome_handled(controller: ControllerView, outcome: PendingRequestOutcome) -> (
    ControllerView,
    Result<Option<DecisionView>, BridgeErrorView>,
) {
    match outcome {
        PendingRequestOutcome::TurnStart { result: Ok(turn_id) } => {
            let (after, decision) = controller.step(
                EventView::TurnStartAcceptedWithTurnId { turn_id: turn_id@ },
            );
            (after, Ok(decision))
        },
        PendingRequestOutcome::TurnStart { result: Err(message) } => {
            if says_not_steerable(message@) {
                let (after, decision) = controller.step(
                    EventView::TurnStartRejectedActiveTurnNotSteerable,
                );
                (after, Ok(decision))
            } else {
                (
                    controller,
                    Err(
                        BridgeErrorView {
                            message: "turn/start failed"@,
                            cause: Some(message@),
                        },
                    ),
                )
            }
        },
        PendingRequestOutcome::TurnSteer { message: _, result: Ok(turn_id) } => {
            let (after, decision) = controller.step(EventView::SteerAccepted { turn_id: turn_id@ });
            (after, Ok(decision))
        },
        PendingRequestOutcome::TurnSteer { message, result: Err(failure) } => {
            if says_stale(failure@) {
                let (after, decision) = controller.step(
                    EventView::SteerRejectedActiveTurnNotSteerable { message: message@ },
                );
                (after, Ok(decision))
            } else {
                (
                    controller,
                    Err(
                        BridgeErrorView {
                            message: "turn/steer failed"@,
                            cause: Some(failure@),
                        },
                    ),
                )
            }
        },
    }
}

/// A decision or a failure, as mathematical text.
pub open spec fn decision_result(result: Result<Option<ReleaseDecision>, BridgeError>) -> Result<
    Option<DecisionView>,
    BridgeErrorView,
> {
    match result {
        Ok(decision) => Ok(controller::released(decision)),
        Err(error) => Err(error@),
    }
}

/// Takes in what came of a request. A start that is answered is no longer
/// pending, however it is answered.
pub fn handle_pending_request_outcome(
    controller: &mut BridgeController,
    pending_start_request_id: &mut Option<String>,
    outcome: PendingRequestOutcome,
) -> (result: Result<Option<ReleaseDecision>, BridgeError>)
    ensures
        (final(controller)@, decision_result(result)) == outcome_handled(old(controller)@, outcome),
        *final(pending_start_request_id) == if outcome is TurnStart {
            None
        } else {
            *old(pending_start_request_id)
        },
{
    match outcome {
        PendingRequestOutcome::TurnStart { result } => {
            *pending_start_request_id = None;
            match result {
                Ok(turn_id) => Ok(
                    controller.on_event(ControllerEvent::TurnStartAcceptedWithTurnId { turn_id }),
                ),
                Err(message) => {
                    if is_active_turn_not_steerable(message.as_str()) {
                        Ok(
                            controller.on_event(
                                ControllerEvent::TurnStartRejectedActiveTurnNotSteerable,
                            ),
                        )
                    } else {
                        Err(BridgeError::because("turn/start failed", message))
                    }
                },
            }
        },
        PendingRequestOutcome::TurnSteer { message, result } => match result {
            Ok(turn_id) => Ok(controller.on_event(ControllerEvent::SteerAccepted { turn_id })),
            Err(failure) => {
                if should_retry_steer_next_turn(failure.as_str()) {
                    Ok(
                        controller.on_event(
                            ControllerEvent::SteerRejectedActiveTurnNotSteerable { message },
                        ),
                    )
                } else {
                    Err(BridgeError::because("turn/steer failed", failure))
                }
            },
        },
    }
}

/// The text that a JSON object holds under some key, where a text is a JSON
/// object that holds one.
pub uninterp spec fn json_text(json: Seq<char>, key: Seq<char>) -> Option<Seq<char>>;

/// `serde_json::from_str` and `serde_json::Value::get`: the text that a JSON
/// object holds under some key.
#[verifier::external_body]
fn read_json_text(json: &str, key: &str) -> (text: Option<String>)
    ensures
        text::opt_text(text) == json_text(json@, key@),
{
    let value: serde_json::Value = serde_json::from_str(json).ok()?;
    value.get(key).and_then(serde_json::Value::as_str).map(str::to_owned)
}

/// The method of a request of the server.
pub open spec fn method_name(request: ServerRequest) -> Seq<char> {
    match request.json {
        Some(json) => match json_text(json@, "method"@) {
            Some(method) => method,
            None => "<unknown>"@,
        },
        None => "<unknown>"@,
    }
}

/// The method of a request of the server, or that it is not known.
pub fn server_request_method_name(request: &ServerRequest) -> (name: String)
    ensures
        name@ == method_name(*request),
{
    let method = match &request.json {
        Some(json) => read_json_text(json.as_str(), "method"),
        None => None,
    };
    match method {
        Some(method) => method,
        None => "<unknown>".to_owned(),
    }
}

/// What is said of a request that the bridge does not support.
pub open spec fn unsupported(method: Seq<char>) -> Seq<char> {
    "turn-start bridge does not support interactive server request `"@ + method + "`"@
}

/// Refuses a request that the bridge does not support.
pub fn unsupported_server_request_error(request: &ServerRequest) -> (error: JSONRPCErrorError)
    ensures
        error@ == ErrorView::plain(-32601, unsupported(method_name(*request))),
{
    let method = server_request_method_name(request);
    JSONRPCErrorError {
        code: -32601,
        message: text::concat3(
            "turn-start bridge does not support interactive server request `",
            method.as_str(),
            "`",
        ),
        data: None,
    }
}

/// The failure of the bridge at a request that it does not support.
pub fn unsupported_server_request_failure(request: &ServerRequest) -> (error: BridgeError)
    ensures
        error@ == (BridgeErrorView { message: unsupported(method_name(*request)), cause: None }),
{
    let method = server_request_method_name(request);
    BridgeError {
        message: text::concat3(
            "turn-start bridge does not support interactive server request `",
            method.as_str(),
            "`",
        ),
        cause: None,
    }
}

/// What every turn of the bridge is started with.
#[derive(Debug, PartialEq, Eq)]
pub struct TurnDefaults {
    pub model: Option<String>,
    pub cwd: Option<String>,
    pub approval_policy: AskForApproval,
    pub approvals_reviewer: Option<ApprovalsReviewer>,
}

/// A request that is unanswered.
#[derive(Debug, PartialEq, Eq)]
pub enum InFlight {
    TurnStart,
    TurnSteer { message: QueuedMessage },
}

/// A request that is unanswered, as mathematical text.
#[verifier::ext_equal]
pub enum InFlightView {
    TurnStart,
    TurnSteer { message: MessageView },
}

impl View for InFlight {
    type V = InFlightView;

    open spec fn view(&self) -> InFlightView {
        match *self {
            InFlight::TurnStart => InFlightView::TurnStart,
            InFlight::TurnSteer { message } => InFlightView::TurnSteer { message: message@ },
        }
    }
}

/// How far the bridge has come.
#[derive(Debug, PartialEq, Eq)]
pub enum BridgeStage {
    Running,
    /// A request of the server is being told, of some method.
    Telling { request: ManagedServerRequest, method: String },
    Ended,
}

/// How far the bridge has come, as mathematical text.
#[verifier::ext_equal]
pub enum BridgeStageView {
    Running,
    Telling { request: ManagedView, method: Seq<char> },
    Ended,
}

impl View for BridgeStage {
    type V = BridgeStageView;

    open spec fn view(&self) -> BridgeStageView {
        match *self {
            BridgeStage::Running => BridgeStageView::Running,
            BridgeStage::Telling { request, method } => BridgeStageView::Telling {
                request: request@,
                method: method@,
            },
            BridgeStage::Ended => BridgeStageView::Ended,
        }
    }
}

/// What comes about.
#[derive(Debug, PartialEq, Eq)]
pub enum BridgeInput {
    Chunk(ParsedMessage),
    ChunksClosed,
    InputFailed { message: String },
    App(AppServerEvent),
    /// The app server will say no more.
    AppClosed,
    /// The unanswered request is answered: with the turn, or with what the
    /// failure shows.
    Answered(Result<String, String>),
    /// The unanswered request will not be answered.
    AnswerLost,
    Response(SidebandResponseEvent),
    /// The request was told, or what kept it from being told.
    Told(Result<(), String>),
}

/// What is to be done, in order. Where one of these fails, the bridge ends with
/// that failure, in the context that the action gives.
#[derive(Debug, PartialEq, Eq)]
pub enum BridgeAction {
    StartTurn { request_id: String, thread_id: String, request: TurnRequest },
    SteerTurn { request_id: String, thread_id: String, turn_id: String, text: String },
    /// Tell the request that the bridge holds for that.
    Tell,
    Reject { request_id: RequestId, error: JSONRPCErrorError, context: String },
    Apply { request_id: RequestId, resolution: ServerRequestResolution, context: String },
    Warn(String),
    ShutDown,
    Fail(BridgeError),
}

/// What is to be done, as mathematical text.
#[verifier::ext_equal]
pub enum BridgeActionView {
    StartTurn {
        request_id: Seq<char>,
        thread_id: Seq<char>,
        text: Seq<char>,
        model: Option<Seq<char>>,
        cwd: Option<Seq<char>>,
        approval_policy: Option<AskForApproval>,
        approvals_reviewer: Option<ApprovalsReviewer>,
    },
    SteerTurn {
        request_id: Seq<char>,
        thread_id: Seq<char>,
        turn_id: Seq<char>,
        text: Seq<char>,
    },
    Tell,
    Reject { request_id: RequestIdView, error: ErrorView, context: Seq<char> },
    Apply { request_id: RequestIdView, resolution: ResolutionView, context: Seq<char> },
    Warn(Seq<char>),
    ShutDown,
    Fail(BridgeErrorView),
}

impl View for BridgeAction {
    type V = BridgeActionView;

    open spec fn view(&self) -> BridgeActionView {
        match *self {
            BridgeAction::StartTurn { request_id, thread_id, request } =>
                BridgeActionView::StartTurn {
                    request_id: request_id@,
                    thread_id: thread_id@,
                    text: request.text@,
                    model: text::opt_text(request.model),
                    cwd: text::opt_text(request.cwd),
                    approval_policy: request.approval_policy,
                    approvals_reviewer: request.approvals_reviewer,
                },
            BridgeAction::SteerTurn { request_id, thread_id, turn_id, text } =>
                BridgeActionView::SteerTurn {
                    request_id: request_id@,
                    thread_id: thread_id@,
                    turn_id: turn_id@,
                    text: text@,
                },
            BridgeAction::Tell => BridgeActionView::Tell,
            BridgeAction::Reject { request_id, error, context } => BridgeActionView::Reject {
                request_id: request_id@,
                error: error@,
                context: context@,
            },
            BridgeAction::Apply { request_id, resolution, context } => BridgeActionView::Apply {
                request_id: request_id@,
                resolution: resolution@,
                context: context@,
            },
            BridgeAction::Warn(message) => BridgeActionView::Warn(message@),
            BridgeAction::ShutDown => BridgeActionView::ShutDown,
            BridgeAction::Fail(error) => BridgeActionView::Fail(error@),
        }
    }
}

/// What is to be done, in order.
pub open spec fn bridge_actions(actions: Seq<BridgeAction>) -> Seq<BridgeActionView> {
    actions.map_values(|action: BridgeAction| action@)
}

/// The state of the bridge, as mathematical values.
#[verifier::ext_equal]
pub struct BridgeView {
    pub model: Option<Seq<char>>,
    pub cwd: Option<Seq<char>>,
    pub approval_policy: AskForApproval,
    pub approvals_reviewer: Option<ApprovalsReviewer>,
    pub session: SessionView,
    pub controller: ControllerView,
    pub next_request_id: int,
    pub pending_start: Option<Seq<char>>,
    pub in_flight: Option<InFlightView>,
    pub decisions: Seq<DecisionView>,
    pub requests: Seq<ManagedView>,
    pub stdin_closed: bool,
    pub response_available: bool,
    pub stage: BridgeStageView,
}

/// A state, with what is to be done.
pub type BridgeOutcome = (BridgeView, Seq<BridgeActionView>);

/// The fallback answers to requests, with their context.
pub open spec fn fallback_actions(requests: Seq<ManagedView>, reason: Seq<char>) -> Seq<
    BridgeActionView,
> {
    requests.map_values(
        |request: ManagedView|
            BridgeActionView::Apply {
                request_id: request.request_id@,
                resolution: request.kind.fallback(),
                context: "apply fallback resolution after `"@ + reason + "`"@,
            },
    )
}

/// What is said where no response can come to a request.
pub open spec fn no_response_lane(method: Seq<char>) -> Seq<char> {
    "turn-start bridge received interactive server request `"@ + method
        + "` but no sideband response fd is configured"@
}

impl BridgeView {
    pub open spec fn at(self, stage: BridgeStageView) -> Self {
        BridgeView { stage, ..self }
    }

    /// The bridge fails.
    pub open spec fn fail(self, error: BridgeErrorView) -> BridgeOutcome {
        (self.at(BridgeStageView::Ended), seq![BridgeActionView::Fail(error)])
    }

    /// The bridge fails, without a further cause.
    pub open spec fn fail_with(self, message: Seq<char>) -> BridgeOutcome {
        self.fail(BridgeErrorView { message, cause: None })
    }

    /// Sends the request that a decision asks for.
    pub open spec fn start_request(self, decision: DecisionView) -> BridgeOutcome {
        let counted = BridgeView { next_request_id: self.next_request_id + 1, ..self };
        let thread_id = self.session.thread_id;
        let number = text::decimal_int(self.next_request_id);
        match decision.action {
            ActionView::StartTurn => {
                let request_id = "turn-start-"@ + number;
                (
                    BridgeView {
                        pending_start: Some(request_id),
                        in_flight: Some(InFlightView::TurnStart),
                        ..counted
                    },
                    seq![
                        BridgeActionView::StartTurn {
                            request_id,
                            thread_id,
                            text: decision.message.text,
                            model: self.model,
                            cwd: self.cwd,
                            approval_policy: Some(self.approval_policy),
                            approvals_reviewer: self.approvals_reviewer,
                        },
                    ],
                )
            },
            ActionView::SteerTurn { turn_id } => (
                BridgeView {
                    in_flight: Some(InFlightView::TurnSteer { message: decision.message }),
                    ..counted
                },
                seq![
                    BridgeActionView::SteerTurn {
                        request_id: "turn-steer-"@ + number,
                        thread_id,
                        turn_id,
                        text: decision.message.text,
                    },
                ],
            ),
        }
    }

    /// Goes on: where no request is unanswered the next decision is carried
    /// out, and where all work is done the bridge ends.
    pub open spec fn go_on(self) -> BridgeOutcome {
        if self.in_flight is None && self.decisions.len() > 0 {
            BridgeView { decisions: self.decisions.drop_first(), ..self }.start_request(
                self.decisions.first(),
            )
        } else if work_is_done(
            self.controller,
            self.pending_start is Some,
            self.in_flight is Some,
            self.stdin_closed,
        ) {
            (self.at(BridgeStageView::Ended), seq![BridgeActionView::ShutDown])
        } else {
            (self, Seq::empty())
        }
    }

    /// A decision waits for its turn.
    pub open spec fn queued(self, decision: Option<DecisionView>) -> Self {
        match decision {
            Some(decision) => BridgeView { decisions: self.decisions.push(decision), ..self },
            None => self,
        }
    }

    /// Goes on, unless the controller found that the server contradicts itself.
    pub open spec fn checked(self) -> BridgeOutcome {
        match self.controller.validation_error {
            Some(message) => BridgeView {
                controller: ControllerView { validation_error: None, ..self.controller },
                ..self
            }.fail_with(message),
            None => self.go_on(),
        }
    }

    /// A message comes.
    pub open spec fn chunk(self, message: MessageView) -> BridgeOutcome {
        let (controller, decision) = self.controller.step(EventView::MessageReceived(message));
        BridgeView { controller, ..self }.queued(decision).checked()
    }

    /// The app server says something.
    pub open spec fn app_event(self, event: AppServerEvent) -> BridgeOutcome {
        match event {
            AppServerEvent::Disconnected { message } => self.fail_with(
                "app-server disconnected: "@ + message@,
            ),
            AppServerEvent::ServerRequest(request) => match sideband::managed(request) {
                Some(managed) => (
                    self.at(
                        BridgeStageView::Telling { request: managed, method: method_name(request) },
                    ),
                    seq![BridgeActionView::Tell],
                ),
                None => {
                    let message = unsupported(method_name(request));
                    let (after, failure) = self.fail_with(message);
                    (
                        after,
                        seq![
                            BridgeActionView::Reject {
                                request_id: request.request_id@,
                                error: ErrorView::plain(-32601, message),
                                context: "reject unsupported app-server request"@,
                            },
                        ] + failure,
                    )
                },
            },
            AppServerEvent::ServerNotification { notification, .. } => {
                let (session, controller, decision) = notified(
                    self.session,
                    self.controller,
                    notification,
                );
                BridgeView { session, controller, ..self }.queued(decision).checked()
            },
            AppServerEvent::Lagged { .. } => self.checked(),
        }
    }

    /// A request of the server was told, or could not be.
    pub open spec fn request_told(
        self,
        request: ManagedView,
        method: Seq<char>,
        told: Result<(), String>,
    ) -> BridgeOutcome {
        let request_id = request.request_id@;
        match told {
            Err(message) => {
                let (after, failure) = self.fail(
                    BridgeErrorView {
                        message: "write sideband server-request event"@,
                        cause: Some(message@),
                    },
                );
                (
                    after,
                    seq![
                        BridgeActionView::Reject {
                            request_id,
                            error: ErrorView::plain(
                                -32000,
                                "turn-start bridge failed to emit sideband event for `"@
                                    + request.kind.request_name() + "`: "@ + message@,
                            ),
                            context: "reject request after sideband event write failure"@,
                        },
                    ] + failure,
                )
            },
            Ok(_) => if self.response_available {
                BridgeView {
                    requests: side_channel::with_request(self.requests, request),
                    ..self.at(BridgeStageView::Running)
                }.checked()
            } else {
                let (after, failure) = self.fail_with(no_response_lane(method));
                (
                    after,
                    seq![
                        BridgeActionView::Reject {
                            request_id,
                            error: ErrorView::plain(-32601, no_response_lane(method)),
                            context: "reject supported request without sideband response lane"@,
                        },
                    ] + failure,
                )
            },
        }
    }

    /// The unanswered request is answered.
    pub open spec fn answered(self, result: Result<String, String>) -> BridgeOutcome {
        match self.in_flight {
            None => (self, Seq::empty()),
            Some(in_flight) => {
                let free = BridgeView {
                    in_flight: None,
                    pending_start: if in_flight is TurnStart {
                        None
                    } else {
                        self.pending_start
                    },
                    ..self
                };
                let (controller, outcome) = in_flight_handled(
                    self.controller,
                    in_flight,
                    result,
                );
                let after = BridgeView { controller, ..free };
                match outcome {
                    Ok(decision) => after.queued(decision).checked(),
                    Err(error) => after.fail(error),
                }
            },
        }
    }

    /// No response will come any more: every request that waits gets its
    /// fallback answer, and the bridge fails.
    pub open spec fn response_lane_lost(self, reason: Seq<char>) -> BridgeOutcome {
        let (after, failure) = BridgeView { requests: Seq::empty(), ..self }.fail_with(reason);
        (after, fallback_actions(self.requests, reason) + failure)
    }

    /// Something comes from the response lane.
    pub open spec fn response(self, event: SidebandResponseEvent) -> BridgeOutcome {
        match event {
            SidebandResponseEvent::Response(response) => {
                let (requests, outcome) = side_channel::responded(self.requests, response);
                let (after, actions) = BridgeView { requests, ..self }.go_on();
                (after, seq![response_action(outcome)] + actions)
            },
            SidebandResponseEvent::ParseError(message) => {
                let (after, actions) = self.go_on();
                (after, seq![BridgeActionView::Warn(message@)] + actions)
            },
            SidebandResponseEvent::ReadError(message) => self.response_lane_lost(message@),
            SidebandResponseEvent::Closed => {
                let closed = BridgeView { response_available: false, ..self };
                if self.requests.len() == 0 {
                    closed.go_on()
                } else {
                    closed.response_lane_lost(
                        "turn-start bridge sideband response channel closed"@,
                    )
                }
            },
        }
    }

    /// What comes of an input. An input that is not waited for changes nothing.
    pub open spec fn step(self, input: BridgeInput) -> BridgeOutcome {
        match (self.stage, input) {
            (BridgeStageView::Running, BridgeInput::Chunk(message)) => self.chunk(message@),
            (BridgeStageView::Running, BridgeInput::ChunksClosed) => BridgeView {
                stdin_closed: true,
                ..self
            }.go_on(),
            (BridgeStageView::Running, BridgeInput::InputFailed { message }) => self.fail_with(
                message@,
            ),
            (BridgeStageView::Running, BridgeInput::App(event)) => self.app_event(event),
            (BridgeStageView::Running, BridgeInput::AppClosed) => (
                self.at(BridgeStageView::Ended),
                seq![BridgeActionView::ShutDown],
            ),
            (BridgeStageView::Running, BridgeInput::Answered(result)) => self.answered(result),
            (BridgeStageView::Running, BridgeInput::AnswerLost) => self.fail_with(
                "pending request task dropped before returning a response"@,
            ),
            (BridgeStageView::Running, BridgeInput::Response(event)) => self.response(event),
            (BridgeStageView::Telling { request, method }, BridgeInput::Told(told)) =>
                self.request_told(request, method, told),
            _ => (self, Seq::empty()),
        }
    }
}

/// What the answer to an unanswered request does to the controller.
pub open spec fn in_flight_handled(
    controller: ControllerView,
    in_flight: InFlightView,
    result: Result<String, String>,
) -> (ControllerView, Result<Option<DecisionView>, BridgeErrorView>) {
    match (in_flight, result) {
        (InFlightView::TurnStart, _) => outcome_handled(
            controller,
            PendingRequestOutcome::TurnStart { result },
        ),
        (InFlightView::TurnSteer { message: _ }, Ok(turn_id)) => {
            let (after, decision) = controller.step(EventView::SteerAccepted { turn_id: turn_id@ });
            (after, Ok(decision))
        },
        (InFlightView::TurnSteer { message }, Err(failure)) => if says_stale(failure@) {
            let (after, decision) = controller.step(
                EventView::SteerRejectedActiveTurnNotSteerable { message },
            );
            (after, Ok(decision))
        } else {
            (
                controller,
                Err(BridgeErrorView { message: "turn/steer failed"@, cause: Some(failure@) }),
            )
        },
    }
}

/// What is done about a response.
pub open spec fn response_action(outcome: ResponseOutcomeView) -> BridgeActionView {
    match outcome {
        ResponseOutcomeView::Resolved { request_id, resolution } => BridgeActionView::Apply {
            request_id,
            resolution,
            context: "apply sideband server-request resolution"@,
        },
        ResponseOutcomeView::Unknown { request_id } => BridgeActionView::Warn(
            "turn-start bridge ignoring sideband response for unknown request id `"@
                + request_id.shown() + "`"@,
        ),
        ResponseOutcomeView::Invalid { request_id, message } => BridgeActionView::Warn(
            "turn-start bridge ignoring invalid sideband response for request id `"@
                + request_id.shown() + "`: "@ + message,
        ),
    }
}

/// Decisions in order, as mathematical values.
pub open spec fn decision_views(decisions: Seq<ReleaseDecision>) -> Seq<DecisionView> {
    decisions.map_values(|decision: ReleaseDecision| decision@)
}

/// An unanswered request, where there is one.
pub open spec fn opt_in_flight(in_flight: Option<InFlight>) -> Option<InFlightView> {
    match in_flight {
        Some(in_flight) => Some(in_flight@),
        None => None,
    }
}

/// The bridge.
#[derive(Debug, PartialEq, Eq)]
pub struct Bridge {
    defaults: TurnDefaults,
    session: CodexTurnSession,
    controller: BridgeController,
    next_request_id: i64,
    pending_start_request_id: Option<String>,
    in_flight: Option<InFlight>,
    pending_decisions: VecDeque<ReleaseDecision>,
    pending_server_requests: PendingRequests,
    stdin_closed: bool,
    response_available: bool,
    stage: BridgeStage,
}

impl View for Bridge {
    type V = BridgeView;

    closed spec fn view(&self) -> BridgeView {
        BridgeView {
            model: text::opt_text(self.defaults.model),
            cwd: text::opt_text(self.defaults.cwd),
            approval_policy: self.defaults.approval_policy,
            approvals_reviewer: self.defaults.approvals_reviewer,
            session: self.session@,
            controller: self.controller@,
            next_request_id: self.next_request_id as int,
            pending_start: text::opt_text(self.pending_start_request_id),
            in_flight: opt_in_flight(self.in_flight),
            decisions: decision_views(self.pending_decisions@),
            requests: self.pending_server_requests@,
            stdin_closed: self.stdin_closed,
            response_available: self.response_available,
            stage: self.stage@,
        }
    }
}

fn no_actions() -> (actions: Vec<BridgeAction>)
    ensures
        bridge_actions(actions@) == Seq::<BridgeActionView>::empty(),
{
    let actions: Vec<BridgeAction> = Vec::new();
    assert(bridge_actions(actions@) =~= Seq::empty());
    actions
}

fn one_action(action: BridgeAction) -> (actions: Vec<BridgeAction>)
    ensures
        bridge_actions(actions@) == seq![action@],
{
    let mut actions: Vec<BridgeAction> = Vec::new();
    actions.push(action);
    assert(bridge_actions(actions@) =~= seq![action@]);
    actions
}

fn join_actions(first: Vec<BridgeAction>, second: Vec<BridgeAction>) -> (joined: Vec<BridgeAction>)
    ensures
        bridge_actions(joined@) == bridge_actions(first@) + bridge_actions(second@),
{
    let mut joined = first;
    let mut second = second;
    let ghost left = joined@;
    let ghost right = second@;
    joined.append(&mut second);
    assert(bridge_actions(left + right) =~= bridge_actions(left) + bridge_actions(right));
    joined
}

/// The fallback answers to the requests that wait, with their context.
fn resolve_pending_requests_on_response_close(pending: &mut PendingRequests, reason: &str) -> (
actions: Vec<BridgeAction>)
    ensures
        final(pending)@ == Seq::<ManagedView>::empty(),
        bridge_actions(actions@) == fallback_actions(old(pending)@, reason@),
{
    let ghost all = fallback_actions(pending@, reason@);
    let answered = pending.resolve_all();
    let ghost answers = side_channel::answered_views(answered@);
    let mut actions = no_actions();
    assert(answers.len() == answered@.len() && answers.len() == all.len());
    assert(all.take(0) =~= Seq::empty());
    for answer in iter: answered
        invariant
            iter.seq() == answered@,
            all.len() == answered@.len(),
            answers == side_channel::answered_views(answered@),
            answers == side_channel::fallbacks(old(pending)@),
            all == fallback_actions(old(pending)@, reason@),
            pending@ == Seq::<ManagedView>::empty(),
            bridge_actions(actions@) == all.take(iter.index()),
    {
        let ghost done = iter.index();
        let ghost before = bridge_actions(actions@);
        assert(answers[done] == (answer.request_id@, answer.resolution@));
        assert(answers[done] == side_channel::fallbacks(old(pending)@)[done]);
        actions.push(
            BridgeAction::Apply {
                request_id: answer.request_id,
                resolution: answer.resolution,
                context: text::concat3("apply fallback resolution after `", reason, "`"),
            },
        );
        assert(bridge_actions(actions@) =~= before.push(all[done]));
        assert(all.take(done + 1) =~= all.take(done).push(all[done]));
    }
    assert(all.take(answered@.len() as int) =~= all);
    actions
}

/// What is done about a response.
fn act_on_response(outcome: ResponseOutcome) -> (action: BridgeAction)
    ensures
        action@ == response_action(outcome@),
{
    match outcome {
        ResponseOutcome::Resolved { request_id, resolution } => BridgeAction::Apply {
            request_id,
            resolution,
            context: "apply sideband server-request resolution".to_owned(),
        },
        ResponseOutcome::Unknown { request_id } => BridgeAction::Warn(
            text::concat3(
                "turn-start bridge ignoring sideband response for unknown request id `",
                request_id.to_string().as_str(),
                "`",
            ),
        ),
        ResponseOutcome::Invalid { request_id, message } => {
            let what = text::concat3(
                "turn-start bridge ignoring invalid sideband response for request id `",
                request_id.to_string().as_str(),
                "`: ",
            );
            BridgeAction::Warn(text::concat2(what.as_str(), message.as_str()))
        },
    }
}

impl Bridge {
    /// A bridge on a thread that has just been started or resumed.
    pub fn new(
        defaults: TurnDefaults,
        session: CodexTurnSession,
        thread: &Thread,
        stdin_closed: bool,
        response_available: bool,
    ) -> (bridge: Self)
        ensures
            bridge@ == (BridgeView {
                model: text::opt_text(defaults.model),
                cwd: text::opt_text(defaults.cwd),
                approval_policy: defaults.approval_policy,
                approvals_reviewer: defaults.approvals_reviewer,
                session: session@,
                controller: restored(ControllerView::fresh(thread.id@), *thread),
                next_request_id: 1,
                pending_start: None,
                in_flight: None,
                decisions: Seq::empty(),
                requests: Seq::empty(),
                stdin_closed,
                response_available,
                stage: BridgeStageView::Running,
            }),
    {
        let mut controller = BridgeController::new(thread.id.as_str());
        restore_controller_from_thread(&mut controller, thread);
        let bridge = Bridge {
            defaults,
            session,
            controller,
            next_request_id: 1,
            pending_start_request_id: None,
            in_flight: None,
            pending_decisions: VecDeque::new(),
            pending_server_requests: PendingRequests::new(),
            stdin_closed,
            response_available,
            stage: BridgeStage::Running,
        };
        assert(bridge@.decisions =~= Seq::empty());
        bridge
    }

    /// Tells whether there is a number left for the next request.
    pub fn can_number_requests(&self) -> (can: bool)
        ensures
            can == (self@.next_request_id < i64::MAX),
    {
        self.next_request_id < i64::MAX
    }

    /// Tells whether the bridge has ended.
    pub fn has_ended(&self) -> (ended: bool)
        ensures
            ended == (self@.stage is Ended),
    {
        match self.stage {
            BridgeStage::Ended => true,
            _ => false,
        }
    }

    /// The request that is to be told.
    pub fn request_to_tell(&self) -> (request: Option<&ManagedServerRequest>)
        ensures
            match request {
                Some(request) => self@.stage matches BridgeStageView::Telling {
                    request: told,
                    ..
                } && told == request@,
                None => !(self@.stage is Telling),
            },
    {
        match &self.stage {
            BridgeStage::Telling { request, .. } => Some(request),
            _ => None,
        }
    }

    /// Takes in a message that came before the bridge was there. What it
    /// releases waits for `start`.
    pub fn prime(&mut self, message: ParsedMessage)
        ensures
            ({
                let (controller, decision) = old(self)@.controller.step(
                    EventView::MessageReceived(message@),
                );
                final(self)@ == BridgeView { controller, ..old(self)@ }.queued(decision)
            }),
    {
        let decision = self.controller.on_event(
            ControllerEvent::MessageReceived(parsed_to_queued(message)),
        );
        self.queue(decision);
    }

    /// Starts with what is there already.
    pub fn start(&mut self) -> (actions: Vec<BridgeAction>)
        requires
            old(self)@.next_request_id < i64::MAX,
        ensures
            (final(self)@, bridge_actions(actions@)) == old(self)@.go_on(),
    {
        self.go_on()
    }

    fn queue(&mut self, decision: Option<ReleaseDecision>)
        ensures
            final(self)@ == old(self)@.queued(controller::released(decision)),
    {
        if let Some(decision) = decision {
            self.pending_decisions.push_back(decision);
            assert(self@.decisions =~= old(self)@.decisions.push(decision@));
        }
    }

    fn fail(&mut self, error: BridgeError) -> (actions: Vec<BridgeAction>)
        ensures
            (final(self)@, bridge_actions(actions@)) == old(self)@.fail(error@),
    {
        self.stage = BridgeStage::Ended;
        one_action(BridgeAction::Fail(error))
    }

    fn fail_with(&mut self, message: &str) -> (actions: Vec<BridgeAction>)
        ensures
            (final(self)@, bridge_actions(actions@)) == old(self)@.fail_with(message@),
    {
        self.fail(BridgeError::new(message))
    }

    /// Sends the request that a decision asks for.
    fn start_request_for_decision(&mut self, decision: ReleaseDecision) -> (actions: Vec<
        BridgeAction,
    >)
        requires
            old(self)@.next_request_id < i64::MAX,
        ensures
            (final(self)@, bridge_actions(actions@)) == old(self)@.start_request(decision@),
    {
        let number = text::decimal_i64(self.next_request_id);
        self.next_request_id = self.next_request_id + 1;
        let thread_id = self.session.thread_id().to_owned();
        match decision.action {
            ReleaseAction::StartTurn => {
                let request_id = text::concat2("turn-start-", number.as_str());
                self.pending_start_request_id = Some(request_id.clone());
                self.in_flight = Some(InFlight::TurnStart);
                let request = TurnRequest {
                    text: decision.message.text,
                    model: text::opt_clone(&self.defaults.model),
                    cwd: text::opt_clone(&self.defaults.cwd),
                    approval_policy: Some(self.defaults.approval_policy),
                    approvals_reviewer: self.defaults.approvals_reviewer,
                };
                one_action(BridgeAction::StartTurn { request_id, thread_id, request })
            },
            ReleaseAction::SteerTurn { turn_id } => {
                let request_id = text::concat2("turn-steer-", number.as_str());
                let text = decision.message.text.clone();
                self.in_flight = Some(InFlight::TurnSteer { message: decision.message });
                one_action(BridgeAction::SteerTurn { request_id, thread_id, turn_id, text })
            },
        }
    }

    fn go_on(&mut self) -> (actions: Vec<BridgeAction>)
        requires
            old(self)@.next_request_id < i64::MAX,
        ensures
            (final(self)@, bridge_actions(actions@)) == old(self)@.go_on(),
    {
        if self.in_flight.is_none() {
            if let Some(decision) = self.pending_decisions.pop_front() {
                assert(self@.decisions =~= old(self)@.decisions.drop_first());
                return self.start_request_for_decision(decision);
            }
            assert(self@.decisions =~= old(self)@.decisions);
        }
        let done = should_exit_bridge(
            &self.controller,
            self.pending_start_request_id.as_ref(),
            self.in_flight.is_some(),
            self.stdin_closed,
        );
        if done {
            self.stage = BridgeStage::Ended;
            one_action(BridgeAction::ShutDown)
        } else {
            no_actions()
        }
    }

    fn checked(&mut self) -> (actions: Vec<BridgeAction>)
        requires
            old(self)@.next_request_id < i64::MAX,
        ensures
            (final(self)@, bridge_actions(actions@)) == old(self)@.checked(),
    {
        match self.controller.take_validation_error() {
            Some(message) => self.fail_with(message.as_str()),
            None => {
                assert(self@ == old(self)@);
                self.go_on()
            },
        }
    }

    fn handle_app_event(&mut self, event: AppServerEvent) -> (actions: Vec<BridgeAction>)
        requires
            old(self)@.next_request_id < i64::MAX,
        ensures
            (final(self)@, bridge_actions(actions@)) == old(self)@.app_event(event),
    {
        match event {
            AppServerEvent::Disconnected { message } => {
                let message = text::concat2("app-server disconnected: ", message.as_str());
                self.fail_with(message.as_str())
            },
            AppServerEvent::ServerRequest(request) => {
                match ManagedServerRequest::try_from(&request) {
                    Ok(managed) => {
                        let method = server_request_method_name(&request);
                        self.stage = BridgeStage::Telling { request: managed, method };
                        one_action(BridgeAction::Tell)
                    },
                    Err(_) => {
                        let reject = one_action(
                            BridgeAction::Reject {
                                request_id: request.request_id.clone(),
                                error: unsupported_server_request_error(&request),
                                context: "reject unsupported app-server request".to_owned(),
                            },
                        );
                        let failure = self.fail(unsupported_server_request_failure(&request));
                        join_actions(reject, failure)
                    },
                }
            },
            AppServerEvent::ServerNotification { notification, .. } => {
                let decision = on_notification(
                    &mut self.session,
                    &mut self.controller,
                    &mut self.pending_start_request_id,
                    notification,
                );
                self.queue(decision);
                self.checked()
            },
            AppServerEvent::Lagged { .. } => self.checked(),
        }
    }

    fn request_told(
        &mut self,
        request: ManagedServerRequest,
        method: String,
        told: Result<(), String>,
    ) -> (actions: Vec<BridgeAction>)
        requires
            old(self)@.next_request_id < i64::MAX,
        ensures
            (final(self)@, bridge_actions(actions@)) == old(self)@.request_told(
                request@,
                method@,
                told,
            ),
    {
        match told {
            Err(message) => {
                let what = text::concat3(
                    "turn-start bridge failed to emit sideband event for `",
                    request.kind(),
                    "`: ",
                );
                let error = JSONRPCErrorError {
                    code: -32000,
                    message: text::concat2(what.as_str(), message.as_str()),
                    data: None,
                };
                let reject = one_action(
                    BridgeAction::Reject {
                        request_id: request.request_id().clone(),
                        error,
                        context: "reject request after sideband event write failure".to_owned(),
                    },
                );
                let failure = self.fail(
                    BridgeError::because("write sideband server-request event", message),
                );
                join_actions(reject, failure)
            },
            Ok(_) => {
                if self.response_available {
                    self.stage = BridgeStage::Running;
                    self.pending_server_requests.insert(request);
                    return self.checked();
                }
                let message = text::concat3(
                    "turn-start bridge received interactive server request `",
                    method.as_str(),
                    "` but no sideband response fd is configured",
                );
                let error = JSONRPCErrorError { code: -32601, message: message.clone(), data: None };
                let reject = one_action(
                    BridgeAction::Reject {
                        request_id: request.request_id().clone(),
                        error,
                        context: "reject supported request without sideband response lane".to_owned(),
                    },
                );
                let failure = self.fail_with(message.as_str());
                join_actions(reject, failure)
            },
        }
    }

    fn answered(&mut self, result: Result<String, String>) -> (actions: Vec<BridgeAction>)
        requires
            old(self)@.next_request_id < i64::MAX,
        ensures
            (final(self)@, bridge_actions(actions@)) == old(self)@.answered(result),
    {
        let outcome = match self.in_flight.take() {
            None => {
                assert(self@ == old(self)@);
                return no_actions();
            },
            Some(InFlight::TurnStart) => PendingRequestOutcome::TurnStart { result },
            Some(InFlight::TurnSteer { message }) => PendingRequestOutcome::TurnSteer {
                message,
                result,
            },
        };
        match handle_pending_request_outcome(
            &mut self.controller,
            &mut self.pending_start_request_id,
            outcome,
        ) {
            Ok(decision) => {
                self.queue(decision);
                self.checked()
            },
            Err(error) => self.fail(error),
        }
    }

    fn response_lane_lost(&mut self, reason: &str) -> (actions: Vec<BridgeAction>)
        ensures
            (final(self)@, bridge_actions(actions@)) == old(self)@.response_lane_lost(reason@),
    {
        let fallback = resolve_pending_requests_on_response_close(
            &mut self.pending_server_requests,
            reason,
        );
        let failure = self.fail_with(reason);
        join_actions(fallback, failure)
    }

    fn response(&mut self, event: SidebandResponseEvent) -> (actions: Vec<BridgeAction>)
        requires
            old(self)@.next_request_id < i64::MAX,
        ensures
            (final(self)@, bridge_actions(actions@)) == old(self)@.response(event),
    {
        match event {
            SidebandResponseEvent::Response(response) => {
                let outcome = self.pending_server_requests.take_valid_sideband_response(response);
                let first = one_action(act_on_response(outcome));
                let actions = self.go_on();
                join_actions(first, actions)
            },
            SidebandResponseEvent::ParseError(message) => {
                let first = one_action(BridgeAction::Warn(message));
                let actions = self.go_on();
                join_actions(first, actions)
            },
            SidebandResponseEvent::ReadError(message) => self.response_lane_lost(message.as_str()),
            SidebandResponseEvent::Closed => {
                self.response_available = false;
                if self.pending_server_requests.len() == 0 {
                    self.go_on()
                } else {
                    self.response_lane_lost("turn-start bridge sideband response channel closed")
                }
            },
        }
    }

    /// Takes in what came about, and says what is to be done. An input that is
    /// not waited for changes nothing.
    pub fn step(&mut self, input: BridgeInput) -> (actions: Vec<BridgeAction>)
        requires
            old(self)@.next_request_id < i64::MAX,
        ensures
            (final(self)@, bridge_actions(actions@)) == old(self)@.step(input),
    {
        let mut stage = BridgeStage::Ended;
        std::mem::swap(&mut stage, &mut self.stage);
        match (stage, input) {
            (BridgeStage::Running, BridgeInput::Chunk(message)) => {
                self.stage = BridgeStage::Running;
                self.prime(message);
                self.checked()
            },
            (BridgeStage::Running, BridgeInput::ChunksClosed) => {
                self.stage = BridgeStage::Running;
                self.stdin_closed = true;
                self.go_on()
            },
            (BridgeStage::Running, BridgeInput::InputFailed { message }) => self.fail_with(
                message.as_str(),
            ),
            (BridgeStage::Running, BridgeInput::App(event)) => {
                self.stage = BridgeStage::Running;
                self.handle_app_event(event)
            },
            (BridgeStage::Running, BridgeInput::AppClosed) => one_action(BridgeAction::ShutDown),
            (BridgeStage::Running, BridgeInput::Answered(result)) => {
                self.stage = BridgeStage::Running;
                self.answered(result)
            },
            (BridgeStage::Running, BridgeInput::AnswerLost) => self.fail_with(
                "pending request task dropped before returning a response",
            ),
            (BridgeStage::Running, BridgeInput::Response(event)) => {
                self.stage = BridgeStage::Running;
                self.response(event)
            },
            (BridgeStage::Telling { request, method }, BridgeInput::Told(told)) =>
                self.request_told(request, method, told),
            (stage, _) => {
                self.stage = stage;
                no_actions()
            },
        }
    }
}

/// Whether an action sends a request that starts or steers a turn.
pub open spec fn sends_request(action: BridgeActionView) -> bool {
    action is StartTurn || action is SteerTurn
}

/// The number of requests among some actions.
pub open spec fn requests_sent(actions: Seq<BridgeActionView>) -> nat
    decreases actions.len(),
{
    if actions.len() == 0 {
        0
    } else {
        requests_sent(actions.drop_last()) + if sends_request(actions.last()) {
            1nat
        } else {
            0nat
        }
    }
}

/// The texts that some actions send.
pub open spec fn sent_by(actions: Seq<BridgeActionView>) -> Multiset<Seq<char>>
    decreases actions.len(),
{
    if actions.len() == 0 {
        Multiset::empty()
    } else {
        sent_by(actions.drop_last()).add(
            match actions.last() {
                BridgeActionView::StartTurn { text, .. } => Multiset::singleton(text),
                BridgeActionView::SteerTurn { text, .. } => Multiset::singleton(text),
                _ => Multiset::empty(),
            },
        )
    }
}

/// The texts of some decisions.
pub open spec fn decided(decisions: Seq<DecisionView>) -> Multiset<Seq<char>> {
    decisions.map_values(|decision: DecisionView| decision.message.text).to_multiset()
}

impl BridgeView {
    /// The texts that the bridge holds: in queues, or decided upon and not yet
    /// sent.
    pub open spec fn held(self) -> Multiset<Seq<char>> {
        controller_laws::held(self.controller).add(decided(self.decisions))
    }
}

proof fn lemma_counts_add(first: Seq<BridgeActionView>, second: Seq<BridgeActionView>)
    ensures
        requests_sent(first + second) == requests_sent(first) + requests_sent(second),
        sent_by(first + second) == sent_by(first).add(sent_by(second)),
    decreases second.len(),
{
    broadcast use vstd::multiset::group_multiset_axioms;

    if second.len() == 0 {
        assert(first + second =~= first);
        assert(sent_by(first).add(Multiset::empty()) =~= sent_by(first));
    } else {
        lemma_counts_add(first, second.drop_last());
        assert((first + second).drop_last() =~= first + second.drop_last());
        assert(sent_by(first + second) =~= sent_by(first).add(sent_by(second)));
    }
}

proof fn lemma_counts_one(action: BridgeActionView)
    ensures
        requests_sent(seq![action]) == if sends_request(action) {
            1nat
        } else {
            0nat
        },
        sent_by(seq![action]) == match action {
            BridgeActionView::StartTurn { text, .. } => Multiset::singleton(text),
            BridgeActionView::SteerTurn { text, .. } => Multiset::singleton(text),
            _ => Multiset::empty(),
        },
{
    broadcast use vstd::multiset::group_multiset_axioms;

    reveal_with_fuel(requests_sent, 2);
    reveal_with_fuel(sent_by, 2);
    assert(seq![action].drop_last() =~= Seq::empty());
    assert(sent_by(seq![action]) =~= match action {
        BridgeActionView::StartTurn { text, .. } => Multiset::singleton(text),
        BridgeActionView::SteerTurn { text, .. } => Multiset::singleton(text),
        _ => Multiset::empty(),
    });
}

proof fn lemma_fallbacks_send_nothing(requests: Seq<ManagedView>, reason: Seq<char>)
    ensures
        requests_sent(fallback_actions(requests, reason)) == 0,
    decreases requests.len(),
{
    if requests.len() > 0 {
        lemma_fallbacks_send_nothing(requests.drop_last(), reason);
        assert(fallback_actions(requests, reason).drop_last() =~= fallback_actions(
            requests.drop_last(),
            reason,
        ));
    }
}

proof fn lemma_decided_push(decisions: Seq<DecisionView>, decision: DecisionView)
    ensures
        decided(decisions.push(decision)) == decided(decisions).insert(decision.message.text),
{
    broadcast use vstd::seq_lib::group_to_multiset_ensures;

    let text = |decision: DecisionView| decision.message.text;
    assert(decisions.push(decision).map_values(text) =~= decisions.map_values(text).push(
        decision.message.text,
    ));
}

proof fn lemma_decided_first(decisions: Seq<DecisionView>)
    requires
        decisions.len() > 0,
    ensures
        decided(decisions) == decided(decisions.drop_first()).insert(
            decisions.first().message.text,
        ),
{
    broadcast use vstd::multiset::group_multiset_axioms;
    broadcast use vstd::seq_lib::group_to_multiset_ensures;

    let text = |decision: DecisionView| decision.message.text;
    let rest = decisions.drop_first().map_values(text);
    let first = seq![decisions.first().message.text];
    assert(decisions.map_values(text) =~= first + rest);
    vstd::seq_lib::lemma_multiset_commutative(first, rest);
    assert(first =~= Seq::<Seq<char>>::empty().push(decisions.first().message.text));
    assert(first.to_multiset() =~= Multiset::singleton(decisions.first().message.text));
    assert(decided(decisions) =~= decided(decisions.drop_first()).insert(
        decisions.first().message.text,
    ));
}

/// What the bridge holds after it went on, together with what it sent, is what
/// it held before; a request is sent only where none is unanswered, and its
/// number is then used up.
proof fn lemma_go_on(state: BridgeView)
    ensures
        ({
            let (after, actions) = state.go_on();
            &&& after.held().add(sent_by(actions)) == state.held()
            &&& after.next_request_id == state.next_request_id + requests_sent(actions)
            &&& requests_sent(actions) <= 1
            &&& requests_sent(actions) == 1 ==> state.in_flight is None && after.in_flight is Some
            &&& actions.len() <= 1
            &&& requests_sent(actions) == 0 ==> after.in_flight == state.in_flight
        }),
{
    broadcast use vstd::multiset::group_multiset_axioms;

    let (after, actions) = state.go_on();
    if state.in_flight is None && state.decisions.len() > 0 {
        lemma_decided_first(state.decisions);
        lemma_counts_one(actions[0]);
        assert(actions =~= seq![actions[0]]);
        assert(after.held().add(sent_by(actions)) =~= state.held());
    } else {
        lemma_counts_one(BridgeActionView::ShutDown);
        assert(after.held().add(Multiset::empty()) =~= state.held());
    }
}

proof fn lemma_checked(state: BridgeView)
    ensures
        ({
            let (after, actions) = state.checked();
            &&& after.held().add(sent_by(actions)) == state.held()
            &&& after.next_request_id == state.next_request_id + requests_sent(actions)
            &&& requests_sent(actions) <= 1
            &&& requests_sent(actions) == 1 ==> state.in_flight is None && after.in_flight is Some
            &&& requests_sent(actions) == 0 ==> after.in_flight == state.in_flight
        }),
{
    broadcast use vstd::multiset::group_multiset_axioms;

    if let Some(message) = state.controller.validation_error {
        let error = BridgeErrorView { message, cause: None };
        lemma_counts_one(BridgeActionView::Fail(error));
        assert(state.checked().0.held().add(Multiset::empty()) =~= state.held());
    } else {
        lemma_go_on(state);
    }
}

/// No message is lost and none is sent twice: what the bridge holds after a
/// message has come, together with what it then sends, is what it held before,
/// together with the message.
pub proof fn a_message_is_held_or_sent(state: BridgeView, message: ParsedMessage)
    requires
        state.stage is Running,
    ensures
        ({
            let (after, actions) = state.step(BridgeInput::Chunk(message));
            after.held().add(sent_by(actions)) == state.held().insert(message@.text)
        }),
{
    broadcast use vstd::multiset::group_multiset_axioms;

    let (controller, decision) = state.controller.step(EventView::MessageReceived(message@));
    let taken = BridgeView { controller, ..state };
    controller_laws::no_message_is_lost_or_repeated(
        state.controller,
        EventView::MessageReceived(message@),
    );
    let decisions = taken.queued(decision).decisions;
    let sent = controller_laws::sent(decision);
    let before = decided(state.decisions);
    if let Some(decision) = decision {
        lemma_decided_push(state.decisions, decision);
    }
    assert(decided(decisions) =~= before.add(sent));
    assert(taken.queued(decision).held() =~= controller_laws::held(controller).add(sent).add(
        before,
    ));
    assert(state.held().insert(message@.text) =~= controller_laws::held(state.controller).add(
        Multiset::singleton(message@.text),
    ).add(before));
    lemma_checked(taken.queued(decision));
}

proof fn lemma_answered_counts(state: BridgeView, result: Result<String, String>)
    requires
        state.stage is Running,
    ensures
        ({
            let (after, actions) = state.answered(result);
            &&& after.next_request_id == state.next_request_id + requests_sent(actions)
            &&& requests_sent(actions) <= 1
            &&& requests_sent(actions) == 1 ==> state.in_flight is Some && after.in_flight is Some
        }),
{
    if let Some(in_flight) = state.in_flight {
        let (controller, outcome) = in_flight_handled(state.controller, in_flight, result);
        let after = BridgeView {
            in_flight: None,
            pending_start: if in_flight is TurnStart {
                None
            } else {
                state.pending_start
            },
            controller,
            ..state
        };
        match outcome {
            Ok(decision) => lemma_checked(after.queued(decision)),
            Err(error) => lemma_counts_one(BridgeActionView::Fail(error)),
        }
    }
}

/// Requests go out one at a time, and each has a number of its own: a step sends
/// at most one request, only where none is unanswered or the unanswered one has
/// just been answered, and numbers only go up.
pub proof fn one_request_at_a_time(state: BridgeView, input: BridgeInput)
    ensures
        ({
            let (after, actions) = state.step(input);
            &&& requests_sent(actions) <= 1
            &&& after.next_request_id == state.next_request_id + requests_sent(actions)
            &&& requests_sent(actions) == 1 ==> after.in_flight is Some && (state.in_flight is None
                || input is Answered)
        }),
{
    let (after, actions) = state.step(input);
    match (state.stage, input) {
        (BridgeStageView::Running, BridgeInput::Chunk(message)) => {
            let (controller, decision) = state.controller.step(
                EventView::MessageReceived(message@),
            );
            lemma_checked(BridgeView { controller, ..state }.queued(decision));
        },
        (BridgeStageView::Running, BridgeInput::ChunksClosed) => {
            lemma_go_on(BridgeView { stdin_closed: true, ..state });
        },
        (BridgeStageView::Running, BridgeInput::InputFailed { .. }) => {
            lemma_counts_one(actions[0]);
            assert(actions =~= seq![actions[0]]);
        },
        (BridgeStageView::Running, BridgeInput::App(event)) => match event {
            AppServerEvent::Disconnected { .. } => {
                lemma_counts_one(actions[0]);
                assert(actions =~= seq![actions[0]]);
            },
            AppServerEvent::ServerRequest(request) => {
                if sideband::managed(request) is Some {
                    lemma_counts_one(BridgeActionView::Tell);
                } else {
                    lemma_counts_one(actions[0]);
                    lemma_counts_one(actions[1]);
                    lemma_counts_add(seq![actions[0]], seq![actions[1]]);
                    assert(actions =~= seq![actions[0]] + seq![actions[1]]);
                }
            },
            AppServerEvent::ServerNotification { notification, .. } => {
                let (session, controller, decision) = notified(
                    state.session,
                    state.controller,
                    notification,
                );
                lemma_checked(BridgeView { session, controller, ..state }.queued(decision));
            },
            AppServerEvent::Lagged { .. } => lemma_checked(state),
        },
        (BridgeStageView::Running, BridgeInput::AppClosed) => {
            lemma_counts_one(BridgeActionView::ShutDown);
        },
        (BridgeStageView::Running, BridgeInput::Answered(result)) => {
            lemma_answered_counts(state, result);
        },
        (BridgeStageView::Running, BridgeInput::AnswerLost) => {
            lemma_counts_one(actions[0]);
            assert(actions =~= seq![actions[0]]);
        },
        (BridgeStageView::Running, BridgeInput::Response(event)) => match event {
            SidebandResponseEvent::Response(response) => {
                let (requests, outcome) = side_channel::responded(state.requests, response);
                let handled = BridgeView { requests, ..state };
                lemma_go_on(handled);
                lemma_counts_one(response_action(outcome));
                lemma_counts_add(seq![response_action(outcome)], handled.go_on().1);
            },
            SidebandResponseEvent::ParseError(message) => {
                lemma_go_on(state);
                lemma_counts_one(BridgeActionView::Warn(message@));
                lemma_counts_add(seq![BridgeActionView::Warn(message@)], state.go_on().1);
            },
            SidebandResponseEvent::ReadError(message) => {
                let failure = BridgeActionView::Fail(
                    BridgeErrorView { message: message@, cause: None },
                );
                lemma_fallbacks_send_nothing(state.requests, message@);
                lemma_counts_one(failure);
                lemma_counts_add(fallback_actions(state.requests, message@), seq![failure]);
            },
            SidebandResponseEvent::Closed => {
                let message = "turn-start bridge sideband response channel closed"@;
                let failure = BridgeActionView::Fail(BridgeErrorView { message, cause: None });
                lemma_go_on(BridgeView { response_available: false, ..state });
                lemma_fallbacks_send_nothing(state.requests, message);
                lemma_counts_one(failure);
                lemma_counts_add(fallback_actions(state.requests, message), seq![failure]);
            },
        },
        (BridgeStageView::Telling { request, method }, BridgeInput::Told(told)) => {
            if told is Ok && state.response_available {
                lemma_checked(
                    BridgeView {
                        requests: side_channel::with_request(state.requests, request),
                        ..state.at(BridgeStageView::Running)
                    },
                );
            } else {
                lemma_counts_one(actions[0]);
                lemma_counts_one(actions[1]);
                lemma_counts_add(seq![actions[0]], seq![actions[1]]);
                assert(actions =~= seq![actions[0]] + seq![actions[1]]);
            }
        },
        _ => {},
    }
}

/// Whether all work of the bridge is done.
pub open spec fn all_done(state: BridgeView) -> bool {
    &&& state.stdin_closed
    &&& state.in_flight is None
    &&& state.pending_start is None
    &&& state.decisions.len() == 0
    &&& state.controller.turn_state is Idle
    &&& state.controller.after_tool_call.len() == 0
    &&& state.controller.after_any_item.len() == 0
    &&& state.controller.next_turn.len() == 0
}

/// Whether an outcome that ends in a shutdown is one of a bridge whose work is
/// done.
spec fn ends_well(outcome: BridgeOutcome) -> bool {
    outcome.1.len() > 0 && outcome.1.last() is ShutDown ==> outcome.0.stage is Ended && all_done(
        outcome.0,
    )
}

proof fn lemma_go_on_ends_well(state: BridgeView)
    ensures
        ends_well(state.go_on()),
        ends_well(state.checked()),
{
}

proof fn lemma_ends_well_behind(first: BridgeActionView, outcome: BridgeOutcome)
    requires
        !(first is ShutDown),
        ends_well(outcome),
    ensures
        ends_well((outcome.0, seq![first] + outcome.1)),
{
    if outcome.1.len() > 0 {
        assert((seq![first] + outcome.1).last() == outcome.1.last());
    } else {
        assert((seq![first] + outcome.1).last() == first);
    }
}

proof fn lemma_response_ends_well(state: BridgeView, event: SidebandResponseEvent)
    ensures
        ends_well(state.response(event)),
{
    match event {
        SidebandResponseEvent::Response(response) => {
            let (requests, outcome) = side_channel::responded(state.requests, response);
            let handled = BridgeView { requests, ..state };
            lemma_go_on_ends_well(handled);
            lemma_ends_well_behind(response_action(outcome), handled.go_on());
        },
        SidebandResponseEvent::ParseError(message) => {
            lemma_go_on_ends_well(state);
            lemma_ends_well_behind(BridgeActionView::Warn(message@), state.go_on());
        },
        SidebandResponseEvent::ReadError(message) => {
            assert(state.response(event).1.last() is Fail);
        },
        SidebandResponseEvent::Closed => {
            let closed = BridgeView { response_available: false, ..state };
            lemma_go_on_ends_well(closed);
            if state.requests.len() > 0 {
                assert(state.response(event).1.last() is Fail);
            }
        },
    }
}

proof fn lemma_app_event_ends_well(state: BridgeView, event: AppServerEvent)
    ensures
        ends_well(state.app_event(event)),
{
    match event {
        AppServerEvent::ServerNotification { notification, .. } => {
            let (session, controller, decision) = notified(
                state.session,
                state.controller,
                notification,
            );
            lemma_go_on_ends_well(BridgeView { session, controller, ..state }.queued(decision));
        },
        AppServerEvent::Lagged { .. } => lemma_go_on_ends_well(state),
        _ => {},
    }
}

proof fn lemma_answered_ends_well(state: BridgeView, result: Result<String, String>)
    ensures
        ends_well(state.answered(result)),
{
    if let Some(in_flight) = state.in_flight {
        let (controller, outcome) = in_flight_handled(state.controller, in_flight, result);
        let after = BridgeView {
            in_flight: None,
            pending_start: if in_flight is TurnStart {
                None
            } else {
                state.pending_start
            },
            controller,
            ..state
        };
        if let Ok(decision) = outcome {
            lemma_go_on_ends_well(after.queued(decision));
        }
    }
}

/// The bridge shuts down by itself only when its work is done: the input has
/// ended, no request is unanswered, no turn runs and nothing is queued. Else it
/// does so only because the app server says no more.
pub proof fn the_bridge_ends_when_its_work_is_done(state: BridgeView, input: BridgeInput)
    ensures
        ({
            let (after, actions) = state.step(input);
            actions.len() > 0 && actions.last() is ShutDown ==> after.stage is Ended && (
            input is AppClosed || all_done(after))
        }),
{
    match (state.stage, input) {
        (BridgeStageView::Running, BridgeInput::Chunk(message)) => {
            let (controller, decision) = state.controller.step(
                EventView::MessageReceived(message@),
            );
            lemma_go_on_ends_well(BridgeView { controller, ..state }.queued(decision));
        },
        (BridgeStageView::Running, BridgeInput::App(event)) => {
            lemma_app_event_ends_well(state, event);
        },
        (BridgeStageView::Running, BridgeInput::Answered(result)) => {
            lemma_answered_ends_well(state, result);
        },
        (BridgeStageView::Running, BridgeInput::Response(event)) => {
            lemma_response_ends_well(state, event);
        },
        _ => {},
    }
}

/// A bridge that has ended does nothing more.
pub proof fn an_ended_bridge_is_done(state: BridgeView, input: BridgeInput)
    requires
        state.stage is Ended,
    ensures
        state.step(input) == (state, Seq::<BridgeActionView>::empty()),
{
}

/// Where no response can come any more, every request that waits is answered,
/// and only then does the bridge fail.
pub proof fn waiting_requests_get_an_answer(state: BridgeView, at: int)
    requires
        state.stage is Running,
        0 <= at < state.requests.len(),
    ensures
        ({
            let (after, actions) = state.step(BridgeInput::Response(SidebandResponseEvent::Closed));
            &&& after.requests.len() == 0
            &&& actions.len() == state.requests.len() + 1
            &&& actions.last() is Fail
            &&& actions[at] == (BridgeActionView::Apply {
                request_id: state.requests[at].request_id@,
                resolution: state.requests[at].kind.fallback(),
                context: "apply fallback resolution after `"@
                    + "turn-start bridge sideband response channel closed"@ + "`"@,
            })
        }),
{
}

/// A thread that is busy when the bridge comes to it is respected: the first
/// message starts no turn, whether or not the turn under way is known.
pub proof fn a_busy_thread_is_respected(thread: Thread, message: MessageView)
    requires
        thread.status == ThreadStatus::Active,
    ensures
        ({
            let controller = restored(ControllerView::fresh(thread.id@), thread);
            &&& controller.active_turn() == thread.turn_in_progress()
            &&& controller.turn_state is Running || controller.turn_state is BusyUnknownTurn
            &&& controller.step(EventView::MessageReceived(message)).1 matches Some(decision)
                ==> decision.action is SteerTurn
        }),
{
}

} // verus!
