//! Carries out what structured input asks of an interactive session: turns are
//! started and steered, and races with other turns are resolved.

use std::collections::VecDeque;

use vstd::prelude::*;

use crate::controller::{ControllerEvent, QueuedMessage, ReleaseAction, ReleaseDecision, ReleaseReason};
use crate::controller_model::{EventView, MessageView};
use crate::stdio::{TypedRequestError, TypedRequestErrorView};
use crate::structured_input;
use crate::structured_input::{
    ReaderEventView, RuntimeView, SessionActionView, StructuredInputAction,
    StructuredInputPreviewEntry, StructuredInputReaderEvent, StructuredInputRuntime,
};
use crate::text;
use crate::thread_map::ThreadId;

verus! {

/// Whether a message says that the active turn cannot be steered.
pub open spec fn says_not_steerable(message: Seq<char>) -> bool {
    text::holds(message, "active turn"@) && text::holds(message, "not steerable"@)
}

/// Tells whether a message says that the active turn cannot be steered.
pub fn is_active_turn_not_steerable_message(message: &str) -> (not_steerable: bool)
    ensures
        not_steerable == says_not_steerable(message@),
{
    text::contains(message, "active turn") && text::contains(message, "not steerable")
}

/// How a steer can come too late or too early.
#[derive(Clone, Debug, PartialEq, Eq)]
pub enum ActiveTurnSteerRace {
    /// No turn is active.
    Missing,
    /// Another turn is active.
    ExpectedTurnMismatch { actual_turn_id: String },
}

/// How a steer can come too late or too early, as mathematical text.
#[verifier::ext_equal]
pub enum SteerRaceView {
    Missing,
    ExpectedTurnMismatch { actual_turn_id: Seq<char> },
}

impl View for ActiveTurnSteerRace {
    type V = SteerRaceView;

    open spec fn view(&self) -> SteerRaceView {
        match *self {
            ActiveTurnSteerRace::Missing => SteerRaceView::Missing,
            ActiveTurnSteerRace::ExpectedTurnMismatch { actual_turn_id } =>
                SteerRaceView::ExpectedTurnMismatch { actual_turn_id: actual_turn_id@ },
        }
    }
}

/// The turn that a message names as the active one: the message reads
/// "expected active turn id `a` but found `b`".
pub open spec fn found_turn(message: Seq<char>) -> Option<Seq<char>> {
    let prefix = "expected active turn id `"@;
    let separator = "` but found `"@;
    match text::first_at(message, prefix.len() as int, separator) {
        Some(at) if prefix.is_prefix_of(message) => {
            let tail = message.skip(at + separator.len());
            if tail.len() > 0 && tail.last() == '`' {
                Some(tail.drop_last())
            } else {
                None
            }
        },
        _ => None,
    }
}

/// The race that a failed request reveals.
pub open spec fn steer_race(error: TypedRequestErrorView) -> Option<SteerRaceView> {
    match error {
        TypedRequestErrorView::Server { method, source } => if method != "turn/steer"@ {
            None
        } else if source.message == "no active turn to steer"@ {
            Some(SteerRaceView::Missing)
        } else {
            match found_turn(source.message) {
                Some(actual_turn_id) => Some(
                    SteerRaceView::ExpectedTurnMismatch { actual_turn_id },
                ),
                None => None,
            }
        },
        _ => None,
    }
}

fn find_found_turn(message: &str) -> (turn_id: Option<String>)
    ensures
        text::opt_text(turn_id) == found_turn(message@),
{
    let chars = text::chars_of(message);
    let prefix = text::chars_of("expected active turn id `");
    let separator = text::chars_of("` but found `");
    if !text::starts_with(message, "expected active turn id `") {
        return None;
    }
    let at: usize = match text::find_from(&chars, prefix.len(), &separator) {
        Some(at) => at,
        None => return None,
    };
    let length: usize = chars.len();
    let from: usize = at + separator.len();
    let ghost tail = message@.skip(from as int);
    if from == length || chars[length - 1] != '`' {
        return None;
    }
    let turn_id = message.substring_char(from, length - 1);
    assert(turn_id@ =~= tail.drop_last());
    Some(turn_id.to_owned())
}

/// The race as a value, where there is one.
pub open spec fn opt_race(race: Option<ActiveTurnSteerRace>) -> Option<SteerRaceView> {
    match race {
        Some(race) => Some(race@),
        None => None,
    }
}

/// Finds the race that a failed request reveals.
pub fn active_turn_steer_race(error: &TypedRequestError) -> (race: Option<ActiveTurnSteerRace>)
    ensures
        opt_race(race) == steer_race(error@),
{
    match error {
        TypedRequestError::Server { method, source } => {
            if !text::text_eq(method.as_str(), "turn/steer") {
                return None;
            }
            if text::text_eq(source.message.as_str(), "no active turn to steer") {
                return Some(ActiveTurnSteerRace::Missing);
            }
            match find_found_turn(source.message.as_str()) {
                Some(actual_turn_id) => Some(
                    ActiveTurnSteerRace::ExpectedTurnMismatch { actual_turn_id },
                ),
                None => None,
            }
        },
        _ => None,
    }
}

/// What to do about a steer that failed.
#[derive(Clone, Debug, PartialEq, Eq)]
pub enum StructuredInputSteerFailure {
    /// The message waits again.
    Requeue,
    /// The message starts a turn.
    StartTurn,
    /// The message is steered into another turn.
    RetryWithTurnId { turn_id: String },
    /// The active turn is noted, and the failure is reported.
    UpdateActiveTurnAndFail { turn_id: String },
}

/// What to do about a steer that failed, as mathematical text.
#[verifier::ext_equal]
pub enum SteerFailureView {
    Requeue,
    StartTurn,
    RetryWithTurnId { turn_id: Seq<char> },
    UpdateActiveTurnAndFail { turn_id: Seq<char> },
}

impl View for StructuredInputSteerFailure {
    type V = SteerFailureView;

    open spec fn view(&self) -> SteerFailureView {
        match *self {
            StructuredInputSteerFailure::Requeue => SteerFailureView::Requeue,
            StructuredInputSteerFailure::StartTurn => SteerFailureView::StartTurn,
            StructuredInputSteerFailure::RetryWithTurnId { turn_id } =>
                SteerFailureView::RetryWithTurnId { turn_id: turn_id@ },
            StructuredInputSteerFailure::UpdateActiveTurnAndFail { turn_id } =>
                SteerFailureView::UpdateActiveTurnAndFail { turn_id: turn_id@ },
        }
    }
}

/// What to do about a steer that failed: a turn that cannot be steered lets the
/// message wait, a missing turn lets it start one, and another turn is steered
/// instead, once.
pub open spec fn steer_failure(
    error: TypedRequestErrorView,
    not_steerable: bool,
    attempted_turn_id: Seq<char>,
    retried: bool,
) -> Option<SteerFailureView> {
    if not_steerable {
        Some(SteerFailureView::Requeue)
    } else {
        match steer_race(error) {
            Some(SteerRaceView::Missing) => Some(SteerFailureView::StartTurn),
            Some(SteerRaceView::ExpectedTurnMismatch { actual_turn_id }) => Some(
                if !retried && actual_turn_id != attempted_turn_id {
                    SteerFailureView::RetryWithTurnId { turn_id: actual_turn_id }
                } else {
                    SteerFailureView::UpdateActiveTurnAndFail { turn_id: actual_turn_id }
                },
            ),
            None => None,
        }
    }
}

/// What to do, where something is to be done.
pub open spec fn opt_failure(failure: Option<StructuredInputSteerFailure>) -> Option<
    SteerFailureView,
> {
    match failure {
        Some(failure) => Some(failure@),
        None => None,
    }
}

/// Decides what to do about a steer that failed; `not_steerable` where the
/// details of the error say that the active turn cannot be steered.
pub fn structured_input_steer_failure(
    error: &TypedRequestError,
    not_steerable: bool,
    attempted_turn_id: &str,
    retried_after_turn_mismatch: bool,
) -> (failure: Option<StructuredInputSteerFailure>)
    ensures
        opt_failure(failure) == steer_failure(
            error@,
            not_steerable,
            attempted_turn_id@,
            retried_after_turn_mismatch,
        ),
{
    if not_steerable {
        return Some(StructuredInputSteerFailure::Requeue);
    }
    match active_turn_steer_race(error) {
        Some(ActiveTurnSteerRace::Missing) => Some(StructuredInputSteerFailure::StartTurn),
        Some(ActiveTurnSteerRace::ExpectedTurnMismatch { actual_turn_id }) => {
            if !retried_after_turn_mismatch && !text::text_eq(
                actual_turn_id.as_str(),
                attempted_turn_id,
            ) {
                Some(StructuredInputSteerFailure::RetryWithTurnId { turn_id: actual_turn_id })
            } else {
                Some(
                    StructuredInputSteerFailure::UpdateActiveTurnAndFail {
                        turn_id: actual_turn_id,
                    },
                )
            }
        },
        None => None,
    }
}

/// How far a release has come.
#[derive(Clone, Debug, PartialEq, Eq)]
pub enum ReleaseStage {
    /// A turn is being started.
    Starting,
    /// A turn is being steered; `retried` once another turn was tried.
    Steering { turn_id: String, retried: bool },
    Done,
}

/// How far a release has come, as mathematical text.
#[verifier::ext_equal]
pub enum ReleaseStageView {
    Starting,
    Steering { turn_id: Seq<char>, retried: bool },
    Done,
}

impl View for ReleaseStage {
    type V = ReleaseStageView;

    open spec fn view(&self) -> ReleaseStageView {
        match *self {
            ReleaseStage::Starting => ReleaseStageView::Starting,
            ReleaseStage::Steering { turn_id, retried } => ReleaseStageView::Steering {
                turn_id: turn_id@,
                retried,
            },
            ReleaseStage::Done => ReleaseStageView::Done,
        }
    }
}

/// What the app server said to a release.
#[derive(Debug, PartialEq, Eq)]
pub enum ReleaseReply {
    TurnStarted { turn_id: String },
    TurnStartFailed { message: String },
    Steered { turn_id: String },
    /// A steer failed; `not_steerable` where the details of the error say that
    /// the active turn cannot be steered, and `message` the error as it is
    /// shown.
    SteerFailed { error: TypedRequestError, not_steerable: bool, message: String },
}

/// What becomes of the turn that is noted as active for a thread.
#[derive(Clone, Debug, PartialEq, Eq)]
pub enum ActiveTurnUpdate {
    Keep,
    Clear,
    Note { turn_id: String },
}

/// What becomes of the turn that is noted as active, as mathematical text.
#[verifier::ext_equal]
pub enum ActiveTurnUpdateView {
    Keep,
    Clear,
    Note { turn_id: Seq<char> },
}

impl View for ActiveTurnUpdate {
    type V = ActiveTurnUpdateView;

    open spec fn view(&self) -> ActiveTurnUpdateView {
        match *self {
            ActiveTurnUpdate::Keep => ActiveTurnUpdateView::Keep,
            ActiveTurnUpdate::Clear => ActiveTurnUpdateView::Clear,
            ActiveTurnUpdate::Note { turn_id } => ActiveTurnUpdateView::Note { turn_id: turn_id@ },
        }
    }
}

/// What a release asks for next.
#[derive(Debug, PartialEq, Eq)]
pub enum ReleaseNext {
    StartTurn { text: String },
    SteerTurn { turn_id: String, text: String },
    /// The release is over, and this is to be done.
    Finish(Vec<StructuredInputAction>),
    /// The reply was not waited for.
    Nothing,
}

/// What a release asks for next, as mathematical text.
#[verifier::ext_equal]
pub enum ReleaseNextView {
    StartTurn { text: Seq<char> },
    SteerTurn { turn_id: Seq<char>, text: Seq<char> },
    Finish(Seq<SessionActionView>),
    Nothing,
}

impl View for ReleaseNext {
    type V = ReleaseNextView;

    open spec fn view(&self) -> ReleaseNextView {
        match *self {
            ReleaseNext::StartTurn { text } => ReleaseNextView::StartTurn { text: text@ },
            ReleaseNext::SteerTurn { turn_id, text } => ReleaseNextView::SteerTurn {
                turn_id: turn_id@,
                text: text@,
            },
            ReleaseNext::Finish(actions) => ReleaseNextView::Finish(
                structured_input::session_actions(actions@),
            ),
            ReleaseNext::Nothing => ReleaseNextView::Nothing,
        }
    }
}

/// A release that is being carried out, as mathematical text.
#[verifier::ext_equal]
pub struct ReleaseView {
    pub thread_id: Seq<char>,
    pub message: MessageView,
    pub reason: ReleaseReason,
    pub stage: ReleaseStageView,
}

/// The structured input of a session, where there is any.
pub open spec fn opt_runtime(runtime: Option<StructuredInputRuntime>) -> Option<RuntimeView> {
    match runtime {
        Some(runtime) => Some(runtime@),
        None => None,
    }
}

/// Whether the structured input of a session is sound, where there is any.
pub open spec fn opt_wf(runtime: Option<StructuredInputRuntime>) -> bool {
    match runtime {
        Some(runtime) => runtime.wf(),
        None => true,
    }
}

/// A controller takes in an event, where there is structured input.
pub open spec fn told(runtime: Option<RuntimeView>, thread_id: Seq<char>, event: EventView) -> (
    Option<RuntimeView>,
    Seq<SessionActionView>,
) {
    match runtime {
        Some(runtime) => {
            let (after, actions) = runtime.controller_event(thread_id, event);
            (Some(after), actions)
        },
        None => (None, Seq::empty()),
    }
}

/// A steer found no turn, where there is structured input.
pub open spec fn told_to_recover(
    runtime: Option<RuntimeView>,
    thread_id: Seq<char>,
    message: MessageView,
    reason: ReleaseReason,
) -> (Option<RuntimeView>, Seq<SessionActionView>) {
    match runtime {
        Some(runtime) => {
            let (after, actions) = runtime.recovered(thread_id, message, reason);
            (Some(after), actions)
        },
        None => (None, Seq::empty()),
    }
}

/// The report of a release that failed.
pub open spec fn release_failed(what: Seq<char>, thread_id: Seq<char>, message: Seq<char>) -> Seq<
    SessionActionView,
> {
    seq![
        SessionActionView::Error(
            "Structured input "@ + what + " failed for thread "@ + thread_id + ": "@ + message,
        ),
    ]
}

impl ReleaseView {
    pub open spec fn at(self, stage: ReleaseStageView) -> Self {
        ReleaseView { stage, ..self }
    }

    /// What comes of a reply: the release, the structured input, what is noted
    /// as the active turn, and what is asked for next. A reply that is not
    /// waited for changes nothing.
    pub open spec fn step(self, runtime: Option<RuntimeView>, reply: ReleaseReply) -> (
        Self,
        Option<RuntimeView>,
        ActiveTurnUpdateView,
        ReleaseNextView,
    ) {
        let done = self.at(ReleaseStageView::Done);
        let thread_id = self.thread_id;
        match (self.stage, reply) {
            (ReleaseStageView::Starting, ReleaseReply::TurnStarted { turn_id }) => {
                let (after, actions) = told(
                    runtime,
                    thread_id,
                    EventView::TurnStartAcceptedWithTurnId { turn_id: turn_id@ },
                );
                (done, after, ActiveTurnUpdateView::Keep, ReleaseNextView::Finish(actions))
            },
            (ReleaseStageView::Starting, ReleaseReply::TurnStartFailed { message }) => {
                if says_not_steerable(message@) {
                    let (after, actions) = told(
                        runtime,
                        thread_id,
                        EventView::TurnStartRejectedActiveTurnNotSteerable,
                    );
                    (done, after, ActiveTurnUpdateView::Keep, ReleaseNextView::Finish(actions))
                } else {
                    (
                        done,
                        runtime,
                        ActiveTurnUpdateView::Keep,
                        ReleaseNextView::Finish(
                            release_failed("turn/start"@, thread_id, message@),
                        ),
                    )
                }
            },
            (ReleaseStageView::Steering { .. }, ReleaseReply::Steered { turn_id }) => {
                let (after, actions) = told(
                    runtime,
                    thread_id,
                    EventView::SteerAccepted { turn_id: turn_id@ },
                );
                (done, after, ActiveTurnUpdateView::Keep, ReleaseNextView::Finish(actions))
            },
            (
                ReleaseStageView::Steering { turn_id, retried },
                ReleaseReply::SteerFailed { error, not_steerable, message },
            ) => match steer_failure(error@, not_steerable, turn_id, retried) {
                Some(SteerFailureView::Requeue) => {
                    let (after, actions) = told(
                        runtime,
                        thread_id,
                        EventView::SteerRejectedActiveTurnNotSteerable { message: self.message },
                    );
                    (done, after, ActiveTurnUpdateView::Keep, ReleaseNextView::Finish(actions))
                },
                Some(SteerFailureView::StartTurn) => {
                    let (after, actions) = told_to_recover(
                        runtime,
                        thread_id,
                        self.message,
                        self.reason,
                    );
                    (done, after, ActiveTurnUpdateView::Clear, ReleaseNextView::Finish(actions))
                },
                Some(SteerFailureView::RetryWithTurnId { turn_id }) => {
                    let event = EventView::ActiveTurnReconciled { thread_id, turn_id };
                    (
                        self.at(ReleaseStageView::Steering { turn_id, retried: true }),
                        told(runtime, thread_id, event).0,
                        ActiveTurnUpdateView::Note { turn_id },
                        ReleaseNextView::SteerTurn { turn_id, text: self.message.text },
                    )
                },
                Some(SteerFailureView::UpdateActiveTurnAndFail { turn_id }) => {
                    let event = EventView::ActiveTurnReconciled { thread_id, turn_id };
                    (
                        done,
                        told(runtime, thread_id, event).0,
                        ActiveTurnUpdateView::Note { turn_id },
                        ReleaseNextView::Finish(
                            release_failed("turn/steer"@, thread_id, message@),
                        ),
                    )
                },
                None => (
                    done,
                    runtime,
                    ActiveTurnUpdateView::Keep,
                    ReleaseNextView::Finish(release_failed("turn/steer"@, thread_id, message@)),
                ),
            },
            _ => (self, runtime, ActiveTurnUpdateView::Keep, ReleaseNextView::Nothing),
        }
    }
}

/// A release that is being carried out.
#[derive(Debug, PartialEq, Eq)]
pub struct StructuredInputRelease {
    pub thread_id: ThreadId,
    pub message: QueuedMessage,
    pub reason: ReleaseReason,
    pub stage: ReleaseStage,
}

impl View for StructuredInputRelease {
    type V = ReleaseView;

    open spec fn view(&self) -> ReleaseView {
        ReleaseView {
            thread_id: self.thread_id@,
            message: self.message@,
            reason: self.reason,
            stage: self.stage@,
        }
    }
}

fn tell(
    runtime: &mut Option<StructuredInputRuntime>,
    thread_id: &ThreadId,
    event: ControllerEvent,
) -> (actions: Vec<StructuredInputAction>)
    requires
        opt_wf(*old(runtime)),
    ensures
        opt_wf(*final(runtime)),
        (opt_runtime(*final(runtime)), structured_input::session_actions(actions@)) == told(
            opt_runtime(*old(runtime)),
            thread_id@,
            event@,
        ),
{
    match runtime {
        Some(runtime) => runtime.handle_controller_event(thread_id, event),
        None => {
            let actions: Vec<StructuredInputAction> = Vec::new();
            assert(structured_input::session_actions(actions@) =~= Seq::empty());
            actions
        },
    }
}

fn tell_to_recover(
    runtime: &mut Option<StructuredInputRuntime>,
    thread_id: &ThreadId,
    message: QueuedMessage,
    reason: ReleaseReason,
) -> (actions: Vec<StructuredInputAction>)
    requires
        opt_wf(*old(runtime)),
    ensures
        opt_wf(*final(runtime)),
        (opt_runtime(*final(runtime)), structured_input::session_actions(actions@))
            == told_to_recover(opt_runtime(*old(runtime)), thread_id@, message@, reason),
{
    match runtime {
        Some(runtime) => runtime.recover_missing_active_turn(thread_id, message, reason),
        None => {
            let actions: Vec<StructuredInputAction> = Vec::new();
            assert(structured_input::session_actions(actions@) =~= Seq::empty());
            actions
        },
    }
}

fn report_failure(what: &str, thread_id: &ThreadId, message: &str) -> (actions: Vec<
    StructuredInputAction,
>)
    ensures
        structured_input::session_actions(actions@) == release_failed(
            what@,
            thread_id@,
            message@,
        ),
{
    let mut shown = text::concat3("Structured input ", what, " failed for thread ");
    shown.append(thread_id.as_str());
    shown.append(": ");
    shown.append(message);
    let mut actions: Vec<StructuredInputAction> = Vec::new();
    actions.push(StructuredInputAction::Error(shown));
    assert(structured_input::session_actions(actions@) =~= release_failed(
        what@,
        thread_id@,
        message@,
    ));
    actions
}

/// Starts a release. Without a session for the thread there is nothing to
/// release to, which is reported.
pub fn begin_release(thread_id: ThreadId, decision: ReleaseDecision, has_session: bool) -> (begun: (
    StructuredInputRelease,
    ReleaseNext,
))
    ensures
        begun.0@.thread_id == thread_id@,
        begun.0@.message == decision.message@,
        begun.0@.reason == decision.reason,
        (begun.0@.stage, begun.1@) == if !has_session {
            (
                ReleaseStageView::Done,
                ReleaseNextView::Finish(
                    seq![
                        SessionActionView::Error(
                            "No configured thread session is available for structured input on thread "@
                                + thread_id@ + "."@,
                        ),
                    ],
                ),
            )
        } else {
            match decision.action {
                ReleaseAction::StartTurn => (
                    ReleaseStageView::Starting,
                    ReleaseNextView::StartTurn { text: decision.message.text@ },
                ),
                ReleaseAction::SteerTurn { turn_id } => (
                    ReleaseStageView::Steering { turn_id: turn_id@, retried: false },
                    ReleaseNextView::SteerTurn {
                        turn_id: turn_id@,
                        text: decision.message.text@,
                    },
                ),
            }
        },
{
    if !has_session {
        let shown = text::concat3(
            "No configured thread session is available for structured input on thread ",
            thread_id.as_str(),
            ".",
        );
        let mut actions: Vec<StructuredInputAction> = Vec::new();
        actions.push(StructuredInputAction::Error(shown));
        assert(structured_input::session_actions(actions@) =~= seq![
            SessionActionView::Error(shown@),
        ]);
        let release = StructuredInputRelease {
            thread_id,
            message: decision.message,
            reason: decision.reason,
            stage: ReleaseStage::Done,
        };
        return (release, ReleaseNext::Finish(actions));
    }
    let text = decision.message.text.clone();
    let (stage, next) = match decision.action {
        ReleaseAction::StartTurn => (ReleaseStage::Starting, ReleaseNext::StartTurn { text }),
        ReleaseAction::SteerTurn { turn_id } => (
            ReleaseStage::Steering { turn_id: turn_id.clone(), retried: false },
            ReleaseNext::SteerTurn { turn_id, text },
        ),
    };
    let release = StructuredInputRelease {
        thread_id,
        message: decision.message,
        reason: decision.reason,
        stage,
    };
    (release, next)
}

impl StructuredInputRelease {
    /// Takes in a reply of the app server, and says what is noted as the active
    /// turn and what is asked for next. A reply that is not waited for changes
    /// nothing.
    pub fn execute_structured_input_release(
        &mut self,
        runtime: &mut Option<StructuredInputRuntime>,
        reply: ReleaseReply,
    ) -> (asked: (ActiveTurnUpdate, ReleaseNext))
        requires
            opt_wf(*old(runtime)),
        ensures
            opt_wf(*final(runtime)),
            (final(self)@, opt_runtime(*final(runtime)), asked.0@, asked.1@) == old(self)@.step(
                opt_runtime(*old(runtime)),
                reply,
            ),
    {
        let mut stage = ReleaseStage::Done;
        std::mem::swap(&mut stage, &mut self.stage);
        match (stage, reply) {
            (ReleaseStage::Starting, ReleaseReply::TurnStarted { turn_id }) => {
                let event = ControllerEvent::TurnStartAcceptedWithTurnId { turn_id };
                let actions = tell(runtime, &self.thread_id, event);
                (ActiveTurnUpdate::Keep, ReleaseNext::Finish(actions))
            },
            (ReleaseStage::Starting, ReleaseReply::TurnStartFailed { message }) => {
                let actions = if is_active_turn_not_steerable_message(message.as_str()) {
                    let event = ControllerEvent::TurnStartRejectedActiveTurnNotSteerable;
                    tell(runtime, &self.thread_id, event)
                } else {
                    report_failure("turn/start", &self.thread_id, message.as_str())
                };
                (ActiveTurnUpdate::Keep, ReleaseNext::Finish(actions))
            },
            (ReleaseStage::Steering { .. }, ReleaseReply::Steered { turn_id }) => {
                let event = ControllerEvent::SteerAccepted { turn_id };
                let actions = tell(runtime, &self.thread_id, event);
                (ActiveTurnUpdate::Keep, ReleaseNext::Finish(actions))
            },
            (
                ReleaseStage::Steering { turn_id, retried },
                ReleaseReply::SteerFailed { error, not_steerable, message },
            ) => match structured_input_steer_failure(
                &error,
                not_steerable,
                turn_id.as_str(),
                retried,
            ) {
                Some(StructuredInputSteerFailure::Requeue) => {
                    let event = ControllerEvent::SteerRejectedActiveTurnNotSteerable {
                        message: self.message.clone(),
                    };
                    let actions = tell(runtime, &self.thread_id, event);
                    (ActiveTurnUpdate::Keep, ReleaseNext::Finish(actions))
                },
                Some(StructuredInputSteerFailure::StartTurn) => {
                    let actions = tell_to_recover(
                        runtime,
                        &self.thread_id,
                        self.message.clone(),
                        self.reason,
                    );
                    (ActiveTurnUpdate::Clear, ReleaseNext::Finish(actions))
                },
                Some(StructuredInputSteerFailure::RetryWithTurnId { turn_id }) => {
                    let event = ControllerEvent::ActiveTurnReconciled {
                        thread_id: self.thread_id.to_string(),
                        turn_id: turn_id.clone(),
                    };
                    let _ignored = tell(runtime, &self.thread_id, event);
                    self.stage = ReleaseStage::Steering { turn_id: turn_id.clone(), retried: true };
                    (
                        ActiveTurnUpdate::Note { turn_id: turn_id.clone() },
                        ReleaseNext::SteerTurn { turn_id, text: self.message.text.clone() },
                    )
                },
                Some(StructuredInputSteerFailure::UpdateActiveTurnAndFail { turn_id }) => {
                    let event = ControllerEvent::ActiveTurnReconciled {
                        thread_id: self.thread_id.to_string(),
                        turn_id: turn_id.clone(),
                    };
                    let _ignored = tell(runtime, &self.thread_id, event);
                    let actions = report_failure("turn/steer", &self.thread_id, message.as_str());
                    (ActiveTurnUpdate::Note { turn_id }, ReleaseNext::Finish(actions))
                },
                None => {
                    let actions = report_failure("turn/steer", &self.thread_id, message.as_str());
                    (ActiveTurnUpdate::Keep, ReleaseNext::Finish(actions))
                },
            },
            (stage, _) => {
                self.stage = stage;
                (ActiveTurnUpdate::Keep, ReleaseNext::Nothing)
            },
        }
    }
}

/// A steer is tried at most twice, and the second time with another turn: a
/// release asks for a steer again only where it has not done so before, and
/// only with the turn that the app server named as the active one, which is
/// then noted.
pub proof fn a_steer_is_retried_once(
    state: ReleaseView,
    runtime: Option<RuntimeView>,
    reply: ReleaseReply,
)
    ensures
        state.step(runtime, reply).3 matches ReleaseNextView::SteerTurn { turn_id, text } ==> {
            &&& state.stage matches ReleaseStageView::Steering { turn_id: tried, retried: false }
            &&& turn_id != tried
            &&& text == state.message.text
            &&& state.step(runtime, reply).0.stage == (ReleaseStageView::Steering {
                turn_id,
                retried: true,
            })
            &&& state.step(runtime, reply).2 == (ActiveTurnUpdateView::Note { turn_id })
        },
{
}

/// A steer that finds no turn starts one with the message that it was to bring:
/// nothing is noted as the active turn any more, and the message is released
/// again with the reason that it had.
pub proof fn a_missing_turn_is_started(
    state: ReleaseView,
    runtime: RuntimeView,
    reply: ReleaseReply,
)
    requires
        runtime.controllers.contains_key(state.thread_id),
        state.stage matches ReleaseStageView::Steering { turn_id, retried } && reply
            matches ReleaseReply::SteerFailed { error, not_steerable, .. } && steer_failure(
            error@,
            not_steerable,
            turn_id,
            retried,
        ) == Some(SteerFailureView::StartTurn),
    ensures
        ({
            let (_, after, update, next) = state.step(Some(runtime), reply);
            &&& update == ActiveTurnUpdateView::Clear
            &&& next matches ReleaseNextView::Finish(actions) && actions.last()
                matches SessionActionView::Release { thread_id, decision } && thread_id
                == state.thread_id && decision.action is StartTurn && decision.reason
                == state.reason && decision.message.text == state.message.text
            &&& after matches Some(after) && after.controllers[state.thread_id].turn_state
                is TurnStartPending
        }),
{
    let (_, actions) = runtime.recovered(state.thread_id, state.message, state.reason);
    let decision = runtime.controllers[state.thread_id].start(state.message, state.reason).1;
    assert(actions.last() == SessionActionView::Release {
        thread_id: state.thread_id,
        decision: decision->0,
    });
}

/// What structured input does with an event of the reader while a thread is
/// displayed: first it is told which turn is active, where one is.
pub open spec fn event_handled(
    runtime: RuntimeView,
    event: ReaderEventView,
    current: Option<Seq<char>>,
    active_turn: Option<Seq<char>>,
) -> (RuntimeView, Seq<SessionActionView>) {
    let (synced, actions) = synchronized(runtime, current, active_turn);
    let (after, more) = synced.reader_event(event, current);
    (after, actions + more)
}

/// Structured input is told which turn is active, where one is.
pub open spec fn synchronized(
    runtime: RuntimeView,
    current: Option<Seq<char>>,
    active_turn: Option<Seq<char>>,
) -> (RuntimeView, Seq<SessionActionView>) {
    match (current, active_turn) {
        (Some(thread_id), Some(turn_id)) => runtime.with_thread(thread_id).controller_event(
            thread_id,
            EventView::ActiveTurnReconciled { thread_id, turn_id },
        ),
        _ => (runtime, Seq::empty()),
    }
}

/// The displayed thread, as mathematical text.
pub open spec fn opt_thread(thread_id: Option<&ThreadId>) -> Option<Seq<char>> {
    match thread_id {
        Some(thread_id) => Some(thread_id@),
        None => None,
    }
}

fn synchronize(
    runtime: &mut StructuredInputRuntime,
    current_thread_id: Option<&ThreadId>,
    active_turn_id: Option<String>,
) -> (actions: Vec<StructuredInputAction>)
    requires
        old(runtime).wf(),
    ensures
        final(runtime).wf(),
        (final(runtime)@, structured_input::session_actions(actions@)) == synchronized(
            old(runtime)@,
            opt_thread(current_thread_id),
            text::opt_text(active_turn_id),
        ),
{
    match (current_thread_id, active_turn_id) {
        (Some(thread_id), Some(turn_id)) => runtime.sync_active_turn(thread_id, turn_id),
        _ => {
            let actions: Vec<StructuredInputAction> = Vec::new();
            assert(structured_input::session_actions(actions@) =~= Seq::empty());
            actions
        },
    }
}

/// Takes in an event of the reader. Without structured input nothing is done.
pub fn handle_structured_input_event(
    runtime: &mut Option<StructuredInputRuntime>,
    event: StructuredInputReaderEvent,
    current_thread_id: Option<&ThreadId>,
    active_turn_id: Option<String>,
) -> (actions: Vec<StructuredInputAction>)
    requires
        opt_wf(*old(runtime)),
    ensures
        opt_wf(*final(runtime)),
        match *old(runtime) {
            Some(before) => {
                let (after, handled) = event_handled(
                    before@,
                    event@,
                    opt_thread(current_thread_id),
                    text::opt_text(active_turn_id),
                );
                &&& opt_runtime(*final(runtime)) == Some(after)
                &&& structured_input::session_actions(actions@) == handled
            },
            None => *final(runtime) is None && actions@.len() == 0,
        },
{
    match runtime {
        Some(runtime) => {
            let actions = synchronize(runtime, current_thread_id, active_turn_id);
            let more = runtime.handle_reader_event(event, current_thread_id);
            structured_input::join_actions(actions, more)
        },
        None => Vec::new(),
    }
}

/// Hands what waited for a thread to the displayed one. Where none is displayed
/// the preview is refreshed.
pub fn bind_structured_input_for_current_thread(
    runtime: &mut Option<StructuredInputRuntime>,
    current_thread_id: Option<&ThreadId>,
    active_turn_id: Option<String>,
) -> (actions: Vec<StructuredInputAction>)
    requires
        opt_wf(*old(runtime)),
    ensures
        opt_wf(*final(runtime)),
        match (current_thread_id, *old(runtime)) {
            (None, _) => {
                &&& *final(runtime) == *old(runtime)
                &&& structured_input::session_actions(actions@) == seq![
                    SessionActionView::RefreshPreview,
                ]
            },
            (Some(thread_id), Some(before)) => {
                let (synced, first) = synchronized(
                    before@,
                    Some(thread_id@),
                    text::opt_text(active_turn_id),
                );
                let (after, more) = synced.bound(thread_id@);
                &&& opt_runtime(*final(runtime)) == Some(after)
                &&& structured_input::session_actions(actions@) == first + more
            },
            (Some(_), None) => *final(runtime) is None && actions@.len() == 0,
        },
{
    let thread_id = match current_thread_id {
        Some(thread_id) => thread_id,
        None => {
            let mut actions: Vec<StructuredInputAction> = Vec::new();
            actions.push(StructuredInputAction::RefreshPreview);
            assert(structured_input::session_actions(actions@) =~= seq![
                SessionActionView::RefreshPreview,
            ]);
            return actions;
        },
    };
    match runtime {
        Some(runtime) => {
            let actions = synchronize(runtime, Some(thread_id), active_turn_id);
            let more = runtime.bind_unbound_messages(thread_id);
            structured_input::join_actions(actions, more)
        },
        None => Vec::new(),
    }
}

/// What is shown of structured input while a thread is displayed, or none.
pub fn structured_input_preview(
    runtime: &Option<StructuredInputRuntime>,
    current_thread_id: Option<&ThreadId>,
) -> (entries: Vec<StructuredInputPreviewEntry>)
    requires
        opt_wf(*runtime),
    ensures
        structured_input::preview_entries(entries@) == match *runtime {
            Some(runtime) => runtime@.preview(opt_thread(current_thread_id)),
            None => Seq::empty(),
        },
{
    match runtime {
        Some(runtime) => runtime.preview_for_thread(current_thread_id),
        None => {
            let entries: Vec<StructuredInputPreviewEntry> = Vec::new();
            assert(structured_input::preview_entries(entries@) =~= Seq::empty());
            entries
        },
    }
}

/// What is still to be done, first come first served.
#[derive(Debug, PartialEq, Eq)]
pub struct ActionQueue {
    pub pending: VecDeque<StructuredInputAction>,
}

impl ActionQueue {
    /// A queue with some actions.
    pub fn new(actions: Vec<StructuredInputAction>) -> (queue: Self)
        ensures
            queue.pending@ == actions@,
    {
        let mut queue = ActionQueue { pending: VecDeque::new() };
        queue.extend(actions);
        assert(Seq::<StructuredInputAction>::empty() + actions@ =~= actions@);
        queue
    }

    /// The next action.
    pub fn next(&mut self) -> (action: Option<StructuredInputAction>)
        ensures
            match action {
                Some(action) => old(self).pending@ == seq![action] + final(self).pending@,
                None => old(self).pending@.len() == 0 && final(self).pending@.len() == 0,
            },
    {
        let action = self.pending.pop_front();
        if let Some(first) = &action {
            assert(old(self).pending@ =~= seq![*first] + self.pending@);
        }
        action
    }

    /// Adds what an action brought about, behind everything else.
    pub fn extend(&mut self, follow_up: Vec<StructuredInputAction>)
        ensures
            final(self).pending@ == old(self).pending@ + follow_up@,
    {
        assert(self.pending@ + follow_up@.take(0) =~= self.pending@);
        for action in iter: follow_up
            invariant
                iter.seq() == follow_up@,
                self.pending@ == old(self).pending@ + follow_up@.take(iter.index()),
        {
            let ghost done = iter.index();
            self.pending.push_back(action);
            assert(self.pending@ =~= old(self).pending@ + follow_up@.take(done + 1));
        }
        assert(follow_up@.take(follow_up@.len() as int) =~= follow_up@);
    }
}

/// A way for the user and the agent to work together: its model, and all of it
/// as JSON text.
#[derive(Debug, PartialEq, Eq)]
pub struct CollaborationMode {
    pub model: String,
    pub json: String,
}

impl Clone for CollaborationMode {
    fn clone(&self) -> (copy: Self)
        ensures
            copy == *self,
    {
        CollaborationMode { model: self.model.clone(), json: self.json.clone() }
    }
}

/// What the user has set for the input of a thread.
#[derive(Debug, PartialEq, Eq)]
pub struct ThreadInputState {
    pub collaboration_mode: Option<CollaborationMode>,
    /// The personality, by its name.
    pub personality: Option<String>,
}

/// What a model can do.
#[derive(Debug, PartialEq, Eq)]
pub struct ModelPreset {
    pub model: String,
    pub supports_personality: bool,
}

/// The first preset of a model.
pub open spec fn preset_of(presets: Seq<ModelPreset>, model: Seq<char>) -> Option<ModelPreset>
    decreases presets.len(),
{
    if presets.len() == 0 {
        None
    } else if presets.first().model@ == model {
        Some(presets.first())
    } else {
        preset_of(presets.drop_first(), model)
    }
}

/// Whether a model can take on a personality. Without a list of models it
/// cannot, nor can a model that is not listed.
pub open spec fn takes_personality(presets: Option<Vec<ModelPreset>>, model: Seq<char>) -> bool {
    presets matches Some(presets) && preset_of(presets@, model) matches Some(preset)
        && preset.supports_personality
}

/// Tells whether a model can take on a personality.
pub fn model_supports_personality(presets: &Option<Vec<ModelPreset>>, model: &str) -> (supports:
    bool)
    ensures
        supports == takes_personality(*presets, model@),
{
    let listed = match presets {
        Some(listed) => listed,
        None => return false,
    };
    let mut i: usize = 0;
    assert(listed@.skip(0) =~= listed@);
    while i < listed.len()
        invariant
            *presets == Some(*listed),
            i <= listed@.len(),
            preset_of(listed@, model@) == preset_of(listed@.skip(i as int), model@),
        decreases listed@.len() - i,
    {
        assert(listed@.skip(i as int).first() == listed@[i as int]);
        assert(listed@.skip(i as int).drop_first() =~= listed@.skip(i + 1));
        if text::text_eq(listed[i].model.as_str(), model) {
            return listed[i].supports_personality;
        }
        i += 1;
    }
    false
}

/// The mode and the personality with which a turn is started.
#[derive(Debug, PartialEq, Eq)]
pub struct TurnContext {
    pub collaboration_mode: Option<CollaborationMode>,
    pub personality: Option<String>,
}

/// The mode and the personality for a thread that is not displayed: those that
/// the user has set for it, the personality only where it is enabled and the
/// model can take it on.
pub open spec fn is_background_context(
    context: TurnContext,
    session_model: Seq<char>,
    input_state: Option<ThreadInputState>,
    personality_enabled: bool,
    presets: Option<Vec<ModelPreset>>,
) -> bool {
    match input_state {
        None => context.collaboration_mode is None && context.personality is None,
        Some(input) => {
            let model = match input.collaboration_mode {
                Some(mode) => mode.model@,
                None => session_model,
            };
            &&& context.collaboration_mode == input.collaboration_mode
            &&& text::opt_text(context.personality) == if personality_enabled && takes_personality(
                presets,
                model,
            ) {
                text::opt_text(input.personality)
            } else {
                None
            }
        },
    }
}

/// The mode and the personality with which a turn is started: what is displayed
/// for the displayed thread, else what the user has set for the thread.
pub fn structured_input_turn_context(
    displayed: Option<TurnContext>,
    session_model: &str,
    input_state: Option<&ThreadInputState>,
    personality_enabled: bool,
    presets: &Option<Vec<ModelPreset>>,
) -> (context: TurnContext)
    ensures
        match displayed {
            Some(displayed) => context == displayed,
            None => is_background_context(
                context,
                session_model@,
                match input_state {
                    Some(input) => Some(*input),
                    None => None,
                },
                personality_enabled,
                *presets,
            ),
        },
{
    if let Some(displayed) = displayed {
        return displayed;
    }
    let input = match input_state {
        Some(input) => input,
        None => return TurnContext { collaboration_mode: None, personality: None },
    };
    let collaboration_mode = match &input.collaboration_mode {
        Some(mode) => Some(mode.clone()),
        None => None,
    };
    let model = match &input.collaboration_mode {
        Some(mode) => mode.model.as_str(),
        None => session_model,
    };
    let personality = if personality_enabled && model_supports_personality(presets, model) {
        text::opt_clone(&input.personality)
    } else {
        None
    };
    TurnContext { collaboration_mode, personality }
}

/// The session of a thread: its model, and all of it as JSON text.
#[derive(Debug, PartialEq, Eq)]
pub struct ThreadSession {
    pub model: String,
    pub json: String,
}

/// What is kept for a thread that is not the primary one.
#[derive(Debug, PartialEq, Eq)]
pub struct ThreadStore {
    pub session: Option<ThreadSession>,
    pub input_state: Option<ThreadInputState>,
}

/// The session that a turn of structured input is started with, and its
/// context. The primary thread has a session of its own; any other thread has
/// the one that is kept for it. Where there is none, no turn can be started.
pub fn structured_input_session_state(
    is_primary: bool,
    primary_session: Option<ThreadSession>,
    store: Option<ThreadStore>,
    displayed: Option<TurnContext>,
    personality_enabled: bool,
    presets: &Option<Vec<ModelPreset>>,
) -> (state: Option<(ThreadSession, TurnContext)>)
    ensures
        ({
            let (session, input_state) = if is_primary {
                (primary_session, None)
            } else {
                match store {
                    Some(store) => (store.session, store.input_state),
                    None => (None, None),
                }
            };
            match (session, state) {
                (None, None) => true,
                (Some(session), Some((used, context))) => used == session && match displayed {
                    Some(displayed) => context == displayed,
                    None => is_background_context(
                        context,
                        session.model@,
                        input_state,
                        personality_enabled,
                        *presets,
                    ),
                },
                _ => false,
            }
        }),
{
    let (session, input_state) = if is_primary {
        (primary_session, None)
    } else {
        match store {
            Some(store) => (store.session, store.input_state),
            None => (None, None),
        }
    };
    let session = match session {
        Some(session) => session,
        None => return None,
    };
    let context = structured_input_turn_context(
        displayed,
        session.model.as_str(),
        input_state.as_ref(),
        personality_enabled,
        presets,
    );
    Some((session, context))
}

} // verus!
