//! What a session does about the replies to its releases, and in which context
//! its turns are started.

use vstd::prelude::*;

use crate::adapter;
use crate::adapter::{
    ActionQueue, ActiveTurnUpdateView, ModelPreset, ReleaseNext, ReleaseNextView, ReleaseReply,
    ReleaseStageView, ReleaseView, SteerFailureView, SteerRaceView, StructuredInputRelease,
    ThreadInputState, ThreadSession, ThreadStore, TurnContext,
};
use crate::controller::ReleaseDecision;
use crate::controller_model::{ControllerView, EventView};
use crate::protocol::ErrorView;
use crate::session_laws;
use crate::stdio::{TypedRequestError, TypedRequestErrorView};
use crate::structured_input::{
    ReaderEventView, RuntimeView, SessionActionView, StructuredInputAction,
};
use crate::text;
use crate::text_laws;
use crate::thread_map::ThreadId;

verus! {

/// What the server says where a steer names another turn than the active one.
pub open spec fn other_turn_is_active(expected: Seq<char>, active: Seq<char>) -> Seq<char> {
    "expected active turn id `"@ + expected + "` but found `"@ + active + "`"@
}

/// The active turn is read from what the server says where a steer names another
/// one, whatever the names are, as long as no backtick is in the name that was
/// expected. A message that starts otherwise names none.
pub proof fn the_active_turn_is_read(expected: Seq<char>, active: Seq<char>, other: Seq<char>)
    requires
        !expected.contains('`'),
    ensures
        adapter::found_turn(other_turn_is_active(expected, active)) == Some(active),
        !"expected active turn id `"@.is_prefix_of(other) ==> adapter::found_turn(other) is None,
{
    let prefix = "expected active turn id `"@;
    let separator = "` but found `"@;
    let message = other_turn_is_active(expected, active);
    reveal_strlit("` but found `");
    reveal_strlit("`");
    assert(prefix =~= message.take(prefix.len() as int));
    assert(prefix.is_prefix_of(message));
    let from = prefix.len() as int;
    let place = from + expected.len();
    assert(message.subrange(place, place + separator.len()) =~= separator);
    text_laws::the_first_place_is_first(message, from, separator, place);
    let at = text::first_at(message, from, separator)->0;
    assert(at == place) by {
        if at < place {
            assert(message.subrange(at, at + separator.len())[0] == message[at]);
            assert(separator[0] == '`');
            assert(message[at] == expected[at - from]);
            assert(false);
        }
        if at > place {
            assert(false);
        }
    }
    let tail = message.skip(at + separator.len());
    assert(tail =~= active + "`"@);
    assert(tail.drop_last() =~= active);
}

/// Only a failed steer reveals a race: that no turn is active, or which one is.
pub proof fn only_steers_reveal_races(
    error: TypedRequestErrorView,
    method: Seq<char>,
    source: ErrorView,
)
    ensures
        adapter::steer_race(error) is Some ==> error is Server && error->Server_method
            == "turn/steer"@,
        source.message == "no active turn to steer"@ ==> adapter::steer_race(
            TypedRequestErrorView::Server { method: "turn/steer"@, source },
        ) == Some(SteerRaceView::Missing),
        adapter::steer_race(TypedRequestErrorView::Server { method: "turn/steer"@, source }) == Some(
            SteerRaceView::Missing,
        ) ==> source.message == "no active turn to steer"@,
        method != "turn/steer"@ ==> adapter::steer_race(
            TypedRequestErrorView::Server { method, source },
        ) is None,
{
}

/// A failed steer of a turn that cannot be steered lets its message wait again,
/// whatever else the failure says. A steer that found no turn starts one. A
/// steer that found another turn is repeated with that turn, but only once, and
/// not where it was tried already; the turn is then noted and the failure told.
/// Any other failure is none of these.
pub proof fn failed_steers_are_told_apart(
    source: ErrorView,
    expected: Seq<char>,
    active: Seq<char>,
    attempted: Seq<char>,
    retried: bool,
    error: TypedRequestErrorView,
)
    requires
        !expected.contains('`'),
    ensures
        adapter::steer_failure(error, true, attempted, retried) == Some(SteerFailureView::Requeue),
        adapter::steer_failure(error, false, attempted, retried) != Some(SteerFailureView::Requeue),
        source.message == "no active turn to steer"@ ==> adapter::steer_failure(
            TypedRequestErrorView::Server { method: "turn/steer"@, source },
            false,
            attempted,
            retried,
        ) == Some(SteerFailureView::StartTurn),
        source.message == other_turn_is_active(expected, active) ==> {
            let failure = adapter::steer_failure(
                TypedRequestErrorView::Server { method: "turn/steer"@, source },
                false,
                attempted,
                retried,
            );
            &&& !retried && active != attempted ==> failure == Some(
                SteerFailureView::RetryWithTurnId { turn_id: active },
            )
            &&& retried || active == attempted ==> failure == Some(
                SteerFailureView::UpdateActiveTurnAndFail { turn_id: active },
            )
        },
        !(error is Server) ==> adapter::steer_failure(error, false, attempted, retried) is None,
{
    the_active_turn_is_read(expected, active, source.message);
    reveal_strlit("no active turn to steer");
    reveal_strlit("expected active turn id `");
    assert("no active turn to steer"@[0] == 'n');
    assert(other_turn_is_active(expected, active)[0] == 'e');
}

/// A failure says that the active turn cannot be steered exactly where it holds
/// both phrases, wherever they stand.
pub proof fn not_steerable_is_told_by_two_phrases(
    message: Seq<char>,
    before: Seq<char>,
    between: Seq<char>,
    behind: Seq<char>,
)
    ensures
        adapter::says_not_steerable(
            before + "active turn"@ + between + "not steerable"@ + behind,
        ),
        adapter::says_not_steerable(message) ==> exists|a: Seq<char>, b: Seq<char>|
            message == #[trigger] (a + "active turn"@ + b),
        adapter::says_not_steerable(message) ==> exists|a: Seq<char>, b: Seq<char>|
            message == #[trigger] (a + "not steerable"@ + b),
{
    let whole = before + "active turn"@ + between + "not steerable"@ + behind;
    text_laws::a_text_holds_its_pieces(before, "active turn"@, between + "not steerable"@ + behind);
    assert(whole =~= before + "active turn"@ + (between + "not steerable"@ + behind));
    text_laws::a_text_holds_its_pieces(before + "active turn"@ + between, "not steerable"@, behind);
    if adapter::says_not_steerable(message) {
        let one = text_laws::what_a_text_holds_is_a_piece_of_it(message, "active turn"@);
        let two = text_laws::what_a_text_holds_is_a_piece_of_it(message, "not steerable"@);
        assert(message == one.0 + "active turn"@ + one.1);
        assert(message == two.0 + "not steerable"@ + two.1);
    }
}

/// What a controller makes of an event, as the session is told of it.
pub open spec fn controller_told(
    runtime: RuntimeView,
    thread_id: Seq<char>,
    event: EventView,
) -> ControllerView {
    ControllerView { validation_error: None, ..runtime.controllers[thread_id].step(event).0 }
}

/// The answers to a release reach the controller as what they are: a started
/// turn and an accepted steer with the turn that they name. The release is then
/// over.
pub proof fn answers_reach_the_controller(
    state: ReleaseView,
    runtime: RuntimeView,
    turn_id: String,
)
    requires
        runtime.controllers.contains_key(state.thread_id),
    ensures
        ({
            let thread_id = state.thread_id;
            let started = state.step(Some(runtime), ReleaseReply::TurnStarted { turn_id });
            let steered = state.step(Some(runtime), ReleaseReply::Steered { turn_id });
            &&& state.stage is Starting ==> {
                &&& started.0.stage is Done
                &&& started.2 is Keep
                &&& started.3 is Finish
                &&& started.1 is Some
                &&& session_laws::took_in(
                    runtime,
                    started.1->0,
                    started.3->Finish_0,
                    thread_id,
                    EventView::TurnStartAcceptedWithTurnId { turn_id: turn_id@ },
                )
            }
            &&& state.stage is Steering ==> {
                &&& steered.0.stage is Done
                &&& steered.2 is Keep
                &&& steered.3 is Finish
                &&& steered.1 is Some
                &&& session_laws::took_in(
                    runtime,
                    steered.1->0,
                    steered.3->Finish_0,
                    thread_id,
                    EventView::SteerAccepted { turn_id: turn_id@ },
                )
            }
        }),
{
    session_laws::events_are_taken_in(
        runtime,
        state.thread_id,
        EventView::TurnStartAcceptedWithTurnId { turn_id: turn_id@ },
    );
    session_laws::events_are_taken_in(
        runtime,
        state.thread_id,
        EventView::SteerAccepted { turn_id: turn_id@ },
    );
}

/// A turn start that fails because a turn runs that cannot be steered lets its
/// message wait; any other failure is reported, and the controller is told
/// nothing.
pub proof fn a_failed_start_waits_or_is_reported(
    state: ReleaseView,
    runtime: RuntimeView,
    message: String,
)
    requires
        runtime.controllers.contains_key(state.thread_id),
        state.stage is Starting,
    ensures
        ({
            let thread_id = state.thread_id;
            let failed = state.step(Some(runtime), ReleaseReply::TurnStartFailed { message });
            &&& failed.0.stage is Done
            &&& failed.2 is Keep
            &&& if adapter::says_not_steerable(message@) {
                &&& failed.1 is Some
                &&& failed.3 is Finish
                &&& session_laws::took_in(
                    runtime,
                    failed.1->0,
                    failed.3->Finish_0,
                    thread_id,
                    EventView::TurnStartRejectedActiveTurnNotSteerable,
                )
            } else {
                &&& failed.1 == Some(runtime)
                &&& failed.3 == ReleaseNextView::Finish(
                    seq![
                        SessionActionView::Error(
                            "Structured input "@ + "turn/start"@ + " failed for thread "@
                                + thread_id + ": "@ + message@,
                        ),
                    ],
                )
            }
        }),
{
    session_laws::events_are_taken_in(
        runtime,
        state.thread_id,
        EventView::TurnStartRejectedActiveTurnNotSteerable,
    );
}

/// What a failed steer leads to: its message waits again; or another turn is
/// noted, told to the controller and steered with the same text; or the turn is
/// noted and the failure told; or the failure is just told.
pub proof fn a_failed_steer_is_dealt_with(
    state: ReleaseView,
    runtime: RuntimeView,
    error: TypedRequestError,
    not_steerable: bool,
    message: String,
)
    requires
        runtime.controllers.contains_key(state.thread_id),
        state.stage is Steering,
    ensures
        ({
            let thread_id = state.thread_id;
            let failed = state.step(
                Some(runtime),
                ReleaseReply::SteerFailed { error, not_steerable, message },
            );
            let told = ReleaseNextView::Finish(
                seq![
                    SessionActionView::Error(
                        "Structured input "@ + "turn/steer"@ + " failed for thread "@ + thread_id
                            + ": "@ + message@,
                    ),
                ],
            );
            match adapter::steer_failure(
                error@,
                not_steerable,
                state.stage->turn_id,
                state.stage->retried,
            ) {
                Some(SteerFailureView::Requeue) => {
                    &&& failed.0.stage is Done
                    &&& failed.2 is Keep
                    &&& failed.1 is Some
                    &&& failed.3 is Finish
                    &&& session_laws::took_in(
                        runtime,
                        failed.1->0,
                        failed.3->Finish_0,
                        thread_id,
                        EventView::SteerRejectedActiveTurnNotSteerable { message: state.message },
                    )
                },
                Some(SteerFailureView::StartTurn) => failed.0.stage is Done && failed.2 is Clear,
                Some(SteerFailureView::RetryWithTurnId { turn_id }) => {
                    &&& failed.0.stage == ReleaseStageView::Steering { turn_id, retried: true }
                    &&& failed.0.message == state.message
                    &&& failed.2 == ActiveTurnUpdateView::Note { turn_id }
                    &&& failed.3 == ReleaseNextView::SteerTurn { turn_id, text: state.message.text }
                    &&& failed.1 matches Some(after)
                    &&& after.controllers[thread_id] == controller_told(
                        runtime,
                        thread_id,
                        EventView::ActiveTurnReconciled { thread_id, turn_id },
                    )
                },
                Some(SteerFailureView::UpdateActiveTurnAndFail { turn_id }) => {
                    &&& failed.0.stage is Done
                    &&& failed.2 == ActiveTurnUpdateView::Note { turn_id }
                    &&& failed.3 == told
                    &&& failed.1 matches Some(after)
                    &&& after.controllers[thread_id] == controller_told(
                        runtime,
                        thread_id,
                        EventView::ActiveTurnReconciled { thread_id, turn_id },
                    )
                },
                None => {
                    &&& failed.0.stage is Done
                    &&& failed.2 is Keep
                    &&& failed.3 == told
                    &&& failed.1 == Some(runtime)
                },
            }
        }),
{
    session_laws::events_are_taken_in(
        runtime,
        state.thread_id,
        EventView::SteerRejectedActiveTurnNotSteerable { message: state.message },
    );
}

/// A reply that is not waited for changes nothing, and a release that is over
/// waits for none.
pub proof fn unexpected_replies_do_nothing(
    state: ReleaseView,
    runtime: Option<RuntimeView>,
    reply: ReleaseReply,
)
    requires
        match state.stage {
            ReleaseStageView::Starting => reply is Steered || reply is SteerFailed,
            ReleaseStageView::Steering { .. } => reply is TurnStarted || reply is TurnStartFailed,
            ReleaseStageView::Done => true,
        },
    ensures
        state.step(runtime, reply) == (
            state,
            runtime,
            ActiveTurnUpdateView::Keep,
            ReleaseNextView::Nothing,
        ),
{
}

/// Before an event of the reader is taken in, the controller of the displayed
/// thread is told of the turn that is known to be active; without a displayed
/// thread or such a turn the event is just taken in.
pub proof fn events_are_taken_in_after_the_turn(
    runtime: RuntimeView,
    event: ReaderEventView,
    thread_id: Seq<char>,
    turn_id: Seq<char>,
)
    ensures
        ({
            let controller = if runtime.controllers.contains_key(thread_id) {
                runtime.controllers[thread_id]
            } else {
                ControllerView::fresh(thread_id)
            };
            let reconciled = controller.step(
                EventView::ActiveTurnReconciled { thread_id, turn_id },
            ).0;
            let told = RuntimeView {
                controllers: runtime.controllers.insert(
                    thread_id,
                    ControllerView { validation_error: None, ..reconciled },
                ),
                ..runtime
            };
            let synced = adapter::event_handled(runtime, event, Some(thread_id), Some(turn_id));
            &&& synced.0 == told.reader_event(event, Some(thread_id)).0
            &&& controller.validation_error is None ==> synced.1 == seq![
                SessionActionView::RefreshPreview,
            ] + told.reader_event(event, Some(thread_id)).1
            &&& adapter::event_handled(runtime, event, Some(thread_id), None)
                == runtime.reader_event(event, Some(thread_id))
            &&& adapter::event_handled(runtime, event, None, Some(turn_id))
                == runtime.reader_event(event, None)
            &&& adapter::event_handled(runtime, event, None, None) == runtime.reader_event(
                event,
                None,
            )
        }),
{
    let event_of_turn = EventView::ActiveTurnReconciled { thread_id, turn_id };
    let with = runtime.with_thread(thread_id);
    session_laws::events_are_taken_in(with, thread_id, event_of_turn);
    let reconciled = with.controllers[thread_id].step(event_of_turn).0;
    let found = ControllerView { validation_error: None, ..reconciled };
    assert(with.controllers.insert(thread_id, found) =~= runtime.controllers.insert(
        thread_id,
        found,
    ));
    let one = runtime.reader_event(event, Some(thread_id)).1;
    let two = runtime.reader_event(event, None).1;
    assert(Seq::<SessionActionView>::empty() + one =~= one);
    assert(Seq::<SessionActionView>::empty() + two =~= two);
}

/// Whether a model takes on a personality is said by the first preset that lists
/// it; a model that none lists takes on none.
pub proof fn the_first_preset_decides(presets: Vec<ModelPreset>, model: Seq<char>, at: int)
    requires
        0 <= at <= presets@.len(),
        forall|i: int| 0 <= i < at ==> (#[trigger] presets@[i]).model@ != model,
    ensures
        at < presets@.len() && presets@[at].model@ == model ==> adapter::takes_personality(
            Some(presets),
            model,
        ) == presets@[at].supports_personality,
        at == presets@.len() ==> !adapter::takes_personality(Some(presets), model),
        !adapter::takes_personality(None, model),
{
    lemma_preset_of(presets@, model, at);
}

proof fn lemma_preset_of(presets: Seq<ModelPreset>, model: Seq<char>, at: int)
    requires
        0 <= at <= presets.len(),
        forall|i: int| 0 <= i < at ==> (#[trigger] presets[i]).model@ != model,
    ensures
        at < presets.len() && presets[at].model@ == model ==> adapter::preset_of(presets, model)
            == Some(presets[at]),
        at == presets.len() ==> adapter::preset_of(presets, model) is None,
    decreases presets.len(),
{
    if presets.len() > 0 && at > 0 {
        let rest = presets.drop_first();
        assert forall|i: int| 0 <= i < at - 1 implies (#[trigger] rest[i]).model@ != model by {
            assert(rest[i] == presets[i + 1]);
        }
        lemma_preset_of(rest, model, at - 1);
        assert(presets[0].model@ != model);
    }
}

/// A thread that is not displayed starts its turns in the mode that the user has
/// set for it. Its personality counts only where personalities are enabled and
/// the model of that mode, or else of the session, takes one on.
pub proof fn the_set_context_is_used(
    context: TurnContext,
    session_model: Seq<char>,
    input: ThreadInputState,
    personality_enabled: bool,
    presets: Option<Vec<ModelPreset>>,
)
    requires
        adapter::is_background_context(
            context,
            session_model,
            Some(input),
            personality_enabled,
            presets,
        ),
    ensures
        context.collaboration_mode == input.collaboration_mode,
        !personality_enabled ==> context.personality is None,
        ({
            let model = if input.collaboration_mode is Some {
                input.collaboration_mode->0.model@
            } else {
                session_model
            };
            personality_enabled ==> text::opt_text(context.personality)
                == if adapter::takes_personality(presets, model) {
                text::opt_text(input.personality)
            } else {
                None
            }
        }),
{
}

/// A thread for which nothing is set starts its turns without a mode and without
/// a personality.
pub proof fn nothing_set_means_no_context(
    context: TurnContext,
    session_model: Seq<char>,
    personality_enabled: bool,
    presets: Option<Vec<ModelPreset>>,
)
    requires
        adapter::is_background_context(context, session_model, None, personality_enabled, presets),
    ensures
        context.collaboration_mode is None,
        context.personality is None,
{
}
/// A release starts as it was decided: with the text of its message, as the
/// start of a turn or as the steer of the turn that was decided on. Without a
/// session for the thread it is over at once, with a report.
pub proof fn a_release_starts_as_decided(
    thread_id: ThreadId,
    decision: ReleaseDecision,
    has_session: bool,
    begun: (StructuredInputRelease, ReleaseNext),
)
    requires
        call_ensures(adapter::begin_release, (thread_id, decision, has_session), begun),
    ensures
        begun.0@.thread_id == thread_id@,
        begun.0@.message == decision.message@,
        begun.0@.reason == decision.reason,
        has_session && decision.action is StartTurn ==> begun.0@.stage is Starting && begun.1@
            == (ReleaseNextView::StartTurn { text: decision.message.text@ }),
        has_session && decision.action is SteerTurn ==> {
            let turn_id = decision.action->turn_id@;
            &&& begun.0@.stage == (ReleaseStageView::Steering { turn_id, retried: false })
            &&& begun.1@ == (ReleaseNextView::SteerTurn { turn_id, text: decision.message.text@ })
        },
        !has_session ==> begun.0@.stage is Done && begun.1@ == ReleaseNextView::Finish(
            seq![
                SessionActionView::Error(
                    "No configured thread session is available for structured input on thread "@
                        + thread_id@ + "."@,
                ),
            ],
        ),
{
}

/// What is displayed for a thread is the context of its turns; only for a thread
/// that is not displayed does what the user has set for it count.
pub proof fn the_displayed_context_comes_first(
    displayed: TurnContext,
    session_model: &str,
    input_state: Option<&ThreadInputState>,
    personality_enabled: bool,
    presets: &Option<Vec<ModelPreset>>,
    context: TurnContext,
)
    requires
        call_ensures(
            adapter::structured_input_turn_context,
            (Some(displayed), session_model, input_state, personality_enabled, presets),
            context,
        ),
    ensures
        context == displayed,
{
}

/// The primary thread starts its turns with the session of its own, and any
/// other thread with the one that is kept for it; without one no turn can be
/// started.
pub proof fn a_thread_uses_its_own_session(
    is_primary: bool,
    primary: Option<ThreadSession>,
    store: Option<ThreadStore>,
    displayed: TurnContext,
    personality_enabled: bool,
    presets: &Option<Vec<ModelPreset>>,
    state: Option<(ThreadSession, TurnContext)>,
)
    requires
        call_ensures(
            adapter::structured_input_session_state,
            (is_primary, primary, store, Some(displayed), personality_enabled, presets),
            state,
        ),
    ensures
        is_primary ==> (state is Some <==> primary is Some),
        !is_primary ==> (state is Some <==> store is Some && store->0.session is Some),
        state matches Some((session, context)) ==> {
            &&& is_primary ==> primary == Some(session)
            &&& !is_primary ==> store->0.session == Some(session)
            &&& context == displayed
        },
{
}

/// What is to be done is done first come, first served.
pub proof fn the_oldest_action_is_next(
    queue: &mut ActionQueue,
    action: Option<StructuredInputAction>,
)
    requires
        call_ensures(ActionQueue::next, (queue,), action),
    ensures
        match action {
            Some(action) => old(queue).pending@ == seq![action] + final(queue).pending@,
            None => old(queue).pending@.len() == 0,
        },
{
}

/// What an action brings about is done after everything else.
pub proof fn follow_ups_come_last(queue: &mut ActionQueue, more: Vec<StructuredInputAction>)
    requires
        call_ensures(ActionQueue::extend, (queue, more), ()),
    ensures
        final(queue).pending@ == old(queue).pending@ + more@,
{
}


} // verus!
