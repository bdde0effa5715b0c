//! What is said of the times of a session: how long turns and pauses took.

use vstd::prelude::*;

use crate::idle_timing;
use crate::idle_timing::{
    Elapsed, IdleStatusLineValue, IdleTimingState, IdleTimingView, LocalTime, LocalTimeView,
    PreparedIdleTimingSubmission,
};
use crate::items::{ContentItem, ResponseItem};
use crate::text;
use crate::text_laws;

verus! {

/// A number below a hundred is written with two digits, and is read back as it
/// was; a larger one is just written.
pub proof fn two_digits_are_two(number: nat)
    ensures
        number < 100 ==> idle_timing::two_digits(number).len() == 2,
        text_laws::read_digits(idle_timing::two_digits(number)) == number,
{
    reveal_strlit("0");
    text_laws::a_written_number_is_read_back(number);
    let shown = idle_timing::two_digits(number);
    if number < 10 {
        let digits = text::decimal(number);
        assert(digits.len() == 1);
        assert(shown.drop_last() =~= seq!['0']);
        assert(seq!['0'].drop_last() =~= Seq::<char>::empty());
        assert(text_laws::read_digits(seq!['0'].drop_last()) == 0);
        assert(text_laws::read_digits(seq!['0']) == 0);
        assert(digits.drop_last() =~= Seq::<char>::empty());
        assert(text_laws::read_digits(digits.drop_last()) == 0);
        assert(shown.last() == digits.last());
    } else if number < 100 {
        assert(text::decimal(number / 10).len() == 1);
        assert(text::decimal(number).len() == 2);
    }
}

/// A length of time is written in its hours, minutes and seconds: parts that are
/// zero at the front are left out, and those behind the first part have two
/// digits.
pub proof fn lengths_are_written_in_parts(hours: nat, minutes: nat, seconds: nat)
    requires
        minutes < 60,
        seconds < 60,
    ensures
        idle_timing::compact(seconds) == text::decimal(seconds) + "s"@,
        minutes > 0 ==> idle_timing::compact(minutes * 60 + seconds) == text::decimal(minutes)
            + "m "@ + idle_timing::two_digits(seconds) + "s"@,
        hours > 0 ==> idle_timing::compact(hours * 3600 + minutes * 60 + seconds) == text::decimal(
            hours,
        ) + "h "@ + idle_timing::two_digits(minutes) + "m "@ + idle_timing::two_digits(seconds)
            + "s"@,
{
    let both: nat = minutes * 60 + seconds;
    assert(both / 60 == minutes);
    assert(both % 60 == seconds);
    let all: nat = hours * 3600 + minutes * 60 + seconds;
    assert(all / 3600 == hours);
    assert(all % 3600 == both);
    assert(all % 60 == seconds);
}

/// A pause of up to ten seconds is not mentioned when work goes on; a longer one
/// is, in its hours, minutes and whole seconds, without parts that are zero at
/// the front.
pub proof fn only_long_pauses_are_mentioned(
    hours: nat,
    minutes: nat,
    seconds: nat,
    fraction: nat,
)
    requires
        minutes < 60,
        seconds < 60,
        fraction < 1_000_000_000,
    ensures
        ({
            let total: nat = hours * 3600 + minutes * 60 + seconds;
            let note = idle_timing::resume_note(total * 1_000_000_000 + fraction);
            &&& note is None <==> total < 10 || (total == 10 && fraction == 0)
            &&& note is Some && hours > 0 ==> note == Some(
                "[After "@ + text::decimal(hours) + "h "@ + text::decimal(minutes) + "m "@
                    + text::decimal(seconds) + "s]"@,
            )
            &&& note is Some && hours == 0 && minutes > 0 ==> note == Some(
                "[After "@ + text::decimal(minutes) + "m "@ + text::decimal(seconds) + "s]"@,
            )
            &&& note is Some && hours == 0 && minutes == 0 ==> note == Some(
                "[After "@ + text::decimal(seconds) + "s]"@,
            )
        }),
{
    let total: nat = hours * 3600 + minutes * 60 + seconds;
    let idle: nat = total * 1_000_000_000 + fraction;
    assert(idle / 1_000_000_000 == total);
    assert(total / 3600 == hours);
    assert(total % 3600 == minutes * 60 + seconds);
    assert(total % 60 == seconds);
    assert((total % 3600) / 60 == minutes);
}

/// The model is told the time, and a line each for the pause and for the last
/// turn where they are known, between two markers.
pub proof fn the_model_is_told_the_times(now: Seq<char>, idle: nat, last_turn: nat)
    ensures
        ({
            let start = "[timing]\n"@ + "time="@ + now + "\n"@;
            let pause = "idle_for"@ + "="@ + idle_timing::seconds_text(idle, 1) + "s"@ + "\n"@;
            let turn = "last_turn"@ + "="@ + idle_timing::seconds_text(last_turn, 1) + "s"@
                + "\n"@;
            &&& idle_timing::timing_block(now, Some(idle), Some(last_turn)) == start + pause + turn
                + "[/timing]"@
            &&& idle_timing::timing_block(now, Some(idle), None) == start + pause + "[/timing]"@
            &&& idle_timing::timing_block(now, None, Some(last_turn)) == start + turn
                + "[/timing]"@
            &&& idle_timing::timing_block(now, None, None) == start + "[/timing]"@
        }),
{
    let start = "[timing]\n"@ + "time="@ + now + "\n"@;
    let pause = "idle_for"@ + "="@ + idle_timing::seconds_text(idle, 1) + "s"@ + "\n"@;
    let none = Seq::<char>::empty();
    assert(start + pause + none =~= start + pause);
    assert(start + none =~= start);
}

/// A message that starts a turn goes along with the times exactly where that is
/// switched on, no turn runs and one has ended by then; the note on the pause is
/// the one for its length.
pub proof fn times_go_along_with_a_start(state: IdleTimingView, now: LocalTimeView)
    ensures
        state.submission(now) is Some <==> state.injection_enabled && state.turn_started_at is None
            && state.completed_at is Some && now.nanos >= state.completed_at->0.nanos,
        state.submission(now) matches Some((block, note)) ==> {
            let idle = (now.nanos - state.completed_at->0.nanos) as nat;
            &&& block == idle_timing::timing_block(now.shown, Some(idle), state.last_turn)
            &&& note == idle_timing::resume_note(idle)
        },
{
}

/// While a turn runs the status line shows how long it has run, and how long ago
/// it was steered where it was, in whole seconds; with a clock that went back it
/// shows nothing passed.
pub proof fn the_status_line_shows_the_run(
    state: IdleTimingView,
    model: Seq<char>,
    now: LocalTimeView,
    instant: nat,
    started: nat,
    steered: nat,
)
    requires
        state.turn_started_at == Some(started),
    ensures
        ({
            let ran: nat = if instant >= started {
                (instant - started) as nat
            } else {
                0
            };
            let since: nat = if instant >= steered {
                (instant - steered) as nat
            } else {
                0
            };
            let run = "Run "@ + idle_timing::compact(ran / 1_000_000_000);
            &&& state.steered_at is None ==> state.status_line(model, now, instant) == Some(run)
            &&& state.steered_at == Some(steered) ==> state.status_line(model, now, instant)
                == Some(run + " · Steer "@ + idle_timing::compact(since / 1_000_000_000))
        }),
{
    let ran: nat = if instant >= started {
        (instant - started) as nat
    } else {
        0
    };
    let since: nat = if instant >= steered {
        (instant - steered) as nat
    } else {
        0
    };
    let run = "Run "@ + idle_timing::compact(ran / 1_000_000_000);
    assert(run + Seq::<char>::empty() =~= run);
    assert(run + (" · Steer "@ + idle_timing::compact(since / 1_000_000_000)) =~= run
        + " · Steer "@ + idle_timing::compact(since / 1_000_000_000));
}

/// While no turn runs the status line shows the pause, in whole seconds; not how
/// long it is where the model has changed since; and nothing before the first
/// turn has ended or while a start of the user is awaited.
pub proof fn the_status_line_shows_the_pause(
    state: IdleTimingView,
    model: Seq<char>,
    now: LocalTimeView,
    instant: nat,
)
    requires
        state.turn_started_at is None,
    ensures
        ({
            let shown = state.status_line(model, now, instant);
            let known = state.completed_at is Some && now.nanos >= state.completed_at->0.nanos;
            &&& state.started_by_user || !known ==> shown is None
            &&& !state.started_by_user && known ==> shown == if state.model is None || state.model
                == Some(model) {
                Some(
                    "Idle "@ + idle_timing::compact(
                        ((now.nanos - state.completed_at->0.nanos) as nat) / 1_000_000_000,
                    ),
                )
            } else {
                Some("Idle ---"@)
            }
        }),
{
}

/// The length of a turn counts from the message that started it, however often
/// it was steered; a turn that begins while one runs does not count anew.
pub proof fn a_turn_counts_from_its_start(
    state: IdleTimingView,
    model: Seq<char>,
    completed_at: LocalTimeView,
    start: nat,
    later: nat,
    end: nat,
)
    requires
        start <= later <= end,
    ensures
        ({
            let length = Some((end - start) as nat);
            let started = state.started(start);
            let fresh = IdleTimingView { turn_started_at: None, ..state };
            &&& started.completed(model, completed_at, end).last_turn == length
            &&& started.steered(later).completed(model, completed_at, end).last_turn == length
            &&& started.begun(later).completed(model, completed_at, end).last_turn == length
            &&& fresh.begun(start).completed(model, completed_at, end).last_turn == length
            &&& fresh.steered(start).completed(model, completed_at, end).last_turn == length
            &&& fresh.completed(model, completed_at, end).last_turn is None
        }),
{
}

/// What each event leaves: a start of the user forgets an earlier steer, a steer
/// notes its moment, both are of the user, and a turn that begins by itself is
/// not. Whether times are told stays as it was set.
pub proof fn turns_are_noted(
    state: IdleTimingView,
    model: Seq<char>,
    at: LocalTimeView,
    instant: nat,
)
    ensures
        ({
            let started = state.started(instant);
            let steered = state.steered(instant);
            let begun = state.begun(instant);
            let ended = state.completed(model, at, instant);
            let shorter = state.compacted(at);
            &&& started == (IdleTimingView {
                turn_started_at: Some(instant),
                steered_at: None,
                started_by_user: true,
                ..state
            })
            &&& steered.steered_at == Some(instant) && steered.started_by_user
            &&& state.turn_started_at is Some ==> steered.turn_started_at == state.turn_started_at
            &&& state.turn_started_at is Some ==> begun == state
            &&& state.turn_started_at is None ==> begun == (IdleTimingView {
                turn_started_at: Some(instant),
                started_by_user: false,
                ..state
            })
            &&& ended.completed_at == Some(at) && ended.model == Some(model)
            &&& ended.turn_started_at is None && ended.steered_at is None && !ended.started_by_user
            &&& shorter.completed_at == Some(at) && shorter.model is None
            &&& shorter.turn_started_at is None && shorter.steered_at is None
                && !shorter.started_by_user
            &&& ended.injection_enabled == state.injection_enabled
            &&& steered.injection_enabled == state.injection_enabled
            &&& shorter.injection_enabled == state.injection_enabled
        }),
{
}
/// The time since an earlier moment is the difference, and nothing where the
/// clock went back.
pub proof fn time_passes_forwards(now: &Elapsed, earlier: &Elapsed, passed: Elapsed)
    requires
        call_ensures(Elapsed::since, (now, earlier), passed),
    ensures
        now@ >= earlier@ ==> passed@ + earlier@ == now@,
        now@ < earlier@ ==> passed@ == 0,
{
}

/// What is told to the model goes to it as one text of the developer.
pub proof fn times_are_told_as_the_developer(
    prepared: &PreparedIdleTimingSubmission,
    item: ResponseItem,
)
    requires
        call_ensures(PreparedIdleTimingSubmission::developer_message_item, (prepared,), item),
    ensures
        item is Message,
        item->role@ == "developer"@,
        item->Message_content@.len() == 1,
        item->Message_content@[0] matches ContentItem::InputText { text } && text@
            == prepared.developer_message@,
{
}

/// The status line is to be shown anew after a second.
pub proof fn the_status_line_is_shown_anew(
    state: &IdleTimingState,
    model: &str,
    now: &LocalTime,
    instant: Elapsed,
    value: Option<IdleStatusLineValue>,
)
    requires
        call_ensures(IdleTimingState::status_line_value_at, (state, model, now, instant), value),
    ensures
        value is Some <==> state@.status_line(model@, now@, instant@) is Some,
        value is Some ==> Some(value->0.text@) == state@.status_line(model@, now@, instant@),
        value is Some ==> value->0.refresh_in@ == 1_000_000_000,
{
}

/// How long a turn took is handed out only for a turn that the user started or
/// steered; it is noted in any case.
pub proof fn only_turns_of_the_user_are_timed(
    state: &mut IdleTimingState,
    model: &str,
    completed_at: LocalTime,
    instant: Elapsed,
    duration: Option<Elapsed>,
)
    requires
        call_ensures(
            IdleTimingState::complete_turn,
            (state, model, completed_at, instant),
            duration,
        ),
    ensures
        !old(state)@.started_by_user ==> duration is None,
        old(state)@.started_by_user && old(state)@.turn_started_at is Some ==> duration is Some
            && duration->0@ == if instant@ >= old(state)@.turn_started_at->0 {
            (instant@ - old(state)@.turn_started_at->0) as nat
        } else {
            0
        },
        final(state)@.turn_started_at is None,
{
}

/// A length of time is its seconds and the nanoseconds beyond, of which there
/// are fewer than make a second.
pub proof fn a_length_is_seconds_and_nanoseconds(
    secs: u64,
    nanos: u32,
    elapsed: Option<Elapsed>,
)
    requires
        call_ensures(Elapsed::new, (secs, nanos), elapsed),
    ensures
        elapsed is Some <==> nanos < 1_000_000_000,
        elapsed is Some ==> elapsed->0@ == secs * 1_000_000_000 + nanos,
{
}


} // verus!
