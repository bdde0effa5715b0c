//! How long the agent has been working or idle: what is told to the model and
//! what the status line shows.

use vstd::prelude::*;

use crate::items::{ContentItem, ResponseItem};
use crate::text;

verus! {

/// The number of nanoseconds in a second.
pub const NANOS_PER_SEC: u32 = 1_000_000_000;

/// A length of time, or a moment on a clock that never goes back, counted from
/// some start.
#[derive(Clone, Copy, Debug, PartialEq, Eq, Structural)]
pub struct Elapsed {
    secs: u64,
    nanos: u32,
}

impl View for Elapsed {
    type V = nat;

    /// The length in nanoseconds.
    closed spec fn view(&self) -> nat {
        self.secs as nat * NANOS_PER_SEC as nat + self.nanos as nat
    }
}

impl Elapsed {
    #[verifier::type_invariant]
    spec fn sound(self) -> bool {
        self.nanos < NANOS_PER_SEC
    }

    /// A length of time in seconds and nanoseconds, where the latter make no
    /// whole second.
    pub fn new(secs: u64, nanos: u32) -> (elapsed: Option<Self>)
        ensures
            match elapsed {
                Some(elapsed) => nanos < NANOS_PER_SEC && elapsed@ == secs * NANOS_PER_SEC + nanos,
                None => nanos >= NANOS_PER_SEC,
            },
    {
        if nanos < NANOS_PER_SEC {
            Some(Elapsed { secs, nanos })
        } else {
            None
        }
    }

    /// A length of time in milliseconds.
    pub fn from_millis(millis: u64) -> (elapsed: Self)
        ensures
            elapsed@ == millis * 1_000_000,
    {
        Elapsed { secs: millis / 1000, nanos: (millis % 1000) as u32 * 1_000_000 }
    }

    /// A length of time in seconds.
    pub fn from_secs(secs: u64) -> (elapsed: Self)
        ensures
            elapsed@ == secs * NANOS_PER_SEC,
    {
        Elapsed { secs, nanos: 0 }
    }

    /// The number of whole seconds.
    pub fn as_secs(&self) -> (secs: u64)
        ensures
            secs == self@ / NANOS_PER_SEC as nat,
    {
        proof {
            use_type_invariant(self);
            assert(self@ / NANOS_PER_SEC as nat == self.secs as nat) by (nonlinear_arith)
                requires
                    self@ == self.secs as nat * 1_000_000_000 + self.nanos as nat,
                    self.nanos < 1_000_000_000,
                    NANOS_PER_SEC == 1_000_000_000,
            ;
        }
        self.secs
    }

    /// The time since an earlier moment; none where that moment is later.
    pub fn since(&self, earlier: &Elapsed) -> (elapsed: Self)
        ensures
            elapsed@ == if self@ >= earlier@ {
                (self@ - earlier@) as nat
            } else {
                0
            },
    {
        proof {
            use_type_invariant(self);
            use_type_invariant(earlier);
        }
        if self.secs < earlier.secs || (self.secs == earlier.secs && self.nanos < earlier.nanos) {
            return Elapsed { secs: 0, nanos: 0 };
        }
        if self.nanos >= earlier.nanos {
            Elapsed { secs: self.secs - earlier.secs, nanos: self.nanos - earlier.nanos }
        } else {
            Elapsed {
                secs: self.secs - earlier.secs - 1,
                nanos: NANOS_PER_SEC - earlier.nanos + self.nanos,
            }
        }
    }

    /// The length in seconds with one decimal, and the unit.
    pub fn to_seconds_text(&self) -> (shown: String)
        ensures
            shown@ == seconds_text(self@, 1) + "s"@,
    {
        proof {
            use_type_invariant(self);
            assert(self@ / NANOS_PER_SEC as nat == self.secs as nat && self@ % NANOS_PER_SEC as nat
                == self.nanos as nat) by (nonlinear_arith)
                requires
                    self@ == self.secs as nat * 1_000_000_000 + self.nanos as nat,
                    self.nanos < 1_000_000_000,
                    NANOS_PER_SEC == 1_000_000_000,
            ;
        }
        text::concat2(show_seconds(self.secs, self.nanos, 1).as_str(), "s")
    }
}

/// A number of nanoseconds as seconds, with some decimals.
pub uninterp spec fn seconds_text(nanos: nat, decimals: nat) -> Seq<char>;

/// `std::time::Duration::as_secs_f64`, written with some decimals: a length of
/// time in seconds.
#[verifier::external_body]
fn show_seconds(secs: u64, nanos: u32, decimals: u8) -> (shown: String)
    requires
        nanos < NANOS_PER_SEC,
    ensures
        shown@ == seconds_text(
            secs as nat * NANOS_PER_SEC as nat + nanos as nat,
            decimals as nat,
        ),
{
    let seconds = std::time::Duration::new(secs, nanos).as_secs_f64();
    format!("{:.*}", usize::from(decimals), seconds)
}

/// The date and the time of day at a moment, at an offset from UTC, in some
/// format. None where the moment or the offset is out of range.
pub uninterp spec fn time_text(seconds: i64, utc_offset: i32, format: Seq<char>) -> Option<
    Seq<char>,
>;

/// How a moment is shown, as in `2026-04-18T12:00:14+10:00`.
pub const TIME_FORMAT: &'static str = "%Y-%m-%dT%H:%M:%S%:z";

/// `chrono::DateTime::format`: the date and the time of day of a number of
/// seconds since the start of 1970 (`chrono::DateTime::from_timestamp`), at an
/// offset from UTC in seconds (`chrono::FixedOffset::east_opt`). A format with
/// an unknown specifier cannot be written, so only the one that is used is
/// taken.
#[verifier::external_body]
fn show_time(seconds: i64, utc_offset: i32, format: &str) -> (shown: Option<String>)
    requires
        format@ == TIME_FORMAT@,
    ensures
        text::opt_text(shown) == time_text(seconds, utc_offset, format@),
{
    let zone = chrono::FixedOffset::east_opt(utc_offset)?;
    let time = chrono::DateTime::from_timestamp(seconds, 0)?.with_timezone(&zone);
    Some(time.format(format).to_string())
}

/// A moment on the wall clock of some place.
#[derive(Debug, PartialEq, Eq)]
pub struct LocalTime {
    seconds: i64,
    nanos: u32,
    shown: String,
}

/// A moment on the wall clock: nanoseconds since the start of 1970, and the
/// moment as it is shown.
#[verifier::ext_equal]
pub struct LocalTimeView {
    pub nanos: int,
    pub shown: Seq<char>,
}

impl View for LocalTime {
    type V = LocalTimeView;

    closed spec fn view(&self) -> LocalTimeView {
        LocalTimeView {
            nanos: self.seconds * NANOS_PER_SEC + self.nanos,
            shown: self.shown@,
        }
    }
}

impl Clone for LocalTime {
    fn clone(&self) -> (copy: Self)
        ensures
            copy == *self,
    {
        proof {
            use_type_invariant(self);
        }
        LocalTime { seconds: self.seconds, nanos: self.nanos, shown: self.shown.clone() }
    }
}

impl LocalTime {
    #[verifier::type_invariant]
    spec fn sound(self) -> bool {
        self.nanos < NANOS_PER_SEC
    }

    /// The moment so many seconds and nanoseconds after the start of 1970, at
    /// an offset from UTC in seconds.
    pub fn new(seconds: i64, nanos: u32, utc_offset: i32) -> (time: Option<Self>)
        ensures
            match time {
                Some(time) => nanos < NANOS_PER_SEC && time@.nanos == seconds * NANOS_PER_SEC
                    + nanos && time_text(seconds, utc_offset, TIME_FORMAT@) == Some(time@.shown),
                None => nanos >= NANOS_PER_SEC || time_text(seconds, utc_offset, TIME_FORMAT@) is None,
            },
    {
        if nanos >= NANOS_PER_SEC {
            return None;
        }
        match show_time(seconds, utc_offset, TIME_FORMAT) {
            Some(shown) => Some(LocalTime { seconds, nanos, shown }),
            None => None,
        }
    }

    /// The time since another moment; none where that moment is later.
    pub fn since(&self, earlier: &LocalTime) -> (elapsed: Option<Elapsed>)
        ensures
            match elapsed {
                Some(elapsed) => elapsed@ == self@.nanos - earlier@.nanos,
                None => self@.nanos < earlier@.nanos,
            },
    {
        proof {
            use_type_invariant(self);
            use_type_invariant(earlier);
        }
        let secs: i128 = self.seconds as i128 - earlier.seconds as i128;
        if self.nanos >= earlier.nanos {
            if secs < 0 {
                return None;
            }
            Some(Elapsed { secs: secs as u64, nanos: self.nanos - earlier.nanos })
        } else {
            if secs < 1 {
                return None;
            }
            Some(
                Elapsed {
                    secs: (secs - 1) as u64,
                    nanos: NANOS_PER_SEC - earlier.nanos + self.nanos,
                },
            )
        }
    }
}

/// A number with at least two digits.
pub open spec fn two_digits(number: nat) -> Seq<char> {
    if number < 10 {
        "0"@ + text::decimal(number)
    } else {
        text::decimal(number)
    }
}

/// A number of seconds in short: hours, minutes and seconds, without leading
/// parts that are zero.
pub open spec fn compact(seconds: nat) -> Seq<char> {
    if seconds < 60 {
        text::decimal(seconds) + "s"@
    } else if seconds < 3600 {
        text::decimal(seconds / 60) + "m "@ + two_digits(seconds % 60) + "s"@
    } else {
        text::decimal(seconds / 3600) + "h "@ + two_digits(seconds % 3600 / 60) + "m "@ + two_digits(
            seconds % 60,
        ) + "s"@
    }
}

fn show_two_digits(number: u64) -> (shown: String)
    ensures
        shown@ == two_digits(number as nat),
{
    let shown = text::decimal_u128(number as u128);
    if number < 10 {
        text::concat2("0", shown.as_str())
    } else {
        shown
    }
}

/// Writes a number of seconds in short.
pub fn fmt_elapsed_compact(elapsed_secs: u64) -> (shown: String)
    ensures
        shown@ == compact(elapsed_secs as nat),
{
    if elapsed_secs < 60 {
        return text::concat2(text::decimal_u128(elapsed_secs as u128).as_str(), "s");
    }
    let seconds = show_two_digits(elapsed_secs % 60);
    if elapsed_secs < 3600 {
        let minutes = text::decimal_u128((elapsed_secs / 60) as u128);
        let front = text::concat2(minutes.as_str(), "m ");
        return text::concat3(front.as_str(), seconds.as_str(), "s");
    }
    let hours = text::decimal_u128((elapsed_secs / 3600) as u128);
    let minutes = show_two_digits(elapsed_secs % 3600 / 60);
    let front = text::concat3(hours.as_str(), "h ", minutes.as_str());
    text::concat3(text::concat2(front.as_str(), "m ").as_str(), seconds.as_str(), "s")
}

/// What is said of a pause of some length when work goes on: nothing up to ten
/// seconds.
pub open spec fn resume_note(idle: nat) -> Option<Seq<char>> {
    let seconds = idle / NANOS_PER_SEC as nat;
    if idle <= 10 * NANOS_PER_SEC {
        None
    } else if seconds >= 3600 {
        Some(
            "[After "@ + text::decimal(seconds / 3600) + "h "@ + text::decimal(
                seconds % 3600 / 60,
            ) + "m "@ + text::decimal(seconds % 60) + "s]"@,
        )
    } else if seconds >= 60 {
        Some(
            "[After "@ + text::decimal(seconds % 3600 / 60) + "m "@ + text::decimal(seconds % 60)
                + "s]"@,
        )
    } else {
        Some("[After "@ + text::decimal(seconds % 60) + "s]"@)
    }
}

/// Writes what is said of a pause when work goes on.
pub fn format_idle_resume_note(idle: &Elapsed) -> (note: Option<String>)
    ensures
        text::opt_text(note) == resume_note(idle@),
{
    proof {
        use_type_invariant(idle);
        assert(idle@ == idle.secs * NANOS_PER_SEC + idle.nanos);
    }
    if idle.secs < 10 || (idle.secs == 10 && idle.nanos == 0) {
        return None;
    }
    let total_seconds: u64 = idle.as_secs();
    let hours: u64 = total_seconds / 3600;
    let minutes: u64 = total_seconds % 3600 / 60;
    let seconds: u64 = total_seconds % 60;
    let mut note = "[After ".to_owned();
    if hours > 0 {
        note.append(text::decimal_u128(hours as u128).as_str());
        note.append("h ");
    }
    if minutes > 0 || hours > 0 {
        note.append(text::decimal_u128(minutes as u128).as_str());
        note.append("m ");
    }
    note.append(text::decimal_u128(seconds as u128).as_str());
    note.append("s]");
    Some(note)
}

/// A line with a length of time, where there is one.
pub open spec fn duration_line(key: Seq<char>, elapsed: Option<nat>) -> Seq<char> {
    match elapsed {
        Some(elapsed) => key + "="@ + seconds_text(elapsed, 1) + "s"@ + "\n"@,
        None => Seq::empty(),
    }
}

/// The lengths of time of a turn, where there is one.
pub open spec fn opt_nanos(elapsed: Option<Elapsed>) -> Option<nat> {
    match elapsed {
        Some(elapsed) => Some(elapsed@),
        None => None,
    }
}

/// What is told to the model: the time, how long nothing happened, and how long
/// the last turn took, a line each.
pub open spec fn timing_block(
    now: Seq<char>,
    idle: Option<nat>,
    last_turn: Option<nat>,
) -> Seq<char> {
    "[timing]\n"@ + "time="@ + now + "\n"@ + duration_line("idle_for"@, idle) + duration_line(
        "last_turn"@,
        last_turn,
    ) + "[/timing]"@
}

fn push_duration_line(block: &mut String, key: &str, elapsed: &Option<Elapsed>)
    ensures
        final(block)@ == old(block)@ + duration_line(key@, opt_nanos(*elapsed)),
{
    if let Some(elapsed) = elapsed {
        block.append(key);
        block.append("=");
        block.append(elapsed.to_seconds_text().as_str());
        block.append("\n");
    }
    assert(block@ =~= old(block)@ + duration_line(key@, opt_nanos(*elapsed)));
}

/// Writes what is told to the model.
pub fn format_timing_block(
    now: &LocalTime,
    idle_since_last_turn: &Option<Elapsed>,
    last_turn_duration: &Option<Elapsed>,
) -> (block: String)
    ensures
        block@ == timing_block(
            now@.shown,
            opt_nanos(*idle_since_last_turn),
            opt_nanos(*last_turn_duration),
        ),
{
    let mut block = text::concat3("[timing]\n", "time=", now.shown.as_str());
    block.append("\n");
    push_duration_line(&mut block, "idle_for", idle_since_last_turn);
    push_duration_line(&mut block, "last_turn", last_turn_duration);
    block.append("[/timing]");
    block
}

/// What is known of the turns of a session and their times.
#[derive(Clone, Debug, PartialEq, Eq)]
pub struct IdleTimingState {
    pub injection_enabled: bool,
    pub last_model_turn_completed_at: Option<LocalTime>,
    pub last_turn_duration: Option<Elapsed>,
    pub model_at_last_model_turn: Option<String>,
    pub in_flight_turn_started_at: Option<Elapsed>,
    pub last_steer_user_message_at: Option<Elapsed>,
    pub current_turn_started_by_user_message: bool,
}

/// What is known of the turns of a session, as mathematical values.
#[verifier::ext_equal]
pub struct IdleTimingView {
    pub injection_enabled: bool,
    pub completed_at: Option<LocalTimeView>,
    pub last_turn: Option<nat>,
    pub model: Option<Seq<char>>,
    pub turn_started_at: Option<nat>,
    pub steered_at: Option<nat>,
    pub started_by_user: bool,
}

impl View for IdleTimingState {
    type V = IdleTimingView;

    open spec fn view(&self) -> IdleTimingView {
        IdleTimingView {
            injection_enabled: self.injection_enabled,
            completed_at: match self.last_model_turn_completed_at {
                Some(time) => Some(time@),
                None => None,
            },
            last_turn: opt_nanos(self.last_turn_duration),
            model: text::opt_text(self.model_at_last_model_turn),
            turn_started_at: opt_nanos(self.in_flight_turn_started_at),
            steered_at: opt_nanos(self.last_steer_user_message_at),
            started_by_user: self.current_turn_started_by_user_message,
        }
    }
}

impl Default for IdleTimingState {
    fn default() -> (state: Self)
        ensures
            state@ == (IdleTimingView {
                injection_enabled: true,
                completed_at: None,
                last_turn: None,
                model: None,
                turn_started_at: None,
                steered_at: None,
                started_by_user: false,
            }),
    {
        IdleTimingState {
            injection_enabled: true,
            last_model_turn_completed_at: None,
            last_turn_duration: None,
            model_at_last_model_turn: None,
            in_flight_turn_started_at: None,
            last_steer_user_message_at: None,
            current_turn_started_by_user_message: false,
        }
    }
}

/// What goes along with a message that starts a turn.
#[derive(Clone, Debug, PartialEq, Eq)]
pub struct PreparedIdleTimingSubmission {
    pub developer_message: String,
    pub resume_note: Option<String>,
}

impl PreparedIdleTimingSubmission {
    /// What is told to the model, as an item of the conversation.
    pub fn developer_message_item(&self) -> (item: ResponseItem)
        ensures
            item matches ResponseItem::Message { id, role, content } && id is None && role@
                == "developer"@ && content@.len() == 1 && (content@[0]
                matches ContentItem::InputText { text } && text@ == self.developer_message@),
    {
        let mut content: Vec<ContentItem> = Vec::new();
        content.push(ContentItem::InputText { text: self.developer_message.clone() });
        ResponseItem::Message { id: None, role: "developer".to_owned(), content }
    }
}

/// What the status line shows, and when it is to be drawn again.
#[derive(Clone, Debug, PartialEq, Eq)]
pub struct IdleStatusLineValue {
    pub text: String,
    pub refresh_in: Elapsed,
}

/// The time between two moments, where the first is not later.
pub open spec fn later_by(now: nat, earlier: nat) -> nat {
    if now >= earlier {
        (now - earlier) as nat
    } else {
        0
    }
}

/// The whole seconds of a length of time, in short.
pub open spec fn shown_secs(elapsed: nat) -> Seq<char> {
    compact(elapsed / NANOS_PER_SEC as nat)
}

impl IdleTimingView {
    /// How long nothing has happened since the last turn, where one has ended
    /// by then.
    pub open spec fn idle_at(self, now: LocalTimeView) -> Option<nat> {
        match self.completed_at {
            Some(last) => if now.nanos >= last.nanos {
                Some((now.nanos - last.nanos) as nat)
            } else {
                None
            },
            None => None,
        }
    }

    /// What goes along with a message that starts a turn: nothing where that is
    /// switched off, where a turn runs, or where none has ended yet.
    pub open spec fn submission(self, now: LocalTimeView) -> Option<(Seq<char>, Option<Seq<char>>)> {
        if !self.injection_enabled || self.turn_started_at is Some {
            None
        } else {
            match self.idle_at(now) {
                Some(idle) => Some(
                    (timing_block(now.shown, Some(idle), self.last_turn), resume_note(idle)),
                ),
                None => None,
            }
        }
    }

    /// What the status line shows: how long the turn runs and how long ago it
    /// was steered, else how long nothing has happened. After a change of the
    /// model the latter is not known.
    pub open spec fn status_line(
        self,
        current_model: Seq<char>,
        now: LocalTimeView,
        now_instant: nat,
    ) -> Option<Seq<char>> {
        match self.turn_started_at {
            Some(started_at) => Some(
                "Run "@ + shown_secs(later_by(now_instant, started_at)) + match self.steered_at {
                    Some(steered_at) => " · Steer "@ + shown_secs(
                        later_by(now_instant, steered_at),
                    ),
                    None => Seq::empty(),
                },
            ),
            None => if self.started_by_user {
                None
            } else {
                match self.idle_at(now) {
                    Some(idle) => Some(
                        if self.model is Some && self.model != Some(current_model) {
                            "Idle ---"@
                        } else {
                            "Idle "@ + shown_secs(idle)
                        },
                    ),
                    None => None,
                }
            },
        }
    }

    /// A turn begins, unless one runs already.
    pub open spec fn begun(self, started_at: nat) -> Self {
        if self.turn_started_at is None {
            IdleTimingView { turn_started_at: Some(started_at), started_by_user: false, ..self }
        } else {
            self
        }
    }

    /// A message of the user starts a turn.
    pub open spec fn started(self, submitted_at: nat) -> Self {
        IdleTimingView {
            turn_started_at: Some(submitted_at),
            steered_at: None,
            started_by_user: true,
            ..self
        }
    }

    /// A message of the user steers a turn.
    pub open spec fn steered(self, injected_at: nat) -> Self {
        IdleTimingView {
            turn_started_at: if self.turn_started_at is None {
                Some(injected_at)
            } else {
                self.turn_started_at
            },
            steered_at: Some(injected_at),
            started_by_user: true,
            ..self
        }
    }

    /// A turn ends.
    pub open spec fn completed(
        self,
        model: Seq<char>,
        completed_at: LocalTimeView,
        now_instant: nat,
    ) -> Self {
        IdleTimingView {
            completed_at: Some(completed_at),
            last_turn: match self.turn_started_at {
                Some(started_at) => Some(later_by(now_instant, started_at)),
                None => None,
            },
            model: Some(model),
            turn_started_at: None,
            steered_at: None,
            started_by_user: false,
            ..self
        }
    }

    /// The conversation is made shorter.
    pub open spec fn compacted(self, now: LocalTimeView) -> Self {
        IdleTimingView {
            completed_at: Some(now),
            model: None,
            turn_started_at: None,
            steered_at: None,
            started_by_user: false,
            ..self
        }
    }
}

impl IdleTimingState {
    /// Tells whether times are told to the model.
    pub fn injection_enabled(&self) -> (enabled: bool)
        ensures
            enabled == self@.injection_enabled,
    {
        self.injection_enabled
    }

    /// Switches on or off whether times are told to the model.
    pub fn set_injection_enabled(&mut self, enabled: bool)
        ensures
            final(self)@ == (IdleTimingView { injection_enabled: enabled, ..old(self)@ }),
    {
        self.injection_enabled = enabled;
    }

    /// What goes along with a message that starts a turn now.
    pub fn prepare_turn_start_submission(&self, now: &LocalTime) -> (submission: Option<
        PreparedIdleTimingSubmission,
    >)
        ensures
            match submission {
                Some(submission) => self@.submission(now@) == Some(
                    (submission.developer_message@, text::opt_text(submission.resume_note)),
                ),
                None => self@.submission(now@) is None,
            },
    {
        if !self.injection_enabled || self.in_flight_turn_started_at.is_some() {
            return None;
        }
        match self.idle_since_last_model_turn(now) {
            Some(idle) => Some(
                PreparedIdleTimingSubmission {
                    developer_message: format_timing_block(
                        now,
                        &Some(idle),
                        &self.last_turn_duration,
                    ),
                    resume_note: format_idle_resume_note(&idle),
                },
            ),
            None => None,
        }
    }

    /// A turn begins, unless one runs already.
    pub fn begin_turn(&mut self, started_at: Elapsed)
        ensures
            final(self)@ == old(self)@.begun(started_at@),
    {
        if self.in_flight_turn_started_at.is_none() {
            self.in_flight_turn_started_at = Some(started_at);
            self.current_turn_started_by_user_message = false;
        }
    }

    /// A message of the user starts a turn.
    pub fn record_turn_start_user_message(&mut self, submitted_at: Elapsed)
        ensures
            final(self)@ == old(self)@.started(submitted_at@),
    {
        self.in_flight_turn_started_at = Some(submitted_at);
        self.last_steer_user_message_at = None;
        self.current_turn_started_by_user_message = true;
    }

    /// A message of the user steers a turn. What counts is when it got into the
    /// turn, not when it was written.
    pub fn record_steer_user_message(&mut self, injected_at: Elapsed)
        ensures
            final(self)@ == old(self)@.steered(injected_at@),
    {
        if self.in_flight_turn_started_at.is_none() {
            self.in_flight_turn_started_at = Some(injected_at);
        }
        self.last_steer_user_message_at = Some(injected_at);
        self.current_turn_started_by_user_message = true;
    }

    /// A turn ends. Hands out how long it took, where a message of the user
    /// started it.
    pub fn complete_turn(&mut self, model: &str, completed_at: LocalTime, now_instant: Elapsed) -> (
    duration: Option<Elapsed>)
        ensures
            final(self)@ == old(self)@.completed(model@, completed_at@, now_instant@),
            opt_nanos(duration) == if old(self)@.started_by_user {
                final(self)@.last_turn
            } else {
                None
            },
    {
        let duration = match &self.in_flight_turn_started_at {
            Some(started_at) => Some(now_instant.since(started_at)),
            None => None,
        };
        self.last_turn_duration = duration;
        self.last_model_turn_completed_at = Some(completed_at);
        self.model_at_last_model_turn = Some(model.to_owned());
        self.in_flight_turn_started_at = None;
        self.last_steer_user_message_at = None;
        let turn_started_by_user_message = self.current_turn_started_by_user_message;
        self.current_turn_started_by_user_message = false;
        if turn_started_by_user_message {
            duration
        } else {
            None
        }
    }

    /// The conversation is made shorter: from now on nothing happens, until a
    /// turn begins.
    pub fn reset_for_compaction(&mut self, now: LocalTime)
        ensures
            final(self)@ == old(self)@.compacted(now@),
    {
        self.last_model_turn_completed_at = Some(now);
        self.model_at_last_model_turn = None;
        self.in_flight_turn_started_at = None;
        self.last_steer_user_message_at = None;
        self.current_turn_started_by_user_message = false;
    }

    /// What the status line shows at a moment. It is drawn again after a
    /// second.
    pub fn status_line_value_at(
        &self,
        current_model: &str,
        now: &LocalTime,
        now_instant: Elapsed,
    ) -> (value: Option<IdleStatusLineValue>)
        ensures
            match value {
                Some(value) => self@.status_line(current_model@, now@, now_instant@) == Some(
                    value.text@,
                ) && value.refresh_in@ == NANOS_PER_SEC,
                None => self@.status_line(current_model@, now@, now_instant@) is None,
            },
    {
        if let Some(started_at) = &self.in_flight_turn_started_at {
            let runtime = now_instant.since(started_at);
            let mut text = text::concat2(
                "Run ",
                fmt_elapsed_compact(runtime.as_secs()).as_str(),
            );
            if let Some(steer_at) = &self.last_steer_user_message_at {
                let steer_age = now_instant.since(steer_at);
                let steer = text::concat2(
                    " · Steer ",
                    fmt_elapsed_compact(steer_age.as_secs()).as_str(),
                );
                text.append(steer.as_str());
            }
            assert(Some(text@) =~= self@.status_line(current_model@, now@, now_instant@));
            return Some(IdleStatusLineValue { text, refresh_in: Elapsed::from_secs(1) });
        }
        if self.current_turn_started_by_user_message {
            return None;
        }
        let idle = match self.idle_since_last_model_turn(now) {
            Some(idle) => idle,
            None => return None,
        };
        let changed = match &self.model_at_last_model_turn {
            Some(model) => !text::text_eq(model.as_str(), current_model),
            None => false,
        };
        let text = if changed {
            "Idle ---".to_owned()
        } else {
            text::concat2("Idle ", fmt_elapsed_compact(idle.as_secs()).as_str())
        };
        Some(IdleStatusLineValue { text, refresh_in: Elapsed::from_secs(1) })
    }

    fn idle_since_last_model_turn(&self, now: &LocalTime) -> (idle: Option<Elapsed>)
        ensures
            opt_nanos(idle) == self@.idle_at(now@),
    {
        match &self.last_model_turn_completed_at {
            Some(last) => now.since(last),
            None => None,
        }
    }
}

/// While a turn runs nothing is told to the model and the status line shows no
/// pause; nor is anything told where that is switched off or before the first
/// turn has ended.
pub proof fn no_pause_while_a_turn_runs(
    state: IdleTimingView,
    current_model: Seq<char>,
    now: LocalTimeView,
    now_instant: nat,
)
    ensures
        state.turn_started_at is Some ==> state.submission(now) is None,
        state.turn_started_at is Some ==> {
            &&& state.status_line(current_model, now, now_instant) matches Some(shown)
            &&& "Run "@.is_prefix_of(shown)
        },
        !state.injection_enabled ==> state.submission(now) is None,
        state.completed_at is None ==> state.submission(now) is None,
{
    if let Some(started_at) = state.turn_started_at {
        let shown = state.status_line(current_model, now, now_instant)->0;
        assert("Run "@ =~= shown.subrange(0, "Run "@.len() as int));
    }
}

/// A turn that ends leaves nothing of itself but its length, its model and its
/// end: whatever came before, the status line then shows the pause since.
pub proof fn an_ended_turn_starts_a_pause(
    state: IdleTimingView,
    model: Seq<char>,
    completed_at: LocalTimeView,
    now_instant: nat,
    now: LocalTimeView,
    later: nat,
)
    requires
        now.nanos >= completed_at.nanos,
    ensures
        state.completed(model, completed_at, now_instant).status_line(model, now, later) == Some(
            "Idle "@ + shown_secs((now.nanos - completed_at.nanos) as nat),
        ),
        forall|other: Seq<char>|
            other != model ==> #[trigger] state.completed(
                model,
                completed_at,
                now_instant,
            ).status_line(other, now, later) == Some("Idle ---"@),
{
}

/// Making the conversation shorter keeps the length of the last turn, and the
/// pause counts from then on, whatever the model.
pub proof fn compaction_keeps_the_last_turn(
    state: IdleTimingView,
    at: LocalTimeView,
    current_model: Seq<char>,
    now: LocalTimeView,
    now_instant: nat,
)
    requires
        now.nanos >= at.nanos,
    ensures
        state.compacted(at).last_turn == state.last_turn,
        state.compacted(at).status_line(current_model, now, now_instant) == Some(
            "Idle "@ + shown_secs((now.nanos - at.nanos) as nat),
        ),
{
}

} // verus!
