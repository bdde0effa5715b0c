use turn_start_bridge::idle_timing::{
    fmt_elapsed_compact, format_idle_resume_note, Elapsed, IdleTimingState, LocalTime,
};
use turn_start_bridge::items::{ContentItem, ResponseItem};

/// 2026-04-18T12:00:00+10:00.
const NOON: i64 = 1_776_477_600;

fn local_ts(seconds: i64, millis: u32) -> LocalTime {
    LocalTime::new(NOON + seconds, millis * 1_000_000, 36_000).expect("timestamp")
}

#[test]
fn disabled_injection_skips_submission_payload() {
    let mut state = IdleTimingState::default();
    state.set_injection_enabled(false);

    assert_eq!(state.prepare_turn_start_submission(&local_ts(0, 0)), None);
    assert!(!state.injection_enabled());
}

#[test]
fn first_turn_skips_submission_payload_without_prior_completion() {
    let state = IdleTimingState::default();

    assert_eq!(state.prepare_turn_start_submission(&local_ts(0, 0)), None);
}

#[test]
fn timing_block_includes_idle_and_last_turn_when_available() {
    let state = IdleTimingState {
        last_model_turn_completed_at: Some(local_ts(0, 0)),
        last_turn_duration: Some(Elapsed::from_millis(4_321)),
        ..Default::default()
    };

    let submission = state
        .prepare_turn_start_submission(&local_ts(14, 900))
        .expect("submission");

    assert_eq!(
        submission.developer_message,
        [
            "[timing]",
            "time=2026-04-18T12:00:14+10:00",
            "idle_for=14.9s",
            "last_turn=4.3s",
            "[/timing]",
        ]
        .join("\n")
    );
    assert_eq!(submission.resume_note, Some("[After 14s]".to_string()));
    assert_eq!(
        submission.developer_message_item(),
        ResponseItem::Message {
            id: None,
            role: "developer".to_string(),
            content: vec![ContentItem::InputText {
                text: submission.developer_message.clone(),
            }],
        }
    );
}

#[test]
fn active_turn_skips_idle_timing_submission() {
    let mut state = IdleTimingState {
        last_model_turn_completed_at: Some(local_ts(0, 0)),
        last_turn_duration: Some(Elapsed::from_millis(4_321)),
        ..Default::default()
    };
    state.record_turn_start_user_message(Elapsed::from_secs(1000));

    assert_eq!(state.prepare_turn_start_submission(&local_ts(14, 900)), None);
}

#[test]
fn status_line_shows_running_turn_and_recent_steer() {
    let mut state = IdleTimingState::default();
    let base = Elapsed::from_secs(1000);
    state.record_turn_start_user_message(Elapsed::from_secs(1000 - 95));
    state.record_steer_user_message(base);

    let display = state
        .status_line_value_at("gpt-5.4", &local_ts(0, 0), base)
        .expect("display");

    assert_eq!(display.text, "Run 1m 35s · Steer 0s");
    assert_eq!(display.refresh_in, Elapsed::from_secs(1));
}

#[test]
fn completed_turn_resets_steer_status_line_state() {
    let mut state = IdleTimingState::default();
    let now = Elapsed::from_secs(1000);
    state.record_turn_start_user_message(Elapsed::from_secs(1000 - 95));
    state.record_steer_user_message(now);

    let duration = state.complete_turn("gpt-5.4", local_ts(0, 0), now);

    let display = state
        .status_line_value_at("gpt-5.4", &local_ts(12, 0), now)
        .expect("display");

    assert_eq!(display.text, "Idle 12s");
    assert_eq!(duration, Some(Elapsed::from_secs(95)));
}

#[test]
fn status_line_blanks_when_model_changes() {
    let state = IdleTimingState {
        last_model_turn_completed_at: Some(local_ts(0, 0)),
        model_at_last_model_turn: Some("gpt-5.4".to_string()),
        ..Default::default()
    };

    let display = state
        .status_line_value_at("gpt-5.4-mini", &local_ts(65, 0), Elapsed::from_secs(0))
        .expect("display");

    assert_eq!(display.text, "Idle ---");
    assert_eq!(display.refresh_in, Elapsed::from_secs(1));
}

#[test]
fn compaction_resets_idle_baseline_without_clearing_last_turn_duration() {
    let mut state = IdleTimingState {
        last_turn_duration: Some(Elapsed::from_millis(4_321)),
        model_at_last_model_turn: Some("gpt-5.4".to_string()),
        ..Default::default()
    };

    state.reset_for_compaction(local_ts(0, 0));

    assert_eq!(state.model_at_last_model_turn, None);
    assert_eq!(state.last_turn_duration, Some(Elapsed::from_millis(4_321)));
    assert_eq!(
        state
            .status_line_value_at("gpt-5.4-mini", &local_ts(45, 0), Elapsed::from_secs(0))
            .expect("display")
            .text,
        "Idle 45s"
    );
}

#[test]
fn complete_turn_records_duration_and_model() {
    let mut state = IdleTimingState::default();
    state.begin_turn(Elapsed::from_secs(92));

    let duration = state.complete_turn("gpt-5.4", local_ts(0, 0), Elapsed::from_secs(100));

    assert_eq!(state.model_at_last_model_turn, Some("gpt-5.4".to_string()));
    assert_eq!(state.last_turn_duration, Some(Elapsed::from_secs(8)));
    assert!(state.in_flight_turn_started_at.is_none());
    assert_eq!(duration, None);
}

#[test]
fn beginning_a_turn_twice_keeps_the_first_start() {
    let mut state = IdleTimingState::default();
    state.record_turn_start_user_message(Elapsed::from_secs(5));
    state.begin_turn(Elapsed::from_secs(7));

    assert_eq!(state.in_flight_turn_started_at, Some(Elapsed::from_secs(5)));
    assert!(state.current_turn_started_by_user_message);
}

#[test]
fn a_steer_without_a_turn_starts_one() {
    let mut state = IdleTimingState::default();
    state.record_steer_user_message(Elapsed::from_secs(5));

    assert_eq!(state.in_flight_turn_started_at, Some(Elapsed::from_secs(5)));
    let display = state
        .status_line_value_at("gpt-5.4", &local_ts(0, 0), Elapsed::from_secs(3))
        .expect("display");
    assert_eq!(display.text, "Run 0s · Steer 0s");
}

#[test]
fn a_clock_that_was_set_back_shows_nothing() {
    let state = IdleTimingState {
        last_model_turn_completed_at: Some(local_ts(10, 0)),
        ..Default::default()
    };

    assert_eq!(state.prepare_turn_start_submission(&local_ts(9, 999)), None);
    assert_eq!(
        state.status_line_value_at("gpt-5.4", &local_ts(9, 999), Elapsed::from_secs(0)),
        None
    );
}

#[test]
fn short_pauses_are_not_noted() {
    assert_eq!(format_idle_resume_note(&Elapsed::from_secs(10)), None);
    assert_eq!(
        format_idle_resume_note(&Elapsed::from_millis(10_001)),
        Some("[After 10s]".to_string())
    );
    assert_eq!(
        format_idle_resume_note(&Elapsed::from_secs(61)),
        Some("[After 1m 1s]".to_string())
    );
    assert_eq!(
        format_idle_resume_note(&Elapsed::from_secs(3600)),
        Some("[After 1h 0m 0s]".to_string())
    );
}

#[test]
fn elapsed_times_are_written_in_short() {
    assert_eq!(fmt_elapsed_compact(0), "0s");
    assert_eq!(fmt_elapsed_compact(59), "59s");
    assert_eq!(fmt_elapsed_compact(60), "1m 00s");
    assert_eq!(fmt_elapsed_compact(3_599), "59m 59s");
    assert_eq!(fmt_elapsed_compact(3_661), "1h 01m 01s");
}

#[test]
fn elapsed_times_borrow_a_second() {
    let later = Elapsed::new(5, 100).expect("elapsed");
    let earlier = Elapsed::new(3, 200).expect("elapsed");
    assert_eq!(later.since(&earlier), Elapsed::new(1, 999_999_900).expect("elapsed"));
    assert_eq!(earlier.since(&later), Elapsed::from_secs(0));
    assert_eq!(later.as_secs(), 5);
    assert_eq!(Elapsed::new(0, 1_000_000_000), None);
    assert_eq!(Elapsed::from_millis(4_321).to_seconds_text(), "4.3s");
    assert_eq!(Elapsed::from_millis(250).to_seconds_text(), "0.2s");
}

#[test]
fn times_out_of_range_are_refused() {
    assert_eq!(LocalTime::new(NOON, 1_000_000_000, 0), None);
    assert_eq!(LocalTime::new(NOON, 0, 86_400), None);
    assert_eq!(LocalTime::new(i64::MAX, 0, 0), None);
    let west = LocalTime::new(NOON, 500_000_000, -16_200).expect("timestamp");
    assert_eq!(
        west.since(&local_ts(-1, 700)),
        Elapsed::new(0, 800_000_000)
    );
    assert_eq!(local_ts(-1, 700).since(&west), None);
}
