use irrigator::flow::{FlowRate, FlowSensor, Liters, Reading};
use irrigator::schedule::Slot;
use irrigator::state::AppState;
use irrigator::time::{Timestamp, UtcOffset};
use irrigator::valve::Valve;
use irrigator::web::{
    handle_daily_target, handle_health, handle_history, handle_schedule_enabled,
    handle_schedule_get, handle_schedule_set, handle_status, handle_summary, handle_valve_close,
    handle_valve_open, next_slot_from, SessionTotals,
};

// 2026-05-01 04:05:07 UTC
const T: i64 = 1777608307;
const DAY: i64 = 86_400;

fn at(secs: i64) -> Timestamp {
    Timestamp::new(secs, 0).unwrap()
}

fn east(secs: i32) -> UtcOffset {
    UtcOffset::east(secs).unwrap()
}

fn reading(count: u64, secs: u64) -> Reading {
    Reading { count, clock: secs * 1_000_000_000 }
}

#[test]
fn health_is_answered() {
    let mut state = AppState::new(at(T));
    let dto = handle_health(&state, "1.2.3");
    assert!(dto.ok && !dto.valve_open);
    assert_eq!(dto.version, "1.2.3");
    state.valve_open = true;
    assert!(handle_health(&state, "x").valve_open);
}

#[test]
fn status_of_a_closed_valve() {
    let mut state = AppState::new(at(T));
    let flow = FlowSensor::new();
    let dto = handle_status(&state, &flow, reading(500, 99), at(T + 10), east(-3 * 3600 - 1830));
    assert!(!dto.valve_open && dto.auto_off_at.is_none());
    assert_eq!(dto.auto_off_seconds_remaining, None);
    assert_eq!(dto.session_liters.pulses, 0);
    assert_eq!(dto.session_seconds, 0);
    assert_eq!(dto.session_source, None);
    assert!(dto.schedule_enabled);
    let next = dto.next_slot.unwrap();
    assert_eq!((next.hour, next.minute, next.duration_min, next.when), (6, 0, 8, "today"));
    assert_eq!(dto.uptime_seconds, 10);
    assert_eq!(dto.now.secs(), T + 10);
    assert_eq!(dto.boot_time.secs(), T);
    assert_eq!(dto.server_tz_offset_minutes, -210);
    assert!(!dto.anomaly);
    state.schedule.enabled = false;
    assert!(handle_status(&state, &flow, reading(0, 0), at(T), east(0)).next_slot.is_none());
}

#[test]
fn status_of_an_open_valve() {
    let mut state = AppState::new(at(T));
    let mut valve = Valve::new();
    let mut flow = FlowSensor::new();
    handle_valve_open(&mut state, &mut valve, &mut flow, reading(10, 0), at(T), 8).unwrap();
    let dto = handle_status(&state, &flow, reading(627, 45), at(T + 45), east(0));
    assert!(dto.valve_open);
    assert_eq!(dto.auto_off_at.unwrap().secs(), T + 480);
    assert_eq!(dto.auto_off_seconds_remaining, Some(435));
    assert_eq!(dto.session_liters.pulses, 617);
    assert_eq!(dto.session_seconds, 45);
    assert_eq!(dto.session_flow_lpm, FlowRate { pulses: 617, secs: 45 });
    assert_eq!(dto.session_source.unwrap(), "web");
    assert!(!dto.anomaly);
    assert!(handle_status(&state, &flow, reading(12, 45), at(T + 45), east(0)).anomaly);
    assert!(!handle_status(&state, &flow, reading(12, 29), at(T + 29), east(0)).anomaly);
    let late = handle_status(&state, &flow, reading(12, 29), at(T + 500), east(0));
    assert_eq!(late.auto_off_seconds_remaining, Some(-20));
}

#[test]
fn the_next_slot_may_be_tomorrow() {
    let state = AppState::new(at(T));
    let next = next_slot_from(&state, at(T + 14 * 3600), east(0)).unwrap();
    assert_eq!((next.hour, next.when), (6, "tomorrow"));
    let mut empty = AppState::new(at(T));
    empty.schedule.slots.clear();
    assert!(next_slot_from(&empty, at(T), east(0)).is_none());
}

#[test]
fn the_summary_counts_by_local_day() {
    let mut state = AppState::new(at(T));
    state.lifetime_liters = Liters { pulses: 99_999 };
    state.record_watering(at(T - 7 * DAY), 5, "web", Some(Liters { pulses: 1000 }));
    state.record_watering(at(T - 6 * DAY), 5, "web", Some(Liters { pulses: 600 }));
    state.record_watering(at(T - DAY), 6, "schedule", None);
    // 23:30 UTC on the day before: today on a clock two hours ahead
    state.record_watering(at(T - 4 * 3600 - 35 * 60 - 7), 10, "web", Some(Liters { pulses: 50 }));
    state.record_watering(at(T), 0, "web", Some(Liters { pulses: 7 }));
    let offsets = vec![east(7200), east(7200), east(7200), east(7200), east(7200)];
    let dto = handle_summary(&state, at(T), east(7200), &offsets);
    assert_eq!(dto.today.sessions, 2);
    assert_eq!(dto.today.pulses, 57);
    assert_eq!(dto.today.minutes, 10);
    assert_eq!(f64::from_bits(dto.today.target_liters), 40.0);
    assert_eq!(f64::from_bits(dto.daily_target_liters), 40.0);
    let days: Vec<(&str, u128, usize)> =
        dto.last_7_days.iter().map(|d| (d.date.as_str(), d.pulses, d.sessions)).collect();
    assert_eq!(
        days,
        vec![
            ("2026-04-25", 600, 1),
            ("2026-04-26", 0, 0),
            ("2026-04-27", 0, 0),
            ("2026-04-28", 0, 0),
            ("2026-04-29", 0, 0),
            ("2026-04-30", 0, 1),
            ("2026-05-01", 57, 2),
        ]
    );
    assert!(dto.last_7_days.iter().map(|d| d.sessions).sum::<usize>() <= state.log.len());
    assert_eq!(dto.lifetime.liters.pulses, 99_999);
    assert_eq!(dto.lifetime.sessions, 5);
    assert_eq!(dto.peak_flow_lpm, FlowRate { pulses: 1000, secs: 300 });
    assert_eq!(dto.session_totals, SessionTotals { pulses: 1657, sessions: 4 });
}

#[test]
fn days_far_away_are_dated_with_a_sign() {
    let state = AppState::new(at(T));
    let dates = |secs: i64| -> Vec<String> {
        let dto = handle_summary(&state, at(secs), east(0), &vec![]);
        dto.last_7_days.into_iter().map(|d| d.date).collect()
    };
    // 1 January of the years 10000, 100000, 0 and -1, and 1 March 1900
    assert_eq!(dates(2_932_897 * DAY)[5..], ["9999-12-31", "+10000-01-01"]);
    assert_eq!(dates(35_804_722 * DAY)[5..], ["+99999-12-31", "+100000-01-01"]);
    assert_eq!(dates(-719_528 * DAY)[5..], ["-0001-12-31", "0000-01-01"]);
    assert_eq!(dates(-719_893 * DAY)[5..], ["-0002-12-31", "-0001-01-01"]);
    assert_eq!(dates(-25_508 * DAY)[5..], ["1900-02-28", "1900-03-01"]);
}

#[test]
fn the_summary_of_an_empty_log_is_empty() {
    let state = AppState::new(at(T));
    let dto = handle_summary(&state, at(T), east(0), &vec![]);
    assert_eq!(dto.today.sessions, 0);
    assert_eq!(dto.last_7_days.len(), 7);
    assert_eq!(dto.peak_flow_lpm, FlowRate { pulses: 0, secs: 60 });
    assert_eq!(dto.session_totals, SessionTotals { pulses: 0, sessions: 0 });
}

#[test]
fn the_history_shows_the_newest_first() {
    let mut state = AppState::new(at(T));
    for i in 0..12u32 {
        let volume = if i % 2 == 0 { None } else { Some(Liters { pulses: i as u64 * 10 }) };
        state.record_watering(at(T + i as i64), i, "web", volume);
    }
    let dto = handle_history(&state, None);
    assert_eq!(dto.events.len(), 10);
    assert_eq!(dto.events[0].timestamp.secs(), T + 11);
    assert_eq!(dto.events[0].duration_min, 11);
    assert_eq!(dto.events[0].source, "web");
    assert_eq!(dto.events[0].volume_liters, Some(Liters { pulses: 110 }));
    assert_eq!(dto.events[0].flow_lpm, Some(FlowRate { pulses: 110, secs: 660 }));
    assert_eq!(dto.events[1].flow_lpm, None);
    assert_eq!(handle_history(&state, Some(3)).events.len(), 3);
    assert_eq!(handle_history(&state, Some(0)).events.len(), 0);
    assert_eq!(handle_history(&state, Some(usize::MAX)).events.len(), 12);
}

#[test]
fn a_history_shows_five_hundred_waterings_at_most() {
    let mut state = AppState::new(at(T));
    state.record_watering(at(T), 0, "web", Some(Liters { pulses: 3 }));
    let one = state.log[0].clone();
    while state.log.len() < 600 {
        state.log.push(one.clone());
    }
    let dto = handle_history(&state, Some(1000));
    assert_eq!(dto.events.len(), 500);
    assert_eq!(dto.events[0].flow_lpm, None);
}

#[test]
fn the_schedule_is_answered_and_set() {
    let mut state = AppState::new(at(T));
    let dto = handle_schedule_get(&state);
    assert!(dto.enabled);
    assert_eq!(dto.slots.len(), 4);
    assert_eq!(dto.max_on_minutes, 120);
    let late = Slot { hour: 20, minute: 0, duration_min: 3 };
    let early = Slot { hour: 5, minute: 0, duration_min: 4 };
    let dto = handle_schedule_set(&mut state, vec![late, early], Some(false)).unwrap();
    assert_eq!(dto.slots, vec![early, late]);
    assert!(!dto.enabled && !state.schedule.enabled && state.unsaved);
    let dto = handle_schedule_set(&mut state, vec![late], None).unwrap();
    assert!(!dto.enabled);
    state.unsaved = false;
    let bad = Slot { hour: 20, minute: 0, duration_min: 0 };
    assert_eq!(
        handle_schedule_set(&mut state, vec![bad], Some(true)).unwrap_err(),
        "duration must be 1-120, got 0"
    );
    assert!(!state.unsaved && !state.schedule.enabled);
    assert_eq!(state.schedule.slots, vec![late]);
    assert!(handle_schedule_enabled(&mut state, true).enabled);
    assert!(state.schedule.enabled && state.unsaved);
}

#[test]
fn requests_to_open_are_capped() {
    let mut state = AppState::new(at(T));
    let mut valve = Valve::new();
    let mut flow = FlowSensor::new();
    let mut open = |state: &mut AppState, minutes: u32| {
        handle_valve_open(state, &mut valve, &mut flow, reading(0, 0), at(T), minutes)
    };
    assert_eq!(open(&mut state, 0).unwrap_err(), "duration must be > 0");
    assert_eq!(open(&mut state, 121).unwrap_err(), "duration must be ≤ 120 minutes");
    assert!(!state.valve_open && !state.unsaved && state.log.is_empty());
    assert_eq!(open(&mut state, 120).unwrap(), "Web: valve OPENED for 120min.");
    assert_eq!(state.auto_off_at.unwrap().secs(), T + 7200);
    assert!(valve.open && state.valve_open && state.unsaved);
    assert_eq!(state.log[0].source, "web");
}

#[test]
fn requests_to_close_are_told_where_the_valve_was_open() {
    let mut state = AppState::new(at(T));
    let mut valve = Valve::new();
    let mut flow = FlowSensor::new();
    handle_valve_open(&mut state, &mut valve, &mut flow, reading(0, 0), at(T), 8).unwrap();
    assert_eq!(
        handle_valve_close(&mut state, &mut valve, &flow, reading(617, 1)).unwrap(),
        "Web: valve CLOSED. Total: 1.0L."
    );
    assert!(!valve.open && !state.valve_open);
    assert_eq!(handle_valve_close(&mut state, &mut valve, &flow, reading(617, 1)), None);
    handle_valve_open(&mut state, &mut valve, &mut flow, reading(617, 2), at(T), 8).unwrap();
    assert_eq!(
        handle_valve_close(&mut state, &mut valve, &flow, reading(617, 3)).unwrap(),
        "Web: valve CLOSED."
    );
}

#[test]
fn a_request_to_close_a_closed_valve_measures_nothing() {
    let mut state = AppState::new(at(T));
    let mut valve = Valve::new();
    let flow = FlowSensor::new();
    state.record_watering(at(T), 8, "web", None);
    state.unsaved = false;
    assert_eq!(handle_valve_close(&mut state, &mut valve, &flow, reading(0, 1)), None);
    assert!(!valve.open && !state.valve_open && state.auto_off_at.is_none() && state.unsaved);
    assert_eq!(state.log.len(), 1);
    assert_eq!(state.log[0].volume_liters, None);
    assert_eq!(state.lifetime_liters.pulses, 0);
    assert_eq!(handle_valve_close(&mut state, &mut valve, &flow, reading(9, 2)), None);
    assert_eq!(state.log[0].volume_liters, Some(Liters { pulses: 9 }));
    assert_eq!(state.lifetime_liters.pulses, 9);
}

#[test]
fn the_daily_target_is_kept_as_it_came() {
    let mut state = AppState::new(at(T));
    for x in [0.0f64, 12.345, 10_000.0] {
        state.unsaved = false;
        assert_eq!(handle_daily_target(&mut state, x.to_bits()), Ok(x.to_bits()));
        assert_eq!(f64::from_bits(state.daily_target_liters), x);
        assert!(state.unsaved);
    }
    state.unsaved = false;
    for x in [-0.001f64, 10_000.001] {
        assert_eq!(
            handle_daily_target(&mut state, x.to_bits()).unwrap_err(),
            "liters must be 0-10000"
        );
    }
    assert!(!state.unsaved);
    assert_eq!(f64::from_bits(state.daily_target_liters), 10_000.0);
}
