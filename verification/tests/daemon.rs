use irrigator::command::{
    handle_command, handle_message, next_backoff, Command, Surroundings, FIRST_BACKOFF,
};
use irrigator::flow::{FlowSensor, Liters, Reading};
use irrigator::schedule::{Schedule, Slot};
use irrigator::scheduler::{check_auto_off, Scheduler};
use irrigator::session::{close_valve, open_valve, shut_down, startup_text};
use irrigator::state::{default_daily_target, default_flow_pin, state_path, AppState, MAX_LOG_ENTRIES};
use irrigator::time::{Timestamp, UtcOffset};
use irrigator::valve::Valve;

// 2026-05-01 04:05:07 UTC
const T: i64 = 1777608307;

fn at(secs: i64) -> Timestamp {
    Timestamp::new(secs, 0).unwrap()
}

fn east(secs: i32) -> UtcOffset {
    UtcOffset::east(secs).unwrap()
}

fn reading(count: u64, secs: u64) -> Reading {
    Reading { count, clock: secs * 1_000_000_000 }
}

fn around(count: u64, secs: u64, now: i64) -> Surroundings {
    Surroundings {
        reading: reading(count, secs),
        now: at(now),
        offset: east(7200),
        last_offset: east(7200),
        help: "the help".to_string(),
    }
}

struct World {
    state: AppState,
    valve: Valve,
    flow: FlowSensor,
}

impl World {
    fn new() -> World {
        World { state: AppState::new(at(T)), valve: Valve::new(), flow: FlowSensor::new() }
    }

    fn say(&mut self, cmd: Command, around: Surroundings) -> String {
        handle_command(cmd, &mut self.state, &mut self.valve, &mut self.flow, around)
    }
}

fn on(args: &str) -> Command {
    Command::On(args.to_string())
}

#[test]
fn a_fresh_state_has_the_defaults() {
    let state = AppState::new(at(T));
    assert!(!state.valve_open);
    assert!(state.auto_off_at.is_none());
    assert_eq!(state.max_on_minutes, 120);
    assert_eq!(state.relay_pin, 17);
    assert_eq!(state.flow_pin, 22);
    assert_eq!(default_flow_pin(), 22);
    assert_eq!(f64::from_bits(state.daily_target_liters), 40.0);
    assert_eq!(f64::from_bits(default_daily_target()), 40.0);
    assert_eq!(state.lifetime_liters.pulses, 0);
    assert!(state.log.is_empty());
    assert_eq!(state.boot_time.secs(), T);
    assert_eq!(state.state_path, "./state.json");
    assert!(!state.unsaved);
}

#[test]
fn the_valve_is_closed_on_start_whatever_was_stored() {
    let mut stored = AppState::new(at(T));
    stored.start_session(at(T), 10, "web");
    stored.relay_pin = 5;
    assert!(stored.valve_open && stored.unsaved);
    let state = AppState::load(Some(stored), true, at(T + 100));
    assert!(!state.valve_open);
    assert!(state.auto_off_at.is_none());
    assert_eq!(state.boot_time.secs(), T + 100);
    assert_eq!(state.state_path, "/etc/irrigator/state.json");
    assert_eq!(state.relay_pin, 5);
    assert_eq!(state.log.len(), 1);
    assert!(!state.unsaved);
    let fresh = AppState::load(None, false, at(T));
    assert_eq!(fresh.state_path, "./state.json");
    assert_eq!(fresh.schedule.slots.len(), 4);
    assert_eq!(state_path(true), "/etc/irrigator/state.json");
}

#[test]
fn the_log_keeps_the_newest_waterings() {
    let mut state = AppState::new(at(T));
    for i in 0..MAX_LOG_ENTRIES as u32 + 3 {
        state.record_watering(at(T + i as i64), i, "web", None);
    }
    assert_eq!(MAX_LOG_ENTRIES, 50);
    assert_eq!(state.log.len(), 50);
    assert_eq!(state.log[0].duration_min, 3);
    assert_eq!(state.log[49].duration_min, 52);
    assert!(state.unsaved);
}

#[test]
fn an_overlong_log_is_cut_at_the_next_watering() {
    let mut state = AppState::new(at(T));
    for i in 0..3u32 {
        state.record_watering(at(T), i, "a", None);
    }
    let one = state.log[0].clone();
    while state.log.len() < 700 {
        state.log.push(one.clone());
    }
    state.record_watering(at(T), 77, "b", Some(Liters { pulses: 1 }));
    assert_eq!(state.log.len(), 50);
    assert_eq!(state.log[49].duration_min, 77);
    assert_eq!(state.log[49].source, "b");
    assert_eq!(state.log[49].volume_liters, Some(Liters { pulses: 1 }));
}

#[test]
fn a_session_is_logged_with_its_volume() {
    let mut w = World::new();
    open_valve(&mut w.state, &mut w.valve, &mut w.flow, reading(100, 0), at(T), 8, "web");
    assert!(w.valve.open && w.state.valve_open);
    assert_eq!(w.state.auto_off_at.unwrap().secs(), T + 480);
    assert_eq!(w.state.log[0].volume_liters, None);
    let liters = close_valve(&mut w.state, &mut w.valve, &w.flow, reading(717, 480));
    assert_eq!(liters, Liters { pulses: 617 });
    assert!(!w.valve.open && !w.state.valve_open);
    assert!(w.state.auto_off_at.is_none());
    assert_eq!(w.state.log.len(), 1);
    assert_eq!(w.state.log[0].volume_liters, Some(Liters { pulses: 617 }));
    assert_eq!(w.state.lifetime_liters.pulses, 617);
}

#[test]
fn a_session_without_flow_is_logged_with_no_water() {
    let mut state = AppState::new(at(T));
    state.start_session(at(T), 8, "web");
    state.unsaved = false;
    state.finish_session(Liters { pulses: 0 });
    assert!(state.unsaved);
    assert_eq!(state.log[0].volume_liters, Some(Liters { pulses: 0 }));
    assert_eq!(state.lifetime_liters.pulses, 0);
}

#[test]
fn a_measured_volume_is_not_replaced_by_none() {
    let mut state = AppState::new(at(T));
    state.record_watering(at(T), 8, "web", Some(Liters { pulses: 5 }));
    state.finish_session(Liters { pulses: 0 });
    assert_eq!(state.log[0].volume_liters, Some(Liters { pulses: 5 }));
    state.finish_session(Liters { pulses: 7 });
    assert_eq!(state.log[0].volume_liters, Some(Liters { pulses: 7 }));
    assert_eq!(state.lifetime_liters.pulses, 7);
}

#[test]
fn a_volume_without_a_log_counts_for_the_lifetime_alone() {
    let mut state = AppState::new(at(T));
    state.update_last_watering_volume(Liters { pulses: 9 });
    assert!(state.log.is_empty());
    assert_eq!(state.lifetime_liters.pulses, 9);
}

#[test]
fn the_valve_follows_its_calls() {
    let mut valve = Valve::new();
    assert!(!valve.open);
    valve.open();
    assert!(valve.open);
    valve.close();
    assert!(!valve.open);
}

#[test]
fn status_is_shown() {
    let mut w = World::new();
    assert_eq!(
        w.state.status_text(at(T + 3 * 3600 + 125), east(7200), east(0)),
        "Valve: CLOSED\nAuto-off: —\nSchedule: enabled\nNext: 10:00 today\nUptime: 3h 2m\n\
         Time: 09:07 +02:00\nLast watering: none"
    );
    w.state.start_session(at(T), 8, "web");
    w.state.schedule.enabled = false;
    assert_eq!(
        w.state.status_text(at(T + 61), east(-3600), east(3600)),
        "Valve: OPEN\nAuto-off: 6min remaining\nSchedule: disabled\nNext: schedule disabled\n\
         Uptime: 0h 1m\nTime: 03:06 -01:00\nLast watering: 05:05 (8min, web)"
    );
    w.state.finish_session(Liters { pulses: 4504 });
    w.state.schedule.enabled = true;
    w.state.schedule.slots.clear();
    assert_eq!(
        w.state.status_text(at(T - 3661), east(0), east(0)),
        "Valve: CLOSED\nAuto-off: —\nSchedule: enabled\nNext: none\nUptime: -1h -1m\n\
         Time: 03:04 +00:00\nLast watering: 04:05 (8min, web, 7.3L)"
    );
}

#[test]
fn an_overdue_session_shows_minutes_below_zero() {
    let mut state = AppState::new(at(T));
    state.start_session(at(T), 1, "web");
    let text = state.status_text(at(T + 60 + 119), east(0), east(0));
    assert!(text.contains("Auto-off: -1min remaining\n"));
}

#[test]
fn the_schedule_is_shown() {
    let mut state = AppState::new(at(T));
    assert_eq!(
        state.schedule_text(),
        "Schedule (enabled)\n  1. 06:00 for 8min\n  2. 10:00 for 8min\n  3. 14:00 for 8min\n  4. 18:00 for 8min\n"
    );
    assert_eq!(
        startup_text(&state),
        format!("Irrigator started. Valve OFF.\n\n{}", state.schedule_text())
    );
    state.schedule.enabled = false;
    assert!(state.schedule_text().starts_with("Schedule (disabled)\n"));
    state.schedule.slots.clear();
    assert_eq!(state.schedule_text(), "No schedule configured.");
}

#[test]
fn the_next_slot_is_shown() {
    let state = AppState::new(at(T));
    assert_eq!(state.next_scheduled_text(9 * 60), "10:00 today");
    assert_eq!(state.next_scheduled_text(18 * 60), "06:00 tomorrow");
}

#[test]
fn shutting_down_closes_the_valve_and_saves() {
    let mut w = World::new();
    open_valve(&mut w.state, &mut w.valve, &mut w.flow, reading(0, 0), at(T), 8, "web");
    w.state.unsaved = false;
    assert_eq!(shut_down(&mut w.state, &mut w.valve), "Irrigator shutting down. Valve OFF.");
    assert!(!w.valve.open && !w.state.valve_open && w.state.unsaved);
}

#[test]
fn the_command_to_open_opens() {
    let mut w = World::new();
    assert_eq!(w.say(on(" 25 "), around(5, 1, T)), "Valve OPENED for 25 minutes.");
    assert!(w.valve.open && w.state.valve_open && w.state.unsaved);
    assert_eq!(w.state.auto_off_at.unwrap().secs(), T + 25 * 60);
    assert_eq!(w.state.log[0].source, "telegram");
    assert_eq!(w.state.log[0].duration_min, 25);
    assert_eq!(w.flow, FlowSensor { session_start_count: 5, session_start: Some(1_000_000_000) });
}

#[test]
fn the_command_to_open_takes_ten_minutes_by_default() {
    for args in ["", "soon", "-3", "1.5", "99999999999"] {
        let mut w = World::new();
        assert_eq!(w.say(on(args), around(0, 0, T)), "Valve OPENED for 10 minutes.");
    }
}

#[test]
fn durations_are_capped() {
    let mut w = World::new();
    assert_eq!(w.say(on("0"), around(0, 0, T)), "Duration must be > 0.");
    assert_eq!(w.say(on("121"), around(0, 0, T)), "Max duration is 120 minutes.");
    assert!(!w.valve.open && !w.state.valve_open && !w.state.unsaved && w.state.log.is_empty());
    assert_eq!(w.say(on("120"), around(0, 0, T)), "Valve OPENED for 120 minutes.");
    w.state.max_on_minutes = 5;
    assert_eq!(w.say(on(""), around(0, 0, T)), "Max duration is 5 minutes.");
}

#[test]
fn the_command_to_close_closes() {
    let mut w = World::new();
    w.say(on("8"), around(0, 0, T));
    assert_eq!(w.say(Command::Off, around(4504, 60, T + 60)), "Valve CLOSED. Total: 7.3L.");
    assert!(!w.valve.open && !w.state.valve_open && w.state.auto_off_at.is_none());
    assert_eq!(w.state.log[0].volume_liters, Some(Liters { pulses: 4504 }));
    w.state.unsaved = false;
    assert_eq!(w.say(Command::Off, around(9999, 61, T + 61)), "Valve CLOSED.");
    assert!(w.state.unsaved);
    assert_eq!(w.state.lifetime_liters.pulses, 4504);
    assert_eq!(w.state.log[0].volume_liters, Some(Liters { pulses: 4504 }));
}

#[test]
fn closing_without_flow_names_no_volume() {
    let mut w = World::new();
    w.say(on("8"), around(7, 0, T));
    assert_eq!(w.say(Command::Off, around(7, 60, T + 60)), "Valve CLOSED.");
    assert_eq!(w.state.log[0].volume_liters, Some(Liters { pulses: 0 }));
}

#[test]
fn the_status_command_shows_the_flow_of_an_open_valve() {
    let mut w = World::new();
    let closed = w.say(Command::Status, around(0, 0, T));
    assert_eq!(closed, w.state.status_text(at(T), east(7200), east(7200)));
    w.say(on("8"), around(0, 0, T));
    let open = w.say(Command::Status, around(617, 9, T + 9));
    assert_eq!(
        open,
        format!("{}\nFlow: 1.0L", w.state.status_text(at(T + 9), east(7200), east(7200)))
    );
}

#[test]
fn the_schedule_commands_show_and_set() {
    let mut w = World::new();
    assert_eq!(w.say(Command::Schedule, around(0, 0, T)), w.state.schedule_text());
    assert!(!w.state.unsaved);
    let reply = w.say(Command::SetSchedule("10:00,8 06:00,9".to_string()), around(0, 0, T));
    assert_eq!(reply, "Schedule updated with 2 slot(s).");
    assert_eq!(w.state.schedule.slots[0].hour, 6);
    assert!(w.state.unsaved);
    w.state.unsaved = false;
    let reply = w.say(Command::SetSchedule("25:00,8".to_string()), around(0, 0, T));
    assert_eq!(reply, "Parse error: invalid time: 25:00\nFormat: /set 06:00,8 10:00,8 14:00,8");
    assert_eq!(w.state.schedule.slots.len(), 2);
    assert!(!w.state.unsaved);
    assert_eq!(w.say(Command::Disable, around(0, 0, T)), "Schedule disabled.");
    assert!(!w.state.schedule.enabled && w.state.unsaved);
    assert_eq!(w.say(Command::Enable, around(0, 0, T)), "Schedule enabled.");
    assert!(w.state.schedule.enabled);
}

#[test]
fn chat_and_web_take_the_same_slots() {
    let mut w = World::new();
    w.say(Command::SetSchedule("18:00,5 06:00,9 18:00,4".to_string()), around(0, 0, T));
    let slots = w.state.schedule.slots.clone();
    let again = Schedule::try_from_slots(slots.clone()).unwrap();
    assert_eq!(again, slots);
}

#[test]
fn every_change_is_to_be_saved() {
    for cmd in [on("5"), Command::Off, Command::Enable, Command::SetSchedule("1:1,1".to_string())] {
        let mut w = World::new();
        w.say(cmd, around(0, 0, T));
        assert!(w.state.unsaved);
    }
    for cmd in [on("0"), Command::Status, Command::Schedule, Command::Help] {
        let mut w = World::new();
        w.say(cmd, around(0, 0, T));
        assert!(!w.state.unsaved);
    }
}

#[test]
fn an_expired_session_gives_way_to_a_slot() {
    let six = T - 5 * 60 - 7;
    let mut s = Scheduler::new();
    let mut w = World::new();
    w.say(on("1"), around(0, 0, six - 30));
    let now = at(six + 30);
    assert!(check_auto_off(&mut w.state, &mut w.valve, &w.flow, reading(0, 0), now).is_some());
    assert!(s
        .check_schedule(&mut w.state, &mut w.valve, &mut w.flow, reading(0, 0), now, east(7200))
        .is_some());
    assert!(w.valve.open);
    assert_eq!(w.state.log.len(), 2);
}

#[test]
fn help_is_answered() {
    let mut w = World::new();
    assert_eq!(w.say(Command::Help, around(0, 0, T)), "the help");
    assert_eq!(w.say(Command::Start, around(0, 0, T)), "the help");
}

#[test]
fn other_chats_are_passed_over() {
    let mut w = World::new();
    let mut message = |chat: i64, text: Option<Option<Command>>| {
        handle_message(chat, 42, text, &mut w.state, &mut w.valve, &mut w.flow, around(0, 0, T))
    };
    assert_eq!(message(41, Some(Some(on("5")))), None);
    assert_eq!(message(42, None), None);
    assert_eq!(
        message(42, Some(None)).unwrap(),
        "Unknown command. Send /help for available commands."
    );
    assert_eq!(message(42, Some(Some(on("5")))).unwrap(), "Valve OPENED for 5 minutes.");
    assert_eq!(w.state.log.len(), 1);
}

#[test]
fn waits_double_up_to_two_minutes() {
    let mut secs = FIRST_BACKOFF;
    let mut waits = vec![secs];
    for _ in 0..8 {
        secs = next_backoff(secs);
        waits.push(secs);
    }
    assert_eq!(waits, vec![2, 4, 8, 16, 32, 64, 120, 120, 120]);
    assert_eq!(next_backoff(u64::MAX), 120);
}

#[test]
fn the_valve_closes_by_itself_in_time() {
    let mut w = World::new();
    w.say(on("8"), around(0, 0, T));
    let mut check = |now: i64| {
        check_auto_off(&mut w.state, &mut w.valve, &w.flow, reading(1234, 1), at(now))
    };
    assert_eq!(check(T + 479), None);
    assert_eq!(check(T + 480).unwrap(), "Auto-off: valve CLOSED. Total: 2.0L.");
    assert_eq!(check(T + 481), None);
    assert!(!w.valve.open && !w.state.valve_open);
    assert_eq!(w.state.log[0].volume_liters, Some(Liters { pulses: 1234 }));
}

#[test]
fn the_flow_is_reported_every_two_minutes_or_five_liters() {
    let mut w = World::new();
    let mut s = Scheduler::new();
    assert!(s.flow_report(&w.state, &w.flow, reading(9999, 9999)).is_none());
    w.say(on("60"), around(0, 0, T));
    assert!(s.flow_report(&w.state, &w.flow, reading(3084, 500)).is_none());
    let (text, liters) = s.flow_report(&w.state, &w.flow, reading(3085, 500)).unwrap();
    assert_eq!(text, "Watering... 5.0L so far.");
    s.note_report(500_000_000_000, liters);
    assert!(s.flow_report(&w.state, &w.flow, reading(3085, 619)).is_none());
    assert!(s.flow_report(&w.state, &w.flow, reading(3085, 620)).is_some());
    assert!(s.flow_report(&w.state, &w.flow, reading(6169, 619)).is_none());
    assert!(s.flow_report(&w.state, &w.flow, reading(6170, 619)).is_some());
}

#[test]
fn a_slot_opens_the_valve_once_in_its_minute() {
    let mut w = World::new();
    let mut s = Scheduler::new();
    // 06:00 on a clock two hours ahead of UTC
    let six = T - 5 * 60 - 7;
    let mut check = |w: &mut World, now: i64| {
        s.check_schedule(&mut w.state, &mut w.valve, &mut w.flow, reading(3, 4), at(now), east(7200))
    };
    assert_eq!(check(&mut w, six - 1), None);
    assert_eq!(check(&mut w, six + 30).unwrap(), "Schedule: valve OPENED for 8min (06:00).");
    assert!(w.valve.open && w.state.valve_open);
    assert_eq!(w.state.auto_off_at.unwrap().secs(), six + 30 + 480);
    assert_eq!(w.state.log[0].source, "schedule");
    w.say(Command::Off, around(3, 5, six + 40));
    assert_eq!(check(&mut w, six + 59), None);
    assert_eq!(check(&mut w, six + 4 * 3600).unwrap(), "Schedule: valve OPENED for 8min (10:00).");
    assert_eq!(s.last_triggered, Some((20574, 10, 0)));
    assert_eq!(s.last_flow_report, Some(4_000_000_000));
    assert_eq!(s.last_reported_liters.pulses, 0);
}

#[test]
fn a_slot_is_followed_on_every_day() {
    let mut w = World::new();
    let mut s = Scheduler::new();
    w.state.schedule.slots = vec![Slot { hour: 6, minute: 0, duration_min: 8 }];
    for day in 0..3i64 {
        let six = T - 5 * 60 - 7 + day * 86_400;
        let mut check = |w: &mut World, now: i64| {
            s.check_schedule(
                &mut w.state,
                &mut w.valve,
                &mut w.flow,
                reading(0, 0),
                at(now),
                east(7200),
            )
        };
        assert_eq!(check(&mut w, six).unwrap(), "Schedule: valve OPENED for 8min (06:00).");
        assert!(w.valve.open && w.state.valve_open);
        assert_eq!(w.state.auto_off_at.unwrap().secs(), six + 480);
        let event = w.state.log.last().unwrap();
        assert_eq!(event.timestamp.secs(), six);
        assert_eq!((event.duration_min, event.source.as_str()), (8, "schedule"));
        assert_eq!(event.volume_liters, None);
        w.say(Command::Off, around(0, 0, six + 20));
        assert_eq!(check(&mut w, six + 30), None);
        assert!(!w.valve.open);
        assert_eq!(s.last_triggered, Some((20574 + day as i32, 6, 0)));
    }
    assert_eq!(w.state.log.len(), 3);
}

#[test]
fn a_slot_keeps_to_the_cap() {
    let six = T - 5 * 60 - 7;
    for (cap, minutes) in [(5u32, 5u32), (8, 8), (120, 8), (0, 0)] {
        let mut w = World::new();
        let mut s = Scheduler::new();
        w.state.max_on_minutes = cap;
        let message = s
            .check_schedule(
                &mut w.state,
                &mut w.valve,
                &mut w.flow,
                reading(0, 0),
                at(six),
                east(7200),
            )
            .unwrap();
        assert_eq!(message, format!("Schedule: valve OPENED for {minutes}min (06:00)."));
        assert_eq!(w.state.auto_off_at.unwrap().secs(), six + minutes as i64 * 60);
        assert_eq!(w.state.log[0].duration_min, minutes);
    }
}

#[test]
fn no_slot_is_followed_while_the_schedule_is_off_or_the_valve_open() {
    let six = T - 5 * 60 - 7;
    let mut s = Scheduler::new();
    let mut w = World::new();
    w.state.schedule.enabled = false;
    assert!(s
        .check_schedule(&mut w.state, &mut w.valve, &mut w.flow, reading(0, 0), at(six), east(7200))
        .is_none());
    w.state.schedule.enabled = true;
    w.say(on("1"), around(0, 0, six));
    assert!(s
        .check_schedule(&mut w.state, &mut w.valve, &mut w.flow, reading(0, 0), at(six), east(7200))
        .is_none());
    check_auto_off(&mut w.state, &mut w.valve, &w.flow, reading(0, 0), at(six + 60));
    assert!(!w.valve.open);
}
