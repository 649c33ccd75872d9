//! The daemon's state: the valve's session, the schedule, and the log of waterings.
use vstd::prelude::*;

use crate::{flow, schedule, target, text, time};
use crate::flow::Liters;
use crate::schedule::{next_slot, Schedule, Slot};
use crate::text::{push_decimal, push_signed, push_two_digits};
use crate::time::{whole_units, Timestamp, UtcOffset};

verus! {

/// The number of waterings that the log keeps.
pub const MAX_LOG_ENTRIES: usize = 50;

/// One watering: when it started, how long it was to last, who asked for it, and
/// how much flowed, where that was measured.
#[derive(Debug)]
pub struct WateringEvent {
    pub timestamp: Timestamp,
    pub duration_min: u32,
    pub source: String,
    pub volume_liters: Option<Liters>,
}

/// What a watering is, in terms of plain values.
#[verifier::ext_equal]
pub struct EventView {
    pub timestamp: int,
    pub duration_min: u32,
    pub source: Seq<char>,
    pub volume: Option<Liters>,
}

impl View for WateringEvent {
    type V = EventView;

    open spec fn view(&self) -> EventView {
        EventView {
            timestamp: self.timestamp@,
            duration_min: self.duration_min,
            source: self.source@,
            volume: self.volume_liters,
        }
    }
}

impl Clone for WateringEvent {
    fn clone(&self) -> (copy: Self)
        ensures
            copy@ == self@,
    {
        WateringEvent {
            timestamp: self.timestamp,
            duration_min: self.duration_min,
            source: self.source.clone(),
            volume_liters: self.volume_liters,
        }
    }
}

/// The daemon's state.
#[derive(Debug)]
pub struct AppState {
    pub valve_open: bool,
    pub auto_off_at: Option<Timestamp>,
    pub schedule: Schedule,
    pub max_on_minutes: u32,
    pub relay_pin: u8,
    pub flow_pin: u8,
    pub lifetime_liters: Liters,
    /// The daily target in litres, as the bit pattern of a double-precision number.
    pub daily_target_liters: u64,
    pub log: Vec<WateringEvent>,
    pub boot_time: Timestamp,
    pub state_path: String,
    /// Whether the state is to be written to its file.
    pub unsaved: bool,
}

/// What the state is, in terms of plain values.
#[verifier::ext_equal]
pub struct StateView {
    pub valve_open: bool,
    pub auto_off_at: Option<int>,
    pub slots: Seq<Slot>,
    pub enabled: bool,
    pub max_on_minutes: u32,
    pub relay_pin: u8,
    pub flow_pin: u8,
    pub lifetime: Liters,
    pub daily_target: u64,
    pub log: Seq<EventView>,
    pub boot_time: int,
    pub state_path: Seq<char>,
    pub unsaved: bool,
}

/// The waterings of a log.
pub open spec fn events(log: Seq<WateringEvent>) -> Seq<EventView> {
    log.map_values(|e: WateringEvent| e@)
}

impl View for AppState {
    type V = StateView;

    open spec fn view(&self) -> StateView {
        StateView {
            valve_open: self.valve_open,
            auto_off_at: match self.auto_off_at {
                Some(t) => Some(t@),
                None => None,
            },
            slots: self.schedule.slots@,
            enabled: self.schedule.enabled,
            max_on_minutes: self.max_on_minutes,
            relay_pin: self.relay_pin,
            flow_pin: self.flow_pin,
            lifetime: self.lifetime_liters,
            daily_target: self.daily_target_liters,
            log: events(self.log@),
            boot_time: self.boot_time@,
            state_path: self.state_path@,
            unsaved: self.unsaved,
        }
    }
}

/// The newest waterings of a log, as many as are kept.
pub open spec fn kept(log: Seq<EventView>) -> Seq<EventView> {
    if log.len() > MAX_LOG_ENTRIES {
        log.skip(log.len() - MAX_LOG_ENTRIES)
    } else {
        log
    }
}

/// The file that the state is kept in: the system's, where it is there.
pub open spec fn state_file(system_file: bool) -> Seq<char> {
    if system_file {
        "/etc/irrigator/state.json"@
    } else {
        "./state.json"@
    }
}

/// Names the file that the state is kept in.
pub fn state_path(system_file: bool) -> (path: &'static str)
    ensures
        path@ == state_file(system_file),
{
    if system_file {
        "/etc/irrigator/state.json"
    } else {
        "./state.json"
    }
}

/// The pin of the flow sensor where no other is given.
pub fn default_flow_pin() -> (pin: u8)
    ensures
        pin == 22,
{
    22
}

/// The daily target where no other is given: forty litres.
pub fn default_daily_target() -> (bits: u64)
    ensures
        bits == target::FORTY,
{
    target::FORTY
}

impl StateView {
    /// The state of a daemon that has never run before.
    pub open spec fn fresh(now: int) -> StateView {
        StateView {
            valve_open: false,
            auto_off_at: None,
            slots: schedule::default_slots(),
            enabled: true,
            max_on_minutes: 120,
            relay_pin: 17,
            flow_pin: 22,
            lifetime: Liters { pulses: 0 },
            daily_target: target::FORTY,
            log: Seq::empty(),
            boot_time: now,
            state_path: state_file(false),
            unsaved: false,
        }
    }

    /// The state in which a daemon starts from what was stored.
    pub open spec fn resumed(self, system_file: bool, now: int) -> StateView {
        StateView {
            valve_open: false,
            auto_off_at: None,
            boot_time: now,
            state_path: state_file(system_file),
            unsaved: false,
            ..self
        }
    }

    /// The state in which a daemon starts, from what its file held, where that could
    /// be read.
    pub open spec fn loaded(
        stored: Option<StateView>,
        system_file: bool,
        now: int,
    ) -> StateView {
        match stored {
            Some(s) => s.resumed(system_file, now),
            None => StateView::fresh(now).resumed(system_file, now),
        }
    }

    /// The state, to be written to its file.
    pub open spec fn to_save(self) -> StateView {
        StateView { unsaved: true, ..self }
    }

    /// The state with one more watering in its log.
    pub open spec fn recorded(self, event: EventView) -> StateView {
        StateView { log: kept(self.log.push(event)), ..self }.to_save()
    }

    /// The state in which a session of `duration_min` minutes has just begun.
    pub open spec fn started(self, duration_min: u32, source: Seq<char>, now: int) -> StateView {
        StateView {
            valve_open: true,
            auto_off_at: Some(now + duration_min * time::minute()),
            ..self
        }.recorded(EventView { timestamp: now, duration_min, source, volume: None })
    }

    /// The state after a volume was measured: it counts towards the lifetime
    /// total and belongs to the last watering. Where nothing flowed, a volume that
    /// the watering already has stays.
    pub open spec fn measured(self, liters: Liters) -> StateView {
        StateView {
            lifetime: self.lifetime.added(liters),
            log: if self.log.len() > 0 && (liters.pulses > 0 || self.log.last().volume is None) {
                self.log.update(
                    self.log.len() - 1,
                    EventView { volume: Some(liters), ..self.log.last() },
                )
            } else {
                self.log
            },
            ..self
        }.to_save()
    }

    /// The state with no session.
    pub open spec fn idle(self) -> StateView {
        StateView { valve_open: false, auto_off_at: None, ..self }
    }

    /// The state after the end of a session in which `liters` flowed.
    pub open spec fn finished(self, liters: Liters) -> StateView {
        self.idle().measured(liters)
    }

    /// The state in which the daemon stops.
    pub open spec fn stopped(self) -> StateView {
        StateView { valve_open: false, ..self }.to_save()
    }

    /// The state with the schedule switched on or off.
    pub open spec fn switched(self, enabled: bool) -> StateView {
        StateView { enabled, ..self }.to_save()
    }

    /// The slot that comes next, as it is shown to people.
    pub open spec fn next_text(self, minute: int) -> Seq<char> {
        match schedule::upcoming(self.slots, minute) {
            Some((slot, today)) => text::two_digits(slot.hour as nat) + ":"@
                + text::two_digits(slot.minute as nat) + (if today {
                " today"@
            } else {
                " tomorrow"@
            }),
            None => "none"@,
        }
    }

    /// The time left until the valve closes by itself, as it is shown to people.
    pub open spec fn auto_off_text(self, now: int) -> Seq<char> {
        match self.auto_off_at {
            Some(t) => text::signed_decimal(
                time::whole(time::whole(t - now, time::second()), 60),
            ) + "min remaining"@,
            None => "—"@,
        }
    }

    /// The last watering, as it is shown to people.
    pub open spec fn last_text(self, east: int) -> Seq<char> {
        if self.log.len() == 0 {
            "none"@
        } else {
            let e = self.log.last();
            time::clock_text(e.timestamp, east) + " ("@ + text::decimal(
                e.duration_min as nat,
            ) + "min, "@ + e.source + (match e.volume {
                Some(v) => ", "@ + flow::liters_text(v.pulses as nat) + "L"@,
                None => ""@,
            }) + ")"@
        }
    }

    /// The state as it is shown to people, on a clock `east` seconds ahead of
    /// UTC now, and `last_east` seconds at the time of the last watering.
    pub open spec fn status(self, now: int, east: int, last_east: int) -> Seq<char> {
        let up = time::whole(now - self.boot_time, time::second());
        "Valve: "@ + (if self.valve_open {
            "OPEN"@
        } else {
            "CLOSED"@
        }) + "\nAuto-off: "@ + self.auto_off_text(now) + "\nSchedule: "@ + on_off(self.enabled)
            + "\nNext: "@ + (if self.enabled {
            self.next_text(time::local_minute(now, east))
        } else {
            "schedule disabled"@
        }) + "\nUptime: "@ + text::signed_decimal(time::whole(up, 3600)) + "h "@
            + text::signed_decimal(time::rest(time::whole(up, 60), 60))
            + "m\nTime: "@ + time::zoned_clock_text(now, east) + "\nLast watering: "@
            + self.last_text(last_east)
    }

    /// The schedule as it is shown to people.
    pub open spec fn schedule_listing(self) -> Seq<char> {
        if self.slots.len() == 0 {
            "No schedule configured."@
        } else {
            "Schedule ("@ + on_off(self.enabled) + ")\n"@ + slot_lines(self.slots)
        }
    }
}

/// The word for a schedule that is followed, or is not.
pub open spec fn on_off(enabled: bool) -> Seq<char> {
    if enabled {
        "enabled"@
    } else {
        "disabled"@
    }
}

/// One numbered line for each slot.
pub open spec fn slot_lines(slots: Seq<Slot>) -> Seq<char>
    decreases slots.len(),
{
    if slots.len() == 0 {
        Seq::empty()
    } else {
        slot_lines(slots.drop_last()) + "  "@ + text::decimal(slots.len()) + ". "@
            + slots.last().shown() + "\n"@
    }
}

fn enabled_word(enabled: bool) -> (word: &'static str)
    ensures
        word@ == on_off(enabled),
{
    if enabled {
        "enabled"
    } else {
        "disabled"
    }
}

impl AppState {
    /// The state of a daemon that has never run before.
    pub fn new(now: Timestamp) -> (state: AppState)
        ensures
            state@ == StateView::fresh(now@),
    {
        let state = AppState {
            valve_open: false,
            auto_off_at: None,
            schedule: Schedule::default(),
            max_on_minutes: 120,
            relay_pin: 17,
            flow_pin: default_flow_pin(),
            lifetime_liters: Liters { pulses: 0 },
            daily_target_liters: default_daily_target(),
            log: Vec::new(),
            boot_time: now,
            state_path: state_path(false).to_string(),
            unsaved: false,
        };
        assert(state@ == StateView::fresh(now@));
        state
    }

    /// The state in which a daemon starts: from what its file held, where that
    /// could be read, and always with the valve closed.
    pub fn load(stored: Option<AppState>, system_file: bool, now: Timestamp) -> (state: AppState)
        ensures
            state@ == StateView::loaded(
                match stored {
                    Some(s) => Some(s@),
                    None => None,
                },
                system_file,
                now@,
            ),
    {
        let mut state = match stored {
            Some(s) => s,
            None => AppState::new(now),
        };
        state.valve_open = false;
        state.auto_off_at = None;
        state.boot_time = now;
        state.state_path = state_path(system_file).to_string();
        state.unsaved = false;
        state
    }

    /// Marks the state to be written to its file.
    pub fn save(&mut self)
        ensures
            final(self)@ == old(self)@.to_save(),
    {
        self.unsaved = true;
    }

    /// Appends a watering to the log, which keeps the newest ones only.
    pub fn record_watering(
        &mut self,
        now: Timestamp,
        duration_min: u32,
        source: &str,
        volume_liters: Option<Liters>,
    )
        ensures
            final(self)@ == old(self)@.recorded(
                EventView {
                    timestamp: now@,
                    duration_min,
                    source: source@,
                    volume: volume_liters,
                },
            ),
    {
        let event = WateringEvent {
            timestamp: now,
            duration_min,
            source: source.to_string(),
            volume_liters,
        };
        let ghost before = self.log@;
        self.log.push(event);
        assert(events(self.log@) == events(before).push(event@));
        if self.log.len() > MAX_LOG_ENTRIES {
            let surplus: usize = self.log.len() - MAX_LOG_ENTRIES;
            let ghost all = self.log@;
            let newest = self.log.split_off(surplus);
            self.log = newest;
            assert(events(self.log@) == events(all).skip(surplus as int));
        }
        self.save();
    }

    /// Begins a session: the valve counts as open until `duration_min` minutes
    /// from now, and the watering is logged, with no volume yet.
    pub fn start_session(&mut self, now: Timestamp, duration_min: u32, source: &str)
        requires
            time::covered(now@ + duration_min * time::minute()),
        ensures
            final(self)@ == old(self)@.started(duration_min, source@, now@),
    {
        self.valve_open = true;
        self.auto_off_at = Some(now.plus_minutes(duration_min));
        self.record_watering(now, duration_min, source, None);
    }

    /// Adds a measured volume to the lifetime total and to the last watering.
    pub fn update_last_watering_volume(&mut self, final_liters: Liters)
        ensures
            final(self)@ == old(self)@.measured(final_liters),
    {
        self.lifetime_liters = self.lifetime_liters.plus(final_liters);
        let ghost before = self.log@;
        match self.log.pop() {
            Some(mut last) => {
                assert(events(before).last() == last@);
                if final_liters.pulses > 0 || last.volume_liters.is_none() {
                    last.volume_liters = Some(final_liters);
                }
                let ghost event = last@;
                self.log.push(last);
                assert(events(self.log@) == events(before).update(before.len() - 1, event));
            },
            None => {
                assert(self.log@ == before);
            },
        }
        self.save();
    }

    /// Ends a session: the valve counts as closed, and the measured volume is
    /// added to the lifetime total and to the last watering.
    pub fn finish_session(&mut self, final_liters: Liters)
        ensures
            final(self)@ == old(self)@.finished(final_liters),
    {
        self.valve_open = false;
        self.auto_off_at = None;
        self.update_last_watering_volume(final_liters);
    }

    /// The slot that comes next after `minute` of the day.
    pub fn next_scheduled_text(&self, minute: u64) -> (out: String)
        ensures
            out@ == self@.next_text(minute as int),
    {
        match next_slot(&self.schedule.slots, minute) {
            Some((slot, today)) => {
                let mut out = String::new();
                push_two_digits(&mut out, slot.hour as u64);
                out.append(":");
                push_two_digits(&mut out, slot.minute as u64);
                out.append(
                    if today {
                        " today"
                    } else {
                        " tomorrow"
                    },
                );
                assert(out@ == self@.next_text(minute as int));
                out
            },
            None => "none".to_string(),
        }
    }

    fn push_auto_off(&self, out: &mut String, now: Timestamp)
        ensures
            final(out)@ == old(out)@ + self@.auto_off_text(now@),
    {
        match self.auto_off_at {
            Some(t) => {
                push_signed(out, whole_units(t.seconds_since(&now), 60));
                out.append("min remaining");
            },
            None => out.append("—"),
        }
        assert(out@ == old(out)@ + self@.auto_off_text(now@));
    }

    fn push_last(&self, out: &mut String, offset: UtcOffset)
        ensures
            final(out)@ == old(out)@ + self@.last_text(offset@),
    {
        let n: usize = self.log.len();
        if n == 0 {
            out.append("none");
        } else {
            let e = &self.log[n - 1];
            assert(self@.log.last() == e@);
            let clock = e.timestamp.clock(&offset);
            out.append(clock.as_str());
            out.append(" (");
            push_decimal(out, e.duration_min as u64);
            out.append("min, ");
            out.append(e.source.as_str());
            let ghost so_far = out@;
            match e.volume_liters {
                Some(v) => {
                    out.append(", ");
                    let liters = v.text();
                    out.append(liters.as_str());
                    out.append("L");
                    assert(out@ == so_far + (", "@ + flow::liters_text(v.pulses as nat)
                        + "L"@));
                },
                None => {
                    proof {
                        reveal_strlit("");
                    }
                    assert(out@ == so_far + ""@);
                },
            }
            out.append(")");
            assert(out@ == old(out)@ + self@.last_text(offset@));
        }
    }

    /// The state as it is shown to people, on a clock with the given offsets: now,
    /// and at the time of the last watering.
    pub fn status_text(
        &self,
        now: Timestamp,
        offset: UtcOffset,
        last_offset: UtcOffset,
    ) -> (out: String)
        ensures
            out@ == self@.status(now@, offset@, last_offset@),
    {
        let (hour, minute) = now.local_time(&offset);
        let mut out = "Valve: ".to_string();
        out.append(
            if self.valve_open {
                "OPEN"
            } else {
                "CLOSED"
            },
        );
        out.append("\nAuto-off: ");
        self.push_auto_off(&mut out, now);
        out.append("\nSchedule: ");
        out.append(enabled_word(self.schedule.enabled));
        out.append("\nNext: ");
        if self.schedule.enabled {
            let next = self.next_scheduled_text(hour as u64 * 60 + minute as u64);
            out.append(next.as_str());
        } else {
            out.append("schedule disabled");
        }
        let up: i64 = now.seconds_since(&self.boot_time);
        out.append("\nUptime: ");
        push_signed(&mut out, whole_units(up, 3600));
        out.append("h ");
        let minutes: i64 = whole_units(up, 60);
        push_signed(&mut out, minutes - 60 * whole_units(minutes, 60));
        out.append("m\nTime: ");
        let clock = now.zoned_clock(&offset);
        out.append(clock.as_str());
        out.append("\nLast watering: ");
        self.push_last(&mut out, last_offset);
        out
    }

    /// The schedule as it is shown to people.
    pub fn schedule_text(&self) -> (text: String)
        ensures
            text@ == self@.schedule_listing(),
    {
        let slots = &self.schedule.slots;
        if slots.len() == 0 {
            return "No schedule configured.".to_string();
        }
        let mut text = "Schedule (".to_string();
        text.append(enabled_word(self.schedule.enabled));
        text.append(")\n");
        let ghost heading = text@;
        let mut i: usize = 0;
        assert(slots@.take(0) == Seq::<Slot>::empty());
        assert(text@ == heading + slot_lines(slots@.take(0)));
        while i < slots.len()
            invariant
                i <= slots.len(),
                text@ == heading + slot_lines(slots@.take(i as int)),
            decreases slots.len() - i,
        {
            let slot = slots[i];
            text.append("  ");
            push_decimal(&mut text, i as u64 + 1);
            text.append(". ");
            let shown = slot.text();
            text.append(shown.as_str());
            text.append("\n");
            i = i + 1;
            assert(slots@.take(i as int).drop_last() == slots@.take(i - 1));
            assert(slots@.take(i as int).last() == slot);
            assert(text@ == heading + slot_lines(slots@.take(i as int)));
        }
        assert(slots@.take(i as int) == slots@);
        text
    }
}

} // verus!
