//! The scheduler: closes the valve in time, reports the flow, follows the schedule.
use vstd::prelude::*;

use crate::{flow, schedule, session, state, text, time};
use crate::flow::{FlowSensor, Liters, Reading};
use crate::schedule::due_duration;
use crate::session::{close_valve, open_valve};
use crate::state::AppState;
use crate::text::{push_decimal, push_two_digits};
use crate::time::{Timestamp, UtcOffset};
use crate::valve::Valve;

verus! {

/// What the scheduler remembers: the local day, the hour and the minute of the last
/// slot that it followed, and when and what it last reported of the flow.
#[derive(Debug)]
pub struct Scheduler {
    pub last_triggered: Option<(i32, u32, u32)>,
    pub last_flow_report: Option<u64>,
    pub last_reported_liters: Liters,
}

/// Whether the valve is to close by itself.
pub open spec fn expired(state: state::StateView, now: int) -> bool {
    state.valve_open && match state.auto_off_at {
        Some(t) => now >= t,
        None => false,
    }
}

/// The world after the valve's time was checked.
pub open spec fn auto_closed(before: session::World, reading: Reading, now: int) -> session::World {
    if expired(before.state, now) {
        before.closed(reading)
    } else {
        before
    }
}

/// What is said when the valve has closed by itself.
pub open spec fn closing_text(volume: Liters) -> Seq<char> {
    "Auto-off: valve CLOSED. Total: "@ + flow::liters_text(volume.pulses as nat) + "L."@
}

/// What is said of the flow while the valve is open.
pub open spec fn report_text(volume: Liters) -> Seq<char> {
    "Watering... "@ + flow::liters_text(volume.pulses as nat) + "L so far."@
}

/// What is said when a slot has opened the valve.
pub open spec fn opening_text(minutes: u32, now: int, east: int) -> Seq<char> {
    "Schedule: valve OPENED for "@ + text::decimal(minutes as nat) + "min ("@ + time::clock_text(
        now,
        east,
    ) + ")."@
}

/// What is said when the valve's time is checked: nothing where it has not come.
pub open spec fn said_of_closing(before: session::World, reading: Reading, now: int) -> Option<
    Seq<char>,
> {
    if expired(before.state, now) {
        Some(closing_text(before.volume(reading)))
    } else {
        None
    }
}

/// What a message says, where there is one.
pub open spec fn said(message: Option<String>) -> Option<Seq<char>> {
    match message {
        Some(m) => Some(m@),
        None => None,
    }
}

/// Closes the valve once its time has come, and says so.
pub fn check_auto_off(
    state: &mut AppState,
    valve: &mut Valve,
    flow: &FlowSensor,
    reading: Reading,
    now: Timestamp,
) -> (message: Option<String>)
    ensures
        ({
            let before = session::world(*old(state), *old(valve), *flow);
            let after = session::world(*final(state), *final(valve), *flow);
            &&& after == auto_closed(before, reading, now@)
            &&& said(message) == said_of_closing(before, reading, now@)
        }),
{
    if !state.valve_open {
        return None;
    }
    match state.auto_off_at {
        Some(off_at) => {
            if !now.reached(&off_at) {
                return None;
            }
        },
        None => return None,
    }
    let liters = close_valve(state, valve, flow, reading);
    let mut message = "Auto-off: valve CLOSED. Total: ".to_string();
    let shown = liters.text();
    message.append(shown.as_str());
    message.append("L.");
    Some(message)
}

/// The minutes for which a slot may open the valve: its own, as far as the cap on
/// durations goes.
pub open spec fn capped(duration_min: u32, max_on_minutes: u32) -> u32 {
    if duration_min > max_on_minutes {
        max_on_minutes
    } else {
        duration_min
    }
}

impl Scheduler {
    /// A scheduler that has followed and reported nothing yet.
    pub fn new() -> (scheduler: Scheduler)
        ensures
            scheduler == (Scheduler {
                last_triggered: None,
                last_flow_report: None,
                last_reported_liters: Liters { pulses: 0 },
            }),
    {
        Scheduler {
            last_triggered: None,
            last_flow_report: None,
            last_reported_liters: Liters { pulses: 0 },
        }
    }

    /// The whole seconds since the last report of the flow.
    pub open spec fn secs_since_report(self, clock: u64) -> int {
        match self.last_flow_report {
            Some(t) => if clock >= t {
                (clock - t) / 1_000_000_000
            } else {
                0
            },
            None => 0,
        }
    }

    /// Whether the flow is to be reported: two minutes after the last report, or
    /// five litres.
    pub open spec fn report_due(self, liters: Liters, clock: u64) -> bool {
        ||| self.secs_since_report(clock) >= 120
        ||| liters.pulses - self.last_reported_liters.pulses >= 5 * flow::PULSES_PER_LITER
    }

    /// The volume that is to be reported, where the valve is open and a report is due.
    pub open spec fn to_report(
        self,
        state: state::StateView,
        flow: FlowSensor,
        reading: Reading,
    ) -> Option<Liters> {
        let volume = Liters { pulses: flow.session_pulses(reading) as u64 };
        if state.valve_open && self.report_due(volume, reading.clock) {
            Some(volume)
        } else {
            None
        }
    }

    /// The scheduler after a report of the flow.
    pub open spec fn noted(self, clock: u64, liters: Liters) -> Scheduler {
        Scheduler { last_flow_report: Some(clock), last_reported_liters: liters, ..self }
    }

    /// Says what has flowed, where the valve is open and a report is due.
    pub fn flow_report(&self, state: &AppState, flow: &FlowSensor, reading: Reading) -> (report:
        Option<(String, Liters)>)
        ensures
            match report {
                Some((message, liters)) => {
                    &&& self.to_report(state@, *flow, reading) == Some(liters)
                    &&& message@ == report_text(liters)
                },
                None => self.to_report(state@, *flow, reading) is None,
            },
    {
        if !state.valve_open {
            return None;
        }
        let liters = flow.session_liters(reading);
        let elapsed: u64 = match self.last_flow_report {
            Some(t) => if reading.clock >= t {
                (reading.clock - t) / 1_000_000_000
            } else {
                0
            },
            None => 0,
        };
        let risen = liters.pulses as u128 >= self.last_reported_liters.pulses as u128 + 5
            * flow::PULSES_PER_LITER as u128;
        if elapsed >= 120 || risen {
            let mut message = "Watering... ".to_string();
            let shown = liters.text();
            message.append(shown.as_str());
            message.append("L so far.");
            Some((message, liters))
        } else {
            None
        }
    }

    /// Remembers a report of the flow.
    pub fn note_report(&mut self, clock: u64, liters: Liters)
        ensures
            *final(self) == old(self).noted(clock, liters),
    {
        self.last_flow_report = Some(clock);
        self.last_reported_liters = liters;
    }

    /// Whether the slot of a day, an hour and a minute was the last one followed.
    pub open spec fn has_followed(self, day: int, hour: u32, minute: u32) -> bool {
        match self.last_triggered {
            Some((d, h, m)) => d == day && h == hour && m == minute,
            None => false,
        }
    }

    /// The minutes for which the schedule opens the valve when the local clock
    /// shows `day`, `hour` and `minute`: those of the slot that is due, as far as
    /// the cap on durations goes; and none where the schedule is off, the valve is
    /// open, no slot is due, or the slot of that day and time was the last one
    /// followed.
    pub open spec fn triggers(
        self,
        state: state::StateView,
        day: int,
        hour: u32,
        minute: u32,
    ) -> Option<u32> {
        if state.enabled && !state.valve_open && !self.has_followed(day, hour, minute) {
            match schedule::due(state.slots, hour, minute) {
                Some(d) => Some(capped(d, state.max_on_minutes)),
                None => None,
            }
        } else {
            None
        }
    }

    /// The minutes for which the schedule opens the valve at `now`, on a clock
    /// `east` seconds ahead of UTC.
    pub open spec fn triggers_at(self, state: state::StateView, now: int, east: int) -> Option<
        u32,
    > {
        let m = time::local_minute(now, east);
        self.triggers(state, time::local_day(now, east), (m / 60) as u32, (m % 60) as u32)
    }

    /// The world after the schedule was checked.
    pub open spec fn scheduled(
        self,
        before: session::World,
        reading: Reading,
        now: int,
        east: int,
    ) -> session::World {
        match self.triggers_at(before.state, now, east) {
            Some(d) => before.opened(reading, now, d, "schedule"@),
            None => before,
        }
    }

    /// What is said when the schedule is checked: nothing where it opens nothing.
    pub open spec fn said_of_opening(self, state: state::StateView, now: int, east: int) -> Option<
        Seq<char>,
    > {
        match self.triggers_at(state, now, east) {
            Some(d) => Some(opening_text(d, now, east)),
            None => None,
        }
    }

    /// Whether the last thing that the scheduler did was to follow a slot at `now`,
    /// on a clock `east` seconds ahead of UTC: the reports of the flow start anew.
    pub open spec fn just_followed(self, now: int, east: int, clock: u64) -> bool {
        let m = time::local_minute(now, east);
        &&& self.has_followed(time::local_day(now, east), (m / 60) as u32, (m % 60) as u32)
        &&& self.last_flow_report == Some(clock)
        &&& self.last_reported_liters == (Liters { pulses: 0 })
    }

    /// Opens the valve where a slot is due, and says so.
    pub fn check_schedule(
        &mut self,
        state: &mut AppState,
        valve: &mut Valve,
        flow: &mut FlowSensor,
        reading: Reading,
        now: Timestamp,
        offset: UtcOffset,
    ) -> (message: Option<String>)
        requires
            match old(self).triggers_at(old(state)@, now@, offset@) {
                Some(d) => time::covered(now@ + d * time::minute()),
                None => true,
            },
        ensures
            ({
                let before = session::world(*old(state), *old(valve), *old(flow));
                let after = session::world(*final(state), *final(valve), *final(flow));
                &&& after == old(self).scheduled(before, reading, now@, offset@)
                &&& said(message) == old(self).said_of_opening(before.state, now@, offset@)
                &&& match old(self).triggers_at(before.state, now@, offset@) {
                    Some(_) => final(self).just_followed(now@, offset@, reading.clock),
                    None => *final(self) == *old(self),
                }
            }),
    {
        if !state.schedule.enabled || state.valve_open {
            return None;
        }
        let day: i32 = now.local_day(&offset);
        let (hour, minute) = now.local_time(&offset);
        let slot_min: u32 = match due_duration(&state.schedule.slots, hour, minute) {
            Some(d) => d,
            None => return None,
        };
        match self.last_triggered {
            Some((d, h, m)) => {
                if d == day && h == hour && m == minute {
                    return None;
                }
            },
            None => {},
        }
        let duration_min: u32 = if slot_min > state.max_on_minutes {
            state.max_on_minutes
        } else {
            slot_min
        };
        open_valve(state, valve, flow, reading, now, duration_min, "schedule");
        self.last_triggered = Some((day, hour, minute));
        self.last_flow_report = Some(reading.clock);
        self.last_reported_liters = Liters { pulses: 0 };
        let mut message = "Schedule: valve OPENED for ".to_string();
        push_decimal(&mut message, duration_min as u64);
        message.append("min (");
        let ghost so_far = message@;
        push_two_digits(&mut message, hour as u64);
        message.append(":");
        push_two_digits(&mut message, minute as u64);
        assert(message@ == so_far + time::clock_text(now@, offset@));
        message.append(").");
        Some(message)
    }
}

} // verus!
