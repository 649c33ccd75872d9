//! Sessions: opening and closing the valve together with the sensor and the state.
use vstd::prelude::*;

use crate::time;
use crate::flow::{FlowSensor, Liters, Reading};
use crate::state::{AppState, StateView};
use crate::time::Timestamp;
use crate::valve::Valve;

verus! {

/// The state, the valve and the sensor together, in terms of plain values.
#[verifier::ext_equal]
pub struct World {
    pub state: StateView,
    pub valve_open: bool,
    pub flow: FlowSensor,
}

/// What the three hold.
pub open spec fn world(state: AppState, valve: Valve, flow: FlowSensor) -> World {
    World { state: state@, valve_open: valve.open, flow }
}

impl World {
    /// The volume of the session at the given reading.
    pub open spec fn volume(self, reading: Reading) -> Liters {
        Liters { pulses: self.flow.session_pulses(reading) as u64 }
    }

    /// The world in which a session has just begun.
    pub open spec fn opened(
        self,
        reading: Reading,
        now: int,
        minutes: u32,
        source: Seq<char>,
    ) -> World {
        World {
            state: self.state.started(minutes, source, now),
            valve_open: true,
            flow: FlowSensor {
                session_start_count: reading.count,
                session_start: Some(reading.clock),
            },
        }
    }

    /// The world after the valve was closed, which ends a session. Where there was
    /// none, and nothing flowed, no watering gets a volume.
    pub open spec fn closed(self, reading: Reading) -> World {
        World {
            state: if self.state.valve_open || self.volume(reading).pulses > 0 {
                self.state.finished(self.volume(reading))
            } else {
                self.state.idle().to_save()
            },
            valve_open: false,
            flow: self.flow,
        }
    }

    /// The valve stands as the state says, and never stands open without a time
    /// at which it closes by itself.
    pub open spec fn safe(self) -> bool {
        &&& self.valve_open == self.state.valve_open
        &&& self.valve_open ==> self.state.auto_off_at is Some
    }
}

/// Opens the valve for `minutes` minutes.
pub fn open_valve(
    state: &mut AppState,
    valve: &mut Valve,
    flow: &mut FlowSensor,
    reading: Reading,
    now: Timestamp,
    minutes: u32,
    source: &str,
)
    requires
        time::covered(now@ + minutes * time::minute()),
    ensures
        world(*final(state), *final(valve), *final(flow)) == world(
            *old(state),
            *old(valve),
            *old(flow),
        ).opened(reading, now@, minutes, source@),
{
    flow.start_session(reading);
    valve.open();
    state.start_session(now, minutes, source);
}

/// Closes the valve, and ends the session where there is one.
pub fn close_valve(
    state: &mut AppState,
    valve: &mut Valve,
    flow: &FlowSensor,
    reading: Reading,
) -> (liters: Liters)
    ensures
        world(*final(state), *final(valve), *flow) == world(*old(state), *old(valve), *flow).closed(
            reading,
        ),
        liters == world(*old(state), *old(valve), *flow).volume(reading),
{
    let liters = flow.session_liters(reading);
    valve.close();
    if state.valve_open || liters.pulses > 0 {
        state.finish_session(liters);
    } else {
        state.auto_off_at = None;
        state.save();
    }
    liters
}

/// The message with which the daemon starts, which shows the schedule.
pub open spec fn greeting(state: StateView) -> Seq<char> {
    "Irrigator started. Valve OFF.\n\n"@ + state.schedule_listing()
}

/// The message with which the daemon starts.
pub fn startup_text(state: &AppState) -> (message: String)
    ensures
        message@ == greeting(state@),
{
    let listing = state.schedule_text();
    "Irrigator started. Valve OFF.\n\n".to_string().concat(listing.as_str())
}

/// Shuts down: the valve is closed, and the state is to be written.
pub fn shut_down(state: &mut AppState, valve: &mut Valve) -> (message: String)
    ensures
        !final(valve).open,
        final(state)@ == old(state)@.stopped(),
        message@ == "Irrigator shutting down. Valve OFF."@,
{
    valve.close();
    state.valve_open = false;
    state.save();
    "Irrigator shutting down. Valve OFF.".to_string()
}

} // verus!
