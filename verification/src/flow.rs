//! The flow sensor: volumes counted in its pulses, and the current session.
use vstd::prelude::*;

use crate::text;
use crate::text::push_decimal;

verus! {

/// The pulses that the sensor gives for a litre.
pub const PULSES_PER_LITER: u64 = 617;

/// A volume of water, in pulses of the sensor.
#[derive(Clone, Copy, Debug, PartialEq, Eq, Structural)]
pub struct Liters {
    pub pulses: u64,
}

/// The tenths of a litre that come nearest to `pulses`.
pub open spec fn tenths(pulses: nat) -> nat {
    ((20 * pulses + PULSES_PER_LITER) / (2 * PULSES_PER_LITER as int)) as nat
}

/// A volume in litres with one decimal place, such as `7.3`.
pub open spec fn liters_text(pulses: nat) -> Seq<char> {
    text::decimal(tenths(pulses) / 10) + "."@ + text::decimal(tenths(pulses) % 10)
}

/// No other number of tenths of a litre comes as near to a volume as the one
/// that is shown.
pub proof fn shown_tenths_are_nearest(pulses: nat, other: int)
    requires
        other != tenths(pulses),
    ensures
        ({
            let shown = PULSES_PER_LITER * tenths(pulses) - 10 * pulses;
            let off = PULSES_PER_LITER * other - 10 * pulses;
            (if shown < 0 {
                -shown
            } else {
                shown
            }) < (if off < 0 {
                -off
            } else {
                off
            })
        }),
{
    let t = tenths(pulses) as int;
    assert(t == (20 * pulses + 617) / 1234);
    assert(PULSES_PER_LITER * t == 617 * t) by (nonlinear_arith);
    assert(PULSES_PER_LITER * other == 617 * other) by (nonlinear_arith);
}

impl Liters {
    /// The volume in litres, with one decimal place.
    pub fn text(&self) -> (out: String)
        ensures
            out@ == liters_text(self.pulses as nat),
    {
        let per_liter: u128 = PULSES_PER_LITER as u128;
        let t: u64 = ((20 * (self.pulses as u128) + per_liter) / (2 * per_liter)) as u64;
        let mut out = String::new();
        push_decimal(&mut out, t / 10);
        out.append(".");
        push_decimal(&mut out, t % 10);
        assert(out@ == liters_text(self.pulses as nat));
        out
    }

    /// The two volumes together, as far as they can be counted.
    pub open spec fn added(self, more: Liters) -> Liters {
        if self.pulses + more.pulses > u64::MAX {
            Liters { pulses: u64::MAX }
        } else {
            Liters { pulses: (self.pulses + more.pulses) as u64 }
        }
    }

    /// Adds up two volumes.
    pub fn plus(&self, more: Liters) -> (sum: Liters)
        ensures
            sum == self.added(more),
    {
        if self.pulses > u64::MAX - more.pulses {
            Liters { pulses: u64::MAX }
        } else {
            Liters { pulses: self.pulses + more.pulses }
        }
    }
}

/// A flow: what went through in a number of seconds.
#[derive(Clone, Copy, Debug, PartialEq, Eq, Structural)]
pub struct FlowRate {
    pub pulses: u64,
    pub secs: u64,
}

impl FlowRate {
    /// Whether this flow is stronger than `other`.
    pub open spec fn stronger(self, other: FlowRate) -> bool {
        self.pulses * other.secs > other.pulses * self.secs
    }

    /// Tells whether this flow is stronger than `other`.
    pub fn exceeds(&self, other: &FlowRate) -> (yes: bool)
        ensures
            yes == self.stronger(*other),
    {
        proof {
            lemma_product_fits(self.pulses, other.secs);
            lemma_product_fits(other.pulses, self.secs);
        }
        self.pulses as u128 * other.secs as u128 > other.pulses as u128 * self.secs as u128
    }
}

proof fn lemma_product_fits(a: u64, b: u64)
    ensures
        0 <= a * b <= u128::MAX,
{
    assert(0 <= a * b <= 0xffff_ffff_ffff_ffff * 0xffff_ffff_ffff_ffff) by (nonlinear_arith)
        requires
            0 <= a <= 0xffff_ffff_ffff_ffff,
            0 <= b <= 0xffff_ffff_ffff_ffff,
    ;
}

/// What the sensor's counter and the steady clock show at one moment: the pulses
/// counted so far, and the nanoseconds since the daemon started.
#[derive(Clone, Copy, Debug, PartialEq, Eq, Structural)]
pub struct Reading {
    pub count: u64,
    pub clock: u64,
}

/// The session that the sensor measures: the count and the time at its start.
#[derive(Debug, PartialEq, Eq, Structural)]
pub struct FlowSensor {
    pub session_start_count: u64,
    pub session_start: Option<u64>,
}

impl FlowSensor {
    /// The pulses counted since the session started.
    pub open spec fn session_pulses(self, reading: Reading) -> nat {
        if reading.count >= self.session_start_count {
            (reading.count - self.session_start_count) as nat
        } else {
            0
        }
    }

    /// The whole seconds since the session started.
    pub open spec fn session_secs(self, reading: Reading) -> nat {
        match self.session_start {
            Some(start) => if reading.clock >= start {
                ((reading.clock - start) / 1_000_000_000) as nat
            } else {
                0
            },
            None => 0,
        }
    }

    /// Whether so little flows that something is wrong: the session has run for
    /// half a minute or more, with less than a twentieth of a litre per minute.
    pub open spec fn starved(self, reading: Reading) -> bool {
        let secs = self.session_secs(reading);
        secs >= 30 && 20 * 60 * self.session_pulses(reading) < PULSES_PER_LITER * secs
    }

    /// A sensor that has counted nothing yet.
    pub fn new() -> (sensor: FlowSensor)
        ensures
            sensor == (FlowSensor { session_start_count: 0, session_start: None }),
    {
        FlowSensor { session_start_count: 0, session_start: None }
    }

    /// Starts a session: volumes are counted from here.
    pub fn start_session(&mut self, reading: Reading)
        ensures
            *final(self) == (FlowSensor {
                session_start_count: reading.count,
                session_start: Some(reading.clock),
            }),
    {
        self.session_start_count = reading.count;
        self.session_start = Some(reading.clock);
    }

    /// The volume that has flowed since the session started.
    pub fn session_liters(&self, reading: Reading) -> (liters: Liters)
        ensures
            liters.pulses == self.session_pulses(reading),
    {
        if reading.count >= self.session_start_count {
            Liters { pulses: reading.count - self.session_start_count }
        } else {
            Liters { pulses: 0 }
        }
    }

    /// The whole seconds since the session started.
    pub fn session_elapsed_secs(&self, reading: Reading) -> (secs: u64)
        ensures
            secs == self.session_secs(reading),
    {
        match self.session_start {
            Some(start) => if reading.clock >= start {
                (reading.clock - start) / 1_000_000_000
            } else {
                0
            },
            None => 0,
        }
    }

    /// The flow of the session.
    pub fn session_flow_lpm(&self, reading: Reading) -> (flow: FlowRate)
        ensures
            flow.pulses == self.session_pulses(reading),
            flow.secs == self.session_secs(reading),
    {
        FlowRate {
            pulses: self.session_liters(reading).pulses,
            secs: self.session_elapsed_secs(reading),
        }
    }

    /// Tells whether so little flows that something is wrong.
    pub fn is_starved(&self, reading: Reading) -> (yes: bool)
        ensures
            yes == self.starved(reading),
    {
        let secs: u64 = self.session_elapsed_secs(reading);
        let liters = self.session_liters(reading);
        proof {
            lemma_product_fits(PULSES_PER_LITER, secs);
        }
        secs >= 30 && 1200 * (liters.pulses as u128) < PULSES_PER_LITER as u128 * secs as u128
    }
}

} // verus!
