//! The web interface: what each request does and what is answered.
use vstd::prelude::*;

use crate::{flow, schedule, session, state, target, text, time};
use crate::flow::{FlowRate, FlowSensor, Liters, Reading};
use crate::schedule::{copy_slots, next_slot, Schedule, Slot};
use crate::session::{close_valve, open_valve};
use crate::state::{AppState, EventView, WateringEvent};
use crate::text::push_decimal;
use crate::time::{format_day, whole_units, Timestamp, UtcOffset};
use crate::valve::Valve;

verus! {

/// The answer that the daemon is alive.
#[derive(Debug)]
pub struct HealthDto {
    pub ok: bool,
    pub version: String,
    pub valve_open: bool,
}

/// Whether an answer says that the daemon is alive, of which version, and how its
/// valve stands.
pub open spec fn says_alive(dto: HealthDto, version: Seq<char>, valve_open: bool) -> bool {
    dto.ok && dto.version@ == version && dto.valve_open == valve_open
}

/// Answers that the daemon is alive.
pub fn handle_health(state: &AppState, version: &str) -> (dto: HealthDto)
    ensures
        says_alive(dto, version@, state@.valve_open),
{
    HealthDto { ok: true, version: version.to_string(), valve_open: state.valve_open }
}

/// The slot that comes next.
#[derive(Debug)]
pub struct NextSlotDto {
    pub hour: u32,
    pub minute: u32,
    pub duration_min: u32,
    pub when: &'static str,
}

/// Whether a slot is the one that comes next after `minute` of the day.
pub open spec fn is_next(next: Option<NextSlotDto>, slots: Seq<Slot>, minute: int) -> bool {
    match (next, schedule::upcoming(slots, minute)) {
        (Some(dto), Some((slot, today))) => {
            &&& dto.hour == slot.hour
            &&& dto.minute == slot.minute
            &&& dto.duration_min == slot.duration_min
            &&& dto.when@ == if today {
                "today"@
            } else {
                "tomorrow"@
            }
        },
        (None, None) => true,
        _ => false,
    }
}

/// Finds the slot that comes next on a clock with the given offset.
pub fn next_slot_from(state: &AppState, now: Timestamp, offset: UtcOffset) -> (next: Option<
    NextSlotDto,
>)
    ensures
        is_next(next, state@.slots, time::local_minute(now@, offset@)),
{
    let (hour, minute) = now.local_time(&offset);
    match next_slot(&state.schedule.slots, hour as u64 * 60 + minute as u64) {
        Some((slot, today)) => Some(
            NextSlotDto {
                hour: slot.hour,
                minute: slot.minute,
                duration_min: slot.duration_min,
                when: if today {
                    "today"
                } else {
                    "tomorrow"
                },
            },
        ),
        None => None,
    }
}

/// The answer to the question how things stand.
#[derive(Debug)]
pub struct StatusDto {
    pub valve_open: bool,
    pub auto_off_at: Option<Timestamp>,
    pub auto_off_seconds_remaining: Option<i64>,
    pub session_liters: Liters,
    pub session_seconds: u64,
    pub session_flow_lpm: FlowRate,
    pub session_source: Option<String>,
    pub schedule_enabled: bool,
    pub next_slot: Option<NextSlotDto>,
    pub boot_time: Timestamp,
    pub uptime_seconds: i64,
    pub now: Timestamp,
    pub server_tz_offset_minutes: i32,
    pub anomaly: bool,
}

/// Whether an answer says how things stand.
pub open spec fn says_how_things_stand(
    dto: StatusDto,
    state: state::StateView,
    flow: FlowSensor,
    reading: Reading,
    now: int,
    east: int,
) -> bool {
    &&& dto.valve_open == state.valve_open
    &&& match (dto.auto_off_at, dto.auto_off_seconds_remaining, state.auto_off_at) {
        (Some(shown), Some(secs), Some(t)) => shown@ == t && secs == time::whole(
            t - now,
            time::second(),
        ),
        (None, None, None) => true,
        _ => false,
    }
    &&& dto.session_liters.pulses == if state.valve_open {
        flow.session_pulses(reading)
    } else {
        0
    }
    &&& dto.session_seconds == if state.valve_open {
        flow.session_secs(reading)
    } else {
        0
    }
    &&& dto.session_flow_lpm == (FlowRate {
        pulses: dto.session_liters.pulses,
        secs: dto.session_seconds,
    })
    &&& match dto.session_source {
        Some(source) => state.valve_open && state.log.len() > 0 && source@
            == state.log.last().source,
        None => !(state.valve_open && state.log.len() > 0),
    }
    &&& dto.schedule_enabled == state.enabled
    &&& if state.enabled {
        is_next(dto.next_slot, state.slots, time::local_minute(now, east))
    } else {
        dto.next_slot is None
    }
    &&& dto.boot_time@ == state.boot_time
    &&& dto.uptime_seconds == time::whole(now - state.boot_time, time::second())
    &&& dto.now@ == now
    &&& dto.server_tz_offset_minutes == time::whole(east, 60)
    &&& dto.anomaly == (state.valve_open && flow.starved(reading))
}

/// Answers how things stand.
pub fn handle_status(
    state: &AppState,
    flow: &FlowSensor,
    reading: Reading,
    now: Timestamp,
    offset: UtcOffset,
) -> (dto: StatusDto)
    ensures
        says_how_things_stand(dto, state@, *flow, reading, now@, offset@),
        dto.auto_off_at == state.auto_off_at,
        dto.boot_time == state.boot_time,
        dto.now == now,
{
    let next = if state.schedule.enabled {
        next_slot_from(state, now, offset)
    } else {
        None
    };
    let entries: usize = state.log.len();
    let source = if state.valve_open && entries > 0 {
        assert(state@.log.last() == state.log@.last()@);
        Some(state.log[entries - 1].source.clone())
    } else {
        None
    };
    let session = if state.valve_open {
        flow.session_flow_lpm(reading)
    } else {
        FlowRate { pulses: 0, secs: 0 }
    };
    let remaining: Option<i64> = match state.auto_off_at {
        Some(t) => Some(t.seconds_since(&now)),
        None => None,
    };
    StatusDto {
        valve_open: state.valve_open,
        auto_off_at: state.auto_off_at,
        auto_off_seconds_remaining: remaining,
        session_liters: Liters { pulses: session.pulses },
        session_seconds: session.secs,
        session_flow_lpm: session,
        session_source: source,
        schedule_enabled: state.schedule.enabled,
        next_slot: next,
        boot_time: state.boot_time,
        uptime_seconds: now.seconds_since(&state.boot_time),
        now,
        server_tz_offset_minutes: whole_units(offset.seconds() as i64, 60) as i32,
        anomaly: state.valve_open && flow.is_starved(reading),
    }
}

/// What the waterings of one day come to.
#[derive(Clone, Copy, Debug, PartialEq, Eq, Structural)]
pub struct DayTotals {
    pub sessions: usize,
    pub pulses: u128,
    pub minutes: u128,
}

/// The pulses of a watering: none where they were not measured.
pub open spec fn pulses_of(event: EventView) -> int {
    match event.volume {
        Some(v) => v.pulses as int,
        None => 0,
    }
}

/// Whether the local clock showed `day` at the time of a watering, where it was
/// `offset` ahead of UTC.
pub open spec fn on_day(event: EventView, offset: UtcOffset, day: int) -> bool {
    time::local_day(event.timestamp, offset@) == day
}

/// The number of waterings on a day.
pub open spec fn sessions_on(log: Seq<EventView>, offsets: Seq<UtcOffset>, day: int) -> int
    decreases log.len(),
{
    if log.len() == 0 {
        0
    } else {
        sessions_on(log.drop_last(), offsets, day) + if on_day(
            log.last(),
            offsets[log.len() - 1],
            day,
        ) {
            1int
        } else {
            0
        }
    }
}

/// The pulses measured on a day.
pub open spec fn pulses_on(log: Seq<EventView>, offsets: Seq<UtcOffset>, day: int) -> int
    decreases log.len(),
{
    if log.len() == 0 {
        0
    } else {
        pulses_on(log.drop_last(), offsets, day) + if on_day(
            log.last(),
            offsets[log.len() - 1],
            day,
        ) {
            pulses_of(log.last())
        } else {
            0
        }
    }
}

/// The minutes of the waterings on a day.
pub open spec fn minutes_on(log: Seq<EventView>, offsets: Seq<UtcOffset>, day: int) -> int
    decreases log.len(),
{
    if log.len() == 0 {
        0
    } else {
        minutes_on(log.drop_last(), offsets, day) + if on_day(
            log.last(),
            offsets[log.len() - 1],
            day,
        ) {
            log.last().duration_min as int
        } else {
            0
        }
    }
}

/// Whether the totals are those of a day.
pub open spec fn totals_of(
    totals: DayTotals,
    log: Seq<EventView>,
    offsets: Seq<UtcOffset>,
    day: int,
) -> bool {
    &&& totals.sessions == sessions_on(log, offsets, day)
    &&& totals.pulses == pulses_on(log, offsets, day)
    &&& totals.minutes == minutes_on(log, offsets, day)
}

fn day_totals(log: &Vec<WateringEvent>, offsets: &Vec<UtcOffset>, day: i32) -> (totals: DayTotals)
    requires
        offsets.len() == log.len(),
    ensures
        totals_of(totals, state::events(log@), offsets@, day as int),
{
    let ghost all = state::events(log@);
    let mut totals = DayTotals { sessions: 0, pulses: 0, minutes: 0 };
    let mut i: usize = 0;
    assert(all.take(0) == Seq::<EventView>::empty());
    while i < log.len()
        invariant
            i <= log.len(),
            offsets.len() == log.len(),
            all == state::events(log@),
            totals_of(totals, all.take(i as int), offsets@, day as int),
            totals.sessions <= i,
            totals.pulses <= i * 0xffff_ffff_ffff_ffff,
            totals.minutes <= i * 0xffff_ffff,
        decreases log.len() - i,
    {
        let e = &log[i];
        assert(all.take(i + 1).drop_last() == all.take(i as int));
        assert(all.take(i + 1).last() == e@);
        if e.timestamp.local_day(&offsets[i]) == day {
            let pulses: u64 = match e.volume_liters {
                Some(v) => v.pulses,
                None => 0,
            };
            totals =
            DayTotals {
                sessions: totals.sessions + 1,
                pulses: totals.pulses + pulses as u128,
                minutes: totals.minutes + e.duration_min as u128,
            };
        }
        i = i + 1;
    }
    assert(all.take(i as int) == all);
    totals
}

/// The flow of a watering, where its volume was measured and it had a duration.
pub open spec fn rate_of(event: EventView) -> Option<FlowRate> {
    match event.volume {
        Some(v) => if event.duration_min == 0 {
            None
        } else {
            Some(FlowRate { pulses: v.pulses, secs: (60 * event.duration_min) as u64 })
        },
        None => None,
    }
}

/// The strongest flow of a log; no flow where none is known.
pub open spec fn peak_of(log: Seq<EventView>) -> FlowRate
    decreases log.len(),
{
    if log.len() == 0 {
        FlowRate { pulses: 0, secs: 60 }
    } else {
        let before = peak_of(log.drop_last());
        match rate_of(log.last()) {
            Some(rate) => if rate.stronger(before) {
                rate
            } else {
                before
            },
            None => before,
        }
    }
}

/// The sum of all volumes of a log.
pub open spec fn total_pulses(log: Seq<EventView>) -> int
    decreases log.len(),
{
    if log.len() == 0 {
        0
    } else {
        total_pulses(log.drop_last()) + pulses_of(log.last())
    }
}

/// The number of waterings of a log whose volume was measured.
pub open spec fn measured_count(log: Seq<EventView>) -> int
    decreases log.len(),
{
    if log.len() == 0 {
        0
    } else {
        measured_count(log.drop_last()) + if log.last().volume is Some {
            1int
        } else {
            0
        }
    }
}

fn event_rate(event: &WateringEvent) -> (rate: Option<FlowRate>)
    ensures
        rate == rate_of(event@),
{
    match event.volume_liters {
        Some(v) => if event.duration_min == 0 {
            None
        } else {
            Some(FlowRate { pulses: v.pulses, secs: 60 * event.duration_min as u64 })
        },
        None => None,
    }
}

/// What went through in a number of sessions, from which their average follows.
#[derive(Clone, Copy, Debug, PartialEq, Eq, Structural)]
pub struct SessionTotals {
    pub pulses: u128,
    pub sessions: usize,
}

fn log_totals(log: &Vec<WateringEvent>) -> (totals: (FlowRate, SessionTotals))
    ensures
        totals.0 == peak_of(state::events(log@)),
        totals.1.pulses == total_pulses(state::events(log@)),
        totals.1.sessions == measured_count(state::events(log@)),
{
    let ghost all = state::events(log@);
    let mut peak = FlowRate { pulses: 0, secs: 60 };
    let mut pulses: u128 = 0;
    let mut sessions: usize = 0;
    let mut i: usize = 0;
    assert(all.take(0) == Seq::<EventView>::empty());
    while i < log.len()
        invariant
            i <= log.len(),
            all == state::events(log@),
            peak == peak_of(all.take(i as int)),
            pulses == total_pulses(all.take(i as int)),
            sessions == measured_count(all.take(i as int)),
            sessions <= i,
            pulses <= i * 0xffff_ffff_ffff_ffff,
        decreases log.len() - i,
    {
        let e = &log[i];
        assert(all.take(i + 1).drop_last() == all.take(i as int));
        assert(all.take(i + 1).last() == e@);
        match event_rate(e) {
            Some(rate) => {
                if rate.exceeds(&peak) {
                    peak = rate;
                }
            },
            None => {},
        }
        match e.volume_liters {
            Some(v) => {
                pulses = pulses + v.pulses as u128;
                sessions = sessions + 1;
            },
            None => {},
        }
        i = i + 1;
    }
    assert(all.take(i as int) == all);
    (peak, SessionTotals { pulses, sessions })
}

/// What the waterings of today come to, and the target that they are held to.
#[derive(Debug)]
pub struct TodayDto {
    pub sessions: usize,
    pub pulses: u128,
    pub minutes: u128,
    pub target_liters: u64,
}

/// What the waterings of one of the last days come to.
#[derive(Debug)]
pub struct DayDto {
    pub date: String,
    pub pulses: u128,
    pub sessions: usize,
}

/// What all waterings come to.
#[derive(Debug)]
pub struct LifetimeDto {
    pub liters: Liters,
    pub sessions: usize,
}

/// The answer to the question what the waterings come to.
#[derive(Debug)]
pub struct SummaryDto {
    pub today: TodayDto,
    pub last_7_days: Vec<DayDto>,
    pub lifetime: LifetimeDto,
    pub peak_flow_lpm: FlowRate,
    pub session_totals: SessionTotals,
    pub daily_target_liters: u64,
}

/// Whether an answer says what the waterings come to, where the local clock shows
/// the day `today`.
pub open spec fn sums_up(
    dto: SummaryDto,
    state: state::StateView,
    offsets: Seq<UtcOffset>,
    today: int,
) -> bool {
    let log = state.log;
    &&& dto.today.sessions == sessions_on(log, offsets, today)
    &&& dto.today.pulses == pulses_on(log, offsets, today)
    &&& dto.today.minutes == minutes_on(log, offsets, today)
    &&& dto.today.target_liters == state.daily_target
    &&& dto.last_7_days.len() == 7
    &&& forall|k: int|
        0 <= k < 7 ==> {
            &&& time::reads_as_date((#[trigger] dto.last_7_days[k]).date@, today - 6 + k)
            &&& dto.last_7_days[k].pulses == pulses_on(log, offsets, today - 6 + k)
            &&& dto.last_7_days[k].sessions == sessions_on(log, offsets, today - 6 + k)
        }
    &&& dto.lifetime.liters == state.lifetime
    &&& dto.lifetime.sessions == log.len()
    &&& dto.peak_flow_lpm == peak_of(log)
    &&& dto.session_totals.pulses == total_pulses(log)
    &&& dto.session_totals.sessions == measured_count(log)
    &&& dto.daily_target_liters == state.daily_target
}

/// Answers what the waterings come to: today, on each of the last seven days,
/// the oldest first, and in all. `offsets` are those of the local clock at the
/// times of the waterings.
pub fn handle_summary(
    state: &AppState,
    now: Timestamp,
    offset: UtcOffset,
    offsets: &Vec<UtcOffset>,
) -> (dto: SummaryDto)
    requires
        offsets.len() == state.log.len(),
        time::MIN_DAY + 6 <= time::local_day(now@, offset@) <= time::MAX_DAY,
    ensures
        sums_up(dto, state@, offsets@, time::local_day(now@, offset@)),
{
    let today: i32 = now.local_day(&offset);
    let totals = day_totals(&state.log, offsets, today);
    let mut days: Vec<DayDto> = Vec::new();
    let ghost log = state@.log;
    let mut back: i32 = 7;
    while back > 0
        invariant
            0 <= back <= 7,
            days.len() == 7 - back,
            log == state@.log,
            offsets.len() == state.log.len(),
            time::MIN_DAY + 6 <= today <= time::MAX_DAY,
            forall|k: int|
                0 <= k < 7 - back ==> {
                    &&& time::reads_as_date((#[trigger] days[k]).date@, today - 6 + k)
                    &&& days[k].pulses == pulses_on(log, offsets@, today - 6 + k)
                    &&& days[k].sessions == sessions_on(log, offsets@, today - 6 + k)
                },
        decreases back,
    {
        back = back - 1;
        let day: i32 = today - back;
        let of_day = day_totals(&state.log, offsets, day);
        days.push(
            DayDto { date: format_day(day), pulses: of_day.pulses, sessions: of_day.sessions },
        );
    }
    let (peak, session_totals) = log_totals(&state.log);
    SummaryDto {
        today: TodayDto {
            sessions: totals.sessions,
            pulses: totals.pulses,
            minutes: totals.minutes,
            target_liters: state.daily_target_liters,
        },
        last_7_days: days,
        lifetime: LifetimeDto { liters: state.lifetime_liters, sessions: state.log.len() },
        peak_flow_lpm: peak,
        session_totals,
        daily_target_liters: state.daily_target_liters,
    }
}

/// One watering of the history.
#[derive(Debug)]
pub struct HistoryEventDto {
    pub timestamp: Timestamp,
    pub duration_min: u32,
    pub source: String,
    pub volume_liters: Option<Liters>,
    pub flow_lpm: Option<FlowRate>,
}

/// The answer to the question what the last waterings were.
#[derive(Debug)]
pub struct HistoryDto {
    pub events: Vec<HistoryEventDto>,
}

/// The number of waterings that a history shows: ten where no number is asked
/// for, and five hundred at most.
pub open spec fn history_len(limit: Option<usize>, entries: nat) -> nat {
    let asked = match limit {
        Some(n) => n as nat,
        None => 10,
    };
    let capped = if asked > 500 {
        500
    } else {
        asked
    };
    if capped > entries {
        entries
    } else {
        capped
    }
}

/// Whether a watering of the history shows `event`.
pub open spec fn shows(dto: HistoryEventDto, event: EventView) -> bool {
    &&& dto.timestamp@ == event.timestamp
    &&& dto.duration_min == event.duration_min
    &&& dto.source@ == event.source
    &&& dto.volume_liters == event.volume
    &&& dto.flow_lpm == rate_of(event)
}

/// Whether an answer shows the last waterings of a log, the newest first.
pub open spec fn shows_the_last(
    dto: HistoryDto,
    log: Seq<EventView>,
    limit: Option<usize>,
) -> bool {
    &&& dto.events.len() == history_len(limit, log.len())
    &&& forall|k: int|
        0 <= k < dto.events.len() ==> shows(#[trigger] dto.events[k], log[log.len() - 1 - k])
}

/// Answers what the last waterings were, the newest first.
pub fn handle_history(state: &AppState, limit: Option<usize>) -> (dto: HistoryDto)
    ensures
        shows_the_last(dto, state@.log, limit),
{
    let asked: usize = match limit {
        Some(n) => n,
        None => 10,
    };
    let capped: usize = if asked > 500 {
        500
    } else {
        asked
    };
    let entries: usize = state.log.len();
    let count: usize = if capped > entries {
        entries
    } else {
        capped
    };
    let mut events: Vec<HistoryEventDto> = Vec::new();
    while events.len() < count
        invariant
            events.len() <= count <= entries,
            entries == state.log.len(),
            forall|k: int|
                0 <= k < events.len() ==> shows(
                    #[trigger] events[k],
                    state@.log[state@.log.len() - 1 - k],
                ),
        decreases count - events.len(),
    {
        let e = &state.log[entries - 1 - events.len()];
        events.push(
            HistoryEventDto {
                timestamp: e.timestamp,
                duration_min: e.duration_min,
                source: e.source.clone(),
                volume_liters: e.volume_liters,
                flow_lpm: event_rate(e),
            },
        );
    }
    HistoryDto { events }
}

/// The schedule as it is answered.
#[derive(Debug)]
pub struct ScheduleDto {
    pub enabled: bool,
    pub slots: Vec<Slot>,
    pub max_on_minutes: u32,
}

/// Whether a schedule as it is answered is that of the state.
pub open spec fn describes(dto: ScheduleDto, state: state::StateView) -> bool {
    &&& dto.enabled == state.enabled
    &&& dto.slots@ == state.slots
    &&& dto.max_on_minutes == state.max_on_minutes
}

/// Answers what the schedule is.
pub fn handle_schedule_get(state: &AppState) -> (dto: ScheduleDto)
    ensures
        describes(dto, state@),
{
    ScheduleDto {
        enabled: state.schedule.enabled,
        slots: copy_slots(&state.schedule.slots),
        max_on_minutes: state.max_on_minutes,
    }
}

/// The state after a request to set the slots, and whether they are followed.
pub open spec fn slots_requested(
    before: state::StateView,
    slots: Seq<Slot>,
    enabled: Option<bool>,
) -> state::StateView {
    match schedule::checked(slots) {
        Ok(in_order) => state::StateView {
            slots: in_order,
            enabled: match enabled {
                Some(on) => on,
                None => before.enabled,
            },
            ..before
        }.to_save(),
        Err(_) => before,
    }
}

/// Sets the slots of the schedule, and whether it is followed, where that is said.
pub fn handle_schedule_set(
    state: &mut AppState,
    slots: Vec<Slot>,
    enabled: Option<bool>,
) -> (result: Result<ScheduleDto, String>)
    ensures
        final(state)@ == slots_requested(old(state)@, slots@, enabled),
        match (result, schedule::checked(slots@)) {
            (Ok(dto), Ok(_)) => describes(dto, final(state)@),
            (Err(message), Err(wanted)) => message@ == wanted,
            _ => false,
        },
{
    match Schedule::try_from_slots(slots) {
        Ok(sorted) => {
            state.schedule.slots = sorted;
            match enabled {
                Some(on) => {
                    state.schedule.enabled = on;
                },
                None => {},
            }
            state.save();
            Ok(handle_schedule_get(state))
        },
        Err(message) => Err(message),
    }
}

/// Switches the schedule on or off.
pub fn handle_schedule_enabled(state: &mut AppState, enabled: bool) -> (dto: ScheduleDto)
    ensures
        final(state)@ == old(state)@.switched(enabled),
        describes(dto, final(state)@),
{
    state.schedule.enabled = enabled;
    state.save();
    handle_schedule_get(state)
}

/// The world after a request to open the valve: it is opened where the duration is
/// more than nothing and within the cap.
pub open spec fn open_requested(
    before: session::World,
    reading: Reading,
    now: int,
    duration_min: u32,
) -> session::World {
    if 0 < duration_min <= before.state.max_on_minutes {
        before.opened(reading, now, duration_min, "web"@)
    } else {
        before
    }
}

/// What is answered to a request to open the valve.
pub open spec fn open_answer(max_on_minutes: u32, duration_min: u32) -> Result<
    Seq<char>,
    Seq<char>,
> {
    if duration_min == 0 {
        Err("duration must be > 0"@)
    } else if duration_min > max_on_minutes {
        Err("duration must be ≤ "@ + text::decimal(max_on_minutes as nat) + " minutes"@)
    } else {
        Ok("Web: valve OPENED for "@ + text::decimal(duration_min as nat) + "min."@)
    }
}

/// Opens the valve, and says what the owner is told; or says why not.
pub fn handle_valve_open(
    state: &mut AppState,
    valve: &mut Valve,
    flow: &mut FlowSensor,
    reading: Reading,
    now: Timestamp,
    duration_min: u32,
) -> (result: Result<String, String>)
    requires
        0 < duration_min <= old(state).max_on_minutes ==> time::covered(
            now@ + duration_min * time::minute(),
        ),
    ensures
        ({
            let before = session::world(*old(state), *old(valve), *old(flow));
            let after = session::world(*final(state), *final(valve), *final(flow));
            &&& after == open_requested(before, reading, now@, duration_min)
            &&& match (result, open_answer(before.state.max_on_minutes, duration_min)) {
                (Ok(message), Ok(wanted)) => message@ == wanted,
                (Err(message), Err(wanted)) => message@ == wanted,
                _ => false,
            }
        }),
{
    if duration_min == 0 {
        return Err("duration must be > 0".to_string());
    }
    if duration_min > state.max_on_minutes {
        let mut message = "duration must be ≤ ".to_string();
        push_decimal(&mut message, state.max_on_minutes as u64);
        message.append(" minutes");
        return Err(message);
    }
    open_valve(state, valve, flow, reading, now, duration_min, "web");
    let mut message = "Web: valve OPENED for ".to_string();
    push_decimal(&mut message, duration_min as u64);
    message.append("min.");
    Ok(message)
}

/// What the owner is told after a request to close the valve: nothing where it was
/// closed already.
pub open spec fn close_answer(was_open: bool, volume: Liters) -> Option<Seq<char>> {
    if !was_open {
        None
    } else if volume.pulses > 0 {
        Some("Web: valve CLOSED. Total: "@ + flow::liters_text(volume.pulses as nat) + "L."@)
    } else {
        Some("Web: valve CLOSED."@)
    }
}

/// Closes the valve, and says what the owner is told, where it was open.
pub fn handle_valve_close(
    state: &mut AppState,
    valve: &mut Valve,
    flow: &FlowSensor,
    reading: Reading,
) -> (message: Option<String>)
    ensures
        ({
            let before = session::world(*old(state), *old(valve), *flow);
            let volume = before.volume(reading);
            &&& session::world(*final(state), *final(valve), *flow) == before.closed(reading)
            &&& match message {
                Some(m) => close_answer(before.state.valve_open, volume) == Some(m@),
                None => close_answer(before.state.valve_open, volume) is None,
            }
        }),
{
    let had_valve_open = state.valve_open;
    let liters = close_valve(state, valve, flow, reading);
    if !had_valve_open {
        return None;
    }
    if liters.pulses > 0 {
        let mut message = "Web: valve CLOSED. Total: ".to_string();
        let shown = liters.text();
        message.append(shown.as_str());
        message.append("L.");
        Some(message)
    } else {
        Some("Web: valve CLOSED.".to_string())
    }
}

/// The state after a request to set the daily target.
pub open spec fn target_requested(before: state::StateView, liters: u64) -> state::StateView {
    if target::out_of_range(liters) {
        before
    } else {
        state::StateView { daily_target: liters, ..before }.to_save()
    }
}

/// What is answered to a request to set the daily target.
pub open spec fn target_answer(liters: u64) -> Result<u64, Seq<char>> {
    if target::out_of_range(liters) {
        Err("liters must be 0-10000"@)
    } else {
        Ok(liters)
    }
}

/// Sets the daily target, given as the bit pattern of a double-precision number,
/// where it is between 0 and 10000 litres.
pub fn handle_daily_target(state: &mut AppState, liters: u64) -> (result: Result<u64, String>)
    ensures
        final(state)@ == target_requested(old(state)@, liters),
        match (result, target_answer(liters)) {
            (Ok(kept), Ok(wanted)) => kept == wanted,
            (Err(message), Err(wanted)) => message@ == wanted,
            _ => false,
        },
{
    if target::is_out_of_range(liters) {
        return Err("liters must be 0-10000".to_string());
    }
    state.daily_target_liters = liters;
    state.save();
    Ok(liters)
}

} // verus!
