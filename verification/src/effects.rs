//! What each operation does to the world, and what it leaves alone.
use vstd::prelude::*;

use crate::{command, figures, reading, schedule, scheduler, session, text, time, web};
use crate::command::{Command, Surroundings};
use crate::flow::{FlowSensor, Liters, Reading};
use crate::laws::starting;
use crate::schedule::Slot;
use crate::scheduler::Scheduler;
use crate::session::World;
use crate::state::{AppState, EventView, StateView, WateringEvent};
use crate::valve::Valve;
use crate::web::{HealthDto, NextSlotDto, ScheduleDto, StatusDto};

verus! {

/// Whether a log is an older one with `event` behind it, of which the last fifty
/// waterings are kept.
pub open spec fn extends(log: Seq<EventView>, older: Seq<EventView>, event: EventView) -> bool {
    &&& log.len() == if older.len() < 50 {
        older.len() + 1
    } else {
        50
    }
    &&& log[log.len() - 1] == event
    &&& forall|i: int|
        0 <= i < log.len() - 1 ==> #[trigger] log[i] == older[older.len() - (log.len() - 1) + i]
}

/// Whether the world is one in which a session of `minutes` minutes has begun: the
/// valve is open until they are over, the watering is logged, what flows counts from
/// here, and everything else is as it was.
pub open spec fn begins_session(
    then: World,
    before: World,
    reading: Reading,
    now: int,
    minutes: u32,
    source: Seq<char>,
) -> bool {
    &&& then.valve_open
    &&& then.flow.session_start_count == reading.count
    &&& then.flow.session_start == Some(reading.clock)
    &&& extends(
        then.state.log,
        before.state.log,
        EventView { timestamp: now, duration_min: minutes, source, volume: None },
    )
    &&& then.state == (StateView {
        valve_open: true,
        auto_off_at: Some(now + minutes * 60_000_000_000),
        log: then.state.log,
        unsaved: true,
        ..before.state
    })
}

/// Whether the world is one in which a session has ended: the valve is closed, what
/// has flowed is added to the lifetime total and put down for the last watering, and
/// everything else is as it was.
pub open spec fn ends_session(then: World, before: World, reading: Reading) -> bool {
    let flowed = if reading.count >= before.flow.session_start_count {
        reading.count - before.flow.session_start_count
    } else {
        0
    };
    let n = before.state.log.len();
    &&& !then.valve_open
    &&& then.flow == before.flow
    &&& then.state.lifetime.pulses == if before.state.lifetime.pulses + flowed
        > 0xffff_ffff_ffff_ffff {
        0xffff_ffff_ffff_ffff
    } else {
        before.state.lifetime.pulses + flowed
    }
    &&& then.state.log.len() == n
    &&& forall|i: int| 0 <= i < n - 1 ==> #[trigger] then.state.log[i] == before.state.log[i]
    &&& n > 0 ==> then.state.log[n - 1] == (EventView {
        volume: then.state.log[n - 1].volume,
        ..before.state.log[n - 1]
    })
    &&& n > 0 && (flowed > 0 || before.state.log[n - 1].volume is None)
        ==> then.state.log[n - 1].volume is Some && then.state.log[n - 1].volume->0.pulses == flowed
    &&& n > 0 && flowed == 0 && before.state.log[n - 1].volume is Some
        ==> then.state.log[n - 1].volume == before.state.log[n - 1].volume
    &&& then.state == (StateView {
        valve_open: false,
        auto_off_at: None,
        lifetime: then.state.lifetime,
        log: then.state.log,
        unsaved: true,
        ..before.state
    })
}

/// The views of the state and of a watering show all that they hold.
pub proof fn views_show_everything(state: AppState, event: WateringEvent, i: int)
    ensures
        event@.timestamp == event.timestamp@,
        event@.duration_min == event.duration_min,
        event@.source == event.source@,
        event@.volume == event.volume_liters,
        state@.valve_open == state.valve_open,
        state@.auto_off_at is Some <==> state.auto_off_at is Some,
        state.auto_off_at is Some ==> state@.auto_off_at->0 == state.auto_off_at->0@,
        state@.slots == state.schedule.slots@,
        state@.enabled == state.schedule.enabled,
        state@.max_on_minutes == state.max_on_minutes,
        state@.relay_pin == state.relay_pin,
        state@.flow_pin == state.flow_pin,
        state@.lifetime == state.lifetime_liters,
        state@.daily_target == state.daily_target_liters,
        state@.log.len() == state.log@.len(),
        0 <= i < state.log@.len() ==> state@.log[i] == state.log@[i]@,
        state@.boot_time == state.boot_time@,
        state@.state_path == state.state_path@,
        state@.unsaved == state.unsaved,
{
}

/// The world shows how the valve stands, and the state and the sensor as they are.
pub proof fn worlds_show_everything(state: AppState, valve: Valve, flow: FlowSensor)
    ensures
        session::world(state, valve, flow).state == state@,
        session::world(state, valve, flow).valve_open == valve.open,
        session::world(state, valve, flow).flow == flow,
{
}

/// A watering that is recorded is put behind the others, and nothing else changes but
/// that the state is to be written.
pub proof fn recording_extends_the_log(before: StateView, event: EventView)
    ensures
        extends(before.recorded(event).log, before.log, event),
        before.recorded(event) == (StateView {
            log: before.recorded(event).log,
            unsaved: true,
            ..before
        }),
{
}

/// To open the valve begins a session.
pub proof fn opening_begins_a_session(
    before: World,
    reading: Reading,
    now: int,
    minutes: u32,
    source: Seq<char>,
)
    ensures
        begins_session(
            before.opened(reading, now, minutes, source),
            before,
            reading,
            now,
            minutes,
            source,
        ),
{
    recording_extends_the_log(
        before.state,
        EventView { timestamp: now, duration_min: minutes, source, volume: None },
    );
}

/// To close the valve ends the session; where it was closed and nothing flowed, it
/// only makes sure that it is closed.
pub proof fn closing_ends_a_session(before: World, reading: Reading)
    ensures
        before.state.valve_open || reading.count > before.flow.session_start_count
            ==> ends_session(before.closed(reading), before, reading),
        !before.state.valve_open && reading.count <= before.flow.session_start_count
            ==> before.closed(reading) == (World {
            state: StateView {
                valve_open: false,
                auto_off_at: None,
                unsaved: true,
                ..before.state
            },
            valve_open: false,
            flow: before.flow,
        }),
{
}

/// A state that ends a session does so as the whole world does.
pub proof fn finishing_backfills_the_last_watering(before: StateView, liters: Liters)
    requires
        before.log.len() > 0,
    ensures
        ({
            let then = before.finished(liters);
            let n = before.log.len();
            &&& !then.valve_open && then.auto_off_at is None && then.unsaved
            &&& then.log.len() == n
            &&& then.log[n - 1] == (EventView { volume: then.log[n - 1].volume, ..before.log[n - 1]
            })
            &&& liters.pulses > 0 || before.log[n - 1].volume is None ==> then.log[n - 1].volume
                == Some(liters)
            &&& liters.pulses == 0 ==> then.lifetime == before.lifetime
            &&& before.finished(liters) == (StateView {
                valve_open: false,
                auto_off_at: None,
                ..before.measured(liters)
            })
        }),
{
}

/// A volume that is measured changes the lifetime total and the last watering alone.
pub proof fn measuring_changes_two_things(before: StateView, liters: Liters)
    ensures
        ({
            let then = before.measured(liters);
            &&& then == (StateView {
                lifetime: then.lifetime,
                log: then.log,
                unsaved: true,
                ..before
            })
            &&& before.lifetime.pulses + liters.pulses <= 0xffff_ffff_ffff_ffff
                ==> then.lifetime.pulses == before.lifetime.pulses + liters.pulses
            &&& before.log.len() == 0 ==> then.log.len() == 0
        }),
{
}

/// A restart keeps what was stored: the schedule and whether it is followed, the log,
/// the lifetime total, the target, the cap and the pins. Only the valve is closed, and
/// the start and the file are those of now.
pub proof fn a_restart_keeps_what_was_stored(
    stored: StateView,
    system_file: bool,
    now: int,
    flow: FlowSensor,
)
    ensures
        ({
            let then = starting(Some(stored), system_file, now, flow).state;
            &&& then.slots == stored.slots
            &&& then.enabled == stored.enabled
            &&& then.log == stored.log
            &&& then.lifetime == stored.lifetime
            &&& then.daily_target == stored.daily_target
            &&& then.max_on_minutes == stored.max_on_minutes
            &&& then.relay_pin == stored.relay_pin
            &&& then.flow_pin == stored.flow_pin
            &&& !then.valve_open
            &&& then.auto_off_at is None
            &&& then.boot_time == now
            &&& !then.unsaved
            &&& then == StateView::loaded(Some(stored), system_file, now)
            &&& then.state_path == if system_file {
                "/etc/irrigator/state.json"@
            } else {
                "./state.json"@
            }
        }),
{
}

/// A daemon that finds nothing stored follows a schedule of four slots, with a cap of
/// two hours, the pins 17 and 22, and nothing logged.
pub proof fn a_first_start_has_the_defaults(system_file: bool, now: int, flow: FlowSensor)
    ensures
        ({
            let then = starting(None, system_file, now, flow).state;
            &&& then.slots.len() == 4
            &&& then.enabled
            &&& then.max_on_minutes == 120
            &&& then.relay_pin == 17
            &&& then.flow_pin == 22
            &&& then.lifetime.pulses == 0
            &&& then.log.len() == 0
            &&& !then.valve_open
            &&& then.auto_off_at is None
            &&& then.boot_time == now
            &&& crate::target::number(then.daily_target) == 40
                * vstd::arithmetic::power2::pow2(1074)
            &&& then == StateView::loaded(None, system_file, now)
            &&& StateView::fresh(now).slots == then.slots
            &&& StateView::fresh(now).boot_time == now
            &&& StateView::fresh(now).daily_target == then.daily_target
        }),
{
    crate::target::forty_denotes_forty();
}

/// To mark the state for writing, to switch the schedule and to stop change nothing
/// but what they are about.
pub proof fn small_changes(before: StateView, enabled: bool)
    ensures
        before.to_save() == (StateView { unsaved: true, ..before }),
        before.switched(enabled) == (StateView { enabled, unsaved: true, ..before }),
        before.idle() == (StateView { valve_open: false, auto_off_at: None, ..before }),
        before.stopped() == (StateView { valve_open: false, unsaved: true, ..before }),
{
}

/// What follows the command to open asks for the number that stands there, whatever
/// white characters surround it, and for ten minutes where none does.
pub proof fn minutes_are_asked_as_a_number(
    left: Seq<char>,
    minutes: u32,
    right: Seq<char>,
    other: Seq<char>,
)
    requires
        forall|i: int| 0 <= i < left.len() ==> text::is_white(#[trigger] left[i]),
        forall|i: int| 0 <= i < right.len() ==> text::is_white(#[trigger] right[i]),
    ensures
        command::asked_minutes(left + text::decimal(minutes as nat) + right) == minutes,
        text::number(text::trimmed(other)) is None ==> command::asked_minutes(other) == 10,
        text::number(text::trimmed(other)) is Some ==> command::asked_minutes(other)
            == text::number(text::trimmed(other))->0,
{
    let s = text::decimal(minutes as nat);
    text::decimal_is_read(minutes);
    assert(text::is_digit(s[0]));
    assert(text::is_digit(s[s.len() - 1]));
    assert(!text::is_white(s[0]));
    assert(!text::is_white(s[s.len() - 1]));
    reading::trimming_takes_off_the_ends(left, s, right);
}

/// The command to open begins a session of the minutes that are asked for, where they
/// are more than none and within the cap; else it changes nothing.
pub proof fn the_chat_opens_for_the_asked_minutes(before: World, args: String, at: Surroundings)
    ensures
        ({
            let minutes = command::asked_minutes(args@);
            let then = command::commanded(before, Command::On(args), at).0;
            if 0 < minutes <= before.state.max_on_minutes {
                begins_session(then, before, at.reading, at.now@, minutes, "telegram"@)
            } else {
                then == before
            }
        }),
{
    opening_begins_a_session(
        before,
        at.reading,
        at.now@,
        command::asked_minutes(args@),
        "telegram"@,
    );
}

/// The command to close ends the session that there is; else it only makes sure that
/// the valve is closed.
pub proof fn the_chat_closes(before: World, at: Surroundings)
    ensures
        ({
            let then = command::commanded(before, Command::Off, at).0;
            if before.state.valve_open {
                ends_session(then, before, at.reading)
            } else {
                then == (World {
                    state: StateView {
                        valve_open: false,
                        auto_off_at: None,
                        unsaved: true,
                        ..before.state
                    },
                    valve_open: false,
                    flow: before.flow,
                })
            }
        }),
{
    closing_ends_a_session(before, at.reading);
}

/// The commands that ask for something change nothing.
pub proof fn questions_change_nothing(before: World, at: Surroundings)
    ensures
        command::commanded(before, Command::Status, at).0 == before,
        command::commanded(before, Command::Schedule, at).0 == before,
        command::commanded(before, Command::Help, at).0 == before,
        command::commanded(before, Command::Start, at).0 == before,
{
}

/// The command to set the schedule puts the slots that the text denotes in place of
/// the others, and changes nothing where it denotes none; the commands to switch the
/// schedule do that alone.
pub proof fn the_chat_sets_the_schedule(before: World, args: String, at: Surroundings)
    ensures
        match schedule::read_schedule(args@) {
            Ok(slots) => command::commanded(before, Command::SetSchedule(args), at).0 == (World {
                state: StateView { slots, unsaved: true, ..before.state },
                ..before
            }),
            Err(_) => command::commanded(before, Command::SetSchedule(args), at).0 == before,
        },
        command::commanded(before, Command::Enable, at).0 == (World {
            state: StateView { enabled: true, unsaved: true, ..before.state },
            ..before
        }),
        command::commanded(before, Command::Disable, at).0 == (World {
            state: StateView { enabled: false, unsaved: true, ..before.state },
            ..before
        }),
{
}

/// A message of another chat, and one without text, changes nothing and is not
/// answered; a text that is no command changes nothing; and a command of the owner's
/// chat does what it does.
pub proof fn messages_are_heard_from_the_owner(
    before: World,
    chat_id: i64,
    allowed_chat: i64,
    text: Option<Option<Command>>,
    at: Surroundings,
)
    ensures
        ({
            let (then, reply) = command::answered(before, chat_id, allowed_chat, text, at);
            &&& chat_id != allowed_chat || text is None ==> then == before && reply is None
            &&& chat_id == allowed_chat && text is Some ==> reply is Some
            &&& chat_id == allowed_chat && text == Some(None::<Command>) ==> then == before
                && reply->0 == "Unknown command. Send /help for available commands."@
            &&& chat_id == allowed_chat && text is Some && text->0 is Some ==> (then, reply->0)
                == command::commanded(before, text->0->0, at)
        }),
{
}

/// A web request to open begins a session of its minutes, where they are more than
/// none and within the cap; else it changes nothing.
pub proof fn the_web_opens_for_the_asked_minutes(
    before: World,
    reading: Reading,
    now: int,
    minutes: u32,
)
    ensures
        ({
            let then = web::open_requested(before, reading, now, minutes);
            if 0 < minutes <= before.state.max_on_minutes {
                begins_session(then, before, reading, now, minutes, "web"@)
            } else {
                then == before
            }
        }),
{
    opening_begins_a_session(before, reading, now, minutes, "web"@);
}

/// A web request to set the slots puts the given ones in place of the others, in
/// order, where there are some and all are valid, and switches the schedule where
/// that is asked; else it changes nothing.
pub proof fn the_web_sets_the_schedule(
    before: StateView,
    slots: Seq<Slot>,
    enabled: Option<bool>,
)
    ensures
        ({
            let then = web::slots_requested(before, slots, enabled);
            if slots.len() > 0 && (forall|i: int|
                0 <= i < slots.len() ==> (#[trigger] slots[i]).hour < 24 && slots[i].minute < 60
                    && 1 <= slots[i].duration_min <= 120) {
                &&& then == (StateView {
                    slots: then.slots,
                    enabled: then.enabled,
                    unsaved: true,
                    ..before
                })
                &&& then.enabled == if enabled is Some {
                    enabled->0
                } else {
                    before.enabled
                }
                &&& then.slots.to_multiset() == slots.to_multiset()
                &&& forall|i: int, j: int|
                    0 <= i < j < then.slots.len() ==> {
                        let a = #[trigger] then.slots[i];
                        let b = #[trigger] then.slots[j];
                        60 * a.hour + a.minute <= 60 * b.hour + b.minute
                    }
                &&& forall|m: int| #[trigger]
                    schedule::starting_at(then.slots, m) == schedule::starting_at(slots, m)
            } else {
                then == before
            }
        }),
{
    crate::laws::accepted_slots_are_well_formed(slots);
    schedule::ordering_is_a_stable_sort(slots);
    let then = web::slots_requested(before, slots, enabled);
    if slots.len() > 0 && (forall|i: int|
        0 <= i < slots.len() ==> (#[trigger] slots[i]).hour < 24 && slots[i].minute < 60 && 1
            <= slots[i].duration_min <= 120) {
        assert forall|i: int| 0 <= i < slots.len() implies (#[trigger] slots[i]).valid() by {
            assert(slots[i].hour < 24);
        }
        assert forall|i: int, j: int| 0 <= i < j < then.slots.len() implies {
            let a = #[trigger] then.slots[i];
            let b = #[trigger] then.slots[j];
            60 * a.hour + a.minute <= 60 * b.hour + b.minute
        } by {
            assert(then.slots[i].start() <= then.slots[j].start());
        }
    } else if slots.len() > 0 {
        let i = choose|i: int|
            0 <= i < slots.len() && !((#[trigger] slots[i]).hour < 24 && slots[i].minute < 60 && 1
                <= slots[i].duration_min <= 120);
        assert(!slots[i].valid());
    }
}

/// Slots that start together are those of one hour and minute.
pub proof fn slots_that_start_together(slots: Seq<Slot>, slot: Slot, hour: u32, minute: u32)
    requires
        slot.minute < 60,
        minute < 60,
    ensures
        schedule::starting_at(slots.push(slot), 60 * hour + minute) == if slot.hour == hour
            && slot.minute == minute {
            schedule::starting_at(slots, 60 * hour + minute).push(slot)
        } else {
            schedule::starting_at(slots, 60 * hour + minute)
        },
        schedule::starting_at(Seq::empty(), 60 * hour + minute) == Seq::<Slot>::empty(),
{
    reveal(Seq::filter);
    assert(slots.push(slot).drop_last() == slots);
}

/// A web request to set the target changes the target, and nothing else; one that is
/// out of range changes nothing.
pub proof fn the_web_sets_the_target(before: StateView, bits: u64)
    ensures
        ({
            let then = web::target_requested(before, bits);
            match web::target_answer(bits) {
                Ok(kept) => then == (StateView { daily_target: kept, unsaved: true, ..before }),
                Err(_) => then == before,
            }
        }),
{
}

/// A session ends by itself at the first check at or after its end; a check before
/// that, or while the valve is closed, changes nothing.
pub proof fn sessions_end_by_themselves(before: World, reading: Reading, now: int, end: int)
    requires
        before.state.auto_off_at == Some(end),
    ensures
        scheduler::expired(before.state, now) <==> before.state.valve_open && end <= now,
        ({
            let then = scheduler::auto_closed(before, reading, now);
            if before.state.valve_open && end <= now {
                ends_session(then, before, reading)
            } else {
                then == before
            }
        }),
{
    closing_ends_a_session(before, reading);
}

/// A check changes nothing where no end is set.
pub proof fn no_session_ends_without_an_end(before: World, reading: Reading, now: int)
    requires
        before.state.auto_off_at is None,
    ensures
        !scheduler::expired(before.state, now),
        scheduler::auto_closed(before, reading, now) == before,
{
}

/// Whether a clock `east` seconds ahead of UTC shows `hour` and `minute` of a day.
pub open spec fn clock_shows(now: int, east: int, day: int, hour: u32, minute: u32) -> bool {
    &&& hour < 24
    &&& minute < 60
    &&& 0 <= now + east * 1_000_000_000 - (((day * 24 + hour) * 60) + minute) * 60_000_000_000
        < 60_000_000_000
}

proof fn lemma_clock_shows(now: int, east: int, day: int, hour: u32, minute: u32)
    requires
        clock_shows(now, east, day, hour, minute),
    ensures
        time::local_day(now, east) == day,
        time::local_minute(now, east) == 60 * hour + minute,
        (time::local_minute(now, east) / 60) as u32 == hour,
        (time::local_minute(now, east) % 60) as u32 == minute,
{
    let into = now + east * 1_000_000_000 - (((day * 24 + hour) * 60) + minute) * 60_000_000_000;
    let secs = into / 1_000_000_000;
    let nanos = into % 1_000_000_000;
    figures::clocks_show_day_and_minute(day, 60 * hour + minute, secs, nanos, east);
}

/// Whether a scheduler remembers the slot of a day, an hour and a minute.
pub open spec fn remembers(s: Scheduler, day: int, hour: u32, minute: u32) -> bool {
    match s.last_triggered {
        Some((d, h, m)) => d == day && h == hour && m == minute,
        None => false,
    }
}

/// When the clock shows the time of a slot, the schedule is on, the valve is closed,
/// and the slot was not followed on that day already, a session of the slot's own
/// minutes begins: of exactly these where they are within the cap, and of the cap
/// where they are not. Of slots of one time, the first counts.
pub proof fn a_slot_opens_for_its_own_minutes(
    s: Scheduler,
    before: World,
    reading: Reading,
    now: int,
    east: int,
    day: int,
    k: int,
)
    requires
        before.state.enabled,
        !before.state.valve_open,
        0 <= k < before.state.slots.len(),
        clock_shows(now, east, day, before.state.slots[k].hour, before.state.slots[k].minute),
        forall|j: int|
            0 <= j < k ==> (#[trigger] before.state.slots[j]).hour != before.state.slots[k].hour
                || before.state.slots[j].minute != before.state.slots[k].minute,
        !remembers(s, day, before.state.slots[k].hour, before.state.slots[k].minute),
    ensures
        ({
            let own = before.state.slots[k].duration_min;
            let cap = before.state.max_on_minutes;
            let then = s.scheduled(before, reading, now, east);
            &&& own <= cap ==> begins_session(then, before, reading, now, own, "schedule"@)
                && s.triggers_at(before.state, now, east) == Some(own)
            &&& own > cap ==> begins_session(then, before, reading, now, cap, "schedule"@)
                && s.triggers_at(before.state, now, east) == Some(cap)
        }),
{
    let slot = before.state.slots[k];
    lemma_clock_shows(now, east, day, slot.hour, slot.minute);
    reading::the_due_slot_is_the_first_of_its_time(
        before.state.slots,
        slot.hour,
        slot.minute,
        k,
    );
    opening_begins_a_session(before, reading, now, slot.duration_min, "schedule"@);
    opening_begins_a_session(before, reading, now, before.state.max_on_minutes, "schedule"@);
}

/// The schedule opens nothing where it is off, the valve is open, no slot has the time
/// that the clock shows, or the one that has was the last one followed on that day.
pub proof fn nothing_else_opens_the_valve(
    s: Scheduler,
    before: World,
    reading: Reading,
    now: int,
    east: int,
    day: int,
    hour: u32,
    minute: u32,
)
    requires
        clock_shows(now, east, day, hour, minute),
        ({
            ||| !before.state.enabled
            ||| before.state.valve_open
            ||| forall|j: int|
                0 <= j < before.state.slots.len() ==> (#[trigger] before.state.slots[j]).hour
                    != hour || before.state.slots[j].minute != minute
            ||| remembers(s, day, hour, minute)
        }),
    ensures
        s.scheduled(before, reading, now, east) == before,
        s.triggers_at(before.state, now, east) is None,
{
    lemma_clock_shows(now, east, day, hour, minute);
    if forall|j: int|
        0 <= j < before.state.slots.len() ==> (#[trigger] before.state.slots[j]).hour != hour
            || before.state.slots[j].minute != minute {
        reading::the_due_slot_is_the_first_of_its_time(
            before.state.slots,
            hour,
            minute,
            before.state.slots.len() as int,
        );
    }
}

/// A scheduler that has just followed a slot remembers its day, hour and minute, and
/// counts the reports of the flow from there.
pub proof fn followed_slots_are_remembered(
    s: Scheduler,
    now: int,
    east: int,
    clock: u64,
    day: int,
    hour: u32,
    minute: u32,
)
    requires
        clock_shows(now, east, day, hour, minute),
    ensures
        s.just_followed(now, east, clock) <==> {
            &&& remembers(s, day, hour, minute)
            &&& s.last_flow_report == Some(clock)
            &&& s.last_reported_liters.pulses == 0
        },
{
    lemma_clock_shows(now, east, day, hour, minute);
}

/// The flow is to be reported once two minutes have passed since the last report, or
/// once five litres more have flowed, of 617 pulses each; and at no other time.
pub proof fn reports_come_by_time_and_by_volume(s: Scheduler, liters: Liters, clock: u64)
    ensures
        s.report_due(liters, clock) <==> {
            ||| s.last_flow_report is Some && clock - s.last_flow_report->0 >= 120_000_000_000
            ||| liters.pulses >= s.last_reported_liters.pulses + 3085
        },
{
}

/// Nothing is reported while the valve is closed; while it is open, what the counter
/// has gone up by since the start of the session is, where a report is due.
pub proof fn open_valves_are_reported(
    s: Scheduler,
    state: StateView,
    flow: FlowSensor,
    reading: Reading,
)
    requires
        reading.count >= flow.session_start_count,
    ensures
        ({
            let pulses = reading.count - flow.session_start_count;
            let due = {
                ||| s.last_flow_report is Some && reading.clock - s.last_flow_report->0
                    >= 120_000_000_000
                ||| pulses >= s.last_reported_liters.pulses + 3085
            };
            match s.to_report(state, flow, reading) {
                Some(liters) => state.valve_open && due && liters.pulses == pulses,
                None => !state.valve_open || !due,
            }
        }),
{
}

/// After a report the next one is due two minutes or five litres later, and the slot
/// that was followed last is still remembered.
pub proof fn reports_are_noted(s: Scheduler, clock: u64, liters: Liters, later: u64, more: Liters)
    requires
        later >= clock,
        more.pulses >= liters.pulses,
    ensures
        s.noted(clock, liters).last_triggered == s.last_triggered,
        s.noted(clock, liters).report_due(more, later) <==> later - clock >= 120_000_000_000
            || more.pulses - liters.pulses >= 3085,
{
}

/// The volume of the session is what the counter has gone up by since its start.
pub proof fn the_volume_is_counted(world: World, reading: Reading)
    ensures
        reading.count >= world.flow.session_start_count ==> world.volume(reading).pulses
            == reading.count - world.flow.session_start_count,
        reading.count < world.flow.session_start_count ==> world.volume(reading).pulses == 0,
{
}

/// The slot that an answer gives as the next one is the one that comes next, with its
/// hour, minute and duration, and with the day on which it does.
pub proof fn answers_give_the_next_slot(
    next: Option<NextSlotDto>,
    slots: Seq<Slot>,
    hour: int,
    minute: int,
    k: int,
)
    requires
        web::is_next(next, slots, 60 * hour + minute),
        0 <= minute < 60,
        0 <= k <= slots.len(),
        forall|j: int|
            0 <= j < k ==> 60 * (#[trigger] slots[j]).hour + slots[j].minute <= 60 * hour + minute,
        k < slots.len() ==> 60 * slots[k].hour + slots[k].minute > 60 * hour + minute,
    ensures
        next is Some <==> slots.len() > 0,
        next is Some ==> {
            let slot = if k < slots.len() {
                slots[k]
            } else {
                slots[0]
            };
            &&& next->0.hour == slot.hour
            &&& next->0.minute == slot.minute
            &&& next->0.duration_min == slot.duration_min
            &&& k < slots.len() ==> next->0.when@ == "today"@
            &&& k == slots.len() ==> next->0.when@ == "tomorrow"@
        },
{
    reading::the_next_slot_is_the_first_later_one(slots, hour, minute, k);
}

/// The answer how things stand gives the state as it is; of the session, what it has
/// let through and how long it has lasted, and nothing while the valve is closed; the
/// time that is left and that has passed in whole seconds, and the offset in whole
/// minutes, towards zero; and it warns of an open valve through which next to nothing
/// flows.
pub proof fn answers_say_how_things_stand(
    dto: StatusDto,
    state: StateView,
    flow: FlowSensor,
    reading: Reading,
    now: int,
    east: int,
)
    requires
        web::says_how_things_stand(dto, state, flow, reading, now, east),
    ensures
        dto.valve_open == state.valve_open,
        dto.schedule_enabled == state.enabled,
        dto.boot_time@ == state.boot_time,
        dto.now@ == now,
        dto.auto_off_at is Some <==> state.auto_off_at is Some,
        dto.auto_off_seconds_remaining is Some <==> state.auto_off_at is Some,
        state.auto_off_at is Some ==> dto.auto_off_at->0@ == state.auto_off_at->0
            && figures::truncates(
            dto.auto_off_seconds_remaining->0 as int,
            state.auto_off_at->0 - now,
            1_000_000_000,
        ),
        figures::truncates(dto.uptime_seconds as int, now - state.boot_time, 1_000_000_000),
        figures::truncates(dto.server_tz_offset_minutes as int, east, 60),
        !state.valve_open ==> dto.session_liters.pulses == 0 && dto.session_seconds == 0
            && dto.session_source is None && !dto.anomaly,
        state.valve_open && reading.count >= flow.session_start_count ==> dto.session_liters.pulses
            == reading.count - flow.session_start_count,
        state.valve_open && reading.count < flow.session_start_count ==> dto.session_liters.pulses
            == 0,
        state.valve_open && flow.session_start is Some && reading.clock >= flow.session_start->0
            ==> figures::truncates(
            dto.session_seconds as int,
            reading.clock - flow.session_start->0,
            1_000_000_000,
        ),
        state.valve_open && flow.session_start is None ==> dto.session_seconds == 0,
        dto.session_flow_lpm.pulses == dto.session_liters.pulses,
        dto.session_flow_lpm.secs == dto.session_seconds,
        state.valve_open && state.log.len() > 0 ==> dto.session_source is Some
            && dto.session_source->0@ == state.log[state.log.len() - 1].source,
        state.log.len() == 0 ==> dto.session_source is None,
        state.valve_open ==> (dto.anomaly <==> dto.session_seconds >= 30
            && dto.session_liters.pulses * 1200 < 617 * dto.session_seconds),
        !state.enabled ==> dto.next_slot is None,
        state.enabled ==> web::is_next(dto.next_slot, state.slots, time::local_minute(now, east)),
{
    if let Some(t) = state.auto_off_at {
        figures::whole_units_are_truncated(t - now, 1_000_000_000);
    }
    figures::whole_units_are_truncated(now - state.boot_time, 1_000_000_000);
    figures::whole_units_are_truncated(east, 60);
    let secs = flow.session_secs(reading);
    let pulses = flow.session_pulses(reading);
    assert(crate::flow::PULSES_PER_LITER * secs == 617 * secs) by (nonlinear_arith);
    assert(20 * 60 * pulses == pulses * 1200) by (nonlinear_arith);
}

/// The answer that the daemon is alive tells how the valve stands.
pub proof fn health_is_answered(dto: HealthDto, version: Seq<char>, valve_open: bool)
    requires
        web::says_alive(dto, version, valve_open),
    ensures
        dto.ok,
        dto.version@ == version,
        dto.valve_open <==> valve_open,
{
}

/// The schedule is answered as it is.
pub proof fn schedules_are_answered_as_they_are(dto: ScheduleDto, state: StateView)
    requires
        web::describes(dto, state),
    ensures
        dto.slots@ == state.slots,
        dto.enabled == state.enabled,
        dto.max_on_minutes == state.max_on_minutes,
{
}

} // verus!
