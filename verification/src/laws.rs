//! What holds of the daemon as a whole, whatever is asked of it and in whatever order.
use vstd::arithmetic::power2::{lemma2_to64, lemma_pow2_unfold, pow2};
use vstd::prelude::*;

use crate::{command, schedule, scheduler, state, text, time, web};
use crate::command::{Command, Surroundings};
use crate::flow::{FlowRate, FlowSensor, Liters, Reading};
use crate::schedule::Slot;
use crate::scheduler::Scheduler;
use crate::session::World;
use crate::state::{EventView, StateView};

verus! {

/// Everything that can change the world once the daemon runs.
pub enum Step {
    /// A command of the chat.
    Command(Command, Surroundings),
    /// A web request to open the valve: reading, time and minutes.
    OpenRequest(Reading, int, u32),
    /// A web request to close the valve.
    CloseRequest(Reading),
    /// A web request to set the slots, and whether they are followed.
    SlotsRequest(Seq<Slot>, Option<bool>),
    /// A web request to switch the schedule on or off.
    SwitchRequest(bool),
    /// A web request to set the daily target.
    TargetRequest(u64),
    /// The scheduler's check of the valve's time.
    AutoOffCheck(Reading, int),
    /// The scheduler's check of the schedule: reading, time and offset.
    ScheduleCheck(Scheduler, Reading, int, int),
    /// The end of the daemon.
    Stop,
}

/// The world after a step.
pub open spec fn after(before: World, step: Step) -> World {
    match step {
        Step::Command(cmd, at) => command::commanded(before, cmd, at).0,
        Step::OpenRequest(reading, now, minutes) => web::open_requested(
            before,
            reading,
            now,
            minutes,
        ),
        Step::CloseRequest(reading) => before.closed(reading),
        Step::SlotsRequest(slots, enabled) => World {
            state: web::slots_requested(before.state, slots, enabled),
            ..before
        },
        Step::SwitchRequest(enabled) => World { state: before.state.switched(enabled), ..before },
        Step::TargetRequest(liters) => World {
            state: web::target_requested(before.state, liters),
            ..before
        },
        Step::AutoOffCheck(reading, now) => scheduler::auto_closed(before, reading, now),
        Step::ScheduleCheck(s, reading, now, east) => s.scheduled(before, reading, now, east),
        Step::Stop => World { state: before.state.stopped(), valve_open: false, ..before },
    }
}

/// The world after a number of steps.
pub open spec fn run(start: World, steps: Seq<Step>) -> World
    decreases steps.len(),
{
    if steps.len() == 0 {
        start
    } else {
        after(run(start, steps.drop_last()), steps.last())
    }
}

/// The world in which the daemon starts, from what its file held.
pub open spec fn starting(
    stored: Option<StateView>,
    system_file: bool,
    now: int,
    flow: FlowSensor,
) -> World {
    World {
        state: StateView::loaded(stored, system_file, now),
        valve_open: false,
        flow,
    }
}

/// However the daemon was stopped, it starts with the valve closed.
pub proof fn starts_closed(
    stored: Option<StateView>,
    system_file: bool,
    now: int,
    flow: FlowSensor,
)
    ensures
        !starting(stored, system_file, now, flow).valve_open,
        !starting(stored, system_file, now, flow).state.valve_open,
        starting(stored, system_file, now, flow).state.auto_off_at is None,
        starting(stored, system_file, now, flow).safe(),
{
}

/// No step makes the valve stand otherwise than the state says, nor leaves it
/// open without a time at which it closes by itself.
pub proof fn every_step_is_safe(before: World, step: Step)
    requires
        before.safe(),
    ensures
        after(before, step).safe(),
{
}

/// From its start on, whatever happens, the valve stands as the state says, and
/// never stands open without a time at which it closes by itself.
pub proof fn always_safe(
    stored: Option<StateView>,
    system_file: bool,
    now: int,
    flow: FlowSensor,
    steps: Seq<Step>,
)
    ensures
        run(starting(stored, system_file, now, flow), steps).safe(),
    decreases steps.len(),
{
    if steps.len() > 0 {
        always_safe(stored, system_file, now, flow, steps.drop_last());
        every_step_is_safe(
            run(starting(stored, system_file, now, flow), steps.drop_last()),
            steps.last(),
        );
    }
}

/// Every change of the state is written to its file.
pub proof fn changes_are_saved(before: World, step: Step)
    ensures
        after(before, step).state == before.state || after(before, step).state.unsaved,
{
}

/// No step changes the cap on durations, the pins, the time of the start or the
/// file.
pub proof fn settings_stay(before: World, step: Step)
    ensures
        after(before, step).state.max_on_minutes == before.state.max_on_minutes,
        after(before, step).state.relay_pin == before.state.relay_pin,
        after(before, step).state.flow_pin == before.state.flow_pin,
        after(before, step).state.boot_time == before.state.boot_time,
        after(before, step).state.state_path == before.state.state_path,
{
}

/// A web request never opens the valve for longer than the cap.
pub proof fn requests_are_capped(before: World, reading: Reading, now: int, minutes: u32)
    ensures
        ({
            let then = web::open_requested(before, reading, now, minutes);
            then == before || (then.state.auto_off_at is Some && now < then.state.auto_off_at->0
                <= now + before.state.max_on_minutes * time::minute())
        }),
{
}

/// A command never opens the valve for longer than the cap.
pub proof fn commands_are_capped(before: World, cmd: Command, at: Surroundings)
    ensures
        ({
            let then = command::commanded(before, cmd, at).0;
            then.state.auto_off_at == before.state.auto_off_at || then.state.auto_off_at is None || (
            at.now@ < then.state.auto_off_at->0 <= at.now@ + before.state.max_on_minutes
                * time::minute())
        }),
{
}

/// A valve that is opened for some minutes, and then left alone, is closed by the
/// first check at or after the end of them, and by none before.
pub proof fn closes_in_time(
    before: World,
    reading: Reading,
    opened_at: int,
    minutes: u32,
    source: Seq<char>,
    later_reading: Reading,
    checked_at: int,
)
    ensures
        scheduler::auto_closed(
            before.opened(reading, opened_at, minutes, source),
            later_reading,
            checked_at,
        ).valve_open <==> checked_at < opened_at + minutes * time::minute(),
{
}

/// A volume counts from zero at the start of a session, and by what the sensor
/// has counted since.
pub proof fn volume_counts_from_the_start(
    before: World,
    reading: Reading,
    now: int,
    minutes: u32,
    source: Seq<char>,
    later: Reading,
)
    requires
        later.count >= reading.count,
    ensures
        before.opened(reading, now, minutes, source).volume(reading).pulses == 0,
        before.opened(reading, now, minutes, source).volume(later).pulses == later.count
            - reading.count,
{
}

/// A session that is opened and then closed leaves one watering at the end of the
/// log, with what flowed, and adds that to the lifetime total.
pub proof fn sessions_are_logged(
    before: World,
    reading: Reading,
    now: int,
    minutes: u32,
    source: Seq<char>,
    later: Reading,
)
    requires
        later.count >= reading.count,
    ensures
        ({
            let volume = Liters { pulses: (later.count - reading.count) as u64 };
            let then = before.opened(reading, now, minutes, source).closed(later).state;
            &&& then.log == state::kept(
                before.state.log.push(
                    EventView {
                        timestamp: now,
                        duration_min: minutes,
                        source,
                        volume: Some(volume),
                    },
                ),
            )
            &&& then.lifetime == before.state.lifetime.added(volume)
            &&& !then.valve_open
            &&& then.auto_off_at is None
        }),
{
    let open = before.opened(reading, now, minutes, source).state;
    let event = EventView { timestamp: now, duration_min: minutes, source, volume: None };
    let volume = Liters { pulses: (later.count - reading.count) as u64 };
    let done = before.opened(reading, now, minutes, source).closed(later).state;
    assert(open.log.last() == event);
    assert(done.log == state::kept(
        before.state.log.push(EventView { volume: Some(volume), ..event }),
    ));
}

/// The lifetime total never shrinks.
pub proof fn lifetime_never_shrinks(before: World, step: Step)
    ensures
        after(before, step).state.lifetime.pulses >= before.state.lifetime.pulses,
{
}

/// The command to close, given while the valve is closed, counts no water.
pub proof fn closing_again_counts_nothing(before: World, at: Surroundings)
    requires
        !before.state.valve_open,
    ensures
        ({
            let then = command::commanded(before, Command::Off, at).0;
            &&& then.state.lifetime == before.state.lifetime
            &&& then.state.log == before.state.log
            &&& !then.valve_open
        }),
{
}

/// To close the valve while it is closed, and nothing flowed, leaves every watering
/// as it was logged.
pub proof fn closing_without_a_session_logs_nothing(before: World, reading: Reading)
    requires
        !before.state.valve_open,
        before.volume(reading).pulses == 0,
    ensures
        ({
            let then = before.closed(reading);
            &&& then.state == before.state.idle().to_save()
            &&& then.state.log == before.state.log
            &&& then.state.lifetime == before.state.lifetime
            &&& !then.valve_open
        }),
{
}

/// A new watering ends the log, which otherwise keeps the newest ones, as many as
/// there is room for, in their order.
pub proof fn log_keeps_the_newest(before: StateView, event: EventView)
    ensures
        ({
            let log = before.recorded(event).log;
            &&& 0 < log.len() <= state::MAX_LOG_ENTRIES
            &&& log.last() == event
            &&& log.len() == if before.log.len() < state::MAX_LOG_ENTRIES {
                before.log.len() + 1
            } else {
                state::MAX_LOG_ENTRIES as nat
            }
            &&& forall|k: int|
                0 < k < log.len() ==> #[trigger] log[log.len() - 1 - k] == before.log[before.log.len()
                    - k]
        }),
{
}

/// The log never grows beyond its limit.
pub proof fn log_stays_bounded(before: World, step: Step)
    requires
        before.state.log.len() <= state::MAX_LOG_ENTRIES,
    ensures
        after(before, step).state.log.len() <= state::MAX_LOG_ENTRIES,
{
}

/// Whether slots are such as a schedule may hold.
pub open spec fn well_formed(slots: Seq<Slot>) -> bool {
    &&& slots.len() > 0
    &&& schedule::in_order(slots)
    &&& forall|i: int| 0 <= i < slots.len() ==> (#[trigger] slots[i]).valid()
}

proof fn lemma_first_invalid(slots: Seq<Slot>, i: int)
    requires
        0 <= i <= slots.len(),
    ensures
        i <= schedule::first_invalid(slots, i) <= slots.len(),
        schedule::first_invalid(slots, i) == slots.len() <==> forall|k: int|
            i <= k < slots.len() ==> (#[trigger] slots[k]).valid(),
    decreases slots.len() - i,
{
    if i < slots.len() {
        lemma_first_invalid(slots, i + 1);
    }
}

proof fn lemma_in_order_is_ordered(slots: Seq<Slot>)
    requires
        schedule::in_order(slots),
    ensures
        schedule::ordered(slots) == slots,
    decreases slots.len(),
{
    if slots.len() > 0 {
        let rest = slots.drop_last();
        lemma_in_order_is_ordered(rest);
        if rest.len() > 0 {
            assert(slots[rest.len() - 1].start() <= slots[rest.len() as int].start());
        }
        assert(rest.push(slots.last()) == slots);
    }
}

/// Slots are accepted exactly where there are some and all are valid, and come
/// out such as a schedule may hold.
pub proof fn accepted_slots_are_well_formed(slots: Seq<Slot>)
    ensures
        schedule::checked(slots) is Ok <==> slots.len() > 0 && forall|i: int|
            0 <= i < slots.len() ==> (#[trigger] slots[i]).valid(),
        schedule::checked(slots) is Ok ==> well_formed(schedule::checked(slots)->Ok_0),
        schedule::checked(slots) is Ok ==> schedule::checked(slots)->Ok_0.to_multiset()
            == slots.to_multiset(),
{
    broadcast use vstd::seq_lib::group_to_multiset_ensures;

    lemma_first_invalid(slots, 0);
    schedule::ordering_is_a_stable_sort(slots);
    if schedule::checked(slots) is Ok {
        let out = schedule::ordered(slots);
        assert forall|i: int| 0 <= i < out.len() implies (#[trigger] out[i]).valid() by {
            assert(out.contains(out[i]));
            assert(out.to_multiset().count(out[i]) > 0);
            assert(slots.contains(out[i]));
        }
    }
}

/// The chat and the web hold slots to the same rules: what a schedule text denotes
/// is such as a schedule may hold, and a web request for it is accepted as it is.
pub proof fn chat_and_web_agree(input: Seq<char>)
    requires
        schedule::read_schedule(input) is Ok,
    ensures
        well_formed(schedule::read_schedule(input)->Ok_0),
        schedule::checked(schedule::read_schedule(input)->Ok_0) == schedule::read_schedule(input),
{
    let slots = schedule::read_slots(text::words(input))->Ok_0;
    let out = schedule::read_schedule(input)->Ok_0;
    accepted_slots_are_well_formed(slots);
    lemma_first_invalid(out, 0);
    lemma_in_order_is_ordered(out);
}

/// A schedule that is well formed stays so, whatever is asked.
pub proof fn schedule_stays_well_formed(before: World, step: Step)
    requires
        well_formed(before.state.slots),
    ensures
        well_formed(after(before, step).state.slots),
{
    match step {
        Step::Command(cmd, at) => {
            if let Command::SetSchedule(args) = cmd {
                if schedule::read_schedule(args@) is Ok {
                    chat_and_web_agree(args@);
                }
            }
        },
        Step::SlotsRequest(slots, enabled) => {
            accepted_slots_are_well_formed(slots);
        },
        _ => {},
    }
}

/// The schedule that nobody has changed is well formed.
pub proof fn default_schedule_is_well_formed()
    ensures
        well_formed(schedule::default_slots()),
{
}

/// A slot never opens the valve for longer than the cap.
pub proof fn slots_are_capped(s: Scheduler, before: World, reading: Reading, now: int, east: int)
    ensures
        ({
            let then = s.scheduled(before, reading, now, east);
            then == before || (then.state.auto_off_at is Some && now <= then.state.auto_off_at->0
                <= now + before.state.max_on_minutes * time::minute())
        }),
{
}

/// No step lets the valve stand open for longer than the cap from now on, unless it
/// leaves the end of the session as it was.
pub proof fn every_opening_is_capped(before: World, step: Step, now: int)
    requires
        match step {
            Step::Command(cmd, at) => at.now@ == now,
            Step::OpenRequest(reading, t, minutes) => t == now,
            Step::ScheduleCheck(s, reading, t, east) => t == now,
            _ => true,
        },
    ensures
        ({
            let then = after(before, step).state;
            then.auto_off_at == before.state.auto_off_at || then.auto_off_at is None
                || then.auto_off_at->0 <= now + before.state.max_on_minutes * time::minute()
        }),
{
}

proof fn lemma_first_at(slots: Seq<Slot>, hour: u32, minute: u32, i: int)
    requires
        0 <= i <= slots.len(),
    ensures
        ({
            let k = schedule::first_at(slots, hour, minute, i);
            &&& i <= k <= slots.len()
            &&& k < slots.len() ==> slots[k].hour == hour && slots[k].minute == minute
            &&& forall|j: int|
                i <= j < k ==> !((#[trigger] slots[j]).hour == hour && slots[j].minute == minute)
        }),
    decreases slots.len() - i,
{
    if i < slots.len() && !(slots[i].hour == hour && slots[i].minute == minute) {
        lemma_first_at(slots, hour, minute, i + 1);
    }
}

/// A slot is followed at its time on every day, where the schedule is on and the
/// valve is closed, unless a slot of that time was the last one followed on that
/// very day.
pub proof fn slots_are_followed(s: Scheduler, state: StateView, day: int, k: int)
    requires
        state.enabled,
        !state.valve_open,
        0 <= k < state.slots.len(),
        !s.has_followed(day, state.slots[k].hour, state.slots[k].minute),
    ensures
        ({
            let slot = state.slots[k];
            let first = schedule::first_at(state.slots, slot.hour, slot.minute, 0);
            &&& 0 <= first <= k
            &&& state.slots[first].start() == slot.start()
            &&& s.triggers(state, day, slot.hour, slot.minute) == Some(
                scheduler::capped(state.slots[first].duration_min, state.max_on_minutes),
            )
        }),
{
    lemma_first_at(state.slots, state.slots[k].hour, state.slots[k].minute, 0);
}

/// A slot that was the last one followed on one day is followed again on another.
pub proof fn slots_are_followed_again(
    s: Scheduler,
    day: int,
    state: StateView,
    other_day: int,
    k: int,
)
    requires
        state.enabled,
        !state.valve_open,
        0 <= k < state.slots.len(),
        s.has_followed(day, state.slots[k].hour, state.slots[k].minute),
        other_day != day,
    ensures
        s.triggers(state, other_day, state.slots[k].hour, state.slots[k].minute) is Some,
{
    slots_are_followed(s, state, other_day, k);
}

/// A slot that opened the valve, and whose session has ended, opens it again, for
/// as long, when the clock shows the same time on another day.
pub proof fn slots_water_daily(
    s: Scheduler,
    before: World,
    reading: Reading,
    now: int,
    east: int,
    next: Scheduler,
    end_reading: Reading,
    later_reading: Reading,
    later_now: int,
)
    requires
        s.triggers_at(before.state, now, east) is Some,
        next.just_followed(now, east, reading.clock),
        time::local_minute(later_now, east) == time::local_minute(now, east),
        time::local_day(later_now, east) != time::local_day(now, east),
    ensures
        ({
            let minutes = s.triggers_at(before.state, now, east)->0;
            let ended = s.scheduled(before, reading, now, east).closed(end_reading);
            next.scheduled(ended, later_reading, later_now, east) == ended.opened(
                later_reading,
                later_now,
                minutes,
                "schedule"@,
            )
        }),
{
}

/// A session whose time has come does not keep a slot from being followed in the
/// same round.
pub proof fn expired_session_gives_way(
    s: Scheduler,
    before: World,
    reading: Reading,
    now: int,
    day: int,
    hour: u32,
    minute: u32,
)
    requires
        before.state.enabled,
        scheduler::expired(before.state, now),
        !s.has_followed(day, hour, minute),
    ensures
        s.triggers(scheduler::auto_closed(before, reading, now).state, day, hour, minute)
            == match schedule::due(before.state.slots, hour, minute) {
            Some(d) => Some(scheduler::capped(d, before.state.max_on_minutes)),
            None => None,
        },
{
}

/// Nothing opens the valve at a time at which no slot starts.
pub proof fn only_slots_are_followed(
    s: Scheduler,
    state: StateView,
    day: int,
    hour: u32,
    minute: u32,
)
    requires
        s.triggers(state, day, hour, minute) is Some,
    ensures
        state.enabled,
        !state.valve_open,
        exists|k: int|
            0 <= k < state.slots.len() && (#[trigger] state.slots[k]).hour == hour
                && state.slots[k].minute == minute,
{
    lemma_first_at(state.slots, hour, minute, 0);
    let k = schedule::first_at(state.slots, hour, minute, 0);
    assert(state.slots[k].hour == hour);
}

/// A slot that was followed is not followed a second time in its minute.
pub proof fn slots_are_followed_once(
    s: Scheduler,
    day: int,
    hour: u32,
    minute: u32,
    later: StateView,
)
    requires
        s.has_followed(day, hour, minute),
    ensures
        s.triggers(later, day, hour, minute) is None,
{
}

/// The waits before the chat is tried again are 2, 4, 8 seconds and so on: after the
/// `k`-th breakdown, the `k`-th power of two, and two minutes at most.
pub proof fn waits_are_powers_of_two(k: nat)
    requires
        k >= 1,
    ensures
        command::backoff(k) == if pow2(k) < 120 {
            pow2(k) as int
        } else {
            120
        },
    decreases k,
{
    lemma2_to64();
    if k > 1 {
        waits_are_powers_of_two((k - 1) as nat);
        lemma_pow2_unfold(k);
    }
}

proof fn lemma_first_after(slots: Seq<Slot>, minute: int, i: int)
    requires
        0 <= i <= slots.len(),
    ensures
        ({
            let k = schedule::first_after(slots, minute, i);
            &&& i <= k <= slots.len()
            &&& k < slots.len() ==> slots[k].start() > minute
            &&& forall|j: int| i <= j < k ==> (#[trigger] slots[j]).start() <= minute
        }),
    decreases slots.len() - i,
{
    if i < slots.len() && slots[i].start() <= minute {
        lemma_first_after(slots, minute, i + 1);
    }
}

/// Of slots in order, the one that is said to come next today is the earliest of
/// those that start later; and one is put off to tomorrow only where none does,
/// and is then the earliest of all.
pub proof fn next_slot_is_the_earliest(slots: Seq<Slot>, minute: int)
    requires
        schedule::in_order(slots),
    ensures
        match schedule::upcoming(slots, minute) {
            Some((slot, true)) => {
                &&& slots.contains(slot)
                &&& slot.start() > minute
                &&& forall|j: int|
                    0 <= j < slots.len() && (#[trigger] slots[j]).start() > minute ==> slot.start()
                        <= slots[j].start()
            },
            Some((slot, false)) => {
                &&& slots.contains(slot)
                &&& forall|j: int|
                    0 <= j < slots.len() ==> slot.start() <= (#[trigger] slots[j]).start() <= minute
            },
            None => slots.len() == 0,
        },
{
    lemma_first_after(slots, minute, 0);
}

/// The peak of a log is no weaker than the flow of any watering in it, and is that
/// of one of them, unless there is no flow at all.
pub proof fn peak_is_the_strongest(log: Seq<EventView>)
    ensures
        web::peak_of(log).secs > 0,
        forall|i: int|
            0 <= i < log.len() ==> match #[trigger] web::rate_of(log[i]) {
                Some(rate) => !rate.stronger(web::peak_of(log)),
                None => true,
            },
        web::peak_of(log) == (FlowRate { pulses: 0, secs: 60 }) || exists|i: int|
            0 <= i < log.len() && #[trigger] web::rate_of(log[i]) == Some(web::peak_of(log)),
    decreases log.len(),
{
    if log.len() > 0 {
        let rest = log.drop_last();
        peak_is_the_strongest(rest);
        let old_peak = web::peak_of(rest);
        let peak = web::peak_of(log);
        assert forall|i: int| 0 <= i < log.len() implies match #[trigger] web::rate_of(log[i]) {
            Some(rate) => !rate.stronger(peak),
            None => true,
        } by {
            if let Some(rate) = web::rate_of(log[i]) {
                if i < rest.len() {
                    assert(web::rate_of(rest[i]) == Some(rate));
                    assert(!rate.stronger(old_peak));
                    if peak != old_peak {
                        let a = rate.pulses as int;
                        let sa = rate.secs as int;
                        let b = old_peak.pulses as int;
                        let sb = old_peak.secs as int;
                        let c = peak.pulses as int;
                        let sc = peak.secs as int;
                        assert(a * sc <= c * sa) by (nonlinear_arith)
                            requires
                                a * sb <= b * sa,
                                c * sb > b * sc,
                                sa > 0,
                                sb > 0,
                                sc > 0,
                        ;
                    }
                }
            }
        }
        if peak == old_peak {
            if peak != (FlowRate { pulses: 0, secs: 60 }) {
                let i = choose|i: int|
                    0 <= i < rest.len() && #[trigger] web::rate_of(rest[i]) == Some(old_peak);
                assert(web::rate_of(log[i]) == Some(peak));
            }
        } else {
            assert(web::rate_of(log[log.len() - 1]) == Some(peak));
        }
    }
}

/// No watering is counted on two of the seven days of a summary.
pub proof fn days_share_no_watering(
    log: Seq<EventView>,
    offsets: Seq<time::UtcOffset>,
    today: int,
)
    ensures
        web::sessions_on(log, offsets, today - 6) + web::sessions_on(log, offsets, today - 5)
            + web::sessions_on(log, offsets, today - 4) + web::sessions_on(log, offsets, today - 3)
            + web::sessions_on(log, offsets, today - 2) + web::sessions_on(log, offsets, today - 1)
            + web::sessions_on(log, offsets, today) <= log.len(),
    decreases log.len(),
{
    if log.len() > 0 {
        days_share_no_watering(log.drop_last(), offsets, today);
    }
}

/// A slot as it is written in a schedule text, such as `06:00,8`.
pub open spec fn slot_word(slot: Slot) -> Seq<char> {
    text::two_digits(slot.hour as nat) + ":"@ + text::two_digits(slot.minute as nat) + ","@
        + text::decimal(slot.duration_min as nat)
}

/// Slots as they are written in a schedule text, with a space between them.
pub open spec fn written(slots: Seq<Slot>) -> Seq<char>
    decreases slots.len(),
{
    if slots.len() == 0 {
        Seq::empty()
    } else if slots.len() == 1 {
        slot_word(slots[0])
    } else {
        written(slots.drop_last()) + " "@ + slot_word(slots.last())
    }
}

proof fn lemma_find_past(s: Seq<char>, c: char, i: int, k: int)
    requires
        0 <= i <= k < s.len(),
        s[k] == c,
        forall|j: int| i <= j < k ==> #[trigger] s[j] != c,
    ensures
        text::find_from(s, c, i) == k,
    decreases k - i,
{
    if i < k {
        lemma_find_past(s, c, i + 1, k);
    }
}

/// A valid slot, as it is written, is read back.
pub proof fn written_slot_is_read(slot: Slot)
    requires
        slot.valid(),
    ensures
        schedule::read_slot(slot_word(slot)) == Ok::<Slot, Seq<char>>(slot),
{
    let h = text::two_digits(slot.hour as nat);
    let m = text::two_digits(slot.minute as nat);
    let d = text::decimal(slot.duration_min as nat);
    text::two_digits_are_read(slot.hour);
    text::two_digits_are_read(slot.minute);
    text::decimal_is_read(slot.duration_min);
    reveal_strlit(":");
    reveal_strlit(",");
    let t = h + ":"@ + m;
    let word = slot_word(slot);
    assert(word == t + ","@ + d);
    assert forall|j: int| 0 <= j < t.len() implies #[trigger] word[j] != ',' by {
        assert(word[j] == t[j]);
        if j < h.len() {
            assert(t[j] == h[j]);
        } else if j > h.len() {
            assert(t[j] == m[j - h.len() - 1]);
        }
    }
    lemma_find_past(word, ',', 0, t.len() as int);
    assert(word.subrange(0, t.len() as int) == t);
    assert(word.subrange(t.len() as int + 1, word.len() as int) == d);
    assert forall|j: int| 0 <= j < h.len() implies #[trigger] t[j] != ':' by {
        assert(t[j] == h[j]);
    }
    lemma_find_past(t, ':', 0, h.len() as int);
    assert(t.subrange(0, h.len() as int) == h);
    assert(t.subrange(h.len() as int + 1, t.len() as int) == m);
}

proof fn lemma_slot_word_is_a_word(slot: Slot)
    requires
        slot.valid(),
    ensures
        slot_word(slot).len() > 0,
        forall|j: int|
            0 <= j < slot_word(slot).len() ==> !text::is_white(#[trigger] slot_word(slot)[j]),
{
    let h = text::two_digits(slot.hour as nat);
    let m = text::two_digits(slot.minute as nat);
    let d = text::decimal(slot.duration_min as nat);
    text::two_digits_are_read(slot.hour);
    text::two_digits_are_read(slot.minute);
    text::decimal_is_read(slot.duration_min);
    reveal_strlit(":");
    reveal_strlit(",");
    let word = slot_word(slot);
    assert forall|j: int| 0 <= j < word.len() implies !text::is_white(#[trigger] word[j]) by {
        if j < h.len() {
            assert(word[j] == h[j]);
        } else if j == h.len() {
            assert(word[j] == ':');
        } else if j < h.len() + 1 + m.len() {
            assert(word[j] == m[j - h.len() - 1]);
        } else if j == h.len() + 1 + m.len() {
            assert(word[j] == ',');
        } else {
            assert(word[j] == d[j - h.len() - m.len() - 2]);
        }
    }
}

proof fn lemma_written_words(slots: Seq<Slot>)
    requires
        forall|i: int| 0 <= i < slots.len() ==> (#[trigger] slots[i]).valid(),
    ensures
        text::words(written(slots)) == slots.map_values(|s: Slot| slot_word(s)),
        schedule::read_slots(slots.map_values(|s: Slot| slot_word(s))) == Ok::<
            Seq<Slot>,
            Seq<char>,
        >(slots),
    decreases slots.len(),
{
    let all = slots.map_values(|s: Slot| slot_word(s));
    if slots.len() > 0 {
        let rest = slots.drop_last();
        let slot = slots.last();
        assert(slots[slots.len() - 1].valid());
        lemma_written_words(rest);
        lemma_slot_word_is_a_word(slot);
        written_slot_is_read(slot);
        assert(all.drop_last() == rest.map_values(|s: Slot| slot_word(s)));
        assert(all.last() == slot_word(slot));
        assert(rest.push(slot) == slots);
        if slots.len() == 1 {
            text::lemma_single_word(slot_word(slot));
            assert(all == seq![slot_word(slot)]);
        } else {
            text::lemma_word_behind(written(rest), slot_word(slot));
            assert(all == rest.map_values(|s: Slot| slot_word(s)).push(slot_word(slot)));
        }
    } else {
        assert(all == Seq::<Seq<char>>::empty());
        assert(slots == Seq::<Slot>::empty());
    }
}

/// Valid slots, as they are written, make a schedule text that denotes them, in
/// order.
pub proof fn written_slots_are_read(slots: Seq<Slot>)
    requires
        slots.len() > 0,
        forall|i: int| 0 <= i < slots.len() ==> (#[trigger] slots[i]).valid(),
    ensures
        schedule::read_schedule(written(slots)) == Ok::<Seq<Slot>, Seq<char>>(
            schedule::ordered(slots),
        ),
{
    lemma_written_words(slots);
    lemma_first_invalid(slots, 0);
}

/// The command to open takes a number of minutes as it is written.
pub proof fn asked_minutes_are_read(minutes: u32)
    ensures
        command::asked_minutes(text::decimal(minutes as nat)) == minutes,
{
    let s = text::decimal(minutes as nat);
    text::decimal_is_read(minutes);
    assert(!text::is_white(s[0]));
    assert(!text::is_white(s[s.len() - 1]));
    assert(text::trimmed(s) == s);
}

} // verus!
