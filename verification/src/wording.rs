//! What the texts say to people: which numbers, times and volumes can be read off them.
use vstd::prelude::*;

use crate::{command, figures, flow, reading, schedule, scheduler, session, text, time, web};
use crate::command::{Command, Surroundings};
use crate::effects::clock_shows;
use crate::flow::{Liters, Reading};
use crate::reading::{denotes, denotes_padded, holds_number};
use crate::schedule::Slot;
use crate::scheduler::Scheduler;
use crate::session::World;
use crate::state::{EventView, StateView};

verus! {

/// Whether a text shows the time of day: two digits, a colon and two digits.
pub open spec fn shows_time(s: Seq<char>, hour: int, minute: int) -> bool {
    &&& s.len() == 5
    &&& s[0] as u32 == 48 + hour / 10
    &&& s[1] as u32 == 48 + hour % 10
    &&& s[2] == ':'
    &&& s[3] as u32 == 48 + minute / 10
    &&& s[4] as u32 == 48 + minute % 10
}

/// Whether a text shows a volume in litres of 617 pulses: a number, a point and one
/// more digit, off by half a tenth at most.
pub open spec fn shows_liters(s: Seq<char>, pulses: nat) -> bool {
    &&& s.len() >= 3
    &&& s[s.len() - 2] == '.'
    &&& '0' <= s[s.len() - 1] <= '9'
    &&& exists|whole: nat| #[trigger]
        denotes(s.take(s.len() - 2), whole) && -617 <= 2 * (617 * (10 * whole + (s[s.len() - 1] as u32
            - '0' as u32)) - 10 * pulses) <= 617
}

/// Whether a text is made of `before`, a volume in litres, and `after`.
pub open spec fn holds_liters(
    text: Seq<char>,
    before: Seq<char>,
    pulses: nat,
    after: Seq<char>,
) -> bool {
    exists|shown: Seq<char>| #[trigger] shows_liters(shown, pulses) && text == before + shown + after
}

/// A volume is shown in litres.
pub proof fn volumes_are_shown_in_liters(pulses: nat)
    ensures
        shows_liters(flow::liters_text(pulses), pulses),
{
    let s = flow::liters_text(pulses);
    let t = flow::tenths(pulses);
    reveal_strlit(".");
    reading::numbers_are_written_in_decimal(t / 10);
    let last = text::digit_char(t % 10);
    assert(text::decimal(t % 10) == seq![last]);
    assert(s.take(s.len() - 2) == text::decimal(t / 10));
    assert(s[s.len() - 1] == last);
    assert(last as u32 == 48 + t % 10);
    figures::tenths_are_rounded(pulses);
    assert(denotes(s.take(s.len() - 2), t / 10));
}

proof fn lemma_time(hour: nat, minute: nat)
    requires
        hour < 100,
        minute < 100,
    ensures
        shows_time(
            text::two_digits(hour) + ":"@ + text::two_digits(minute),
            hour as int,
            minute as int,
        ),
{
    reveal_strlit(":");
    reading::two_digits_are_tens_and_ones(hour);
    reading::two_digits_are_tens_and_ones(minute);
}

/// The time of day is shown as the clock shows it.
pub proof fn times_are_shown(now: int, east: int, day: int, hour: u32, minute: u32)
    requires
        clock_shows(now, east, day, hour, minute),
    ensures
        shows_time(time::clock_text(now, east), hour as int, minute as int),
        time::zoned_clock_text(now, east) == time::clock_text(now, east).push(' ')
            + time::offset_text(east),
{
    let into = now + east * 1_000_000_000 - (((day * 24 + hour) * 60) + minute) * 60_000_000_000;
    figures::clocks_show_day_and_minute(
        day,
        60 * hour + minute,
        into / 1_000_000_000,
        into % 1_000_000_000,
        east,
    );
    lemma_time(hour as nat, minute as nat);
    reveal_strlit(" ");
    assert(time::zoned_clock_text(now, east) == time::clock_text(now, east).push(' ')
        + time::offset_text(east));
}

/// An offset is shown as its sign, hours and minutes, and seconds where there are any.
pub proof fn offsets_are_shown(ahead: bool, hours: int, minutes: int, secs: int)
    requires
        0 <= hours < 24,
        0 <= minutes < 60,
        0 <= secs < 60,
        ahead || hours + minutes + secs > 0,
    ensures
        ({
            let size = hours * 3600 + minutes * 60 + secs;
            let s = time::offset_text(
                if ahead {
                    size
                } else {
                    -size
                },
            );
            &&& s[0] == if ahead {
                '+'
            } else {
                '-'
            }
            &&& shows_time(s.subrange(1, 6), hours, minutes)
            &&& secs == 0 ==> s.len() == 6
            &&& secs > 0 ==> s.len() == 9 && s[6] == ':' && s[7] as u32 == 48 + secs / 10
                && s[8] as u32 == 48 + secs % 10
        }),
{
    let size = hours * 3600 + minutes * 60 + secs;
    let east = if ahead {
        size
    } else {
        -size
    };
    let s = time::offset_text(east);
    reveal_strlit("+");
    reveal_strlit("-");
    reveal_strlit(":");
    reveal_strlit("");
    assert(size / 3600 == hours);
    assert(size / 60 == hours * 60 + minutes);
    assert(size / 60 % 60 == minutes);
    assert(size % 60 == secs);
    reading::two_digits_are_tens_and_ones(hours as nat);
    reading::two_digits_are_tens_and_ones(minutes as nat);
    reading::two_digits_are_tens_and_ones(secs as nat);
    lemma_time(hours as nat, minutes as nat);
    assert(s.subrange(1, 6) == text::two_digits(hours as nat) + ":"@ + text::two_digits(
        minutes as nat,
    ));
}

/// A slot is shown by its start and its minutes.
pub proof fn slots_are_shown(slot: Slot)
    requires
        slot.valid(),
    ensures
        shows_time(slot.shown().take(5), slot.hour as int, slot.minute as int),
        holds_number(slot.shown().skip(5), " for "@, slot.duration_min as nat, "min"@),
{
    lemma_time(slot.hour as nat, slot.minute as nat);
    reading::numbers_are_written_in_decimal(slot.duration_min as nat);
    let start = text::two_digits(slot.hour as nat) + ":"@ + text::two_digits(slot.minute as nat);
    assert(slot.shown().take(5) == start);
    assert(slot.shown().skip(5) == " for "@ + text::decimal(slot.duration_min as nat) + "min"@);
}

/// The text of the next slot names the hour and the minute of the slot that comes
/// next, with two digits each, and says whether it is today's or tomorrow's; without
/// slots it says that there is none.
pub proof fn the_next_slot_is_named(state: StateView, hour: int, minute: int, k: int)
    requires
        0 <= minute < 60,
        0 <= k <= state.slots.len(),
        forall|j: int|
            0 <= j < k ==> 60 * (#[trigger] state.slots[j]).hour + state.slots[j].minute <= 60
                * hour + minute,
        k < state.slots.len() ==> 60 * state.slots[k].hour + state.slots[k].minute > 60 * hour
            + minute,
    ensures
        ({
            let shown = state.next_text(60 * hour + minute);
            let slot = if k < state.slots.len() {
                state.slots[k]
            } else {
                state.slots[0]
            };
            &&& state.slots.len() == 0 ==> shown == "none"@
            &&& state.slots.len() > 0 ==> names_slot(shown, slot, k < state.slots.len())
            &&& state.slots.len() > 0 && slot.valid() ==> shows_time(
                shown.take(5),
                slot.hour as int,
                slot.minute as int,
            ) && shown.skip(5) == if k < state.slots.len() {
                " today"@
            } else {
                " tomorrow"@
            }
        }),
{
    reading::the_next_slot_is_the_first_later_one(state.slots, hour, minute, k);
    if state.slots.len() > 0 {
        let slot = if k < state.slots.len() {
            state.slots[k]
        } else {
            state.slots[0]
        };
        let h = text::two_digits(slot.hour as nat);
        let m = text::two_digits(slot.minute as nat);
        reading::two_digits_are_tens_and_ones(slot.hour as nat);
        reading::two_digits_are_tens_and_ones(slot.minute as nat);
        assert(denotes_padded(h, slot.hour as nat) && denotes_padded(m, slot.minute as nat));
        if slot.valid() {
            lemma_time(slot.hour as nat, slot.minute as nat);
            let shown = state.next_text(60 * hour + minute);
            assert(shown.take(5) == h + ":"@ + m);
            assert(shown.skip(5) == if k < state.slots.len() {
                " today"@
            } else {
                " tomorrow"@
            });
        }
    }
}

/// Whether a text names the start of a slot, and whether it is today's.
pub open spec fn names_slot(shown: Seq<char>, slot: Slot, today: bool) -> bool {
    exists|h: Seq<char>, m: Seq<char>| #[trigger]
        denotes_padded(h, slot.hour as nat) && #[trigger] denotes_padded(m, slot.minute as nat)
            && shown == h + ":"@ + m + (if today {
            " today"@
        } else {
            " tomorrow"@
        })
}

/// The schedule is listed with one line for each slot, which gives its number and the
/// slot; and it is said whether the schedule is followed.
pub proof fn schedules_are_listed(state: StateView, slot: Slot)
    ensures
        state.slots.len() == 0 ==> state.schedule_listing() == "No schedule configured."@,
        state.slots.len() > 0 ==> state.schedule_listing() == "Schedule ("@ + (
        if state.enabled {
            "enabled"@
        } else {
            "disabled"@
        }) + ")\n"@ + crate::state::slot_lines(state.slots),
        crate::state::slot_lines(Seq::empty()) == Seq::<char>::empty(),
        ({
            let lines = crate::state::slot_lines(state.slots);
            let more = crate::state::slot_lines(state.slots.push(slot));
            &&& more.take(lines.len() as int) == lines
            &&& holds_number(
                more.skip(lines.len() as int),
                "  "@,
                state.slots.len() + 1,
                ". "@ + slot.shown() + "\n"@,
            )
        }),
{
    let lines = crate::state::slot_lines(state.slots);
    let more = crate::state::slot_lines(state.slots.push(slot));
    let n = state.slots.len() + 1;
    assert(state.slots.push(slot).drop_last() == state.slots);
    reading::numbers_are_written_in_decimal(n);
    assert(more == lines + ("  "@ + text::decimal(n) + (". "@ + slot.shown() + "\n"@)));
    assert(more.take(lines.len() as int) == lines);
    assert(more.skip(lines.len() as int) == "  "@ + text::decimal(n) + (". "@ + slot.shown()
        + "\n"@));
}

proof fn lemma_whole_minutes(nanos: int, minutes: int, hours: int)
    requires
        figures::truncates(minutes, nanos, 60_000_000_000),
        figures::truncates(hours, minutes, 60),
    ensures
        ({
            let secs = time::whole(nanos, time::second());
            &&& time::whole(secs, 60) == minutes
            &&& time::whole(secs, 3600) == hours
            &&& time::rest(minutes, 60) == minutes - 60 * hours
        }),
{
    if nanos >= 0 {
        let secs = nanos / 1_000_000_000;
        assert(secs / 60 == minutes);
        assert(minutes >= 0);
        assert(secs / 3600 == hours);
        assert(minutes / 60 == hours);
    } else {
        let size = -nanos;
        let secs = size / 1_000_000_000;
        assert(secs / 60 == -minutes);
        assert(minutes <= 0);
        assert((-minutes) / 60 == -hours);
        assert(secs / 3600 == -hours);
    }
}

/// The time that is left is shown in whole minutes, towards zero; a dash stands where
/// no end is set.
pub proof fn the_time_left_is_shown(state: StateView, now: int, end: int, minutes: int)
    requires
        figures::truncates(minutes, end - now, 60_000_000_000),
    ensures
        state.auto_off_at is None ==> state.auto_off_text(now) == "—"@,
        state.auto_off_at == Some(end) && minutes >= 0 ==> holds_number(
            state.auto_off_text(now),
            Seq::empty(),
            minutes as nat,
            "min remaining"@,
        ),
        state.auto_off_at == Some(end) && minutes < 0 ==> holds_number(
            state.auto_off_text(now),
            "-"@,
            (-minutes) as nat,
            "min remaining"@,
        ),
{
    let hours = time::whole(minutes, 60);
    figures::whole_units_are_truncated(minutes, 60);
    lemma_whole_minutes(end - now, minutes, hours);
    if minutes >= 0 {
        reading::numbers_are_written_in_decimal(minutes as nat);
        let d = text::decimal(minutes as nat);
        assert(d + "min remaining"@ == Seq::empty() + d + "min remaining"@);
    } else {
        reading::numbers_are_written_in_decimal((-minutes) as nat);
    }
}

/// The last watering is shown by the time of its start, its minutes, who asked for it,
/// and its volume where it was measured.
pub proof fn the_last_watering_is_shown(
    state: StateView,
    event: EventView,
    east: int,
    day: int,
    hour: u32,
    minute: u32,
)
    requires
        state.log.len() > 0 ==> state.log[state.log.len() - 1] == event,
        clock_shows(event.timestamp, east, day, hour, minute),
    ensures
        state.log.len() == 0 ==> state.last_text(east) == "none"@,
        state.log.len() > 0 ==> {
            let shown = state.last_text(east);
            &&& shows_time(shown.take(5), hour as int, minute as int)
            &&& event.volume is None ==> holds_number(
                shown.skip(5),
                " ("@,
                event.duration_min as nat,
                "min, "@ + event.source + ")"@,
            )
            &&& event.volume is Some ==> exists|volume: Seq<char>| #[trigger]
                shows_liters(volume, event.volume->0.pulses as nat) && holds_number(
                    shown.skip(5),
                    " ("@,
                    event.duration_min as nat,
                    "min, "@ + event.source + ", "@ + volume + "L)"@,
                )
        },
{
    if state.log.len() > 0 {
        let shown = state.last_text(east);
        times_are_shown(event.timestamp, east, day, hour, minute);
        reading::numbers_are_written_in_decimal(event.duration_min as nat);
        let d = text::decimal(event.duration_min as nat);
        let clock = time::clock_text(event.timestamp, east);
        reveal_strlit("");
        reveal_strlit("L");
        reveal_strlit(")");
        reveal_strlit("L)");
        assert(shown.take(5) == clock);
        match event.volume {
            Some(v) => {
                volumes_are_shown_in_liters(v.pulses as nat);
                let volume = flow::liters_text(v.pulses as nat);
                assert(shown.skip(5) == " ("@ + d + ("min, "@ + event.source + ", "@ + volume
                    + "L)"@));
                assert(shows_liters(volume, v.pulses as nat));
            },
            None => {
                assert(shown.skip(5) == " ("@ + d + ("min, "@ + event.source + ")"@));
            },
        }
    }
}

/// The status says how the valve stands, when it closes, whether the schedule is
/// followed and what comes next, how many whole hours and minutes the daemon has run,
/// the time with its offset, and the last watering.
pub proof fn the_status_is_shown(
    state: StateView,
    now: int,
    east: int,
    last_east: int,
    minutes: int,
    hours: int,
)
    requires
        figures::truncates(minutes, now - state.boot_time, 60_000_000_000),
        figures::truncates(hours, minutes, 60),
    ensures
        state.status(now, east, last_east) == "Valve: "@ + (if state.valve_open {
            "OPEN"@
        } else {
            "CLOSED"@
        }) + "\nAuto-off: "@ + state.auto_off_text(now) + "\nSchedule: "@ + (if state.enabled {
            "enabled"@
        } else {
            "disabled"@
        }) + "\nNext: "@ + (if state.enabled {
            state.next_text(time::local_minute(now, east))
        } else {
            "schedule disabled"@
        }) + "\nUptime: "@ + text::signed_decimal(hours) + "h "@ + text::signed_decimal(
            minutes - 60 * hours,
        ) + "m\nTime: "@ + time::zoned_clock_text(now, east) + "\nLast watering: "@
            + state.last_text(last_east),
{
    lemma_whole_minutes(now - state.boot_time, minutes, hours);
}

/// The command to open is answered with the minutes that are asked for, or with the
/// cap that they exceed, or with the word that there must be some.
pub proof fn the_answer_to_opening(before: World, args: String, at: Surroundings)
    ensures
        ({
            let minutes = command::asked_minutes(args@);
            let cap = before.state.max_on_minutes;
            let reply = command::commanded(before, Command::On(args), at).1;
            &&& minutes == 0 ==> reply == "Duration must be > 0."@
            &&& minutes > cap ==> minutes == 0 || holds_number(
                reply,
                "Max duration is "@,
                cap as nat,
                " minutes."@,
            )
            &&& 0 < minutes <= cap ==> holds_number(
                reply,
                "Valve OPENED for "@,
                minutes as nat,
                " minutes."@,
            )
        }),
{
    reading::numbers_are_written_in_decimal(command::asked_minutes(args@) as nat);
    reading::numbers_are_written_in_decimal(before.state.max_on_minutes as nat);
}

/// The command to close is answered with what has flowed in the session that it
/// ended, where something has.
pub proof fn the_answer_to_closing(before: World, at: Surroundings)
    ensures
        ({
            let reply = command::commanded(before, Command::Off, at).1;
            let start = before.flow.session_start_count;
            if before.state.valve_open && at.reading.count > start {
                holds_liters(
                    reply,
                    "Valve CLOSED. Total: "@,
                    (at.reading.count - start) as nat,
                    "L."@,
                )
            } else {
                reply == "Valve CLOSED."@
            }
        }),
{
    let start = before.flow.session_start_count;
    if at.reading.count > start {
        volumes_are_shown_in_liters((at.reading.count - start) as nat);
    }
}

/// The other commands are answered with the status, to which what has flowed is added
/// while the valve is open; with the schedule; with the number of slots that were set,
/// or with what is wrong with the text; with how the schedule was switched; and with
/// the help.
pub proof fn the_other_answers(before: World, args: String, at: Surroundings)
    ensures
        !before.state.valve_open ==> command::commanded(before, Command::Status, at).1
            == before.state.status(at.now@, at.offset@, at.last_offset@),
        before.state.valve_open && at.reading.count >= before.flow.session_start_count
            ==> holds_liters(
            command::commanded(before, Command::Status, at).1,
            before.state.status(at.now@, at.offset@, at.last_offset@) + "\nFlow: "@,
            (at.reading.count - before.flow.session_start_count) as nat,
            "L"@,
        ),
        command::commanded(before, Command::Schedule, at).1 == before.state.schedule_listing(),
        match schedule::read_schedule(args@) {
            Ok(slots) => holds_number(
                command::commanded(before, Command::SetSchedule(args), at).1,
                "Schedule updated with "@,
                slots.len(),
                " slot(s)."@,
            ),
            Err(message) => command::commanded(before, Command::SetSchedule(args), at).1
                == "Parse error: "@ + message + "\nFormat: /set 06:00,8 10:00,8 14:00,8"@,
        },
        command::commanded(before, Command::Enable, at).1 == "Schedule enabled."@,
        command::commanded(before, Command::Disable, at).1 == "Schedule disabled."@,
        command::commanded(before, Command::Help, at).1 == at.help@,
        command::commanded(before, Command::Start, at).1 == at.help@,
{
    if before.state.valve_open && at.reading.count >= before.flow.session_start_count {
        let pulses = (at.reading.count - before.flow.session_start_count) as nat;
        volumes_are_shown_in_liters(pulses);
        assert(shows_liters(flow::liters_text(pulses), pulses));
    }
    if let Ok(slots) = schedule::read_schedule(args@) {
        reading::numbers_are_written_in_decimal(slots.len());
    }
}

/// What the scheduler says: the volume of a session that ended by itself, the volume
/// of one that goes on, and the minutes for which a slot has opened the valve, with the
/// time.
pub proof fn what_the_scheduler_says(
    volume: Liters,
    minutes: u32,
    now: int,
    east: int,
    day: int,
    hour: u32,
    minute: u32,
)
    requires
        clock_shows(now, east, day, hour, minute),
    ensures
        holds_liters(
            scheduler::closing_text(volume),
            "Auto-off: valve CLOSED. Total: "@,
            volume.pulses as nat,
            "L."@,
        ),
        holds_liters(
            scheduler::report_text(volume),
            "Watering... "@,
            volume.pulses as nat,
            "L so far."@,
        ),
        exists|clock: Seq<char>| #[trigger]
            shows_time(clock, hour as int, minute as int) && holds_number(
                scheduler::opening_text(minutes, now, east),
                "Schedule: valve OPENED for "@,
                minutes as nat,
                "min ("@ + clock + ")."@,
            ),
{
    volumes_are_shown_in_liters(volume.pulses as nat);
    times_are_shown(now, east, day, hour, minute);
    reading::numbers_are_written_in_decimal(minutes as nat);
    let clock = time::clock_text(now, east);
    let d = text::decimal(minutes as nat);
    assert(scheduler::opening_text(minutes, now, east) == "Schedule: valve OPENED for "@ + d + (
    "min ("@ + clock + ")."@));
    assert(shows_time(clock, hour as int, minute as int));
}

/// The scheduler says that a session has ended where its end has come, with the
/// volume; and that a slot has opened the valve where one has, with the minutes.
pub proof fn when_the_scheduler_speaks(
    s: Scheduler,
    before: World,
    reading: Reading,
    now: int,
    east: int,
    message: Option<String>,
)
    ensures
        match scheduler::said_of_closing(before, reading, now) {
            Some(m) => {
                &&& before.state.valve_open
                &&& before.state.auto_off_at is Some
                &&& before.state.auto_off_at->0 <= now
                &&& reading.count >= before.flow.session_start_count ==> holds_liters(
                    m,
                    "Auto-off: valve CLOSED. Total: "@,
                    (reading.count - before.flow.session_start_count) as nat,
                    "L."@,
                )
            },
            None => !before.state.valve_open || before.state.auto_off_at is None
                || before.state.auto_off_at->0 > now,
        },
        match s.said_of_opening(before.state, now, east) {
            Some(m) => s.triggers_at(before.state, now, east) is Some && holds_number(
                m,
                "Schedule: valve OPENED for "@,
                s.triggers_at(before.state, now, east)->0 as nat,
                "min ("@ + time::clock_text(now, east) + ")."@,
            ),
            None => s.triggers_at(before.state, now, east) is None,
        },
        message is Some ==> scheduler::said(message) == Some(message->0@),
        message is None ==> scheduler::said(message) is None,
{
    volumes_are_shown_in_liters(before.volume(reading).pulses as nat);
    if let Some(d) = s.triggers_at(before.state, now, east) {
        reading::numbers_are_written_in_decimal(d as nat);
        let tail = "min ("@ + time::clock_text(now, east) + ")."@;
        assert(scheduler::opening_text(d, now, east) == "Schedule: valve OPENED for "@
            + text::decimal(d as nat) + tail);
    }
}

/// What is answered to a web request to open: the minutes, or the cap that they
/// exceed, or that there must be some.
pub proof fn what_the_web_says_of_opening(cap: u32, minutes: u32)
    ensures
        match web::open_answer(cap, minutes) {
            Ok(message) => 0 < minutes <= cap && holds_number(
                message,
                "Web: valve OPENED for "@,
                minutes as nat,
                "min."@,
            ),
            Err(message) => {
                &&& minutes == 0 || minutes > cap
                &&& minutes == 0 ==> message == "duration must be > 0"@
                &&& minutes > 0 ==> holds_number(
                    message,
                    "duration must be ≤ "@,
                    cap as nat,
                    " minutes"@,
                )
            },
        },
{
    reading::numbers_are_written_in_decimal(minutes as nat);
    reading::numbers_are_written_in_decimal(cap as nat);
}

/// What the owner is told after a web request to close: what has flowed, where
/// something has; and nothing where the valve was closed already.
pub proof fn what_the_web_says_of_closing(was_open: bool, volume: Liters)
    ensures
        match web::close_answer(was_open, volume) {
            Some(message) => {
                &&& was_open
                &&& volume.pulses == 0 ==> message == "Web: valve CLOSED."@
                &&& volume.pulses > 0 ==> holds_liters(
                    message,
                    "Web: valve CLOSED. Total: "@,
                    volume.pulses as nat,
                    "L."@,
                )
            },
            None => !was_open,
        },
{
    volumes_are_shown_in_liters(volume.pulses as nat);
}

/// The daemon greets with the schedule.
pub proof fn the_greeting_lists_the_schedule(state: StateView)
    ensures
        ({
            let words = "Irrigator started. Valve OFF.\n\n"@;
            let greeting = session::greeting(state);
            &&& greeting.take(words.len() as int) == words
            &&& greeting.skip(words.len() as int) == state.schedule_listing()
        }),
{
    let words = "Irrigator started. Valve OFF.\n\n"@;
    assert(session::greeting(state).skip(words.len() as int) == state.schedule_listing());
    assert(session::greeting(state).take(words.len() as int) == words);
}

} // verus!
