//! What holds of the figures: times, volumes, flows and sums.
use vstd::arithmetic::power2::pow2;
use vstd::prelude::*;

use crate::{flow, target, time, web};
use crate::flow::{FlowRate, FlowSensor, Liters, Reading};
use crate::state::{EventView, StateView};
use crate::time::UtcOffset;
use crate::web::{HistoryDto, SummaryDto};

verus! {

/// Whether `q` is how often `unit` fits into `amount`, rounded towards zero.
pub open spec fn truncates(q: int, amount: int, unit: int) -> bool {
    if amount >= 0 {
        q * unit <= amount < q * unit + unit
    } else {
        q * unit - unit < amount <= q * unit
    }
}

/// Whole units are counted towards zero, and the rest is what they leave over.
pub proof fn whole_units_are_truncated(amount: int, unit: int)
    requires
        unit > 0,
    ensures
        truncates(time::whole(amount, unit), amount, unit),
        time::whole(amount, unit) * unit + time::rest(amount, unit) == amount,
        -unit < time::rest(amount, unit) < unit,
{
    let size = if amount >= 0 {
        amount
    } else {
        -amount
    };
    let n = size / unit;
    assert(n * unit <= size < n * unit + unit) by (nonlinear_arith)
        requires
            n == size / unit,
            unit > 0,
    ;
    assert((-n) * unit == -(n * unit)) by (nonlinear_arith);
    let w = time::whole(amount, unit);
    assert(w * unit == unit * w) by (nonlinear_arith);
}

/// A clock shows the day and the minute that have passed on it: `secs` seconds and
/// `nanos` nanoseconds into minute `minute` of day `day`, it shows these two.
pub proof fn clocks_show_day_and_minute(
    day: int,
    minute: int,
    secs: int,
    nanos: int,
    east: int,
)
    requires
        0 <= minute < 24 * 60,
        0 <= secs < 60,
        0 <= nanos < 1_000_000_000,
    ensures
        ({
            let t = (((day * 24 * 60 + minute) * 60 + secs) - east) * 1_000_000_000 + nanos;
            time::local_day(t, east) == day && time::local_minute(t, east) == minute
        }),
{
    let shown = (day * 24 * 60 + minute) * 60 + secs;
    let t = (shown - east) * 1_000_000_000 + nanos;
    assert(t / 1_000_000_000 == shown - east);
    assert(shown / 86_400 == day);
    assert(shown % 86_400 == minute * 60 + secs);
}

/// Two volumes together are their sum, as long as that can be counted, and else the
/// most that can be.
pub proof fn volumes_add_up(a: Liters, b: Liters)
    ensures
        a.pulses + b.pulses <= 0xffff_ffff_ffff_ffff ==> a.added(b).pulses == a.pulses + b.pulses,
        a.pulses + b.pulses > 0xffff_ffff_ffff_ffff ==> a.added(b).pulses == 0xffff_ffff_ffff_ffff,
{
}

/// The tenths of a litre that are shown are off by half a tenth at most, where a
/// litre has 617 pulses.
pub proof fn tenths_are_rounded(pulses: nat)
    ensures
        -617 <= 2 * (617 * flow::tenths(pulses) - 10 * pulses) <= 617,
{
    let t = flow::tenths(pulses) as int;
    assert(t == (20 * pulses + 617) / 1234);
}

/// Of two flows over the same time, the one of more water is the stronger; of two of
/// the same water, the one over less time; and a flow is as strong as a multiple of
/// it over the same multiple of its time.
pub proof fn flows_are_compared(a: FlowRate, b: FlowRate, k: u64)
    requires
        a.secs > 0,
        b.secs > 0,
        k > 0,
    ensures
        a.secs == b.secs ==> (a.stronger(b) <==> a.pulses > b.pulses),
        a.pulses == b.pulses && a.pulses > 0 ==> (a.stronger(b) <==> a.secs < b.secs),
        b.pulses == k * a.pulses && b.secs == k * a.secs ==> !a.stronger(b) && !b.stronger(a),
        a.stronger(b) ==> !b.stronger(a),
{
    let (p, s, q, t) = (a.pulses as int, a.secs as int, b.pulses as int, b.secs as int);
    if s == t {
        assert(p * s > q * s <==> p > q) by (nonlinear_arith)
            requires
                s > 0,
        ;
    }
    if p == q && p > 0 {
        assert(p * t > p * s <==> s < t) by (nonlinear_arith)
            requires
                p > 0,
        ;
    }
    if q == k * p && t == k * s {
        assert(p * t == q * s) by (nonlinear_arith)
            requires
                q == k * p,
                t == k * s,
        ;
    }
}

/// A flow that is stronger than one that is stronger than a third is stronger than
/// the third.
pub proof fn stronger_flows_are_in_line(a: FlowRate, b: FlowRate, c: FlowRate)
    requires
        a.secs > 0,
        b.secs > 0,
        c.secs > 0,
        a.stronger(b),
        b.stronger(c),
    ensures
        a.stronger(c),
{
    let (p, s) = (a.pulses as int, a.secs as int);
    let (q, t) = (b.pulses as int, b.secs as int);
    let (r, u) = (c.pulses as int, c.secs as int);
    assert(p * u > r * s) by (nonlinear_arith)
        requires
            p * t > q * s,
            q * u > r * t,
            s > 0,
            t > 0,
            u > 0,
    ;
}

/// What a session has let through is what the counter has gone up by since its
/// start, and nothing where it stands lower; and it has lasted as many whole seconds
/// as its clock has gone on by.
pub proof fn sessions_are_measured_from_their_start(sensor: FlowSensor, reading: Reading)
    ensures
        reading.count >= sensor.session_start_count ==> sensor.session_start_count
            + sensor.session_pulses(reading) == reading.count,
        reading.count < sensor.session_start_count ==> sensor.session_pulses(reading) == 0,
        sensor.session_start is None ==> sensor.session_secs(reading) == 0,
        sensor.session_start is Some && reading.clock < sensor.session_start->0
            ==> sensor.session_secs(reading) == 0,
        sensor.session_start is Some && reading.clock >= sensor.session_start->0 ==> {
            let passed = reading.clock - sensor.session_start->0;
            sensor.session_secs(reading) * 1_000_000_000 <= passed < sensor.session_secs(reading)
                * 1_000_000_000 + 1_000_000_000
        },
{
}

/// Something is wrong with a session that has run for thirty seconds or more, where
/// less than 617 pulses would go through in twenty minutes.
pub proof fn a_starved_session(sensor: FlowSensor, reading: Reading, start: u64)
    requires
        sensor.session_start == Some(start),
        reading.clock >= start,
        reading.count >= sensor.session_start_count,
    ensures
        reading.clock - start < 30_000_000_000 ==> !sensor.starved(reading),
        reading.clock - start >= 30_000_000_000 ==> (sensor.starved(reading) <==> (reading.count
            - sensor.session_start_count) * 1200 < 617 * ((reading.clock - start)
            / 1_000_000_000)),
{
    let secs = sensor.session_secs(reading);
    assert(flow::PULSES_PER_LITER * secs == 617 * secs) by (nonlinear_arith);
    assert(secs == (reading.clock - start) / 1_000_000_000);
    assert(sensor.session_pulses(reading) == reading.count - sensor.session_start_count);
    let pulses = sensor.session_pulses(reading);
    assert(20 * 60 * pulses == pulses * 1200) by (nonlinear_arith);
}

/// A session that never started is not starved.
pub proof fn no_session_is_not_starved(sensor: FlowSensor, reading: Reading)
    requires
        sensor.session_start is None,
    ensures
        !sensor.starved(reading),
{
}

/// Whether the local clock showed `day` at the time of a watering.
pub open spec fn within_day(event: EventView, offset: UtcOffset, day: int) -> bool {
    day * 86_400_000_000_000 <= event.timestamp + offset@ * 1_000_000_000 < (day + 1)
        * 86_400_000_000_000
}

proof fn lemma_on_day(event: EventView, offset: UtcOffset, day: int)
    ensures
        web::on_day(event, offset, day) <==> within_day(event, offset, day),
{
    let t = event.timestamp;
    let s = t / 1_000_000_000 + offset@;
    assert(s / 86_400 == day <==> day * 86_400 <= s < (day + 1) * 86_400);
}

/// No waterings come to nothing, and a further one adds to its day: one session, what
/// was measured of it, and its minutes; and nothing to other days.
pub proof fn a_watering_adds_to_its_day(
    log: Seq<EventView>,
    event: EventView,
    offsets: Seq<UtcOffset>,
    day: int,
)
    ensures
        web::sessions_on(Seq::empty(), offsets, day) == 0,
        web::pulses_on(Seq::empty(), offsets, day) == 0,
        web::minutes_on(Seq::empty(), offsets, day) == 0,
        within_day(event, offsets[log.len() as int], day) ==> {
            let more = log.push(event);
            &&& web::sessions_on(more, offsets, day) == web::sessions_on(log, offsets, day) + 1
            &&& web::minutes_on(more, offsets, day) == web::minutes_on(log, offsets, day)
                + event.duration_min
            &&& event.volume is Some ==> web::pulses_on(more, offsets, day) == web::pulses_on(
                log,
                offsets,
                day,
            ) + event.volume->0.pulses
            &&& event.volume is None ==> web::pulses_on(more, offsets, day) == web::pulses_on(
                log,
                offsets,
                day,
            )
        },
        !within_day(event, offsets[log.len() as int], day) ==> {
            let more = log.push(event);
            &&& web::sessions_on(more, offsets, day) == web::sessions_on(log, offsets, day)
            &&& web::minutes_on(more, offsets, day) == web::minutes_on(log, offsets, day)
            &&& web::pulses_on(more, offsets, day) == web::pulses_on(log, offsets, day)
        },
{
    lemma_on_day(event, offsets[log.len() as int], day);
    assert(log.push(event).drop_last() == log);
}

/// The sum of a figure of all waterings of a log.
pub open spec fn sum_of(log: Seq<EventView>, figure: spec_fn(EventView) -> int) -> int {
    log.fold_left(0, |sum: int, event: EventView| sum + figure(event))
}

/// Where all waterings of a log are of one day, it has as many sessions as there are
/// waterings, and its minutes are those of all of them together.
pub proof fn a_day_is_the_sum_of_its_waterings(
    log: Seq<EventView>,
    offsets: Seq<UtcOffset>,
    day: int,
)
    requires
        forall|i: int|
            0 <= i < log.len() ==> within_day(#[trigger] log[i], offsets[i], day),
    ensures
        web::sessions_on(log, offsets, day) == log.len(),
        web::minutes_on(log, offsets, day) == sum_of(log, |e: EventView| e.duration_min as int),
    decreases log.len(),
{
    reveal(Seq::fold_left);
    if log.len() > 0 {
        let rest = log.drop_last();
        assert forall|i: int| 0 <= i < rest.len() implies within_day(
            #[trigger] rest[i],
            offsets[i],
            day,
        ) by {
            assert(rest[i] == log[i]);
        }
        a_day_is_the_sum_of_its_waterings(rest, offsets, day);
        assert(within_day(log[log.len() - 1], offsets[log.len() - 1], day));
        lemma_on_day(log.last(), offsets[log.len() - 1], day);
    }
}

/// Over a whole log, a further watering adds what was measured of it, and counts
/// where something was.
pub proof fn a_watering_adds_to_the_log(log: Seq<EventView>, event: EventView)
    ensures
        web::total_pulses(Seq::empty()) == 0,
        web::measured_count(Seq::empty()) == 0,
        event.volume is Some ==> {
            &&& web::total_pulses(log.push(event)) == web::total_pulses(log)
                + event.volume->0.pulses
            &&& web::measured_count(log.push(event)) == web::measured_count(log) + 1
        },
        event.volume is None ==> {
            &&& web::total_pulses(log.push(event)) == web::total_pulses(log)
            &&& web::measured_count(log.push(event)) == web::measured_count(log)
        },
{
    assert(log.push(event).drop_last() == log);
}

/// The flow of a watering is what was measured of it over its minutes; one that was
/// not measured, or had no duration, has none.
pub proof fn a_watering_flows_over_its_minutes(event: EventView)
    ensures
        match web::rate_of(event) {
            Some(rate) => event.volume == Some(Liters { pulses: rate.pulses }) && rate.secs
                == event.duration_min * 60 && rate.secs > 0,
            None => event.volume is None || event.duration_min == 0,
        },
{
}

proof fn lemma_peak(log: Seq<EventView>)
    ensures
        web::peak_of(log).secs > 0,
        forall|i: int|
            0 <= i < log.len() && (#[trigger] log[i]).volume is Some && log[i].duration_min > 0
                ==> log[i].volume->0.pulses * web::peak_of(log).secs <= web::peak_of(log).pulses * (
            60 * log[i].duration_min),
        web::peak_of(log).pulses == 0 || exists|i: int|
            0 <= i < log.len() && (#[trigger] log[i]).volume is Some && log[i].volume->0.pulses
                == web::peak_of(log).pulses && 60 * log[i].duration_min == web::peak_of(log).secs,
    decreases log.len(),
{
    if log.len() > 0 {
        let rest = log.drop_last();
        lemma_peak(rest);
        let was = web::peak_of(rest);
        let peak = web::peak_of(log);
        let (b, sb) = (was.pulses as int, was.secs as int);
        let (c, sc) = (peak.pulses as int, peak.secs as int);
        assert forall|i: int|
            0 <= i < log.len() && (#[trigger] log[i]).volume is Some && log[i].duration_min
                > 0 implies log[i].volume->0.pulses * peak.secs <= peak.pulses * (60
            * log[i].duration_min) by {
            let a = log[i].volume->0.pulses as int;
            let sa = 60 * log[i].duration_min;
            if i < rest.len() {
                assert(rest[i] == log[i]);
                assert(a * sb <= b * sa);
                if peak != was {
                    assert(a * sc <= c * sa) by (nonlinear_arith)
                        requires
                            a * sb <= b * sa,
                            c * sb > b * sc,
                            sa > 0,
                            sb > 0,
                            sc > 0,
                    ;
                }
            }
        }
        if peak.pulses != 0 {
            if peak == was {
                let i = choose|i: int|
                    0 <= i < rest.len() && (#[trigger] rest[i]).volume is Some
                        && rest[i].volume->0.pulses == was.pulses && 60 * rest[i].duration_min
                        == was.secs;
                assert(log[i] == rest[i]);
            } else {
                assert(log[log.len() - 1] == log.last());
            }
        }
    }
}

/// The peak of a log is a flow that no measured watering in it exceeds, and where it
/// is more than nothing, one of them had it.
pub proof fn no_watering_exceeds_the_peak(log: Seq<EventView>)
    ensures
        ({
            let peak = web::peak_of(log);
            &&& peak.secs > 0
            &&& forall|i: int|
                0 <= i < log.len() && (#[trigger] log[i]).volume is Some && log[i].duration_min > 0
                    ==> log[i].volume->0.pulses * peak.secs <= peak.pulses * (60
                    * log[i].duration_min)
            &&& peak.pulses == 0 || exists|i: int|
                0 <= i < log.len() && (#[trigger] log[i]).volume is Some && log[i].volume->0.pulses
                    == peak.pulses && 60 * log[i].duration_min == peak.secs
        }),
{
    lemma_peak(log);
}

/// A watering that is logged today shows in the next summary: one session more today
/// and in all, its minutes and what was measured of it more today; of the seven days
/// only the last changes; and the targets and the lifetime total are those of the
/// state.
pub proof fn summaries_follow_the_log(
    first: SummaryDto,
    before: StateView,
    second: SummaryDto,
    after: StateView,
    event: EventView,
    offsets: Seq<UtcOffset>,
    today: int,
)
    requires
        web::sums_up(first, before, offsets, today),
        web::sums_up(second, after, offsets, today),
        after.log == before.log.push(event),
        within_day(event, offsets[before.log.len() as int], today),
    ensures
        second.today.sessions == first.today.sessions + 1,
        second.today.minutes == first.today.minutes + event.duration_min,
        second.today.pulses == first.today.pulses + (match event.volume {
            Some(v) => v.pulses as int,
            None => 0,
        }),
        second.last_7_days.len() == 7,
        second.last_7_days[6].sessions == second.today.sessions,
        second.last_7_days[6].pulses == second.today.pulses,
        forall|k: int|
            0 <= k < 6 ==> (#[trigger] second.last_7_days[k]).sessions
                == first.last_7_days[k].sessions && second.last_7_days[k].pulses
                == first.last_7_days[k].pulses,
        second.lifetime.sessions == first.lifetime.sessions + 1,
        second.session_totals.pulses == first.session_totals.pulses + (match event.volume {
            Some(v) => v.pulses as int,
            None => 0,
        }),
        second.session_totals.sessions == first.session_totals.sessions + (if event.volume is Some {
            1int
        } else {
            0
        }),
        second.lifetime.liters == after.lifetime,
        second.today.target_liters == after.daily_target,
        second.daily_target_liters == after.daily_target,
{
    a_watering_adds_to_its_day(before.log, event, offsets, today);
    a_watering_adds_to_the_log(before.log, event);
    assert(second.last_7_days[6].sessions == web::sessions_on(after.log, offsets, today));
    assert forall|k: int| 0 <= k < 6 implies (#[trigger] second.last_7_days[k]).sessions
        == first.last_7_days[k].sessions && second.last_7_days[k].pulses
        == first.last_7_days[k].pulses by {
        a_watering_adds_to_its_day(before.log, event, offsets, today - 6 + k);
        assert(first.last_7_days[k].sessions == web::sessions_on(
            before.log,
            offsets,
            today - 6 + k,
        ));
    }
}

/// A summary of an empty log counts nothing; and in any summary the `k`-th of the
/// seven days is dated `6 - k` days before today, and holds what was watered then.
pub proof fn summaries_go_back_six_days(
    dto: SummaryDto,
    state: StateView,
    offsets: Seq<UtcOffset>,
    today: int,
    k: int,
    y: int,
    m: int,
    d: int,
)
    requires
        web::sums_up(dto, state, offsets, today),
        0 <= k < 7,
        time::is_date(y, m, d),
        time::epoch_day(y, m, d) == today - (6 - k),
    ensures
        state.log.len() == 0 ==> {
            &&& dto.today.sessions == 0
            &&& dto.today.minutes == 0
            &&& dto.today.pulses == 0
            &&& dto.lifetime.sessions == 0
            &&& dto.session_totals.pulses == 0
            &&& dto.session_totals.sessions == 0
            &&& dto.peak_flow_lpm.pulses == 0
            &&& dto.last_7_days[k].sessions == 0
            &&& dto.last_7_days[k].pulses == 0
        },
        dto.last_7_days[k].date@ == time::year_text(y) + "-"@ + crate::text::two_digits(m as nat)
            + "-"@ + crate::text::two_digits(d as nat),
        (forall|i: int|
            0 <= i < state.log.len() ==> within_day(
                #[trigger] state.log[i],
                offsets[i],
                today - (6 - k),
            )) ==> dto.last_7_days[k].sessions == state.log.len(),
        dto.lifetime.sessions == state.log.len(),
        dto.peak_flow_lpm == web::peak_of(state.log),
{
    assert(time::reads_as_date(dto.last_7_days[k].date@, today - 6 + k));
    if forall|i: int|
        0 <= i < state.log.len() ==> within_day(
            #[trigger] state.log[i],
            offsets[i],
            today - (6 - k),
        ) {
        a_day_is_the_sum_of_its_waterings(state.log, offsets, today - (6 - k));
        assert(dto.last_7_days[k].sessions == web::sessions_on(
            state.log,
            offsets,
            today - 6 + k,
        ));
    }
}

/// A history shows as many waterings as are asked for, or ten where no number is, as
/// far as there are so many, and never more than five hundred; the `k`-th it shows is
/// the `k`-th from the end of the log, as it was logged, with its flow.
pub proof fn histories_go_back_from_the_end(
    dto: HistoryDto,
    log: Seq<EventView>,
    limit: Option<usize>,
    k: int,
)
    requires
        web::shows_the_last(dto, log, limit),
    ensures
        dto.events.len() <= log.len(),
        dto.events.len() <= 500,
        match limit {
            Some(n) => {
                &&& dto.events.len() <= n
                &&& dto.events.len() == n || dto.events.len() == 500 || dto.events.len()
                    == log.len()
            },
            None => {
                &&& dto.events.len() <= 10
                &&& dto.events.len() == 10 || dto.events.len() == log.len()
            },
        },
        0 <= k < dto.events.len() ==> {
            let shown = dto.events[k];
            let event = log[log.len() - 1 - k];
            &&& shown.timestamp@ == event.timestamp
            &&& shown.duration_min == event.duration_min
            &&& shown.source@ == event.source
            &&& shown.volume_liters == event.volume
            &&& shown.flow_lpm is Some <==> event.volume is Some && event.duration_min > 0
            &&& shown.flow_lpm is Some ==> shown.flow_lpm->0.pulses == event.volume->0.pulses
                && shown.flow_lpm->0.secs == 60 * event.duration_min
        },
{
    if 0 <= k < dto.events.len() {
        assert(web::shows(dto.events[k], log[log.len() - 1 - k]));
    }
}

/// A target is refused where its bits denote a number below 0 or above 10000, and
/// only there; and one that is not refused is kept as it came.
pub proof fn targets_are_kept_within_range(bits: u64)
    requires
        !target::is_nan(bits),
    ensures
        match web::target_answer(bits) {
            Ok(kept) => kept == bits && 0 <= target::number(bits) <= 10_000 * pow2(1074),
            Err(message) => message == "liters must be 0-10000"@ && (target::number(bits) < 0
                || target::number(bits) > 10_000 * pow2(1074)),
        },
{
}

/// A bit pattern that is no number is kept as it came.
pub proof fn targets_that_are_no_numbers_are_kept(bits: u64)
    requires
        target::is_nan(bits),
    ensures
        web::target_answer(bits) == Ok::<u64, Seq<char>>(bits),
{
}

/// What bits denote: the first half of the patterns denotes numbers that grow with
/// them, from 0 on, and the second half their negatives; no number is denoted by the
/// patterns of each half beyond that of infinity.
pub proof fn bits_denote_numbers(a: u64, b: u64)
    requires
        a < b < 0x8000_0000_0000_0000,
    ensures
        target::number(0) == 0,
        target::number(a) < target::number(b),
        target::number((0x8000_0000_0000_0000 + a) as u64) == -target::number(a),
        target::is_nan(a) <==> a > 0x7ff0_0000_0000_0000,
        target::is_nan((0x8000_0000_0000_0000 + a) as u64) <==> target::is_nan(a),
{
    target::lemma_size_grows(a as int, b as int);
}

/// Each step of the exponent doubles a number, and the fraction counts evenly within
/// it, so that 2^52 steps go from one power of two to the next.
pub proof fn bits_denote_scaled_fractions(bits: u64, fraction: u64)
    requires
        bits % 0x10_0000_0000_0000 == 0,
        0 < bits < 0x7fe0_0000_0000_0000,
        fraction < 0x10_0000_0000_0000,
    ensures
        target::number(fraction) == fraction,
        target::number((bits + fraction) as u64) * 0x10_0000_0000_0000 == target::number(bits) * (
        0x10_0000_0000_0000 + fraction),
        target::number((bits + 0x10_0000_0000_0000) as u64) == 2 * target::number(bits),
        target::number(0x10_0000_0000_0000) == 0x10_0000_0000_0000,
{
    let e = bits as int / 0x10_0000_0000_0000;
    let p = pow2((e - 1) as nat) as int;
    vstd::arithmetic::power2::lemma_pow2_unfold(e as nat);
    vstd::arithmetic::power2::lemma2_to64();
    assert(0x10_0000_0000_0000int / 0x10_0000_0000_0000 == 1);
    assert(target::size(0x10_0000_0000_0000) == 0x10_0000_0000_0000 * pow2(0));
    assert((bits + fraction) / 0x10_0000_0000_0000 == e);
    assert((bits + fraction) % 0x10_0000_0000_0000 == fraction);
    assert((bits + 0x10_0000_0000_0000) / 0x10_0000_0000_0000 == e + 1);
    assert((bits + 0x10_0000_0000_0000) % 0x10_0000_0000_0000 == 0);
    assert((0x10_0000_0000_0000 + fraction) * p * 0x10_0000_0000_0000 == 0x10_0000_0000_0000 * p * (
    0x10_0000_0000_0000 + fraction)) by (nonlinear_arith);
    assert(0x10_0000_0000_0000 * (2 * p) == 2 * (0x10_0000_0000_0000 * p)) by (nonlinear_arith);
}

} // verus!
