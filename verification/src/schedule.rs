//! The watering schedule: slots of the day, how they are checked, ordered and
//! read from text, and which of them comes next.
use vstd::prelude::*;

use crate::text;
use crate::text::{
    parse_number, push_decimal, push_two_digits, split_once, split_words,
};

verus! {

/// One watering of the day: when it starts and how long it lasts.
#[derive(Clone, Copy, Debug, PartialEq, Eq, Structural)]
pub struct Slot {
    pub hour: u32,
    pub minute: u32,
    pub duration_min: u32,
}

impl Slot {
    /// The minute of the day at which the slot starts.
    pub open spec fn start(self) -> int {
        self.hour * 60 + self.minute
    }

    /// A time of day, and a duration between one minute and two hours.
    pub open spec fn valid(self) -> bool {
        &&& self.hour <= 23
        &&& self.minute <= 59
        &&& 1 <= self.duration_min <= 120
    }

    /// The slot as it is shown to people.
    pub open spec fn shown(self) -> Seq<char> {
        text::two_digits(self.hour as nat) + ":"@ + text::two_digits(
            self.minute as nat,
        ) + " for "@ + text::decimal(self.duration_min as nat) + "min"@
    }

    /// What is wrong with a slot that is not valid.
    pub open spec fn fault(self) -> Seq<char> {
        if self.hour > 23 {
            "hour out of range: "@ + text::decimal(self.hour as nat)
        } else if self.minute > 59 {
            "minute out of range: "@ + text::decimal(self.minute as nat)
        } else {
            "duration must be 1-120, got "@ + text::decimal(self.duration_min as nat)
        }
    }

    fn start_minute(&self) -> (m: u64)
        ensures
            m == self.start(),
    {
        self.hour as u64 * 60 + self.minute as u64
    }

    /// The slot as it is shown to people: start and duration.
    pub fn text(&self) -> (out: String)
        ensures
            out@ == self.shown(),
    {
        let mut out = String::new();
        push_two_digits(&mut out, self.hour as u64);
        out.append(":");
        push_two_digits(&mut out, self.minute as u64);
        out.append(" for ");
        push_decimal(&mut out, self.duration_min as u64);
        out.append("min");
        assert(out@ == self.shown());
        out
    }
}

/// The slots of the day, and whether they are followed.
#[derive(Debug)]
pub struct Schedule {
    pub slots: Vec<Slot>,
    pub enabled: bool,
}

impl Clone for Schedule {
    fn clone(&self) -> (copy: Self)
        ensures
            copy.slots@ == self.slots@,
            copy.enabled == self.enabled,
    {
        Schedule { slots: copy_slots(&self.slots), enabled: self.enabled }
    }
}

/// Copies slots.
pub fn copy_slots(slots: &Vec<Slot>) -> (copy: Vec<Slot>)
    ensures
        copy@ == slots@,
{
    let mut copy: Vec<Slot> = Vec::new();
    let mut i: usize = 0;
    while i < slots.len()
        invariant
            i <= slots.len(),
            copy@ == slots@.take(i as int),
        decreases slots.len() - i,
    {
        copy.push(slots[i]);
        i = i + 1;
        assert(slots@.take(i as int).drop_last() == slots@.take(i - 1));
    }
    assert(slots@.take(i as int) == slots@);
    copy
}

/// Whether the slots come in the order of their starts.
pub open spec fn in_order(slots: Seq<Slot>) -> bool {
    forall|i: int, j: int|
        0 <= i <= j < slots.len() ==> (#[trigger] slots[i]).start() <= (#[trigger] slots[j]).start()
}

/// `slots` with `slot` put behind the last one that does not start later.
pub open spec fn placed(slots: Seq<Slot>, slot: Slot) -> Seq<Slot>
    decreases slots.len(),
{
    if slots.len() == 0 || slots.last().start() <= slot.start() {
        slots.push(slot)
    } else {
        placed(slots.drop_last(), slot).push(slots.last())
    }
}

/// `slots` ordered by start; slots with the same start keep their order.
pub open spec fn ordered(slots: Seq<Slot>) -> Seq<Slot>
    decreases slots.len(),
{
    if slots.len() == 0 {
        slots
    } else {
        placed(ordered(slots.drop_last()), slots.last())
    }
}

/// The slots that start at minute `m` of the day, in their order.
pub open spec fn starting_at(slots: Seq<Slot>, m: int) -> Seq<Slot> {
    slots.filter(|s: Slot| s.start() == m)
}

proof fn lemma_starting_at_push(slots: Seq<Slot>, slot: Slot, m: int)
    ensures
        starting_at(slots.push(slot), m) == if slot.start() == m {
            starting_at(slots, m).push(slot)
        } else {
            starting_at(slots, m)
        },
{
    reveal(Seq::filter);
    assert(slots.push(slot).drop_last() == slots);
}

proof fn lemma_placed(slots: Seq<Slot>, slot: Slot)
    ensures
        placed(slots, slot).len() == slots.len() + 1,
        placed(slots, slot).to_multiset() == slots.to_multiset().insert(slot),
        in_order(slots) ==> in_order(placed(slots, slot)),
        forall|m: int| #[trigger]
            starting_at(placed(slots, slot), m) == if slot.start() == m {
                starting_at(slots, m).push(slot)
            } else {
                starting_at(slots, m)
            },
    decreases slots.len(),
{
    broadcast use vstd::seq_lib::group_to_multiset_ensures;

    let out = placed(slots, slot);
    if slots.len() == 0 || slots.last().start() <= slot.start() {
        assert forall|m: int| #[trigger] starting_at(out, m) == if slot.start() == m {
            starting_at(slots, m).push(slot)
        } else {
            starting_at(slots, m)
        } by {
            lemma_starting_at_push(slots, slot, m);
        }
    } else {
        let rest = slots.drop_last();
        lemma_placed(rest, slot);
        assert(rest.push(slots.last()) == slots);
        assert forall|m: int| #[trigger] starting_at(out, m) == if slot.start() == m {
            starting_at(slots, m).push(slot)
        } else {
            starting_at(slots, m)
        } by {
            lemma_starting_at_push(placed(rest, slot), slots.last(), m);
            lemma_starting_at_push(rest, slots.last(), m);
        }
        assert(out.to_multiset() == slots.to_multiset().insert(slot));
        if in_order(slots) {
            lemma_placed_bounded(rest, slot, slots.last().start());
        }
    }
}

/// Placing a slot keeps an upper bound on all starts.
proof fn lemma_placed_bounded(slots: Seq<Slot>, slot: Slot, bound: int)
    requires
        slot.start() <= bound,
        forall|i: int| 0 <= i < slots.len() ==> (#[trigger] slots[i]).start() <= bound,
    ensures
        forall|i: int|
            0 <= i < placed(slots, slot).len() ==> (#[trigger] placed(slots, slot)[i]).start()
                <= bound,
    decreases slots.len(),
{
    if slots.len() == 0 || slots.last().start() <= slot.start() {
    } else {
        lemma_placed_bounded(slots.drop_last(), slot, bound);
        assert(slots[slots.len() - 1].start() <= bound);
        assert forall|i: int| 0 <= i < placed(slots, slot).len() implies (#[trigger] placed(
            slots,
            slot,
        )[i]).start() <= bound by {
            let head = placed(slots.drop_last(), slot);
            assert(i < head.len() ==> placed(slots, slot)[i] == head[i]);
        }
    }
}

/// Ordering slots loses none, adds none, leaves them in the order of their
/// starts, and keeps the order of those that start together.
pub proof fn ordering_is_a_stable_sort(slots: Seq<Slot>)
    ensures
        in_order(ordered(slots)),
        ordered(slots).len() == slots.len(),
        ordered(slots).to_multiset() == slots.to_multiset(),
        forall|m: int| #[trigger] starting_at(ordered(slots), m) == starting_at(slots, m),
    decreases slots.len(),
{
    broadcast use vstd::seq_lib::group_to_multiset_ensures;

    if slots.len() > 0 {
        let rest = slots.drop_last();
        ordering_is_a_stable_sort(rest);
        lemma_placed(ordered(rest), slots.last());
        assert(rest.push(slots.last()) == slots);
        assert forall|m: int| #[trigger]
            starting_at(ordered(slots), m) == starting_at(slots, m) by {
            lemma_starting_at_push(rest, slots.last(), m);
        }
    }
}

fn put_in_order(slots: &Vec<Slot>) -> (sorted: Vec<Slot>)
    ensures
        sorted@ == ordered(slots@),
{
    let mut sorted: Vec<Slot> = Vec::new();
    let mut i: usize = 0;
    assert(slots@.take(0) == Seq::<Slot>::empty());
    while i < slots.len()
        invariant
            i <= slots.len(),
            sorted@ == ordered(slots@.take(i as int)),
        decreases slots.len() - i,
    {
        let slot = slots[i];
        assert(slots@.take(i + 1).drop_last() == slots@.take(i as int));
        assert(slots@.take(i + 1).last() == slot);
        place(&mut sorted, slot);
        i = i + 1;
    }
    assert(slots@.take(i as int) == slots@);
    sorted
}

fn place(slots: &mut Vec<Slot>, slot: Slot)
    ensures
        final(slots)@ == placed(old(slots)@, slot),
{
    let start: u64 = slot.start_minute();
    let mut i: usize = slots.len();
    assert(slots@.take(i as int) == slots@);
    assert(slots@.skip(i as int) == Seq::<Slot>::empty());
    while i > 0 && slots[i - 1].start_minute() > start
        invariant
            i <= slots.len(),
            start == slot.start(),
            placed(slots@, slot) == placed(slots@.take(i as int), slot) + slots@.skip(i as int),
        decreases i,
    {
        let ghost head = slots@.take(i as int);
        assert(head.drop_last() == slots@.take(i - 1));
        assert(slots@.skip(i - 1) == seq![head.last()] + slots@.skip(i as int));
        i = i - 1;
    }
    let ghost before = slots@;
    slots.insert(i, slot);
    assert(slots@ == before.take(i as int).push(slot) + before.skip(i as int));
}

/// The outcome of checking slots: they are refused where there are none, and
/// for the first one that is not valid; otherwise they come back in order.
pub open spec fn checked(slots: Seq<Slot>) -> Result<Seq<Slot>, Seq<char>> {
    if slots.len() == 0 {
        Err("no slots provided"@)
    } else if first_invalid(slots, 0) < slots.len() {
        Err(slots[first_invalid(slots, 0)].fault())
    } else {
        Ok(ordered(slots))
    }
}

/// The first position at or after `i` of a slot that is not valid, or the
/// number of slots.
pub open spec fn first_invalid(slots: Seq<Slot>, i: int) -> int
    decreases slots.len() - i,
{
    if i >= slots.len() {
        slots.len() as int
    } else if !slots[i].valid() {
        i
    } else {
        first_invalid(slots, i + 1)
    }
}

/// Whether a result with owned contents says what `expected` says.
pub open spec fn says(result: Result<Vec<Slot>, String>, expected: Result<Seq<Slot>, Seq<char>>) -> bool {
    match (result, expected) {
        (Ok(slots), Ok(wanted)) => slots@ == wanted,
        (Err(message), Err(wanted)) => message@ == wanted,
        _ => false,
    }
}

impl Schedule {
    /// Checks slots and puts them in order.
    pub fn try_from_slots(slots: Vec<Slot>) -> (result: Result<Vec<Slot>, String>)
        ensures
            says(result, checked(slots@)),
    {
        if slots.len() == 0 {
            return Err("no slots provided".to_string());
        }
        let mut i: usize = 0;
        while i < slots.len()
            invariant
                i <= slots.len(),
                slots.len() > 0,
                first_invalid(slots@, 0) == first_invalid(slots@, i as int),
            decreases slots.len() - i,
        {
            let s = slots[i];
            if s.hour > 23 {
                let mut message = "hour out of range: ".to_string();
                push_decimal(&mut message, s.hour as u64);
                return Err(message);
            }
            if s.minute > 59 {
                let mut message = "minute out of range: ".to_string();
                push_decimal(&mut message, s.minute as u64);
                return Err(message);
            }
            if s.duration_min == 0 || s.duration_min > 120 {
                let mut message = "duration must be 1-120, got ".to_string();
                push_decimal(&mut message, s.duration_min as u64);
                return Err(message);
            }
            i = i + 1;
        }
        Ok(put_in_order(&slots))
    }
}

impl Default for Schedule {
    /// Four waterings of eight minutes, from six in the morning, every four hours.
    fn default() -> (schedule: Self)
        ensures
            schedule.enabled,
            schedule.slots@ == default_slots(),
    {
        let slots = vec![
            Slot { hour: 6, minute: 0, duration_min: 8 },
            Slot { hour: 10, minute: 0, duration_min: 8 },
            Slot { hour: 14, minute: 0, duration_min: 8 },
            Slot { hour: 18, minute: 0, duration_min: 8 },
        ];
        assert(slots@ == default_slots());
        Schedule { slots, enabled: true }
    }
}

/// The slots of a schedule that nobody has changed.
pub open spec fn default_slots() -> Seq<Slot> {
    seq![
        Slot { hour: 6, minute: 0, duration_min: 8 },
        Slot { hour: 10, minute: 0, duration_min: 8 },
        Slot { hour: 14, minute: 0, duration_min: 8 },
        Slot { hour: 18, minute: 0, duration_min: 8 },
    ]
}

/// What one word of a schedule text, such as `06:00,8`, denotes.
pub open spec fn read_slot(part: Seq<char>) -> Result<Slot, Seq<char>> {
    match text::split_first(part, ',') {
        None => Err("expected HH:MM,duration but got '"@ + part + "'"@),
        Some((time, dur)) => match text::split_first(time, ':') {
            None => Err("expected HH:MM but got '"@ + time + "'"@),
            Some((h, m)) => match (
                text::number(h),
                text::number(m),
                text::number(dur),
            ) {
                (None, _, _) => Err("invalid hour: "@ + h),
                (_, None, _) => Err("invalid minute: "@ + m),
                (_, _, None) => Err("invalid duration: "@ + dur),
                (Some(hour), Some(minute), Some(duration_min)) => {
                    if hour > 23 || minute > 59 {
                        Err("invalid time: "@ + time)
                    } else if duration_min == 0 || duration_min > 120 {
                        Err(
                            "duration must be 1-120, got "@ + text::decimal(
                                duration_min as nat,
                            ),
                        )
                    } else {
                        Ok(Slot { hour, minute, duration_min })
                    }
                },
            },
        },
    }
}

/// What the words of a schedule text denote together, up to the first that
/// denotes no slot.
pub open spec fn read_slots(parts: Seq<Seq<char>>) -> Result<Seq<Slot>, Seq<char>>
    decreases parts.len(),
{
    if parts.len() == 0 {
        Ok(Seq::empty())
    } else {
        match read_slots(parts.drop_last()) {
            Err(message) => Err(message),
            Ok(slots) => match read_slot(parts.last()) {
                Err(message) => Err(message),
                Ok(slot) => Ok(slots.push(slot)),
            },
        }
    }
}

/// What a schedule text denotes: its slots, checked and in order.
pub open spec fn read_schedule(input: Seq<char>) -> Result<Seq<Slot>, Seq<char>> {
    match read_slots(text::words(input)) {
        Err(message) => Err(message),
        Ok(slots) => checked(slots),
    }
}

fn message_about(prefix: &str, subject: &str, suffix: &str) -> (out: String)
    ensures
        out@ == prefix@ + subject@ + suffix@,
{
    let mut out = prefix.to_string();
    out.append(subject);
    out.append(suffix);
    out
}

fn parse_slot(part: &str) -> (result: Result<Slot, String>)
    ensures
        match (result, read_slot(part@)) {
            (Ok(slot), Ok(wanted)) => slot == wanted,
            (Err(message), Err(wanted)) => message@ == wanted,
            _ => false,
        },
        result is Ok ==> result->Ok_0.valid(),
{
    let (time, dur) = match split_once(part, ',') {
        Some(halves) => halves,
        None => return Err(message_about("expected HH:MM,duration but got '", part, "'")),
    };
    let (h, m) = match split_once(time, ':') {
        Some(halves) => halves,
        None => return Err(message_about("expected HH:MM but got '", time, "'")),
    };
    let hour: u32 = match parse_number(h) {
        Some(n) => n,
        None => return Err("invalid hour: ".to_string().concat(h)),
    };
    let minute: u32 = match parse_number(m) {
        Some(n) => n,
        None => return Err("invalid minute: ".to_string().concat(m)),
    };
    let duration_min: u32 = match parse_number(dur) {
        Some(n) => n,
        None => return Err("invalid duration: ".to_string().concat(dur)),
    };
    if hour > 23 || minute > 59 {
        return Err("invalid time: ".to_string().concat(time));
    }
    if duration_min == 0 || duration_min > 120 {
        let mut message = "duration must be 1-120, got ".to_string();
        push_decimal(&mut message, duration_min as u64);
        return Err(message);
    }
    Ok(Slot { hour, minute, duration_min })
}

proof fn lemma_read_slots_fails_early(parts: Seq<Seq<char>>, k: int)
    requires
        0 <= k <= parts.len(),
        read_slots(parts.take(k)) is Err,
    ensures
        read_slots(parts) == read_slots(parts.take(k)),
    decreases parts.len() - k,
{
    if k < parts.len() {
        assert(parts.take(k + 1).drop_last() == parts.take(k));
        lemma_read_slots_fails_early(parts, k + 1);
    } else {
        assert(parts.take(k) == parts);
    }
}

/// Reads a schedule text: words of the form `HH:MM,minutes`.
pub fn parse_schedule(input: &str) -> (result: Result<Vec<Slot>, String>)
    ensures
        says(result, read_schedule(input@)),
{
    let parts = split_words(input);
    let ghost all = text::texts(parts@);
    let mut slots: Vec<Slot> = Vec::new();
    let mut i: usize = 0;
    assert(all.take(0) == Seq::<Seq<char>>::empty());
    while i < parts.len()
        invariant
            i <= parts.len(),
            all == text::texts(parts@),
            all == text::words(input@),
            read_slots(all.take(i as int)) == Ok::<Seq<Slot>, Seq<char>>(slots@),
            forall|j: int| 0 <= j < slots.len() ==> (#[trigger] slots[j]).valid(),
        decreases parts.len() - i,
    {
        assert(all.take(i + 1).drop_last() == all.take(i as int));
        assert(all.take(i + 1).last() == parts[i as int]@);
        match parse_slot(parts[i]) {
            Ok(slot) => slots.push(slot),
            Err(message) => {
                proof {
                    lemma_read_slots_fails_early(all, i + 1);
                }
                return Err(message);
            },
        }
        i = i + 1;
    }
    assert(all.take(i as int) == all);
    Schedule::try_from_slots(slots)
}

/// The first position at or after `i` of a slot that starts after `minute`, or
/// the number of slots.
pub open spec fn first_after(slots: Seq<Slot>, minute: int, i: int) -> int
    decreases slots.len() - i,
{
    if i >= slots.len() {
        slots.len() as int
    } else if slots[i].start() > minute {
        i
    } else {
        first_after(slots, minute, i + 1)
    }
}

/// The slot that comes next after `minute` of the day, and whether it is still
/// today's: the first that starts later, else the first of all, tomorrow.
pub open spec fn upcoming(slots: Seq<Slot>, minute: int) -> Option<(Slot, bool)> {
    let i = first_after(slots, minute, 0);
    if i < slots.len() {
        Some((slots[i], true))
    } else if slots.len() > 0 {
        Some((slots[0], false))
    } else {
        None
    }
}

/// Finds the slot that comes next after `minute` of the day.
pub fn next_slot(slots: &Vec<Slot>, minute: u64) -> (next: Option<(Slot, bool)>)
    ensures
        next == upcoming(slots@, minute as int),
{
    let mut i: usize = 0;
    while i < slots.len()
        invariant
            i <= slots.len(),
            first_after(slots@, minute as int, 0) == first_after(slots@, minute as int, i as int),
        decreases slots.len() - i,
    {
        if slots[i].start_minute() > minute {
            return Some((slots[i], true));
        }
        i = i + 1;
    }
    if slots.len() > 0 {
        Some((slots[0], false))
    } else {
        None
    }
}

/// The first position at or after `i` of a slot that starts at `hour` and
/// `minute`, or the number of slots.
pub open spec fn first_at(slots: Seq<Slot>, hour: u32, minute: u32, i: int) -> int
    decreases slots.len() - i,
{
    if i >= slots.len() {
        slots.len() as int
    } else if slots[i].hour == hour && slots[i].minute == minute {
        i
    } else {
        first_at(slots, hour, minute, i + 1)
    }
}

/// How long to water at `hour` and `minute`: as the first slot of that time says.
pub open spec fn due(slots: Seq<Slot>, hour: u32, minute: u32) -> Option<u32> {
    let i = first_at(slots, hour, minute, 0);
    if i < slots.len() {
        Some(slots[i].duration_min)
    } else {
        None
    }
}

/// Finds how long to water at `hour` and `minute`.
pub fn due_duration(slots: &Vec<Slot>, hour: u32, minute: u32) -> (duration: Option<u32>)
    ensures
        duration == due(slots@, hour, minute),
{
    let mut i: usize = 0;
    while i < slots.len()
        invariant
            i <= slots.len(),
            first_at(slots@, hour, minute, 0) == first_at(slots@, hour, minute, i as int),
        decreases slots.len() - i,
    {
        if slots[i].hour == hour && slots[i].minute == minute {
            return Some(slots[i].duration_min);
        }
        i = i + 1;
    }
    None
}

} // verus!
