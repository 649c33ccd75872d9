//! What holds of reading and writing: numbers, words, slots and schedule texts.
use vstd::prelude::*;

use crate::{schedule, text};
use crate::schedule::Slot;

verus! {

/// Whether `s` is the decimal notation of `n`: digits that come to `n`, with no zero
/// in front of others.
pub open spec fn denotes(s: Seq<char>, n: nat) -> bool {
    &&& s.len() > 0
    &&& forall|i: int| 0 <= i < s.len() ==> '0' <= (#[trigger] s[i]) <= '9'
    &&& text::digits_value(s) == n
    &&& s.len() > 1 ==> s[0] != '0'
}

/// Whether `s` is the decimal notation of `n` with at least two digits.
pub open spec fn denotes_padded(s: Seq<char>, n: nat) -> bool {
    &&& s.len() >= 2
    &&& forall|i: int| 0 <= i < s.len() ==> '0' <= (#[trigger] s[i]) <= '9'
    &&& text::digits_value(s) == n
    &&& s.len() > 2 ==> s[0] != '0'
}

/// Whether a text is made of `before`, the decimal notation of `n`, and `after`.
pub open spec fn holds_number(
    text: Seq<char>,
    before: Seq<char>,
    n: nat,
    after: Seq<char>,
) -> bool {
    exists|digits: Seq<char>| #[trigger] denotes(digits, n) && text == before + digits + after
}

/// A digit at the end of others makes ten of what they come to, and adds itself.
pub proof fn digits_are_positional(s: Seq<char>, c: char)
    requires
        '0' <= c <= '9',
    ensures
        text::digits_value(Seq::empty()) == 0,
        text::digits_value(s.push(c)) == 10 * text::digits_value(s) + (c as u32 - '0' as u32),
{
    assert(s.push(c).drop_last() == s);
}

proof fn lemma_decimal(n: nat)
    ensures
        denotes(text::decimal(n), n),
        n > 0 ==> text::decimal(n)[0] != '0',
    decreases n,
{
    if n >= 10 {
        lemma_decimal(n / 10);
        let c = text::digit_char(n % 10);
        assert('0' <= c <= '9');
        digits_are_positional(text::decimal(n / 10), c);
    } else {
        let c = text::digit_char(n);
        digits_are_positional(Seq::empty(), c);
        assert(Seq::<char>::empty().push(c) == text::decimal(n));
    }
}

/// A number is written in decimal notation.
pub proof fn numbers_are_written_in_decimal(n: nat)
    ensures
        denotes(text::decimal(n), n),
{
    lemma_decimal(n);
}

proof fn lemma_digits_positive(s: Seq<char>)
    requires
        s.len() > 0,
        s[0] != '0',
        forall|i: int| 0 <= i < s.len() ==> '0' <= (#[trigger] s[i]) <= '9',
    ensures
        text::digits_value(s) > 0,
    decreases s.len(),
{
    let rest = s.drop_last();
    assert(s[s.len() - 1] == s.last());
    if rest.len() > 0 {
        assert(rest[0] == s[0]);
        lemma_digits_positive(rest);
    }
}

/// A number has one decimal notation.
pub proof fn decimal_notation_is_unique(s: Seq<char>, n: nat)
    requires
        denotes(s, n),
    ensures
        s == text::decimal(n),
    decreases s.len(),
{
    let rest = s.drop_last();
    let c = s.last();
    assert(s[s.len() - 1] == c);
    assert(rest.push(c) == s);
    digits_are_positional(rest, c);
    let d = (c as u32 - 48) as nat;
    assert(c == text::digit_char(d));
    if rest.len() > 0 {
        assert(rest[0] == s[0]);
        lemma_digits_positive(rest);
        decimal_notation_is_unique(rest, text::digits_value(rest));
        assert(n / 10 == text::digits_value(rest));
        assert(n % 10 == d);
    } else {
        assert(rest == Seq::<char>::empty());
        assert(n == d);
    }
}

/// A number filled up to two digits is written with at least two, and one below a
/// hundred with exactly its tens and its ones.
pub proof fn two_digits_are_tens_and_ones(n: nat)
    ensures
        denotes_padded(text::two_digits(n), n),
        n < 100 ==> {
            &&& text::two_digits(n).len() == 2
            &&& text::two_digits(n)[0] as u32 == 48 + n / 10
            &&& text::two_digits(n)[1] as u32 == 48 + n % 10
        },
{
    reveal_strlit("0");
    let s = text::two_digits(n);
    lemma_decimal(n);
    if n < 10 {
        let c = text::digit_char(n);
        digits_are_positional(Seq::empty(), '0');
        digits_are_positional(Seq::empty().push('0'), c);
        assert(s == Seq::empty().push('0').push(c));
    } else {
        lemma_decimal(n / 10);
        if n < 100 {
            assert(text::decimal(n / 10) == seq![text::digit_char(n / 10)]);
        } else {
            assert(text::decimal(n / 10).len() > 1) by {
                reveal_with_fuel(text::decimal, 2);
                lemma_decimal(n / 10 / 10);
            }
        }
    }
}

/// A number below zero is written as a minus sign and its size, and another one as
/// its size.
pub proof fn signed_numbers_are_written(i: int)
    ensures
        i >= 0 ==> denotes(text::signed_decimal(i), i as nat),
        i < 0 ==> text::signed_decimal(i)[0] == '-' && denotes(
            text::signed_decimal(i).skip(1),
            (-i) as nat,
        ),
{
    if i >= 0 {
        lemma_decimal(i as nat);
    } else {
        reveal_strlit("-");
        lemma_decimal((-i) as nat);
        assert(text::signed_decimal(i).skip(1) == text::decimal((-i) as nat));
    }
}

proof fn lemma_digit(c: char)
    ensures
        text::is_digit(c) <==> '0' <= c <= '9',
{
}

/// What is read as a number: no text at all is none, and neither is one that holds
/// anything but digits behind an optional plus sign.
pub proof fn numbers_are_made_of_digits(s: Seq<char>)
    ensures
        s.len() == 0 ==> text::number(s) is None,
        text::number(s) is Some ==> (forall|i: int|
            0 <= i < s.len() ==> '0' <= (#[trigger] s[i]) <= '9' || (i == 0 && s[0] == '+'
                && s.len() > 1)),
{
    if text::number(s) is Some {
        let digits = text::unsigned_digits(s);
        assert forall|i: int| 0 <= i < s.len() implies '0' <= (#[trigger] s[i]) <= '9' || (i == 0
            && s[0] == '+' && s.len() > 1) by {
            if s[0] == '+' {
                assert(digits.len() == s.len() - 1);
                if i > 0 {
                    assert(text::is_digit(digits[i - 1]));
                    assert(s[i] == digits[i - 1]);
                    lemma_digit(s[i]);
                } else {
                    assert(digits.len() > 0);
                }
            } else {
                assert(digits == s);
                assert(text::is_digit(digits[i]));
                lemma_digit(s[i]);
            }
        }
    }
}

/// One digit is read as itself.
pub proof fn a_digit_is_read(c: char)
    requires
        '0' <= c <= '9',
    ensures
        text::number(seq![c]) == Some((c as u32 - '0' as u32) as u32),
{
    digits_are_positional(Seq::empty(), c);
    assert(Seq::empty().push(c) == seq![c]);
    assert(text::is_digit(c));
}

/// A digit behind a number that is read makes ten of it and adds itself, as far as
/// the result is below 2^32; beyond that nothing is read.
pub proof fn a_further_digit_is_read(s: Seq<char>, c: char)
    requires
        text::number(s) is Some,
        '0' <= c <= '9',
    ensures
        ({
            let value = 10 * text::number(s)->0 + (c as u32 - '0' as u32);
            if value < 0x1_0000_0000 {
                text::number(s.push(c)) == Some(value as u32)
            } else {
                text::number(s.push(c)) is None
            }
        }),
{
    let digits = text::unsigned_digits(s);
    digits_are_positional(digits, c);
    assert(text::unsigned_digits(s.push(c)) == digits.push(c));
    assert(text::is_digit(c));
    assert forall|i: int| 0 <= i < digits.push(c).len() implies text::is_digit(
        #[trigger] digits.push(c)[i],
    ) by {
        if i < digits.len() {
            assert(text::is_digit(digits[i]));
        }
    }
}

/// Digits that are too many to be read stay so with one more behind them.
pub proof fn too_many_digits_stay_too_many(s: Seq<char>, c: char)
    requires
        s.len() > 0,
        forall|i: int| 0 <= i < s.len() ==> '0' <= (#[trigger] s[i]) <= '9',
        text::number(s) is None,
        '0' <= c <= '9',
    ensures
        text::number(s.push(c)) is None,
{
    assert(s[0] != '+');
    assert(s.push(c)[0] == s[0]);
    digits_are_positional(s, c);
    assert forall|i: int| 0 <= i < s.len() implies text::is_digit(#[trigger] s[i]) by {
    }
    assert(text::unsigned_digits(s) == s);
    assert(text::digits_value(s) > u32::MAX);
}

/// One plus sign in front of digits changes nothing.
pub proof fn a_plus_sign_is_read_over(s: Seq<char>)
    requires
        s.len() == 0 || s[0] != '+',
    ensures
        text::number(seq!['+'] + s) == text::number(s),
{
    let signed = seq!['+'] + s;
    assert(signed[0] == '+');
    assert(text::unsigned_digits(signed) == s);
}

proof fn lemma_find(s: Seq<char>, c: char, i: int)
    requires
        0 <= i <= s.len(),
    ensures
        ({
            let k = text::find_from(s, c, i);
            &&& i <= k <= s.len()
            &&& k < s.len() ==> s[k] == c
            &&& forall|j: int| i <= j < k ==> #[trigger] s[j] != c
        }),
    decreases s.len() - i,
{
    if i < s.len() && s[i] != c {
        lemma_find(s, c, i + 1);
    }
}

/// A text is split at the first place of a character: the two halves, with it
/// between them, make up the text, and the first half does not hold it. A text that
/// does not hold it is not split.
pub proof fn texts_are_split_at_the_first(s: Seq<char>, c: char)
    ensures
        match text::split_first(s, c) {
            Some((a, b)) => s == a.push(c) + b && !a.contains(c),
            None => !s.contains(c),
        },
{
    lemma_find(s, c, 0);
    let k = text::find_from(s, c, 0);
    if k < s.len() {
        assert(s == s.subrange(0, k).push(c) + s.subrange(k + 1, s.len() as int));
        assert forall|j: int| 0 <= j < k implies s.subrange(0, k)[j] != c by {
            assert(s[j] != c);
        }
    }
}

proof fn lemma_split(a: Seq<char>, c: char, b: Seq<char>)
    requires
        !a.contains(c),
    ensures
        text::split_first(a.push(c) + b, c) == Some((a, b)),
{
    let s = a.push(c) + b;
    lemma_find(s, c, 0);
    let k = text::find_from(s, c, 0);
    assert(s[a.len() as int] == c);
    if k < a.len() {
        assert(s[k] == a[k]);
        assert(a.contains(c));
    }
    assert(s.subrange(0, k) == a);
    assert(s.subrange(k + 1, s.len() as int) == b);
}

/// The characters that separate words are the twenty-five of Unicode's `White_Space`.
pub proof fn white_characters(c: char)
    ensures
        text::is_white(c) <==> set![
            9u32,
            10,
            11,
            12,
            13,
            32,
            133,
            160,
            5760,
            8192,
            8193,
            8194,
            8195,
            8196,
            8197,
            8198,
            8199,
            8200,
            8201,
            8202,
            8232,
            8233,
            8239,
            8287,
            12288,
        ].contains(c as u32),
{
}

proof fn lemma_skip_white(s: Seq<char>, i: int, k: int)
    requires
        0 <= i <= k <= s.len(),
        forall|j: int| i <= j < k ==> text::is_white(#[trigger] s[j]),
        k < s.len() ==> !text::is_white(s[k]),
    ensures
        text::skip_white(s, i) == k,
    decreases k - i,
{
    if i < k {
        assert(text::is_white(s[i]));
        lemma_skip_white(s, i + 1, k);
    }
}

proof fn lemma_drop_white(s: Seq<char>, end: int, k: int)
    requires
        0 <= k <= end <= s.len(),
        forall|j: int| k <= j < end ==> text::is_white(#[trigger] s[j]),
        k > 0 ==> !text::is_white(s[k - 1]),
    ensures
        text::drop_white(s, end) == k,
    decreases end,
{
    if k < end {
        assert(text::is_white(s[end - 1]));
        lemma_drop_white(s, end - 1, k);
    }
}

/// To trim a text takes off the white characters at its two ends, and nothing else.
pub proof fn trimming_takes_off_the_ends(left: Seq<char>, inner: Seq<char>, right: Seq<char>)
    requires
        forall|i: int| 0 <= i < left.len() ==> text::is_white(#[trigger] left[i]),
        forall|i: int| 0 <= i < right.len() ==> text::is_white(#[trigger] right[i]),
        inner.len() > 0 ==> !text::is_white(inner[0]) && !text::is_white(inner.last()),
    ensures
        text::trimmed(left + inner + right) == inner,
{
    let s = left + inner + right;
    if inner.len() > 0 {
        let a = left.len() as int;
        let b = left.len() + inner.len();
        assert(s[a] == inner[0]);
        assert(s[b - 1] == inner.last());
        assert forall|j: int| 0 <= j < a implies text::is_white(#[trigger] s[j]) by {
            assert(s[j] == left[j]);
        }
        assert forall|j: int| b <= j < s.len() implies text::is_white(#[trigger] s[j]) by {
            assert(s[j] == right[j - b]);
        }
        lemma_skip_white(s, 0, a);
        lemma_drop_white(s, s.len() as int, b as int);
        assert(s.subrange(a, b as int) == inner);
    } else {
        assert forall|j: int| 0 <= j < s.len() implies text::is_white(#[trigger] s[j]) by {
            if j < left.len() {
                assert(s[j] == left[j]);
            } else {
                assert(s[j] == right[j - left.len()]);
            }
        }
        lemma_skip_white(s, 0, s.len() as int);
        lemma_drop_white(s, s.len() as int, 0);
        assert(inner == Seq::<char>::empty());
    }
}

proof fn lemma_words_shifted(s: Seq<char>, t: Seq<char>, start: int, i: int)
    requires
        0 <= start <= i <= t.len(),
    ensures
        text::words_from(s + t, s.len() + start, s.len() + i) == text::words_from(t, start, i),
    decreases t.len() - i,
{
    assert((s + t).subrange(s.len() + start, s.len() + i) == t.subrange(start, i));
    if i < t.len() {
        assert((s + t)[s.len() + i] == t[i]);
        lemma_words_shifted(s, t, i + 1, i + 1);
        lemma_words_shifted(s, t, start, i + 1);
    }
}

proof fn lemma_words_broken(s: Seq<char>, c: char, t: Seq<char>, start: int, i: int)
    requires
        0 <= start <= i <= s.len(),
        text::is_white(c),
    ensures
        text::words_from(s.push(c) + t, start, i) == text::words_from(s, start, i) + text::words(t),
    decreases s.len() - i,
{
    let all = s.push(c) + t;
    assert(all.subrange(start, i) == s.subrange(start, i));
    if i < s.len() {
        assert(all[i] == s[i]);
        lemma_words_broken(s, c, t, i + 1, i + 1);
        lemma_words_broken(s, c, t, start, i + 1);
    } else {
        assert(all[i] == c);
        lemma_words_shifted(s.push(c), t, 0, 0);
    }
    assert(text::words_from(all, start, i) == text::words_from(s, start, i) + text::words(t));
}

/// Words end at white characters: those of a text are the ones on the left of a
/// white character, and then the ones on its right. No text has no words, and one
/// without white characters is a word.
pub proof fn words_end_at_white_characters(s: Seq<char>, c: char, t: Seq<char>)
    requires
        text::is_white(c),
    ensures
        text::words(s.push(c) + t) == text::words(s) + text::words(t),
        text::words(Seq::empty()) == Seq::<Seq<char>>::empty(),
        s.len() > 0 && (forall|j: int| 0 <= j < s.len() ==> !text::is_white(#[trigger] s[j]))
            ==> text::words(s) == seq![s],
{
    lemma_words_broken(s, c, t, 0, 0);
    if s.len() > 0 && (forall|j: int| 0 <= j < s.len() ==> !text::is_white(#[trigger] s[j])) {
        text::lemma_single_word(s);
    }
}

/// A slot is valid where its hour and its minute are those of a day's clock, and it
/// lasts from one to a hundred and twenty minutes.
pub proof fn valid_slots(slot: Slot)
    ensures
        slot.valid() <==> slot.hour < 24 && slot.minute < 60 && slot.duration_min > 0
            && slot.duration_min <= 120,
{
}

/// Of valid slots in order, none comes before one of an earlier hour, or of the same
/// hour and an earlier minute; and slots of which that holds are in order.
pub proof fn order_is_that_of_the_clock(slots: Seq<Slot>)
    requires
        forall|i: int| 0 <= i < slots.len() ==> (#[trigger] slots[i]).valid(),
    ensures
        schedule::in_order(slots) <==> (forall|i: int, j: int|
            0 <= i < j < slots.len() ==> (#[trigger] slots[i]).hour < (#[trigger] slots[j]).hour || (
            slots[i].hour == slots[j].hour && slots[i].minute <= slots[j].minute)),
{
    if schedule::in_order(slots) {
        assert forall|i: int, j: int| 0 <= i < j < slots.len() implies (#[trigger] slots[i]).hour < (
        #[trigger] slots[j]).hour || (slots[i].hour == slots[j].hour && slots[i].minute
            <= slots[j].minute) by {
            assert(slots[i].valid() && slots[j].valid());
            assert(slots[i].start() <= slots[j].start());
        }
    } else {
        let (i, j) = choose|i: int, j: int|
            0 <= i <= j < slots.len() && !((#[trigger] slots[i]).start() <= (
            #[trigger] slots[j]).start());
        assert(slots[i].valid() && slots[j].valid());
        assert(i < j);
    }
}

/// What is said of slots that are refused: that there are none, or what is wrong
/// with the first one that is not valid, where its hour counts before its minute, and
/// its minute before its duration; and its number is named.
pub proof fn faults_are_named(slots: Seq<Slot>, k: int)
    requires
        0 <= k < slots.len(),
        !slots[k].valid(),
        forall|j: int| 0 <= j < k ==> (#[trigger] slots[j]).valid(),
    ensures
        schedule::checked(Seq::empty()) == Err::<Seq<Slot>, Seq<char>>("no slots provided"@),
        ({
            let (words, n) = if slots[k].hour >= 24 {
                ("hour out of range: "@, slots[k].hour)
            } else if slots[k].minute >= 60 {
                ("minute out of range: "@, slots[k].minute)
            } else {
                ("duration must be 1-120, got "@, slots[k].duration_min)
            };
            &&& schedule::checked(slots) is Err
            &&& holds_number(schedule::checked(slots)->Err_0, words, n as nat, Seq::empty())
        }),
{
    lemma_first_invalid(slots, k, 0);
    let n = if slots[k].hour >= 24 {
        slots[k].hour
    } else if slots[k].minute >= 60 {
        slots[k].minute
    } else {
        slots[k].duration_min
    };
    lemma_decimal(n as nat);
    let message = slots[k].fault();
    let words = if slots[k].hour >= 24 {
        "hour out of range: "@
    } else if slots[k].minute >= 60 {
        "minute out of range: "@
    } else {
        "duration must be 1-120, got "@
    };
    assert(message == words + text::decimal(n as nat) + Seq::empty());
}

proof fn lemma_first_invalid(slots: Seq<Slot>, k: int, i: int)
    requires
        0 <= i <= k < slots.len(),
        !slots[k].valid(),
        forall|j: int| 0 <= j < k ==> (#[trigger] slots[j]).valid(),
    ensures
        schedule::first_invalid(slots, i) == k,
    decreases k - i,
{
    if i < k {
        assert(slots[i].valid());
        lemma_first_invalid(slots, k, i + 1);
    }
}

/// A word is read as a slot by what stands before its first comma and before the
/// first colon there: hour, minute and minutes to last. It is read where the three
/// are numbers that a slot may have, and else the first thing wrong is named.
pub proof fn words_are_read_as_slots(h: Seq<char>, m: Seq<char>, d: Seq<char>)
    requires
        !h.contains(':'),
        !h.contains(','),
        !m.contains(','),
    ensures
        ({
            let result = schedule::read_slot((h.push(':') + m).push(',') + d);
            match (text::number(h), text::number(m), text::number(d)) {
                (Some(hour), Some(minute), Some(minutes)) => if hour >= 24 || minute >= 60 {
                    result == Err::<Slot, Seq<char>>("invalid time: "@ + h.push(':') + m)
                } else if minutes < 1 || minutes > 120 {
                    &&& result is Err
                    &&& holds_number(
                        result->Err_0,
                        "duration must be 1-120, got "@,
                        minutes as nat,
                        Seq::empty(),
                    )
                } else {
                    result == Ok::<Slot, Seq<char>>(Slot { hour, minute, duration_min: minutes })
                },
                (Some(_), Some(_), None) => result == Err::<Slot, Seq<char>>(
                    "invalid duration: "@ + d,
                ),
                (Some(_), None, _) => result == Err::<Slot, Seq<char>>("invalid minute: "@ + m),
                (None, _, _) => result == Err::<Slot, Seq<char>>("invalid hour: "@ + h),
            }
        }),
{
    let time = h.push(':') + m;
    assert forall|j: int| 0 <= j < time.len() implies time[j] != ',' by {
        if j < h.len() {
            assert(time[j] == h[j]);
        } else if j > h.len() {
            assert(time[j] == m[j - h.len() - 1]);
        }
    }
    lemma_split(time, ',', d);
    lemma_split(h, ':', m);
    if let Some(minutes) = text::number(d) {
        lemma_decimal(minutes as nat);
        let message = "duration must be 1-120, got "@ + text::decimal(minutes as nat);
        assert(message == message + Seq::empty());
    }
    assert("invalid time: "@ + time == "invalid time: "@ + h.push(':') + m);
}

/// A word without a comma is no slot, nor is one without a colon before its comma.
pub proof fn words_that_are_no_slots(time: Seq<char>, d: Seq<char>)
    requires
        !time.contains(','),
    ensures
        schedule::read_slot(time) == Err::<Slot, Seq<char>>(
            "expected HH:MM,duration but got '"@ + time + "'"@,
        ),
        !time.contains(':') ==> schedule::read_slot(time.push(',') + d) == Err::<Slot, Seq<char>>(
            "expected HH:MM but got '"@ + time + "'"@,
        ),
{
    texts_are_split_at_the_first(time, ',');
    if let Some((a, b)) = text::split_first(time, ',') {
        assert(time[a.len() as int] == ',');
    }
    lemma_split(time, ',', d);
    texts_are_split_at_the_first(time, ':');
    if let Some((a, b)) = text::split_first(time, ':') {
        assert(time[a.len() as int] == ':');
    }
}

proof fn lemma_read_slots(parts: Seq<Seq<char>>, slots: Seq<Slot>)
    requires
        parts.len() == slots.len(),
        forall|i: int|
            0 <= i < parts.len() ==> schedule::read_slot(#[trigger] parts[i]) == Ok::<
                Slot,
                Seq<char>,
            >(slots[i]),
    ensures
        schedule::read_slots(parts) == Ok::<Seq<Slot>, Seq<char>>(slots),
    decreases parts.len(),
{
    if parts.len() > 0 {
        assert forall|i: int| 0 <= i < parts.len() - 1 implies schedule::read_slot(
            #[trigger] parts.drop_last()[i],
        ) == Ok::<Slot, Seq<char>>(slots.drop_last()[i]) by {
            assert(parts.drop_last()[i] == parts[i]);
        }
        lemma_read_slots(parts.drop_last(), slots.drop_last());
        assert(schedule::read_slot(parts[parts.len() - 1]) == Ok::<Slot, Seq<char>>(
            slots[slots.len() - 1],
        ));
        assert(slots.drop_last().push(slots.last()) == slots);
    } else {
        assert(slots == Seq::<Slot>::empty());
    }
}

proof fn lemma_read_slots_fails(
    parts: Seq<Seq<char>>,
    slots: Seq<Slot>,
    message: Seq<char>,
    n: int,
)
    requires
        slots.len() < n <= parts.len(),
        forall|i: int|
            0 <= i < slots.len() ==> schedule::read_slot(#[trigger] parts[i]) == Ok::<
                Slot,
                Seq<char>,
            >(slots[i]),
        schedule::read_slot(parts[slots.len() as int]) == Err::<Slot, Seq<char>>(message),
    ensures
        schedule::read_slots(parts.take(n)) == Err::<Seq<Slot>, Seq<char>>(message),
    decreases n,
{
    let head = parts.take(n);
    assert(head.drop_last() == parts.take(n - 1));
    if n - 1 > slots.len() {
        lemma_read_slots_fails(parts, slots, message, n - 1);
    } else {
        let before = parts.take(n - 1);
        assert forall|i: int| 0 <= i < before.len() implies schedule::read_slot(
            #[trigger] before[i],
        ) == Ok::<Slot, Seq<char>>(slots[i]) by {
            assert(before[i] == parts[i]);
        }
        lemma_read_slots(before, slots);
        assert(head.last() == parts[slots.len() as int]);
    }
}

/// A schedule text whose words are read as valid slots denotes these, all of them,
/// and in the order of their starts.
pub proof fn schedule_texts_are_read_by_word(input: Seq<char>, slots: Seq<Slot>)
    requires
        slots.len() > 0,
        text::words(input).len() == slots.len(),
        forall|i: int|
            0 <= i < slots.len() ==> schedule::read_slot(#[trigger] text::words(input)[i]) == Ok::<
                Slot,
                Seq<char>,
            >(slots[i]),
    ensures
        ({
            let result = schedule::read_schedule(input);
            &&& result is Ok
            &&& result->Ok_0.to_multiset() == slots.to_multiset()
            &&& result->Ok_0.len() == slots.len()
            &&& forall|i: int, j: int|
                0 <= i < j < result->Ok_0.len() ==> {
                    let a = #[trigger] result->Ok_0[i];
                    let b = #[trigger] result->Ok_0[j];
                    60 * a.hour + a.minute <= 60 * b.hour + b.minute
                }
        }),
{
    let parts = text::words(input);
    lemma_read_slots(parts, slots);
    assert forall|i: int| 0 <= i < slots.len() implies (#[trigger] slots[i]).valid() by {
        assert(schedule::read_slot(parts[i]) == Ok::<Slot, Seq<char>>(slots[i]));
    }
    lemma_all_valid(slots, 0);
    schedule::ordering_is_a_stable_sort(slots);
    let out = schedule::ordered(slots);
    assert forall|i: int, j: int| 0 <= i < j < out.len() implies {
        let a = #[trigger] out[i];
        let b = #[trigger] out[j];
        60 * a.hour + a.minute <= 60 * b.hour + b.minute
    } by {
        assert(out[i].start() <= out[j].start());
    }
}

proof fn lemma_all_valid(slots: Seq<Slot>, i: int)
    requires
        0 <= i <= slots.len(),
        forall|j: int| i <= j < slots.len() ==> (#[trigger] slots[j]).valid(),
    ensures
        schedule::first_invalid(slots, i) == slots.len(),
    decreases slots.len() - i,
{
    if i < slots.len() {
        assert(slots[i].valid());
        lemma_all_valid(slots, i + 1);
    }
}

/// A schedule text is refused for its first word that is no slot, with what is said
/// of that word; and for having no words.
pub proof fn schedule_texts_are_refused_by_word(
    input: Seq<char>,
    slots: Seq<Slot>,
    message: Seq<char>,
)
    ensures
        text::words(input).len() == 0 ==> schedule::read_schedule(input) == Err::<
            Seq<Slot>,
            Seq<char>,
        >("no slots provided"@),
        slots.len() < text::words(input).len() && (forall|i: int|
            0 <= i < slots.len() ==> schedule::read_slot(#[trigger] text::words(input)[i]) == Ok::<
                Slot,
                Seq<char>,
            >(slots[i])) && schedule::read_slot(text::words(input)[slots.len() as int]) == Err::<
            Slot,
            Seq<char>,
        >(message) ==> schedule::read_schedule(input) == Err::<Seq<Slot>, Seq<char>>(message),
{
    let parts = text::words(input);
    if slots.len() < parts.len() && (forall|i: int|
        0 <= i < slots.len() ==> schedule::read_slot(#[trigger] parts[i]) == Ok::<Slot, Seq<char>>(
            slots[i],
        )) && schedule::read_slot(parts[slots.len() as int]) == Err::<Slot, Seq<char>>(message) {
        lemma_read_slots_fails(parts, slots, message, parts.len() as int);
        assert(parts.take(parts.len() as int) == parts);
    }
}

/// A result says what is expected where both are slots, and the same ones, or both a
/// message, and the same one; and what texts read is what each of them reads.
pub proof fn results_say_what_is_expected(
    result: Result<Vec<Slot>, String>,
    expected: Result<Seq<Slot>, Seq<char>>,
    parts: Seq<&str>,
    i: int,
)
    ensures
        schedule::says(result, expected) <==> expected == match result {
            Ok(slots) => Ok::<Seq<Slot>, Seq<char>>(slots@),
            Err(message) => Err::<Seq<Slot>, Seq<char>>(message@),
        },
        text::texts(parts).len() == parts.len(),
        0 <= i < parts.len() ==> text::texts(parts)[i] == parts[i]@,
{
}

/// Without a change, the valve is to be opened four times a day, every four hours
/// from six in the morning, for eight minutes each.
pub proof fn default_slots_come_every_four_hours(k: int)
    requires
        0 <= k < 4,
    ensures
        schedule::default_slots().len() == 4,
        schedule::default_slots()[k].hour == 6 + 4 * k,
        schedule::default_slots()[k].minute == 0,
        schedule::default_slots()[k].duration_min == 8,
{
}

/// The slot that comes next today is the first in the list that starts later than
/// the clock shows; where none does, the first of the list comes next, tomorrow.
pub proof fn the_next_slot_is_the_first_later_one(slots: Seq<Slot>, hour: int, minute: int, k: int)
    requires
        0 <= minute < 60,
        0 <= k <= slots.len(),
        forall|j: int|
            0 <= j < k ==> 60 * (#[trigger] slots[j]).hour + slots[j].minute <= 60 * hour + minute,
        k < slots.len() ==> 60 * slots[k].hour + slots[k].minute > 60 * hour + minute,
    ensures
        schedule::upcoming(slots, 60 * hour + minute) == if k < slots.len() {
            Some((slots[k], true))
        } else if slots.len() > 0 {
            Some((slots[0], false))
        } else {
            None
        },
{
    lemma_first_after(slots, 60 * hour + minute, k, 0);
}

proof fn lemma_first_after(slots: Seq<Slot>, t: int, k: int, i: int)
    requires
        0 <= i <= k <= slots.len(),
        forall|j: int| 0 <= j < k ==> 60 * (#[trigger] slots[j]).hour + slots[j].minute <= t,
        k < slots.len() ==> 60 * slots[k].hour + slots[k].minute > t,
    ensures
        schedule::first_after(slots, t, i) == k,
    decreases k - i,
{
    if i < k {
        assert(60 * slots[i].hour + slots[i].minute <= t);
        lemma_first_after(slots, t, k, i + 1);
    }
}

/// The slot that is due is the first in the list of that hour and minute, and none is
/// due where none has them.
pub proof fn the_due_slot_is_the_first_of_its_time(
    slots: Seq<Slot>,
    hour: u32,
    minute: u32,
    k: int,
)
    requires
        0 <= k <= slots.len(),
        forall|j: int|
            0 <= j < k ==> (#[trigger] slots[j]).hour != hour || slots[j].minute != minute,
        k < slots.len() ==> slots[k].hour == hour && slots[k].minute == minute,
    ensures
        schedule::due(slots, hour, minute) == if k < slots.len() {
            Some(slots[k].duration_min)
        } else {
            None
        },
{
    lemma_first_at(slots, hour, minute, k, 0);
}

proof fn lemma_first_at(slots: Seq<Slot>, hour: u32, minute: u32, k: int, i: int)
    requires
        0 <= i <= k <= slots.len(),
        forall|j: int|
            0 <= j < k ==> (#[trigger] slots[j]).hour != hour || slots[j].minute != minute,
        k < slots.len() ==> slots[k].hour == hour && slots[k].minute == minute,
    ensures
        schedule::first_at(slots, hour, minute, i) == k,
    decreases k - i,
{
    if i < k {
        assert(slots[i].hour != hour || slots[i].minute != minute);
        lemma_first_at(slots, hour, minute, k, i + 1);
    }
}

} // verus!
