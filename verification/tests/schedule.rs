use irrigator::schedule::{due_duration, next_slot, parse_schedule, Schedule, Slot};
use irrigator::text::{parse_number, push_decimal, push_signed, push_two_digits, split_once, split_words, trim};

fn slot(hour: u32, minute: u32, duration_min: u32) -> Slot {
    Slot { hour, minute, duration_min }
}

#[test]
fn slots_are_sorted_by_start_and_keep_ties_in_order() {
    let sorted = Schedule::try_from_slots(vec![
        slot(18, 30, 5),
        slot(6, 0, 8),
        slot(18, 30, 3),
        slot(6, 5, 120),
        slot(0, 0, 1),
    ])
    .unwrap();
    assert_eq!(
        sorted,
        vec![slot(0, 0, 1), slot(6, 0, 8), slot(6, 5, 120), slot(18, 30, 5), slot(18, 30, 3)]
    );
}

#[test]
fn sorting_sorted_slots_changes_nothing() {
    let once = Schedule::try_from_slots(vec![slot(10, 0, 2), slot(9, 59, 1), slot(10, 0, 1)]).unwrap();
    let twice = Schedule::try_from_slots(once.clone()).unwrap();
    assert_eq!(once, twice);
}

#[test]
fn no_slots_are_refused() {
    assert_eq!(Schedule::try_from_slots(vec![]).unwrap_err(), "no slots provided");
}

#[test]
fn slots_out_of_range_are_refused() {
    let bad = |s: Slot| Schedule::try_from_slots(vec![slot(6, 0, 8), s]).unwrap_err();
    assert_eq!(bad(slot(24, 0, 8)), "hour out of range: 24");
    assert_eq!(bad(slot(23, 60, 8)), "minute out of range: 60");
    assert_eq!(bad(slot(23, 59, 0)), "duration must be 1-120, got 0");
    assert_eq!(bad(slot(23, 59, 121)), "duration must be 1-120, got 121");
    assert!(Schedule::try_from_slots(vec![slot(23, 59, 120)]).is_ok());
}

#[test]
fn the_first_bad_slot_is_named() {
    let e = Schedule::try_from_slots(vec![slot(1, 99, 8), slot(99, 0, 8)]).unwrap_err();
    assert_eq!(e, "minute out of range: 99");
}

#[test]
fn default_schedule_has_four_slots() {
    let schedule = Schedule::default();
    assert!(schedule.enabled);
    assert_eq!(
        schedule.slots,
        vec![slot(6, 0, 8), slot(10, 0, 8), slot(14, 0, 8), slot(18, 0, 8)]
    );
    let copy = schedule.clone();
    assert_eq!(copy.slots, schedule.slots);
    assert!(copy.enabled);
}

#[test]
fn schedule_text_is_read() {
    assert_eq!(
        parse_schedule("06:00,8 10:00,8 14:00,8").unwrap(),
        vec![slot(6, 0, 8), slot(10, 0, 8), slot(14, 0, 8)]
    );
    assert_eq!(
        parse_schedule("  18:30,+5\t6:5,120\u{3000}").unwrap(),
        vec![slot(6, 5, 120), slot(18, 30, 5)]
    );
}

#[test]
fn schedule_text_errors_are_named() {
    let e = |s: &str| parse_schedule(s).unwrap_err();
    assert_eq!(e(""), "no slots provided");
    assert_eq!(e(" \n "), "no slots provided");
    assert_eq!(e("06:00"), "expected HH:MM,duration but got '06:00'");
    assert_eq!(e("0600,8"), "expected HH:MM but got '0600'");
    assert_eq!(e("x:00,8"), "invalid hour: x");
    assert_eq!(e("06:,8"), "invalid minute: ");
    assert_eq!(e("06:00,8,9"), "invalid duration: 8,9");
    assert_eq!(e("06:00,-8"), "invalid duration: -8");
    assert_eq!(e("24:00,8"), "invalid time: 24:00");
    assert_eq!(e("23:60,8"), "invalid time: 23:60");
    assert_eq!(e("23:59,0"), "duration must be 1-120, got 0");
    assert_eq!(e("23:59,121"), "duration must be 1-120, got 121");
    assert_eq!(e("06:00,8 é 24:00,8"), "expected HH:MM,duration but got 'é'");
}

#[test]
fn written_slots_are_read_back() {
    let mut words = String::new();
    let slots = vec![slot(0, 0, 1), slot(6, 5, 12), slot(23, 59, 120)];
    for s in &slots {
        if !words.is_empty() {
            words.push(' ');
        }
        words.push_str(&format!("{:02}:{:02},{}", s.hour, s.minute, s.duration_min));
    }
    assert_eq!(parse_schedule(&words).unwrap(), slots);
}

#[test]
fn slots_are_shown() {
    assert_eq!(slot(6, 0, 8).text(), "06:00 for 8min");
    assert_eq!(slot(18, 45, 120).text(), "18:45 for 120min");
}

#[test]
fn next_slot_is_today_or_tomorrow() {
    let slots = Schedule::default().slots;
    assert_eq!(next_slot(&slots, 0), Some((slot(6, 0, 8), true)));
    assert_eq!(next_slot(&slots, 359), Some((slot(6, 0, 8), true)));
    assert_eq!(next_slot(&slots, 360), Some((slot(10, 0, 8), true)));
    assert_eq!(next_slot(&slots, 18 * 60), Some((slot(6, 0, 8), false)));
    assert_eq!(next_slot(&vec![], 5), None);
}

#[test]
fn slot_durations_are_found_by_time() {
    let slots = vec![slot(6, 0, 8), slot(6, 0, 9), slot(7, 0, 1)];
    assert_eq!(due_duration(&slots, 6, 0), Some(8));
    assert_eq!(due_duration(&slots, 7, 0), Some(1));
    assert_eq!(due_duration(&slots, 7, 1), None);
}

#[test]
fn numbers_are_read_as_the_standard_library_reads_them() {
    for s in [
        "", "+", "-", "0", "+0", "-0", "007", "4294967295", "4294967296", "00000000000000000012",
        "99999999999999999999", "1 ", " 1", "1_0", "++1", "+1", "１", "0x10", "12a", "a12",
    ] {
        assert_eq!(parse_number(s), s.parse::<u32>().ok(), "{s:?}");
    }
}

#[test]
fn text_is_split_as_the_standard_library_splits_it() {
    for s in [
        "", " ", "a", " a ", "a b", "\ta\u{b}b\u{85}c\u{a0}d\u{1680}e\u{2003}f\u{2028}g\u{202f}h\u{205f}i\u{3000}",
        "a\u{200b}b", "a,b", ",", "a,", ",b,c", "\u{feff} x",
    ] {
        assert_eq!(split_words(s), s.split_whitespace().collect::<Vec<_>>(), "{s:?}");
        assert_eq!(trim(s), s.trim(), "{s:?}");
        assert_eq!(split_once(s, ','), s.split_once(','), "{s:?}");
    }
}

#[test]
fn white_characters_are_those_of_the_standard_library() {
    for v in 0..0x11_0000u32 {
        if let Some(c) = char::from_u32(v) {
            if v < 0x4000 || c.is_whitespace() {
                let s = c.to_string();
                assert_eq!(trim(&s).is_empty(), c.is_whitespace(), "{v:x}");
            }
        }
    }
}

#[test]
fn numbers_are_written_as_the_standard_library_writes_them() {
    for n in [0u64, 1, 9, 10, 99, 100, 12345, u64::MAX] {
        let mut out = String::from("x");
        push_decimal(&mut out, n);
        assert_eq!(out, format!("x{n}"));
        let mut out = String::from("x");
        push_two_digits(&mut out, n);
        assert_eq!(out, format!("x{n:02}"));
    }
    for i in [0i64, -1, 1, -10, i64::MIN, i64::MAX] {
        let mut out = String::new();
        push_signed(&mut out, i);
        assert_eq!(out, format!("{i}"));
    }
}
