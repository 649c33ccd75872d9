use chrono::{Datelike, Timelike};
use irrigator::flow::{FlowRate, FlowSensor, Liters, Reading};
use irrigator::target::{is_out_of_range, FORTY, TEN_THOUSAND};
use irrigator::time::{whole_units, Timestamp, UtcOffset, MAX_DAY, MAX_SECS, MIN_DAY, MIN_SECS};

fn at(secs: i64, nanos: u32) -> Timestamp {
    Timestamp::new(secs, nanos).unwrap()
}

fn east(secs: i32) -> UtcOffset {
    UtcOffset::east(secs).unwrap()
}

#[test]
fn the_calendar_has_the_limits_of_chrono() {
    assert_eq!(chrono::DateTime::<chrono::Utc>::MIN_UTC.timestamp(), MIN_SECS);
    assert_eq!(chrono::DateTime::<chrono::Utc>::MAX_UTC.timestamp(), MAX_SECS);
    assert!(Timestamp::new(MIN_SECS - 1, 0).is_none());
    assert!(Timestamp::new(MAX_SECS + 1, 0).is_none());
    assert!(Timestamp::new(0, 1_000_000_000).is_none());
    assert!(chrono::NaiveDate::from_epoch_days(MIN_DAY).is_some());
    assert!(chrono::NaiveDate::from_epoch_days(MIN_DAY - 1).is_none());
    assert!(chrono::NaiveDate::from_epoch_days(MAX_DAY).is_some());
    assert!(chrono::NaiveDate::from_epoch_days(MAX_DAY + 1).is_none());
    let t = at(-5, 7);
    assert_eq!((t.secs(), t.subsec_nanos()), (-5, 7));
}

#[test]
fn minutes_are_added() {
    let t = at(1777608307, 9).plus_minutes(8);
    assert_eq!((t.secs(), t.subsec_nanos()), (1777608307 + 480, 9));
    assert!(at(0, 0).fits_minutes(u32::MAX));
    assert!(at(MAX_SECS - 60, 1).fits_minutes(1));
    assert!(!at(MAX_SECS - 59, 0).fits_minutes(1));
}

#[test]
fn seconds_between_times_are_those_of_chrono() {
    let times = [(0i64, 0u32), (0, 1), (-1, 999_999_999), (10, 5), (-10, 5), (1777608307, 500_000_000)];
    for a in times {
        for b in times {
            let ca = chrono::DateTime::from_timestamp(a.0, a.1).unwrap();
            let cb = chrono::DateTime::from_timestamp(b.0, b.1).unwrap();
            let n = at(a.0, a.1).seconds_since(&at(b.0, b.1));
            assert_eq!(n, (ca - cb).num_seconds());
            assert_eq!(whole_units(n, 60), (ca - cb).num_minutes());
            assert_eq!(at(a.0, a.1).reached(&at(b.0, b.1)), ca >= cb);
        }
    }
}

#[test]
fn local_clocks_are_those_of_chrono() {
    for secs in [0i64, -1, 1777608307, 951_782_399, -86_401, 86_399] {
        for off in [0, 1, -1, 7200, -34_200, 86_399, -86_399, 19_800] {
            let zone = chrono::FixedOffset::east_opt(off).unwrap();
            let c = chrono::DateTime::from_timestamp(secs, 0).unwrap().with_timezone(&zone);
            let t = at(secs, 0);
            assert_eq!(t.local_time(&east(off)), (c.hour(), c.minute()));
            assert_eq!(
                t.local_day(&east(off)) as i64,
                c.date_naive().num_days_from_ce() as i64 - 719_163
            );
            assert_eq!(t.clock(&east(off)), format!("{:02}:{:02}", c.hour(), c.minute()));
        }
    }
    assert!(UtcOffset::east(86_400).is_none());
    assert!(UtcOffset::east(-86_400).is_none());
}

#[test]
fn clocks_are_shown_with_their_offset() {
    let t = at(1777608307, 0);
    assert_eq!(t.clock(&east(0)), "04:05");
    assert_eq!(t.zoned_clock(&east(7200)), "06:05 +02:00");
    assert_eq!(t.zoned_clock(&east(-12_600)), "00:35 -03:30");
    assert_eq!(t.zoned_clock(&east(3_661)), "05:06 +01:01:01");
    assert_eq!(t.zoned_clock(&east(0)), "04:05 +00:00");
}

#[test]
fn liters_are_shown_with_one_decimal() {
    assert_eq!(Liters { pulses: 0 }.text(), "0.0");
    assert_eq!(Liters { pulses: 30 }.text(), "0.0");
    assert_eq!(Liters { pulses: 31 }.text(), "0.1");
    assert_eq!(Liters { pulses: 617 }.text(), "1.0");
    assert_eq!(Liters { pulses: 4504 }.text(), "7.3");
    for p in (0..2_000_000u64).step_by(37) {
        assert_eq!(Liters { pulses: p }.text(), format!("{:.1}", p as f64 / 617.0));
    }
}

#[test]
fn shown_liters_are_nearest() {
    for p in 0..10_000i64 {
        let text = Liters { pulses: p as u64 }.text();
        let shown: i64 = text.replace('.', "").parse().unwrap();
        assert!((617 * shown - 10 * p).abs() < (617 * (shown + 1) - 10 * p).abs());
        assert!((617 * shown - 10 * p).abs() < (617 * (shown - 1) - 10 * p).abs());
    }
}

#[test]
fn volumes_add_up_as_far_as_they_can_be_counted() {
    let a = Liters { pulses: 5 };
    assert_eq!(a.plus(Liters { pulses: 7 }).pulses, 12);
    assert_eq!(a.plus(Liters { pulses: u64::MAX }).pulses, u64::MAX);
}

#[test]
fn sessions_are_measured_from_their_start() {
    let mut sensor = FlowSensor::new();
    let early = Reading { count: 40, clock: 5_000_000_000 };
    assert_eq!(sensor.session_liters(early).pulses, 40);
    assert_eq!(sensor.session_elapsed_secs(early), 0);
    sensor.start_session(early);
    assert_eq!(sensor.session_liters(early).pulses, 0);
    let late = Reading { count: 657, clock: 35_999_999_999 };
    assert_eq!(sensor.session_liters(late), Liters { pulses: 617 });
    assert_eq!(sensor.session_elapsed_secs(late), 30);
    assert_eq!(sensor.session_flow_lpm(late), FlowRate { pulses: 617, secs: 30 });
    assert_eq!(sensor.session_liters(Reading { count: 39, clock: 0 }).pulses, 0);
    assert_eq!(sensor.session_elapsed_secs(Reading { count: 39, clock: 0 }), 0);
}

#[test]
fn a_starved_session_is_noticed_after_half_a_minute() {
    let mut sensor = FlowSensor::new();
    sensor.start_session(Reading { count: 0, clock: 0 });
    let r = |count: u64, secs: u64| Reading { count, clock: secs * 1_000_000_000 };
    assert!(!sensor.is_starved(r(0, 29)));
    assert!(sensor.is_starved(r(0, 30)));
    assert!(sensor.is_starved(r(15, 30)));
    assert!(!sensor.is_starved(r(16, 30)));
    assert!(!sensor.is_starved(r(617, 1200)));
    assert!(sensor.is_starved(r(616, 1200)));
}

#[test]
fn flows_are_compared() {
    let a = FlowRate { pulses: 10, secs: 60 };
    let b = FlowRate { pulses: 19, secs: 120 };
    assert!(a.exceeds(&b));
    assert!(!b.exceeds(&a));
    assert!(!a.exceeds(&a));
    assert!(FlowRate { pulses: u64::MAX, secs: 1 }.exceeds(&FlowRate { pulses: 1, secs: u64::MAX }));
}

#[test]
fn targets_are_held_to_their_range_as_numbers_are() {
    assert_eq!(f64::from_bits(FORTY), 40.0);
    assert_eq!(f64::from_bits(TEN_THOUSAND), 10_000.0);
    for x in [
        0.0, -0.0, 1e-320, -1e-320, 0.5, 40.0, 9_999.999, 10_000.0, 10_000.000_000_000_002, 1e300,
        -1.0, -1e300, f64::INFINITY, f64::NEG_INFINITY, f64::NAN, -f64::NAN, f64::MIN_POSITIVE,
    ] {
        assert_eq!(is_out_of_range(x.to_bits()), x < 0.0 || x > 10_000.0, "{x}");
    }
}
