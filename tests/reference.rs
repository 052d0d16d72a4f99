use temp_controller::pid::Reference;
use temp_controller::reference::{append_decimal, ReferenceSeries};
use temp_controller::tick::TickSource;

fn series() -> ReferenceSeries {
    ReferenceSeries::new(vec![
        Reference { duration: 60, temp: 55 },
        Reference { duration: 30, temp: 60 },
        Reference { duration: 30, temp: 75 },
    ])
}

#[test]
fn setpoints_follow_segments() {
    let s = series();
    assert_eq!(s.setpoint_at(0), Some(55));
    assert_eq!(s.setpoint_at(59_999), Some(55));
    assert_eq!(s.setpoint_at(60_000), Some(60));
    assert_eq!(s.setpoint_at(89_999), Some(60));
    assert_eq!(s.setpoint_at(90_000), Some(75));
    assert_eq!(s.setpoint_at(119_999), Some(75));
    assert_eq!(s.setpoint_at(120_000), None);
    assert_eq!(s.active_segment(61_000), Some((1, Reference { duration: 30, temp: 60 })));
}

#[test]
fn each_segment_emitted_once_for_its_duration() {
    let s = series();
    let mut ticks = TickSource::new(4);
    let mut seen: Vec<(u32, u64)> = Vec::new();
    let mut t = 0u64;
    while t <= 130_000 {
        if ticks.poll(t) {
            if let Some(sp) = s.setpoint_at(t) {
                match seen.last_mut() {
                    Some((last, n)) if *last == sp => *n += 1,
                    _ => seen.push((sp, 1)),
                }
            }
        }
        t += 50;
    }
    assert_eq!(seen, vec![(55, 240), (60, 120), (75, 120)]);
}

#[test]
fn empty_series_is_over_at_once() {
    let s = ReferenceSeries::new(vec![]);
    assert_eq!(s.setpoint_at(0), None);
    assert_eq!(s.len(), 0);
}

#[test]
fn zero_duration_segment_is_skipped() {
    let s = ReferenceSeries::new(vec![
        Reference { duration: 0, temp: 10 },
        Reference { duration: 1, temp: 20 },
    ]);
    assert_eq!(s.setpoint_at(0), Some(20));
    assert_eq!(s.setpoint_at(1000), None);
}

#[test]
fn long_durations_do_not_overflow() {
    let s = ReferenceSeries::new(vec![Reference { duration: u64::MAX, temp: 1 }]);
    assert_eq!(s.setpoint_at(u64::MAX), Some(1));
}

#[test]
fn series_as_text() {
    assert_eq!(series().to_text(), "60: 55, 30: 60, 30: 75, ");
    assert_eq!(ReferenceSeries::new(vec![]).to_text(), "");
    let s = ReferenceSeries::new(vec![Reference { duration: 0, temp: 4294967295 }]);
    assert_eq!(s.to_text(), "0: 4294967295, ");
}

#[test]
fn decimal_text() {
    let mut s = String::from("n=");
    append_decimal(&mut s, 18446744073709551615);
    assert_eq!(s, "n=18446744073709551615");
    let mut z = String::new();
    append_decimal(&mut z, 0);
    assert_eq!(z, "0");
}

#[test]
fn duplicate_keeps_segments() {
    let s = series();
    let d = s.duplicate();
    assert_eq!(d.0, s.0);
}

#[test]
fn tick_source_coalesces_missed_pulses() {
    let mut t = TickSource::new(1);
    assert_eq!(t.period_ms(), 1000);
    assert!(t.poll(0));
    assert!(!t.poll(0));
    assert!(!t.poll(999));
    assert!(t.poll(3500));
    assert!(!t.poll(3999));
    assert!(t.poll(4000));
}

#[test]
fn tick_source_period_from_frequency() {
    assert_eq!(TickSource::new(60).period_ms(), 16);
    let mut fast = TickSource::new(2000);
    assert_eq!(fast.period_ms(), 0);
    assert!(fast.poll(5));
    assert!(fast.poll(5));
}
