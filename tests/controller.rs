use std::cell::RefCell;
use std::rc::Rc;

use temp_controller::controller::{Controller, Output, RunEnd, Sensor, StartError, TickOutcome};
use temp_controller::log::Date;
use temp_controller::pid::{PidParameters, Reference};
use temp_controller::reference::ReferenceSeries;
use temp_controller::tick::TickSource;

struct ConstSensor(Option<i64>);

impl Sensor for ConstSensor {
    fn read(&self) -> Option<i64> {
        self.0
    }
}

#[derive(Default)]
struct Recorded {
    commands: Vec<i128>,
    turn_offs: u32,
}

struct RecordingOutput {
    record: Rc<RefCell<Recorded>>,
    accept: bool,
}

impl Output for RecordingOutput {
    fn set(&mut self, command: i128) -> bool {
        self.record.borrow_mut().commands.push(command);
        self.accept
    }

    fn turn_off(&mut self) {
        self.record.borrow_mut().turn_offs += 1;
    }
}

fn date() -> Date {
    Date { year: 2024, month: 3, day: 9 }
}

fn controller(
    reading: Option<i64>,
    accept: bool,
    parameters: PidParameters,
    frequency: u64,
) -> (Controller<ConstSensor, RecordingOutput>, Rc<RefCell<Recorded>>) {
    let record = Rc::new(RefCell::new(Recorded::default()));
    let output = RecordingOutput { record: record.clone(), accept };
    (Controller::new(ConstSensor(reading), output, parameters, frequency), record)
}

fn two_segments() -> ReferenceSeries {
    ReferenceSeries::new(vec![
        Reference { duration: 2, temp: 50 },
        Reference { duration: 1, temp: 80 },
    ])
}

#[test]
fn end_to_end_two_segments() {
    let (mut c, record) = controller(Some(40), true, PidParameters::new(1, 0, 0, u64::MAX), 1);
    c.start("profile".to_owned(), two_segments(), &date(), &vec![]).unwrap();
    let mut ticks = TickSource::new(c.frequency_hz());
    let mut outcomes = Vec::new();
    for elapsed in [0u64, 500, 1000, 1500, 2000, 2500, 3000] {
        if ticks.poll(elapsed) {
            outcomes.push(c.tick(elapsed, 1_000_000 + elapsed));
        }
    }
    assert_eq!(outcomes.len(), 4);
    let entries: Vec<_> = outcomes[..3]
        .iter()
        .map(|o| match o {
            TickOutcome::Stepped(e) => *e,
            other => panic!("unexpected {:?}", other),
        })
        .collect();
    assert_eq!(entries.iter().map(|e| e.output).collect::<Vec<_>>(), vec![10, 10, 40]);
    assert_eq!(entries.iter().map(|e| e.reference).collect::<Vec<_>>(), vec![50, 50, 80]);
    assert!(entries[0].timestamp < entries[1].timestamp);
    assert!(entries[1].timestamp < entries[2].timestamp);
    assert_eq!(outcomes[3], TickOutcome::Ended(RunEnd::Completed));
    assert_eq!(record.borrow().turn_offs, 1);
    assert_eq!(record.borrow().commands, vec![10, 10, 40]);
    assert_eq!(c.get_name_of_current_process(), None);
    assert_eq!(c.get_last_log_entry(), None);
    assert_eq!(c.last_run_end(), Some(RunEnd::Completed));
    assert_eq!(c.tick(4000, 1_004_000), TickOutcome::Idle);
    assert_eq!(record.borrow().turn_offs, 1);
}

#[test]
fn run_log_holds_three_entries() {
    let (mut c, _record) = controller(Some(40), true, PidParameters::new(1, 0, 0, u64::MAX), 1);
    c.start("profile".to_owned(), two_segments(), &date(), &vec![]).unwrap();
    for k in 0..3u64 {
        c.tick(k * 1000, 500 + k * 1000);
        assert_eq!(c.current_log().unwrap().entries().len(), (k + 1) as usize);
    }
    let log = c.current_log().unwrap();
    assert_eq!(log.reference(), "profile");
    let stamps: Vec<u64> = log.entries().iter().map(|e| e.timestamp).collect();
    assert_eq!(stamps, vec![500, 1500, 2500]);
}

#[test]
fn start_while_running_is_refused() {
    let (mut c, record) = controller(Some(40), true, PidParameters::default(), 1);
    c.start("first".to_owned(), two_segments(), &date(), &vec![]).unwrap();
    c.tick(0, 10);
    let before = c.get_last_log_entry();
    let again = c.start("second".to_owned(), two_segments(), &date(), &vec![]);
    assert_eq!(again, Err(StartError::AlreadyRunning));
    assert_eq!(c.get_name_of_current_process(), Some("first-2024-03-09".to_owned()));
    assert_eq!(c.get_last_log_entry(), before);
    assert_eq!(record.borrow().turn_offs, 0);
}

#[test]
fn start_with_empty_series_is_refused() {
    let (mut c, _record) = controller(Some(40), true, PidParameters::default(), 1);
    let r = c.start("empty".to_owned(), ReferenceSeries::new(vec![]), &date(), &vec![]);
    assert_eq!(r, Err(StartError::Configuration));
    assert_eq!(c.get_name_of_current_process(), None);
}

#[test]
fn start_with_taken_log_name_is_refused() {
    let (mut c, _record) = controller(Some(40), true, PidParameters::default(), 1);
    let taken = vec!["other".to_owned(), "brew-2024-03-09".to_owned()];
    let r = c.start("brew".to_owned(), two_segments(), &date(), &taken);
    assert_eq!(r, Err(StartError::NameCollision));
    assert_eq!(c.get_name_of_current_process(), None);
}

#[test]
fn start_with_invalid_date_is_refused() {
    let (mut c, _record) = controller(Some(40), true, PidParameters::default(), 1);
    let bad = Date { year: 2023, month: 2, day: 30 };
    let r = c.start("brew".to_owned(), two_segments(), &bad, &vec![]);
    assert_eq!(r, Err(StartError::InvalidDate));
}

#[test]
fn sensor_failure_ends_run_safely() {
    let (mut c, record) = controller(None, true, PidParameters::default(), 1);
    c.start("brew".to_owned(), two_segments(), &date(), &vec![]).unwrap();
    assert_eq!(c.tick(0, 1), TickOutcome::Ended(RunEnd::SensorFailed));
    assert_eq!(record.borrow().turn_offs, 1);
    assert_eq!(c.get_name_of_current_process(), None);
}

#[test]
fn output_failure_ends_run_safely() {
    let (mut c, record) = controller(Some(20), false, PidParameters::default(), 1);
    c.start("brew".to_owned(), two_segments(), &date(), &vec![]).unwrap();
    assert_eq!(c.tick(0, 1), TickOutcome::Ended(RunEnd::OutputFailed));
    assert_eq!(record.borrow().turn_offs, 1);
    assert_eq!(c.last_run_end(), Some(RunEnd::OutputFailed));
}

#[test]
fn stop_turns_off_once() {
    let (mut c, record) = controller(Some(20), true, PidParameters::default(), 1);
    assert!(!c.stop());
    c.start("brew".to_owned(), two_segments(), &date(), &vec![]).unwrap();
    c.tick(0, 1);
    assert!(c.stop());
    assert!(!c.stop());
    assert_eq!(record.borrow().turn_offs, 1);
    assert_eq!(c.last_run_end(), Some(RunEnd::Stopped));
    assert_eq!(c.tick(1000, 2), TickOutcome::Idle);
}

#[test]
fn last_log_entry_is_whole_entry_of_last_tick() {
    let (mut c, _record) = controller(Some(40), true, PidParameters::new(2, 0, 0, 0), 1);
    assert_eq!(c.get_last_log_entry(), None);
    c.start("brew".to_owned(), two_segments(), &date(), &vec![]).unwrap();
    assert_eq!(c.get_last_log_entry(), None);
    let TickOutcome::Stepped(e) = c.tick(0, 77) else { panic!("no step") };
    assert_eq!(c.get_last_log_entry(), Some(e));
    assert_eq!((e.timestamp, e.reference, e.input, e.output), (77, 50, 40, 20));
}

#[test]
fn timestamps_increase_when_clock_stalls() {
    let (mut c, _record) = controller(Some(40), true, PidParameters::default(), 1);
    c.start("brew".to_owned(), two_segments(), &date(), &vec![]).unwrap();
    c.tick(0, 100);
    c.tick(1000, 100);
    c.tick(2000, 50);
    let stamps: Vec<u64> = c.current_log().unwrap().entries().iter().map(|e| e.timestamp).collect();
    assert_eq!(stamps, vec![100, 101, 102]);
}

#[test]
fn new_controller_is_idle_without_entry() {
    let (c, record) = controller(Some(40), true, PidParameters::default(), 5);
    assert_eq!(c.get_name_of_current_process(), None);
    assert_eq!(c.get_last_log_entry(), None);
    assert!(c.current_log().is_none());
    assert_eq!(c.last_run_end(), None);
    assert_eq!(c.frequency_hz(), 5);
    assert!(record.borrow().commands.is_empty());
    assert_eq!(record.borrow().turn_offs, 0);
}

#[test]
fn start_on_leap_day_and_invalid_date_with_taken_name() {
    let (mut c, _record) = controller(Some(40), true, PidParameters::default(), 1);
    let taken = vec!["brew-2023-02-29".to_owned()];
    let bad = Date { year: 2023, month: 2, day: 29 };
    assert_eq!(c.start("brew".to_owned(), two_segments(), &bad, &taken), Err(StartError::InvalidDate));
    let leap = Date { year: 2024, month: 2, day: 29 };
    assert_eq!(c.start("brew".to_owned(), two_segments(), &leap, &taken), Ok(()));
    assert_eq!(c.get_name_of_current_process(), Some("brew-2024-02-29".to_owned()));
    assert_eq!(c.get_last_log_entry(), None);
}

#[test]
fn segments_played_in_order_as_blocks() {
    let series = ReferenceSeries::new(vec![
        Reference { duration: 1, temp: 30 },
        Reference { duration: 2, temp: 30 },
        Reference { duration: 1, temp: 45 },
    ]);
    let (mut c, _record) = controller(Some(20), true, PidParameters::default(), 2);
    c.start("blocks".to_owned(), series, &date(), &vec![]).unwrap();
    let mut refs = Vec::new();
    let mut k = 0u64;
    loop {
        match c.tick(k * 500, k) {
            TickOutcome::Stepped(e) => refs.push(e.reference),
            TickOutcome::Ended(end) => {
                assert_eq!(end, RunEnd::Completed);
                break;
            }
            TickOutcome::Idle => panic!("idle during a run"),
        }
        k += 1;
    }
    assert_eq!(refs, vec![30, 30, 30, 30, 30, 30, 45, 45]);
}
