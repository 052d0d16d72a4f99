use temp_controller::pid::{Pid, PidParameters};

#[test]
fn proportional_only() {
    let mut pid = Pid::new(&PidParameters::new(1, 0, 0, u64::MAX));
    assert_eq!(pid.pid(40, 50), 10);
    assert_eq!(pid.pid(40, 80), 40);
}

#[test]
fn integral_and_derivative() {
    let mut pid = Pid::new(&PidParameters::new(7, 3, 2, 1000));
    // error 10, accumulator 10, derivative 40
    assert_eq!(pid.pid(40, 50), 7 * 10 + 3 * 10 + 2 * 40);
    // error 5, accumulator 15, derivative 5
    assert_eq!(pid.pid(45, 50), 7 * 5 + 3 * 15 + 2 * 5);
}

#[test]
fn accumulator_is_clamped_both_ways() {
    let mut pid = Pid::new(&PidParameters::new(0, 1, 0, 25));
    assert_eq!(pid.pid(0, 20), 20);
    assert_eq!(pid.pid(0, 20), 25);
    assert_eq!(pid.pid(0, 20), 25);
    let mut down = Pid::new(&PidParameters::new(0, 1, 0, 25));
    assert_eq!(down.pid(20, 0), -20);
    assert_eq!(down.pid(20, 0), -25);
    assert_eq!(down.pid(20, 0), -25);
}

#[test]
fn replay_is_deterministic() {
    let params = PidParameters::new(3, 2, -1, 40);
    let samples = [(10i64, 30i64), (12, 30), (20, 35), (40, 35), (33, 35), (35, 35)];
    let mut a = Pid::new(&params);
    let mut b = Pid::new(&params);
    let ra: Vec<i128> = samples.iter().map(|&(y, r)| a.pid(y, r)).collect();
    let rb: Vec<i128> = samples.iter().map(|&(y, r)| b.pid(y, r)).collect();
    assert_eq!(ra, rb);
}

#[test]
fn extreme_inputs_do_not_overflow() {
    let mut pid = Pid::new(&PidParameters::new(i32::MIN, i32::MAX, i32::MIN, u64::MAX));
    let r = pid.pid(i64::MIN, i64::MAX);
    let e = i64::MAX as i128 - i64::MIN as i128;
    let d = i64::MIN as i128;
    assert_eq!(r, i32::MIN as i128 * e + i32::MAX as i128 * (u64::MAX as i128) + i32::MIN as i128 * d);
}

#[test]
fn default_parameters() {
    let p = PidParameters::default();
    assert_eq!(p.get_parameters(), (1, 0, 0));
    assert_eq!(p.max_integrator, u64::MAX);
}
