use control_sim::elevator::{ElevatorLog, ElevatorShim};
use control_sim::harness::{SimulationHarness, Violation};
use control_sim::pid::{ElevatorPIDLoop, LoopState, MAX_HEIGHT, MIN_HEIGHT};
use control_sim::plant::ElevatorPhysicsState;

use control_sim::units::PM_PER_M;

const US_PER_S: u64 = control_sim::units::US_PER_S as u64;

#[test]
fn with_harness() {
    let mut harness = SimulationHarness::new(
        ElevatorShim::new(PM_PER_M, ElevatorPIDLoop::new()),
        ElevatorPhysicsState { pos: PM_PER_M / 10, vel: 0 },
        20,
    );
    harness.shim_mut().controller_mut().set_goal(PM_PER_M);
    let r = harness.run_time(30 * US_PER_S);
    assert!(r.is_ok(), "{:?}", r);
    assert_eq!(harness.time(), 30 * US_PER_S);
    // 6000 control steps, one record every 20
    assert_eq!(harness.log().len(), 300);
    assert_eq!(harness.shim().controller().state(), LoopState::Running);
    let last: ElevatorLog = harness.log()[299];
    assert_eq!(last.time, 30 * US_PER_S);
    assert_eq!(last.sp, PM_PER_M);
    // the lift has settled near the set point above its home position
    let s = r.unwrap();
    assert!((s.pos - PM_PER_M).abs() < PM_PER_M / 100, "{:?}", s);
}

#[test]
fn run_time_counts_steps_and_records() {
    let mut harness = SimulationHarness::new(
        ElevatorShim::new(0, ElevatorPIDLoop::new()),
        ElevatorPhysicsState { pos: 0, vel: 0 },
        2,
    );
    // 12 ms at 5 ms per step: three steps, the last one overshooting
    let r = harness.run_time(12_000);
    assert!(r.is_ok());
    assert_eq!(harness.time(), 15_000);
    assert_eq!(harness.log().len(), 1);
    assert_eq!(harness.log()[0].time, 10_000);
    // a second run starts its own count of steps
    let r = harness.run_time(10_000);
    assert!(r.is_ok());
    assert_eq!(harness.time(), 25_000);
    assert_eq!(harness.log().len(), 2);
    assert_eq!(harness.log()[1].time, 25_000);
}

#[test]
fn run_time_exact_multiple_and_zero() {
    let mut harness = SimulationHarness::new(
        ElevatorShim::new(0, ElevatorPIDLoop::new()),
        ElevatorPhysicsState { pos: 0, vel: 0 },
        1,
    );
    assert!(harness.run_time(0).is_ok());
    assert_eq!(harness.time(), 0);
    assert_eq!(harness.log().len(), 0);
    assert!(harness.run_time(20_000).is_ok());
    assert_eq!(harness.time(), 20_000);
    assert_eq!(harness.log().len(), 4);
}

#[test]
fn run_time_log_every_zero_logs_each_step() {
    let mut harness = SimulationHarness::new(
        ElevatorShim::new(0, ElevatorPIDLoop::new()),
        ElevatorPhysicsState { pos: 0, vel: 0 },
        0,
    );
    assert!(harness.run_time(15_000).is_ok());
    assert_eq!(harness.log().len(), 3);
}

#[test]
fn run_time_reports_position_above_max() {
    let start = MAX_HEIGHT + PM_PER_M;
    let mut harness = SimulationHarness::new(
        ElevatorShim::new(0, ElevatorPIDLoop::new()),
        ElevatorPhysicsState { pos: start, vel: 0 },
        1,
    );
    match harness.run_time(1_000_000) {
        Err(Violation::AboveMax { value, bound }) => {
            assert_eq!(bound, MAX_HEIGHT);
            assert!(value > MAX_HEIGHT);
        }
        other => panic!("unexpected {:?}", other),
    }
    // the run stopped in the first step, before its time was counted
    assert_eq!(harness.time(), 0);
    assert!(harness.state().pos > MAX_HEIGHT);
    assert_eq!(harness.log().len(), 0);
}

#[test]
fn run_time_reports_position_below_min() {
    let mut harness = SimulationHarness::new(
        ElevatorShim::new(0, ElevatorPIDLoop::new()),
        ElevatorPhysicsState { pos: MIN_HEIGHT - PM_PER_M / 10, vel: 0 },
        1,
    );
    match harness.run_time(1_000_000) {
        Err(Violation::BelowMin { value, bound }) => {
            assert_eq!(bound, MIN_HEIGHT);
            assert!(value < MIN_HEIGHT);
        }
        other => panic!("unexpected {:?}", other),
    }
}

#[test]
fn run_time_reports_state_out_of_range() {
    let mut harness = SimulationHarness::new(
        ElevatorShim::new(0, ElevatorPIDLoop::new()),
        ElevatorPhysicsState {
            pos: control_sim::plant::POSITION_LIMIT - 1,
            vel: 1_000_000_000_000_000,
        },
        1,
    );
    assert_eq!(harness.run_time(5_000), Err(Violation::OutOfRange));
    assert_eq!(harness.time(), 0);
}

#[test]
fn harness_at_rest_with_zero_set_point_stays_put() {
    let mut harness = SimulationHarness::new(
        ElevatorShim::new(0, ElevatorPIDLoop::new()),
        ElevatorPhysicsState { pos: 0, vel: 0 },
        1,
    );
    // at home the limit switch is closed and the goal is the home position
    let r = harness.run_time(50_000);
    assert_eq!(r, Ok(ElevatorPhysicsState { pos: 0, vel: 0 }));
    for rec in harness.log() {
        assert_eq!(rec.volts, 0);
    }
}

#[test]
fn rest_run_of_one_second_keeps_ten_records() {
    let mut harness = SimulationHarness::new(
        ElevatorShim::new(0, ElevatorPIDLoop::new()),
        ElevatorPhysicsState { pos: 0, vel: 0 },
        20,
    );
    let r = harness.run_time(US_PER_S);
    assert_eq!(r, Ok(ElevatorPhysicsState { pos: 0, vel: 0 }));
    assert_eq!(harness.log().len(), 10);
    assert!(harness.log().iter().all(|rec| rec.volts == 0 && rec.pos == 0));
    assert_eq!(harness.shim().controller().state(), LoopState::Running);
}

#[test]
fn split_run_matches_single_run() {
    let make = || {
        let mut h = SimulationHarness::new(
            ElevatorShim::new(PM_PER_M, ElevatorPIDLoop::new()),
            ElevatorPhysicsState { pos: PM_PER_M / 10, vel: 0 },
            4,
        );
        h.shim_mut().controller_mut().set_goal(PM_PER_M / 2);
        h
    };
    let mut one = make();
    let mut two = make();
    // 40 steps then 23 steps, against 63 steps in one run
    let a = two.run_time(200_000);
    assert!(a.is_ok());
    let b = two.run_time(113_000);
    let c = one.run_time(313_000);
    assert_eq!(b, c);
    assert_eq!(one.time(), two.time());
    assert_eq!(one.log().len(), two.log().len());
    for (x, y) in one.log().iter().zip(two.log().iter()) {
        assert_eq!(x, y);
    }
}
