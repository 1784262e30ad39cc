use control_sim::pid::{ElevatorPIDLoop, LoopState, MAX_HEIGHT, V_MAX, ZERO_STEP};
use control_sim::util::clamp;

#[test]
fn clamp_inside_below_above() {
    assert_eq!(clamp(5, 0, 10), 5);
    assert_eq!(clamp(-3, 0, 10), 0);
    assert_eq!(clamp(12, 0, 10), 10);
    assert_eq!(clamp(0, 0, 10), 0);
    assert_eq!(clamp(10, 0, 10), 10);
    assert_eq!(clamp(i64::MIN, -1, 1), -1);
    assert_eq!(clamp(i64::MAX, -1, 1), 1);
}

#[test]
fn new_controller_is_uninitialized() {
    let c = ElevatorPIDLoop::new();
    assert_eq!(c.state(), LoopState::Uninitialized);
    assert_eq!(c.get_goal(), 0);
}

#[test]
fn set_goal_then_get_goal() {
    let mut c = ElevatorPIDLoop::new();
    c.set_goal(1_234_567);
    assert_eq!(c.get_goal(), 1_234_567);
    c.set_goal(-7);
    assert_eq!(c.get_goal(), -7);
}

#[test]
fn first_iterate_starts_homing_from_the_reading() {
    let mut c = ElevatorPIDLoop::new();
    let enc = 500_000_000_000;
    let v = c.iterate(enc, false);
    assert_eq!(c.state(), LoopState::Zeroing);
    // error = -ZERO_STEP; output = 20·err + 1000·(err − 0)
    assert_eq!(v, 20 * -ZERO_STEP + 1_000 * -ZERO_STEP);
    assert_eq!(v, -204_000_000_000);
}

#[test]
fn homing_target_creeps_by_one_step_per_call() {
    let mut c = ElevatorPIDLoop::new();
    let enc = 500_000_000_000;
    // the reading stays put: the error grows by one step per call
    let v1 = c.iterate(enc, false);
    let v2 = c.iterate(enc, false);
    let v3 = c.iterate(enc, false);
    assert_eq!(c.state(), LoopState::Zeroing);
    assert_eq!(v1, 20 * -ZERO_STEP + 1_000 * -ZERO_STEP);
    assert_eq!(v2, 20 * (-2 * ZERO_STEP) + 1_000 * -ZERO_STEP);
    assert_eq!(v3, 20 * (-3 * ZERO_STEP) + 1_000 * -ZERO_STEP);
}

#[test]
fn limit_switch_enters_running_without_kick() {
    let mut c = ElevatorPIDLoop::new();
    c.iterate(300_000_000_000, false);
    c.iterate(299_000_000_000, false);
    // set point zero: the home position just read
    let v = c.iterate(298_000_000_000, true);
    assert_eq!(c.state(), LoopState::Running);
    assert_eq!(v, 0);
    // at the set point with no stored error the output stays zero
    assert_eq!(c.iterate(298_000_000_000, false), 0);
}

#[test]
fn entering_running_uses_zero_previous_error() {
    let mut c = ElevatorPIDLoop::new();
    c.set_goal(1_000_000);
    c.iterate(5_000_000, false);
    let v = c.iterate(5_000_000, true);
    assert_eq!(c.state(), LoopState::Running);
    // err = 1_000_000 − 0; the derivative compares against zero
    assert_eq!(v, 20 * 1_000_000 + 1_000 * 1_000_000);
    // next call with the reading unchanged: derivative term vanishes
    assert_eq!(c.iterate(5_000_000, false), 20 * 1_000_000);
}

#[test]
fn first_call_with_switch_closed_goes_straight_to_running() {
    let mut c = ElevatorPIDLoop::new();
    c.set_goal(2_000);
    let v = c.iterate(-10, true);
    assert_eq!(c.state(), LoopState::Running);
    assert_eq!(v, 20 * 2_000 + 1_000 * 2_000);
}

#[test]
fn running_never_goes_back() {
    let mut c = ElevatorPIDLoop::new();
    c.iterate(0, true);
    assert_eq!(c.state(), LoopState::Running);
    c.iterate(100, false);
    c.iterate(-100, true);
    assert_eq!(c.state(), LoopState::Running);
}

#[test]
fn output_is_clamped_to_the_voltage_range() {
    let mut c = ElevatorPIDLoop::new();
    c.set_goal(MAX_HEIGHT);
    assert_eq!(c.iterate(0, true), V_MAX);
    let mut d = ElevatorPIDLoop::new();
    d.iterate(0, true);
    // far above the goal
    assert_eq!(d.iterate(1_000_000_000_000_000, false), -V_MAX);
    assert_eq!(d.iterate(-1_000_000_000_000_000, false), V_MAX);
}

#[test]
fn set_point_is_limited_to_travel() {
    let mut c = ElevatorPIDLoop::new();
    c.set_goal(i64::MAX);
    c.iterate(0, true);
    // reading at the top of travel: error zero, derivative −1000·MAX_HEIGHT
    let v = c.iterate(MAX_HEIGHT, false);
    assert_eq!(v, -V_MAX);
    let w = c.iterate(MAX_HEIGHT, false);
    assert_eq!(w, 0);
}

#[test]
fn extreme_readings_are_accepted() {
    let mut c = ElevatorPIDLoop::new();
    assert_eq!(c.iterate(i64::MIN, true), 0);
    assert_eq!(c.iterate(i64::MAX, false), -V_MAX);
    assert_eq!(c.iterate(i64::MIN, false), V_MAX);
    let mut d = ElevatorPIDLoop::new();
    // homing from the lowest reading creeps below the i64 range
    d.iterate(i64::MIN, false);
    assert_eq!(d.iterate(i64::MIN, false), 20 * -2 * ZERO_STEP + 1_000 * -ZERO_STEP);
    assert_eq!(d.state(), LoopState::Zeroing);
}
