use control_sim::elevator::ELEVATOR_CONTROL_DT;
use control_sim::pid::ElevatorPIDLoop;
use control_sim::plant::{advance, ElevatorPhysicsState, SimulationLaw, POSITION_LIMIT};

#[test]
fn acc_at_rest_without_voltage_is_zero() {
    assert_eq!(ElevatorPIDLoop::acc(0, 0), 0);
}

#[test]
fn acc_matches_motor_law() {
    // 12 V at rest: 8·V/r = 629.92… m/s²
    assert_eq!(ElevatorPIDLoop::acc(12_000_000_000_000, 0), 629_921_259_842_519);
    // 1 m/s with no voltage: −148.10… m/s²
    assert_eq!(ElevatorPIDLoop::acc(0, 1_000_000_000_000), -148_106_960_123_457);
    assert_eq!(
        ElevatorPIDLoop::acc(12_000_000_000_000, 1_000_000_000_000),
        481_814_299_719_062
    );
    assert_eq!(ElevatorPIDLoop::acc(-12_000_000_000_000, 0), -629_921_259_842_519);
    assert_eq!(<ElevatorPIDLoop as SimulationLaw>::acc(0, 0), 0);
}

#[test]
fn rest_stays_at_rest() {
    let s = ElevatorPhysicsState { pos: 123_456_789, vel: 0 };
    let mut cur = s;
    for _ in 0..5 {
        cur = ElevatorPIDLoop::simulate(cur, 0, ELEVATOR_CONTROL_DT).unwrap();
    }
    assert_eq!(cur, s);
}

#[test]
fn one_substep_by_hand() {
    // 12 V from rest, one 5 µs sub-step
    let s = ElevatorPhysicsState { pos: 0, vel: 0 };
    let n = advance::<ElevatorPIDLoop>(s, 12_000_000_000_000, 5, 5).unwrap();
    // dv = 629_921_259_842_519 · 5 / 10^6, dx = dv · 5 / 10^6
    assert_eq!(n.vel, 3_149_606_299);
    assert_eq!(n.pos, 15_748);
}

#[test]
fn substeps_cover_the_duration() {
    let s = ElevatorPhysicsState { pos: 0, vel: 0 };
    let two = advance::<ElevatorPIDLoop>(s, 12_000_000_000_000, 10, 5).unwrap();
    // 6 µs needs two sub-steps of 5 µs, the same as 10 µs
    let six = advance::<ElevatorPIDLoop>(s, 12_000_000_000_000, 6, 5).unwrap();
    assert_eq!(two, six);
    let zero = advance::<ElevatorPIDLoop>(s, 12_000_000_000_000, 0, 5).unwrap();
    assert_eq!(zero, s);
}

#[test]
fn powered_lift_rises_toward_terminal_speed() {
    let mut s = ElevatorPhysicsState { pos: 0, vel: 0 };
    for _ in 0..200 {
        s = ElevatorPIDLoop::simulate(s, 12_000_000_000_000, ELEVATOR_CONTROL_DT).unwrap();
    }
    // terminal speed 12 V · 52.49 / 148.11 ≈ 4.253 m/s
    assert!((s.vel - 4_253_000_000_000).abs() < 5_000_000_000, "{:?}", s);
    assert!(s.pos > 0);
}

#[test]
fn leaving_the_range_gives_none() {
    let s = ElevatorPhysicsState { pos: POSITION_LIMIT - 10, vel: 1_000_000_000_000 };
    assert_eq!(advance::<ElevatorPIDLoop>(s, 0, 5, 5), None);
}
