//! The plant: the acceleration law of a gear-motor-driven lift, and the
//! stepper that advances its state under a held control output.
use crate::pid::ElevatorPIDLoop;
use crate::units::US_PER_S;
use crate::util::{ceil_div, div_trunc, div_trunc_spec, lemma_below_ceil_div, lemma_ceil_div};
use vstd::prelude::*;

verus! {

/// Largest magnitude of an acceleration that a law may return, in picometres
/// per second squared.
pub const ACC_LIMIT: i128 = 1_000_000_000_000_000_000_000_000;

/// Largest magnitude of a simulated position, in picometres (500 km).
pub const POSITION_LIMIT: i64 = 500_000_000_000_000_000;

/// Largest magnitude of a simulated velocity, in picometres per second
/// (10 km/s).
pub const VEL_LIMIT: i64 = 10_000_000_000_000_000;

/// An acceleration law: the acceleration of the mechanism under an applied
/// voltage (picovolts) at a given velocity (picometres per second).
pub trait SimulationLaw {
    /// The acceleration, in picometres per second squared.
    spec fn acc_spec(volt: int, vel: int) -> int;

    fn acc(volt: i64, vel: i64) -> (r: i128)
        ensures
            r == Self::acc_spec(volt as int, vel as int),
            -ACC_LIMIT <= r <= ACC_LIMIT,
    ;
}

/// Gear ratio of the drive.
pub const GEAR: i128 = 20;

/// Motor torque constant, in newton-metres per ampere: `KT_NUM / KT_DEN`.
pub const KT_NUM: i128 = 24;

pub const KT_DEN: i128 = 133;

/// Motor velocity constant, in radians per second per volt: `KV_NUM / KV_DEN`.
pub const KV_NUM: i128 = 55_815_629_415;

pub const KV_DEN: i128 = 1_200_000_000;

/// Winding resistance, in ohms: `RES_NUM / RES_DEN`.
pub const RES_NUM: i128 = 12;

pub const RES_DEN: i128 = 133;

/// Moved mass, in kilograms.
pub const MASS: i128 = 5;

/// Drum radius, in metres: `RADIUS_NUM / RADIUS_DEN`.
pub const RADIUS_NUM: i128 = 1_524;

pub const RADIUS_DEN: i128 = 10_000;

/// The law `acc = G·Kt·(Kv·V·r − G·v) / (m·Kv·R·r²)` of the elevator reads
/// `acc = (ACC_VOLT·V − ACC_VEL·v) / ACC_DEN`, with these coefficients.
pub const ACC_VOLT: i128 = 28_354_339_742_820_000;

pub const ACC_VEL: i128 = 80_000_000_000_000_000;

pub const ACC_DEN: i128 = 540_150_172_100_721;

/// The reduced coefficients are the motor law's: `ACC_VOLT / ACC_DEN` is
/// `G·Kt·Kv·r / (m·Kv·R·r²)` and `ACC_VEL / ACC_DEN` is
/// `G·Kt·G / (m·Kv·R·r²)`, each side written over its denominators.
pub proof fn lemma_elevator_coefficients()
    ensures
        ACC_VOLT * (MASS * KV_NUM * RES_NUM * RADIUS_NUM * RADIUS_NUM) * (KT_DEN * KV_DEN
            * RADIUS_DEN) == ACC_DEN * (GEAR * KT_NUM * KV_NUM * RADIUS_NUM) * (KV_DEN * RES_DEN
            * RADIUS_DEN * RADIUS_DEN),
        ACC_VEL * (MASS * KV_NUM * RES_NUM * RADIUS_NUM * RADIUS_NUM) * KT_DEN == ACC_DEN * (GEAR
            * KT_NUM * GEAR) * (KV_DEN * RES_DEN * RADIUS_DEN * RADIUS_DEN),
{
    assert(ACC_VOLT * (MASS * KV_NUM * RES_NUM * RADIUS_NUM * RADIUS_NUM) * (KT_DEN * KV_DEN
        * RADIUS_DEN) == ACC_DEN * (GEAR * KT_NUM * KV_NUM * RADIUS_NUM) * (KV_DEN * RES_DEN
        * RADIUS_DEN * RADIUS_DEN)) by (nonlinear_arith)
        requires
            GEAR == 20,
            KT_NUM == 24,
            KT_DEN == 133,
            KV_NUM == 55_815_629_415,
            KV_DEN == 1_200_000_000,
            RES_NUM == 12,
            RES_DEN == 133,
            MASS == 5,
            RADIUS_NUM == 1_524,
            RADIUS_DEN == 10_000,
            ACC_VOLT == 28_354_339_742_820_000,
            ACC_DEN == 540_150_172_100_721,
    ;
    assert(ACC_VEL * (MASS * KV_NUM * RES_NUM * RADIUS_NUM * RADIUS_NUM) * KT_DEN == ACC_DEN * (
    GEAR * KT_NUM * GEAR) * (KV_DEN * RES_DEN * RADIUS_DEN * RADIUS_DEN)) by (nonlinear_arith)
        requires
            GEAR == 20,
            KT_NUM == 24,
            KT_DEN == 133,
            KV_NUM == 55_815_629_415,
            KV_DEN == 1_200_000_000,
            RES_NUM == 12,
            RES_DEN == 133,
            MASS == 5,
            RADIUS_NUM == 1_524,
            RADIUS_DEN == 10_000,
            ACC_VEL == 80_000_000_000_000_000,
            ACC_DEN == 540_150_172_100_721,
    ;
}

/// The elevator's acceleration, rounded toward zero.
pub open spec fn elevator_acc_spec(volt: int, vel: int) -> int {
    div_trunc_spec(ACC_VOLT * volt - ACC_VEL * vel, ACC_DEN as int)
}

impl ElevatorPIDLoop {
    /// Acceleration of the lift (picometres per second squared) under the
    /// voltage `volt` (picovolts) at the velocity `vel` (picometres per
    /// second).
    pub fn acc(volt: i64, vel: i64) -> (r: i128)
        ensures
            r == elevator_acc_spec(volt as int, vel as int),
            -ACC_LIMIT <= r <= ACC_LIMIT,
    {
        let a: i128 = ACC_VOLT * volt as i128;
        let b: i128 = ACC_VEL * vel as i128;
        assert(-ACC_VOLT * 0x8000_0000_0000_0000 <= a <= ACC_VOLT * 0x8000_0000_0000_0000)
            by (nonlinear_arith)
            requires
                a == ACC_VOLT * volt,
                ACC_VOLT > 0,
                -0x8000_0000_0000_0000 <= volt <= 0x8000_0000_0000_0000,
        ;
        assert(-ACC_VEL * 0x8000_0000_0000_0000 <= b <= ACC_VEL * 0x8000_0000_0000_0000)
            by (nonlinear_arith)
            requires
                b == ACC_VEL * vel,
                ACC_VEL > 0,
                -0x8000_0000_0000_0000 <= vel <= 0x8000_0000_0000_0000,
        ;
        let r = div_trunc(a - b, ACC_DEN);
        assert(-ACC_LIMIT <= r <= ACC_LIMIT) by {
            let n = a - b;
            if n >= 0 {
                assert(n / (ACC_DEN as int) <= ACC_LIMIT) by (nonlinear_arith)
                    requires
                        0 <= n <= 200_000_000_000_000_000 * 0x8000_0000_0000_0000,
                        ACC_DEN == 540_150_172_100_721,
                        ACC_LIMIT == 1_000_000_000_000_000_000_000_000,
                ;
            } else {
                assert((-n) / (ACC_DEN as int) <= ACC_LIMIT) by (nonlinear_arith)
                    requires
                        0 <= -n <= 200_000_000_000_000_000 * 0x8000_0000_0000_0000,
                        ACC_DEN == 540_150_172_100_721,
                        ACC_LIMIT == 1_000_000_000_000_000_000_000_000,
                ;
            }
        }
        r
    }
}

impl SimulationLaw for ElevatorPIDLoop {
    open spec fn acc_spec(volt: int, vel: int) -> int {
        elevator_acc_spec(volt, vel)
    }

    fn acc(volt: i64, vel: i64) -> (r: i128) {
        ElevatorPIDLoop::acc(volt, vel)
    }
}

/// Position (picometres) and velocity (picometres per second) of the
/// mechanism.
#[derive(Clone, Copy, Debug, PartialEq, Eq, Structural)]
pub struct ElevatorPhysicsState {
    pub pos: i64,
    pub vel: i64,
}

/// Whether a position and velocity lie in the range that the simulation
/// represents.
pub open spec fn in_range(pos: int, vel: int) -> bool {
    -POSITION_LIMIT <= pos <= POSITION_LIMIT && -VEL_LIMIT <= vel <= VEL_LIMIT
}

/// One explicit-Euler sub-step of length `dt` microseconds under the held
/// voltage `volt`: the velocity takes the acceleration first, then the
/// position takes the new velocity. `None` when the result leaves the
/// represented range.
pub open spec fn substep_spec<L: SimulationLaw>(pos: int, vel: int, volt: int, dt: int) -> Option<
    (int, int),
> {
    let v = vel + div_trunc_spec(L::acc_spec(volt, vel) * dt, US_PER_S as int);
    let p = pos + div_trunc_spec(v * dt, US_PER_S as int);
    if in_range(p, v) {
        Some((p, v))
    } else {
        None
    }
}

/// The state after `n` sub-steps, or `None` when one of them leaves the
/// represented range.
pub open spec fn substeps_spec<L: SimulationLaw>(
    pos: int,
    vel: int,
    volt: int,
    dt: int,
    n: nat,
) -> Option<(int, int)>
    decreases n,
{
    if n == 0 {
        Some((pos, vel))
    } else {
        match substeps_spec::<L>(pos, vel, volt, dt, (n - 1) as nat) {
            Some((p, v)) => substep_spec::<L>(p, v, volt, dt),
            None => None,
        }
    }
}

/// `advance` as a function of the state, the held voltage, the duration and
/// the sub-step: `⌈dur/dt⌉` sub-steps.
pub open spec fn advance_spec<L: SimulationLaw>(
    s: ElevatorPhysicsState,
    volt: int,
    dur: int,
    dt: int,
) -> Option<ElevatorPhysicsState> {
    match substeps_spec::<L>(s.pos as int, s.vel as int, volt, dt, ceil_div(dur, dt) as nat) {
        Some((p, v)) => Some(ElevatorPhysicsState { pos: p as i64, vel: v as i64 }),
        None => None,
    }
}

/// Largest sub-step, in microseconds (one second).
pub const MAX_SUBSTEP: u64 = 1_000_000;

fn substep<L: SimulationLaw>(pos: i64, vel: i64, volt: i64, dt: u64) -> (r: Option<
    (i64, i64),
>)
    requires
        in_range(pos as int, vel as int),
        0 < dt <= MAX_SUBSTEP,
    ensures
        match r {
            Some((p, v)) => substep_spec::<L>(pos as int, vel as int, volt as int, dt as int)
                == Some((p as int, v as int)),
            None => substep_spec::<L>(pos as int, vel as int, volt as int, dt as int) is None,
        },
{
    let a = L::acc(volt, vel);
    assert(-ACC_LIMIT * MAX_SUBSTEP <= a * dt <= ACC_LIMIT * MAX_SUBSTEP) by (nonlinear_arith)
        requires
            -ACC_LIMIT <= a <= ACC_LIMIT,
            0 < dt <= MAX_SUBSTEP,
            ACC_LIMIT > 0,
    ;
    let dv = div_trunc(a * dt as i128, US_PER_S as i128);
    assert(-ACC_LIMIT * MAX_SUBSTEP <= dv <= ACC_LIMIT * MAX_SUBSTEP);
    let v: i128 = vel as i128 + dv;
    if v < -(VEL_LIMIT as i128) || v > VEL_LIMIT as i128 {
        return None;
    }
    assert(-VEL_LIMIT * MAX_SUBSTEP <= v * dt <= VEL_LIMIT * MAX_SUBSTEP) by (nonlinear_arith)
        requires
            -VEL_LIMIT <= v <= VEL_LIMIT,
            0 < dt <= MAX_SUBSTEP,
            VEL_LIMIT > 0,
    ;
    let dp = div_trunc(v * dt as i128, US_PER_S as i128);
    assert(-VEL_LIMIT * MAX_SUBSTEP <= dp <= VEL_LIMIT * MAX_SUBSTEP);
    let p: i128 = pos as i128 + dp;
    if p < -(POSITION_LIMIT as i128) || p > POSITION_LIMIT as i128 {
        return None;
    }
    Some((p as i64, v as i64))
}

/// Advances `s` by `dur` microseconds with the output `volt` held constant,
/// in explicit-Euler sub-steps of `dt` microseconds under the law `L`, until
/// the sub-steps cover `dur`. `None` when the state leaves the represented
/// range on the way.
pub fn advance<L: SimulationLaw>(s: ElevatorPhysicsState, volt: i64, dur: u64, dt: u64) -> (r:
    Option<ElevatorPhysicsState>)
    requires
        in_range(s.pos as int, s.vel as int),
        0 < dt <= MAX_SUBSTEP,
        dur <= u64::MAX - dt,
    ensures
        r == advance_spec::<L>(s, volt as int, dur as int, dt as int),
        r matches Some(n) ==> in_range(n.pos as int, n.vel as int),
{
    let mut elapsed: u64 = 0;
    let mut pos = s.pos;
    let mut vel = s.vel;
    let ghost mut n: nat = 0;
    while elapsed < dur
        invariant
            0 < dt <= MAX_SUBSTEP,
            dur <= u64::MAX - dt,
            elapsed == n * dt,
            n == 0 || (n - 1) * dt < dur,
            elapsed < dur + dt,
            in_range(pos as int, vel as int),
            substeps_spec::<L>(s.pos as int, s.vel as int, volt as int, dt as int, n) == Some(
                (pos as int, vel as int),
            ),
        decreases dur + dt - elapsed,
    {
        match substep::<L>(pos, vel, volt, dt) {
            Some((p, v)) => {
                pos = p;
                vel = v;
            },
            None => {
                proof {
                    lemma_below_ceil_div(n as int, dur as int, dt as int);
                    lemma_substeps_stay_none::<L>(
                        s.pos as int,
                        s.vel as int,
                        volt as int,
                        dt as int,
                        n + 1,
                        ceil_div(dur as int, dt as int) as nat,
                    );
                }
                return None;
            },
        }
        proof {
            assert((n + 1) * dt == n * dt + dt) by (nonlinear_arith);
            n = n + 1;
        }
        elapsed = elapsed + dt;
    }
    proof {
        lemma_ceil_div(n as int, dur as int, dt as int);
    }
    Some(ElevatorPhysicsState { pos, vel })
}

/// Once a run of sub-steps has left the represented range, longer runs have
/// too.
pub proof fn lemma_substeps_stay_none<L: SimulationLaw>(
    pos: int,
    vel: int,
    volt: int,
    dt: int,
    n: nat,
    m: nat,
)
    requires
        n <= m,
        substeps_spec::<L>(pos, vel, volt, dt, n) is None,
    ensures
        substeps_spec::<L>(pos, vel, volt, dt, m) is None,
    decreases m - n,
{
    if n < m {
        lemma_substeps_stay_none::<L>(pos, vel, volt, dt, n, (m - 1) as nat);
    }
}

/// With no voltage applied and the lift at rest, the elevator's acceleration
/// is zero, and any number of sub-steps leaves its state as it was.
pub proof fn lemma_rest_stays_at_rest(pos: int, dt: int, n: nat)
    requires
        in_range(pos, 0),
    ensures
        elevator_acc_spec(0, 0) == 0,
        substeps_spec::<ElevatorPIDLoop>(pos, 0, 0, dt, n) == Some((pos, 0int)),
    decreases n,
{
    assert(elevator_acc_spec(0, 0) == 0) by {
        assert(ACC_VOLT * 0 - ACC_VEL * 0 == 0);
        assert(0int / (ACC_DEN as int) == 0);
    }
    assert(<ElevatorPIDLoop as SimulationLaw>::acc_spec(0, 0) == 0);
    assert(div_trunc_spec(0 * dt, US_PER_S as int) == 0) by {
        assert(0 * dt == 0);
        assert(0int / (US_PER_S as int) == 0);
    }
    if n > 0 {
        lemma_rest_stays_at_rest(pos, dt, (n - 1) as nat);
    }
}

/// `advance` on the elevator's law with no voltage applied returns a state at
/// rest unchanged, whatever the duration, so repeated calls keep it.
pub proof fn lemma_advance_at_rest(s: ElevatorPhysicsState, dur: int, dt: int)
    requires
        s.vel == 0,
        in_range(s.pos as int, 0),
    ensures
        advance_spec::<ElevatorPIDLoop>(s, 0, dur, dt) == Some(s),
{
    lemma_rest_stays_at_rest(s.pos as int, dt, ceil_div(dur, dt) as nat);
}

} // verus!
