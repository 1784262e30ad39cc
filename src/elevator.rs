//! The elevator as a simulated system: its physics under the harness, and the
//! shim that feeds its controller an offset encoder and a limit switch.
use crate::harness::{step_failed, step_ok, trace_ok, HarnessAble, SimulationHarness, StateShim, Violation};
use crate::pid::{iterate_spec, ElevatorPIDLoop, LoopState, PidView, MAX_HEIGHT, MIN_HEIGHT};
use crate::plant::{advance, advance_spec, in_range, lemma_advance_at_rest, ElevatorPhysicsState};
use vstd::prelude::*;

verus! {

/// One logged sample: time (microseconds), position (picometres), velocity
/// (picometres per second), controller output (picovolts) and set point
/// (picometres).
#[derive(Clone, Copy, Debug, PartialEq, Eq, Structural)]
pub struct ElevatorLog {
    pub time: u64,
    pub pos: i64,
    pub vel: i64,
    pub volts: i64,
    pub sp: i64,
}

/// Physics sub-step of the elevator, in microseconds (1/1000 of a control
/// interval).
pub const ELEVATOR_SIMUL_DT: u64 = 5;

/// Control interval of the elevator, in microseconds (1/200 s): the
/// controller's period `DT`.
pub const ELEVATOR_CONTROL_DT: u64 = 5_000;

impl HarnessAble for ElevatorPIDLoop {
    type State = ElevatorPhysicsState;

    type ControlResponse = i64;

    type LogData = ElevatorLog;

    open spec fn spec_control_dt() -> u64 {
        ELEVATOR_CONTROL_DT
    }

    fn control_dt() -> (r: u64) {
        ELEVATOR_CONTROL_DT
    }

    open spec fn sim_spec(s: ElevatorPhysicsState, r: i64, dur: u64) -> Option<ElevatorPhysicsState> {
        advance_spec::<ElevatorPIDLoop>(s, r as int, dur as int, ELEVATOR_SIMUL_DT as int)
    }

    open spec fn state_ok(s: ElevatorPhysicsState) -> bool {
        in_range(s.pos as int, s.vel as int)
    }

    fn sim_time(s: ElevatorPhysicsState, r: i64, dur: u64) -> (res: Option<ElevatorPhysicsState>)
        ensures
            res == advance_spec::<ElevatorPIDLoop>(
                s,
                r as int,
                dur as int,
                ELEVATOR_SIMUL_DT as int,
            ),
    {
        ElevatorPIDLoop::simulate(s, r, dur)
    }
}

impl ElevatorPIDLoop {
    /// The elevator's state after `dur` microseconds under the held voltage
    /// `r` (picovolts), in sub-steps of `ELEVATOR_SIMUL_DT`; `None` when it
    /// leaves the represented range.
    pub fn simulate(s: ElevatorPhysicsState, r: i64, dur: u64) -> (res: Option<
        ElevatorPhysicsState,
    >)
        requires
            in_range(s.pos as int, s.vel as int),
            dur <= u64::MAX - ELEVATOR_SIMUL_DT,
        ensures
            res == advance_spec::<ElevatorPIDLoop>(
                s,
                r as int,
                dur as int,
                ELEVATOR_SIMUL_DT as int,
            ),
            res matches Some(n) ==> in_range(n.pos as int, n.vel as int),
    {
        advance::<ElevatorPIDLoop>(s, r, dur, ELEVATOR_SIMUL_DT)
    }
}

/// Largest magnitude of the encoder offset, in picometres (500 km).
pub const OFFSET_LIMIT: i64 = 500_000_000_000_000_000;

/// Feeds the elevator's controller: the encoder reads the position plus a
/// fixed offset, and the limit switch is closed at or below position zero.
#[derive(Clone, Copy, Debug)]
pub struct ElevatorShim {
    enc_off: i64,
    control: ElevatorPIDLoop,
}

/// The encoder reading for the position `pos` under the offset `off`.
pub open spec fn reading_spec(pos: int, off: int) -> int {
    pos + off
}

impl ElevatorShim {
    /// The encoder offset.
    pub closed spec fn spec_offset(&self) -> int {
        self.enc_off as int
    }

    /// The controller.
    pub closed spec fn spec_control(&self) -> ElevatorPIDLoop {
        self.control
    }

    /// A shim whose encoder reads `offset` picometres above the position.
    pub fn new(offset: i64, control: ElevatorPIDLoop) -> (r: Self)
        requires
            -OFFSET_LIMIT <= offset <= OFFSET_LIMIT,
        ensures
            r.spec_offset() == offset,
            r.spec_control() == control,
            r.shim_ok(),
    {
        ElevatorShim { enc_off: offset, control }
    }

    /// The controller.
    pub fn controller(&self) -> (r: &ElevatorPIDLoop)
        ensures
            *r == self.spec_control(),
    {
        &self.control
    }

    /// The controller, to change it.
    pub fn controller_mut(&mut self) -> (r: &mut ElevatorPIDLoop)
        ensures
            *r == old(self).spec_control(),
            final(self).spec_control() == *final(r),
            final(self).spec_offset() == old(self).spec_offset(),
    {
        &mut self.control
    }
}

impl StateShim<ElevatorPIDLoop> for ElevatorShim {
    open spec fn shim_ok(&self) -> bool {
        -OFFSET_LIMIT <= self.spec_offset() <= OFFSET_LIMIT
    }

    /// The offset is kept and the controller takes one `iterate` step on the
    /// encoder reading, with the limit switch closed at or below zero.
    open spec fn update_rel(&self, state: ElevatorPhysicsState, next: Self, r: i64) -> bool {
        &&& next.spec_offset() == self.spec_offset()
        &&& (next.spec_control()@, r as int) == iterate_spec(
            self.spec_control()@,
            reading_spec(state.pos as int, self.spec_offset()),
            state.pos <= 0,
        )
    }

    open spec fn log_spec(&self, s: ElevatorPhysicsState, r: i64, t: u64) -> ElevatorLog {
        ElevatorLog { time: t, pos: s.pos, vel: s.vel, volts: r, sp: self.spec_control()@.sp as i64 }
    }

    /// The position lies within the travel range.
    open spec fn check_spec(&self, state: ElevatorPhysicsState) -> Result<(), Violation> {
        if state.pos > MAX_HEIGHT {
            Err(Violation::AboveMax { value: state.pos, bound: MAX_HEIGHT })
        } else if state.pos < MIN_HEIGHT {
            Err(Violation::BelowMin { value: state.pos, bound: MIN_HEIGHT })
        } else {
            Ok(())
        }
    }

    fn update(&mut self, state: ElevatorPhysicsState) -> (r: i64)
        ensures
            final(self).spec_offset() == old(self).spec_offset(),
            (final(self).spec_control()@, r as int) == iterate_spec(
                old(self).spec_control()@,
                reading_spec(state.pos as int, old(self).spec_offset()),
                state.pos <= 0,
            ),
    {
        self.control.iterate(state.pos + self.enc_off, state.pos <= 0)
    }

    fn log_dat(&mut self, s: ElevatorPhysicsState, r: i64, t: u64) -> (l: ElevatorLog)
        ensures
            *final(self) == *old(self),
            l == (ElevatorLog {
                time: t,
                pos: s.pos,
                vel: s.vel,
                volts: r,
                sp: old(self).spec_control()@.sp as i64,
            }),
    {
        ElevatorLog { time: t, pos: s.pos, vel: s.vel, volts: r, sp: self.control.get_goal() }
    }

    fn assert_invariants(&mut self, state: ElevatorPhysicsState) -> (r: Result<(), Violation>)
        ensures
            *final(self) == *old(self),
            r == if state.pos > MAX_HEIGHT {
                Err(Violation::AboveMax { value: state.pos, bound: MAX_HEIGHT })
            } else if state.pos < MIN_HEIGHT {
                Err(Violation::BelowMin { value: state.pos, bound: MIN_HEIGHT })
            } else {
                Ok(())
            },
    {
        if state.pos > MAX_HEIGHT {
            Err(Violation::AboveMax { value: state.pos, bound: MAX_HEIGHT })
        } else if state.pos < MIN_HEIGHT {
            Err(Violation::BelowMin { value: state.pos, bound: MIN_HEIGHT })
        } else {
            Ok(())
        }
    }
}

/// The lift at position zero, not moving.
pub open spec fn rest_state() -> ElevatorPhysicsState {
    ElevatorPhysicsState { pos: 0, vel: 0 }
}

/// A controller that holds the home position: set point zero, no stored
/// error, and, once running, zero as its zero offset.
pub open spec fn holds_home(m: PidView) -> bool {
    &&& m.sp == 0
    &&& m.last_err == 0
    &&& m.state == LoopState::Running ==> m.zero_offset == 0
}

/// At rest with a home-holding controller and no encoder offset, a control
/// step outputs zero, keeps the controller holding home, and the lift stays
/// at rest and passes the safety check.
pub proof fn lemma_rest_step(shim: ElevatorShim, next: ElevatorShim, r: i64)
    requires
        shim.spec_offset() == 0,
        holds_home(shim.spec_control()@),
        shim.update_rel(rest_state(), next, r),
    ensures
        r == 0,
        next.spec_offset() == 0,
        holds_home(next.spec_control()@),
        <ElevatorPIDLoop as HarnessAble>::sim_spec(rest_state(), r, ELEVATOR_CONTROL_DT) == Some(
            rest_state(),
        ),
        next.check_spec(rest_state()) == Ok::<(), Violation>(()),
{
    lemma_advance_at_rest(rest_state(), ELEVATOR_CONTROL_DT as int, ELEVATOR_SIMUL_DT as int);
}

/// Every state of a run of passed steps that starts at rest with a
/// home-holding controller and no encoder offset is at rest.
pub proof fn lemma_rest_trace(
    shims: Seq<ElevatorShim>,
    states: Seq<ElevatorPhysicsState>,
    resps: Seq<i64>,
    i: int,
)
    requires
        trace_ok::<ElevatorPIDLoop, ElevatorShim>(shims, states, resps, ELEVATOR_CONTROL_DT),
        states[0] == rest_state(),
        shims[0].spec_offset() == 0,
        holds_home(shims[0].spec_control()@),
        0 <= i <= resps.len(),
    ensures
        states[i] == rest_state(),
        shims[i].spec_offset() == 0,
        holds_home(shims[i].spec_control()@),
    decreases i,
{
    if i > 0 {
        let j = i - 1;
        lemma_rest_trace(shims, states, resps, j);
        assert(step_ok::<ElevatorPIDLoop, ElevatorShim>(
            shims[j],
            states[j],
            shims[j + 1],
            resps[j],
            states[j + 1],
            ELEVATOR_CONTROL_DT,
        ));
        lemma_rest_step(shims[j], shims[j + 1], resps[j]);
    }
}

/// A run of the elevator that starts at rest, with no encoder offset and a
/// controller that holds home (a new one with set point zero does), passes
/// every step and ends at rest.
pub proof fn lemma_rest_run_stays_at_rest(
    h: SimulationHarness<ElevatorPIDLoop, ElevatorShim>,
    next: SimulationHarness<ElevatorPIDLoop, ElevatorShim>,
    time: u64,
    r: Result<ElevatorPhysicsState, Violation>,
    shims: Seq<ElevatorShim>,
    states: Seq<ElevatorPhysicsState>,
    resps: Seq<i64>,
)
    requires
        h.run_outcome(next, time, r, shims, states, resps),
        h.spec_state() == rest_state(),
        h.spec_shim().spec_offset() == 0,
        holds_home(h.spec_shim().spec_control()@),
    ensures
        r == Ok::<ElevatorPhysicsState, Violation>(rest_state()),
        next.spec_state() == rest_state(),
{
    let k = resps.len() as int;
    lemma_rest_trace(shims, states, resps, k);
    if let Err(e) = r {
        let fr = choose|fr: i64|
            #[trigger] step_failed::<ElevatorPIDLoop, ElevatorShim>(
                shims[k],
                states[k],
                next.spec_shim(),
                fr,
                next.spec_state(),
                ELEVATOR_CONTROL_DT,
                e,
            );
        lemma_rest_step(shims[k], next.spec_shim(), fr);
    }
}

} // verus!
