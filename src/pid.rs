//! The elevator's position controller: a PD loop that first homes itself by
//! creeping down until the limit switch closes, then holds a set point.
use crate::units::US_PER_S;
use crate::util::{clamp, clamp_spec};
use vstd::prelude::*;

verus! {

/// Phases of the controller. A controller only moves forward through them.
#[derive(Clone, Copy, Debug, PartialEq, Eq, Structural)]
pub enum LoopState {
    Uninitialized,
    Zeroing,
    Running,
}

/// Position of a phase in the order `Uninitialized → Zeroing → Running`.
pub open spec fn state_rank(s: LoopState) -> int {
    match s {
        LoopState::Uninitialized => 0,
        LoopState::Zeroing => 1,
        LoopState::Running => 2,
    }
}

/// Speed of the homing creep, in picometres per second (0.04 m/s).
pub const ZEROING_SPEED: i64 = 40_000_000_000;

/// Highest set point the controller will track, in picometres (2.5 m).
pub const MAX_HEIGHT: i64 = 2_500_000_000_000;

/// Lowest set point the controller will track, in picometres (-0.02 m).
pub const MIN_HEIGHT: i64 = -20_000_000_000;

/// Control period, in microseconds (1/200 s).
pub const DT: i64 = 5_000;

/// Proportional gain, in picovolts per picometre (20 V/m).
pub const KP: i64 = 20;

/// Derivative gain, in picovolt-microseconds per picometre (5 V·s/m).
pub const KD: i64 = 5_000_000;

/// Derivative gain divided by the control period: picovolts per picometre of
/// change in the error over one period.
pub const KD_PER_DT: i64 = 1_000;

/// Distance the homing target moves down in one control period, in picometres.
pub const ZERO_STEP: i64 = 200_000_000;

/// Bound of the symmetric output range, in picovolts (12 V).
pub const V_MAX: i64 = 12_000_000_000_000;

/// Lowest homing target, in picometres (10^18 m). Creeping down from any
/// reading at `ZERO_STEP` per period takes more than 10^21 periods to reach
/// it; the target stays there after that.
pub const HOMING_FLOOR: i128 = -1_000_000_000_000_000_000_000_000_000_000;

/// Bound on the magnitude of a stored error, in picometres.
pub const ERR_BOUND: i128 = 2_000_000_000_000_000_000_000_000_000_000;

/// The per-period constants are the physical ones over one control period:
/// `ZERO_STEP = ZEROING_SPEED·DT` and `KD_PER_DT = KD / DT`.
pub proof fn lemma_period_constants()
    ensures
        ZERO_STEP * US_PER_S == ZEROING_SPEED * DT,
        KD_PER_DT * DT == KD,
{
    assert(ZERO_STEP * US_PER_S == ZEROING_SPEED * DT) by (nonlinear_arith)
        requires
            ZERO_STEP == 200_000_000,
            US_PER_S == 1_000_000,
            ZEROING_SPEED == 40_000_000_000,
            DT == 5_000,
    ;
    assert(KD_PER_DT * DT == KD) by (nonlinear_arith)
        requires
            KD_PER_DT == 1_000,
            DT == 5_000,
            KD == 5_000_000,
    ;
}

/// The controller's state as mathematical integers.
pub ghost struct PidView {
    pub state: LoopState,
    pub sp: int,
    pub last_err: int,
    pub zero_offset: int,
    pub zero_goal: int,
}

/// The output for an error `err` when the previous error was `last_err`:
/// `err·KP + ((err − last_err)/DT)·KD`, limited to `[-V_MAX, V_MAX]`.
pub open spec fn output_spec(err: int, last_err: int) -> int {
    clamp_spec(KP * err + KD_PER_DT * (err - last_err), -V_MAX as int, V_MAX as int)
}

/// The homing target one period later: `ZERO_STEP` lower, but never below
/// `HOMING_FLOOR`.
pub open spec fn creep_spec(goal: int) -> int {
    if goal - ZERO_STEP >= HOMING_FLOOR {
        goal - ZERO_STEP
    } else {
        HOMING_FLOOR as int
    }
}

/// Tracks `goal` from the sensor reading `enc`: stores the new error and
/// returns the output.
pub open spec fn track_spec(m: PidView, goal: int, enc: int) -> (PidView, int) {
    let err = goal - (enc - m.zero_offset);
    (PidView { last_err: err, ..m }, output_spec(err, m.last_err))
}

/// One evaluation in the `Running` phase: track the set point, limited to the
/// travel range.
pub open spec fn running_spec(m: PidView, enc: int) -> (PidView, int) {
    track_spec(m, clamp_spec(m.sp, MIN_HEIGHT as int, MAX_HEIGHT as int), enc)
}

/// One evaluation in the `Zeroing` phase. With the limit switch closed the
/// reading becomes the zero offset, the stored error is reset and the same
/// reading is evaluated again as `Running`; otherwise the homing target creeps
/// down and is tracked.
pub open spec fn zeroing_spec(m: PidView, enc: int, limit: bool) -> (PidView, int) {
    if limit {
        running_spec(
            PidView { state: LoopState::Running, zero_offset: enc, last_err: 0, ..m },
            enc,
        )
    } else {
        let g = creep_spec(m.zero_goal);
        track_spec(PidView { zero_goal: g, ..m }, g, enc)
    }
}

/// The controller's state and output after one call of `iterate`. The first
/// call takes the reading as the homing target and is evaluated as `Zeroing`.
pub open spec fn iterate_spec(m: PidView, enc: int, limit: bool) -> (PidView, int) {
    match m.state {
        LoopState::Uninitialized => zeroing_spec(
            PidView { state: LoopState::Zeroing, zero_goal: enc, ..m },
            enc,
            limit,
        ),
        LoopState::Zeroing => zeroing_spec(m, enc, limit),
        LoopState::Running => running_spec(m, enc),
    }
}

/// The controller state that `ElevatorPIDLoop::new` creates.
pub open spec fn initial_view() -> PidView {
    PidView { state: LoopState::Uninitialized, sp: 0, last_err: 0, zero_offset: 0, zero_goal: 0 }
}

/// Position controller of the elevator.
#[derive(Clone, Copy, Debug)]
pub struct ElevatorPIDLoop {
    state: LoopState,
    sp: i64,
    last_err: i128,
    zero_offset: i64,
    zero_goal: i128,
}

impl View for ElevatorPIDLoop {
    type V = PidView;

    closed spec fn view(&self) -> PidView {
        PidView {
            state: self.state,
            sp: self.sp as int,
            last_err: self.last_err as int,
            zero_offset: self.zero_offset as int,
            zero_goal: self.zero_goal as int,
        }
    }
}

/// The ranges that keep the controller's arithmetic exact.
pub open spec fn pid_wf(m: PidView) -> bool {
    &&& i64::MIN <= m.zero_offset <= i64::MAX
    &&& HOMING_FLOOR <= m.zero_goal <= i64::MAX
    &&& -ERR_BOUND <= m.last_err <= ERR_BOUND
    &&& i64::MIN <= m.sp <= i64::MAX
}

impl ElevatorPIDLoop {
    /// Every controller keeps its fields in the ranges of `pid_wf`.
    #[verifier::type_invariant]
    spec fn inv(self) -> bool {
        pid_wf(self@)
    }

    /// A controller that has not seen a reading yet, with set point zero.
    pub fn new() -> (r: Self)
        ensures
            r@ == initial_view(),
            pid_wf(r@),
    {
        ElevatorPIDLoop {
            state: LoopState::Uninitialized,
            sp: 0,
            last_err: 0,
            zero_offset: 0,
            zero_goal: 0,
        }
    }

    /// Stores the error for `goal` and returns the limited output.
    fn track(&mut self, goal: i128, encoder: i64) -> (v: i64)
        requires
            pid_wf(old(self)@),
            HOMING_FLOOR <= goal <= i64::MAX,
        ensures
            pid_wf(final(self)@),
            (final(self)@, v as int) == track_spec(old(self)@, goal as int, encoder as int),
    {
        let err: i128 = goal - (encoder as i128 - self.zero_offset as i128);
        let delta: i128 = err - self.last_err;
        assert(-60 * ERR_BOUND <= KP * err <= 60 * ERR_BOUND) by (nonlinear_arith)
            requires
                -ERR_BOUND <= err <= ERR_BOUND,
                KP == 20,
                ERR_BOUND > 0,
        ;
        assert(-2_000 * ERR_BOUND <= KD_PER_DT * delta <= 2_000 * ERR_BOUND) by (nonlinear_arith)
            requires
                -2 * ERR_BOUND <= delta <= 2 * ERR_BOUND,
                KD_PER_DT == 1_000,
                ERR_BOUND > 0,
        ;
        let raw: i128 = KP as i128 * err + KD_PER_DT as i128 * delta;
        let v: i64 = if raw < -(V_MAX as i128) {
            -V_MAX
        } else if raw > V_MAX as i128 {
            V_MAX
        } else {
            raw as i64
        };
        self.last_err = err;
        v
    }

    /// Computes the output for the sensor reading `encoder` (picometres) and
    /// the limit switch signal `limit`, advancing the phase where the signals
    /// call for it. A phase change is evaluated again within the same call.
    pub fn iterate(&mut self, encoder: i64, limit: bool) -> (v: i64)
        ensures
            pid_wf(final(self)@),
            (final(self)@, v as int) == iterate_spec(old(self)@, encoder as int, limit),
            -V_MAX <= v <= V_MAX,
            state_rank(old(self)@.state) <= state_rank(final(self)@.state),
            final(self)@.state != LoopState::Uninitialized,
    {
        proof {
            use_type_invariant(&*self);
        }
        let ghost m0 = self@;
        loop
            invariant
                m0 == old(self)@,
                pid_wf(self@),
                iterate_spec(self@, encoder as int, limit) == iterate_spec(m0, encoder as int, limit),
                state_rank(m0.state) <= state_rank(self@.state),
            decreases 2 - state_rank(self@.state),
        {
            match self.state {
                LoopState::Uninitialized => {
                    self.zero_goal = encoder as i128;
                    self.state = LoopState::Zeroing;
                },
                LoopState::Zeroing => {
                    if limit {
                        self.state = LoopState::Running;
                        self.zero_offset = encoder;
                        self.last_err = 0;
                    } else {
                        self.zero_goal = if self.zero_goal - ZERO_STEP as i128 >= HOMING_FLOOR {
                            self.zero_goal - ZERO_STEP as i128
                        } else {
                            HOMING_FLOOR
                        };
                        let goal = self.zero_goal;
                        return self.track(goal, encoder);
                    }
                },
                LoopState::Running => {
                    let goal = clamp(self.sp, MIN_HEIGHT, MAX_HEIGHT);
                    return self.track(goal as i128, encoder);
                },
            }
        }
    }

    /// Sets the position to hold once homing is done.
    pub fn set_goal(&mut self, sp: i64)
        ensures
            final(self)@ == (PidView { sp: sp as int, ..old(self)@ }),
            pid_wf(final(self)@),
    {
        proof {
            use_type_invariant(&*self);
        }
        self.sp = sp;
    }

    /// The position to hold once homing is done.
    pub fn get_goal(&self) -> (r: i64)
        ensures
            r == self@.sp,
    {
        self.sp
    }

    /// The current phase.
    pub fn state(&self) -> (r: LoopState)
        ensures
            r == self@.state,
    {
        self.state
    }
}

/// A call never moves the controller back to an earlier phase, and after any
/// call it has left `Uninitialized`.
pub proof fn lemma_phase_never_regresses(m: PidView, enc: int, limit: bool)
    ensures
        state_rank(m.state) <= state_rank(iterate_spec(m, enc, limit).0.state),
        iterate_spec(m, enc, limit).0.state != LoopState::Uninitialized,
{
}

/// While homing and the limit switch stays open, each call lowers the homing
/// target by exactly `ZERO_STEP` and stays in `Zeroing`, as long as the target
/// stays at or above `HOMING_FLOOR`. The first call starts from the reading.
pub proof fn lemma_homing_target_creeps(m: PidView, enc: int)
    requires
        m.state != LoopState::Running,
        m.state == LoopState::Zeroing ==> m.zero_goal - ZERO_STEP >= HOMING_FLOOR,
        m.state == LoopState::Uninitialized ==> enc - ZERO_STEP >= HOMING_FLOOR,
    ensures
        iterate_spec(m, enc, false).0.state == LoopState::Zeroing,
        m.state == LoopState::Zeroing ==> iterate_spec(m, enc, false).0.zero_goal == m.zero_goal
            - ZERO_STEP,
        m.state == LoopState::Uninitialized ==> iterate_spec(m, enc, false).0.zero_goal == enc
            - ZERO_STEP,
{
}

/// When the limit switch closes during homing, the controller enters `Running`
/// with the reading as its zero and a stored error of zero, so the output has
/// no derivative kick; if the set point is the (zero) position just read, the
/// output is zero.
pub proof fn lemma_homing_ends_without_kick(m: PidView, enc: int)
    requires
        m.state != LoopState::Running,
    ensures
        ({
            let (r, v) = iterate_spec(m, enc, true);
            let goal = clamp_spec(m.sp, MIN_HEIGHT as int, MAX_HEIGHT as int);
            &&& r.state == LoopState::Running
            &&& r.zero_offset == enc
            &&& v == output_spec(goal, 0)
            &&& (goal == 0 ==> v == 0)
        }),
{
}

/// In `Running`, with no stored error, a reading that equals the set point
/// gives a zero output.
pub proof fn lemma_running_at_goal_is_silent(m: PidView, enc: int, limit: bool)
    requires
        m.state == LoopState::Running,
        m.last_err == 0,
        enc - m.zero_offset == clamp_spec(m.sp, MIN_HEIGHT as int, MAX_HEIGHT as int),
    ensures
        iterate_spec(m, enc, limit).1 == 0,
{
}

/// The controller state after calling `iterate` with each (reading, limit
/// switch) pair of `inputs` in turn.
pub open spec fn run_spec(m: PidView, inputs: Seq<(int, bool)>) -> PidView
    decreases inputs.len(),
{
    if inputs.len() == 0 {
        m
    } else {
        let last = inputs.last();
        iterate_spec(run_spec(m, inputs.drop_last()), last.0, last.1).0
    }
}

/// Along any sequence of calls the phase only moves forward: the state after
/// the first `i` calls is no later than after the first `j >= i`.
pub proof fn lemma_phase_order_along_run(m: PidView, inputs: Seq<(int, bool)>, i: int, j: int)
    requires
        0 <= i <= j <= inputs.len(),
    ensures
        state_rank(run_spec(m, inputs.take(i)).state) <= state_rank(
            run_spec(m, inputs.take(j)).state,
        ),
    decreases j - i,
{
    if i < j {
        lemma_phase_order_along_run(m, inputs, i, j - 1);
        let pre = inputs.take(j);
        assert(pre.drop_last() =~= inputs.take(j - 1));
        let last = pre.last();
        lemma_phase_never_regresses(run_spec(m, inputs.take(j - 1)), last.0, last.1);
    }
}

/// While homing with the limit switch open, `n` calls lower the homing target
/// by exactly `n·ZERO_STEP`, as long as it stays at or above `HOMING_FLOOR`.
pub proof fn lemma_homing_along_run(m: PidView, inputs: Seq<(int, bool)>)
    requires
        m.state == LoopState::Zeroing,
        forall|k: int| 0 <= k < inputs.len() ==> !(#[trigger] inputs[k]).1,
        m.zero_goal - inputs.len() * ZERO_STEP >= HOMING_FLOOR,
    ensures
        run_spec(m, inputs).state == LoopState::Zeroing,
        run_spec(m, inputs).zero_goal == m.zero_goal - inputs.len() * ZERO_STEP,
    decreases inputs.len(),
{
    if inputs.len() > 0 {
        let pre = inputs.drop_last();
        assert forall|k: int| 0 <= k < pre.len() implies !(#[trigger] pre[k]).1 by {
            assert(pre[k] == inputs[k]);
        }
        assert(m.zero_goal - pre.len() * ZERO_STEP >= HOMING_FLOOR);
        lemma_homing_along_run(m, pre);
        assert(!inputs[inputs.len() - 1].1);
        lemma_homing_target_creeps(run_spec(m, pre), inputs.last().0);
    }
}

} // verus!
