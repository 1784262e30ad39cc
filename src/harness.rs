//! The simulation harness: couples a controller, through a shim, to a
//! simulated plant, drives time forward, checks safety bounds and keeps a
//! decimated log.
use crate::util::{ceil_div, lemma_below_ceil_div, lemma_ceil_div, lemma_count_step};
use vstd::prelude::*;

verus! {

/// Longest duration, in microseconds, that the plant is asked to simulate in
/// one call (2^62 µs, about 146,000 years).
pub const MAX_DURATION: u64 = 0x4000_0000_0000_0000;

/// A violated safety bound, or a state that the simulation cannot represent.
#[derive(Clone, Copy, Debug, PartialEq, Eq, Structural)]
pub enum Violation {
    /// `value` lies above the upper bound `bound`.
    AboveMax { value: i64, bound: i64 },
    /// `value` lies below the lower bound `bound`.
    BelowMin { value: i64, bound: i64 },
    /// The plant's state left the range that the simulation represents.
    OutOfRange,
}

/// A simulated system: its physical state, the output of its controller, the
/// record it logs, and its physics.
pub trait HarnessAble {
    /// The state of the system.
    type State: Copy;

    /// The output of the controller.
    type ControlResponse: Copy;

    /// One record of the log.
    type LogData;

    /// The interval between control updates, in microseconds.
    spec fn spec_control_dt() -> u64;

    /// The interval between control updates, in microseconds.
    fn control_dt() -> (r: u64)
        ensures
            r == Self::spec_control_dt(),
            0 < r <= MAX_DURATION,
    ;

    /// Whether `s` lies in the range that the simulation represents.
    spec fn state_ok(s: Self::State) -> bool;

    /// The state after `dur` microseconds from `s` with `r` held constant, or
    /// `None` when it leaves the represented range.
    spec fn sim_spec(s: Self::State, r: Self::ControlResponse, dur: u64) -> Option<Self::State>;

    /// Simulates the system for `dur` microseconds with the response held
    /// constant; `None` when the state leaves the represented range.
    fn sim_time(s: Self::State, r: Self::ControlResponse, dur: u64) -> (res: Option<Self::State>)
        requires
            Self::state_ok(s),
            dur <= MAX_DURATION,
        ensures
            res == Self::sim_spec(s, r, dur),
            res matches Some(n) ==> Self::state_ok(n),
    ;
}

/// Turns a simulated state into the signals of the controller's sensors, and
/// checks the state's safety bounds.
pub trait StateShim<SYS: HarnessAble>: Sized {
    /// What the shim needs of itself to serve the harness.
    spec fn shim_ok(&self) -> bool;

    /// `update` on this shim with the state `state` may leave the shim `next`
    /// and return `r`.
    spec fn update_rel(&self, state: SYS::State, next: Self, r: SYS::ControlResponse) -> bool;

    /// The record that `log_dat` returns.
    spec fn log_spec(&self, state: SYS::State, response: SYS::ControlResponse, time: u64) -> SYS::LogData;

    /// The outcome of the safety check of `state`.
    spec fn check_spec(&self, state: SYS::State) -> Result<(), Violation>;

    /// The controller's output for the current physical state.
    fn update(&mut self, state: SYS::State) -> (r: SYS::ControlResponse)
        requires
            old(self).shim_ok(),
            SYS::state_ok(state),
        ensures
            final(self).shim_ok(),
            old(self).update_rel(state, *final(self), r),
    ;

    /// The record to log at time `time` (microseconds).
    fn log_dat(&mut self, state: SYS::State, response: SYS::ControlResponse, time: u64) -> (r:
        SYS::LogData)
        requires
            old(self).shim_ok(),
        ensures
            *final(self) == *old(self),
            r == old(self).log_spec(state, response, time),
    ;

    /// Checks the safety bounds of the physical state. A shim without bounds
    /// returns `Ok(())`.
    fn assert_invariants(&mut self, state: SYS::State) -> (r: Result<(), Violation>)
        requires
            old(self).shim_ok(),
        ensures
            *final(self) == *old(self),
            r == old(self).check_spec(state),
    ;
}

/// The number of records that `steps` control steps add to the log when one
/// is kept every `log_every` steps (every step when `log_every` is zero).
pub open spec fn records_for(steps: int, log_every: int) -> int {
    if log_every == 0 {
        steps
    } else {
        steps / log_every
    }
}

/// Whether a record is kept after the `i`-th control step of a run.
pub open spec fn logs_at(i: int, log_every: int) -> bool {
    log_every == 0 || i % log_every == 0
}

/// One control step that passed: from the shim `shim` and the state `state`,
/// `update` leaves `next_shim` and returns `r`, the plant reaches `next_state`
/// in `dt` under `r`, and `next_state` passes the safety check.
pub open spec fn step_ok<SYS: HarnessAble, SHIM: StateShim<SYS>>(
    shim: SHIM,
    state: SYS::State,
    next_shim: SHIM,
    r: SYS::ControlResponse,
    next_state: SYS::State,
    dt: u64,
) -> bool {
    &&& shim.update_rel(state, next_shim, r)
    &&& SYS::sim_spec(state, r, dt) == Some(next_state)
    &&& next_shim.check_spec(next_state) == Ok::<(), Violation>(())
}

/// `resps.len()` control steps that passed, through the shims `shims` and the
/// states `states` (each one longer than `resps`).
pub open spec fn trace_ok<SYS: HarnessAble, SHIM: StateShim<SYS>>(
    shims: Seq<SHIM>,
    states: Seq<SYS::State>,
    resps: Seq<SYS::ControlResponse>,
    dt: u64,
) -> bool {
    &&& shims.len() == resps.len() + 1
    &&& states.len() == resps.len() + 1
    &&& forall|i: int|
        0 <= i < resps.len() ==> #[trigger] step_ok::<SYS, SHIM>(
            shims[i],
            states[i],
            shims[i + 1],
            resps[i],
            states[i + 1],
            dt,
        )
}

/// The control step that stopped a run with `e`: from `shim` and `state`,
/// `update` left `fshim` and returned `r`; either the plant left the
/// represented range (`OutOfRange`, the state kept) or the state it reached,
/// `fstate`, failed the safety check with `e`.
pub open spec fn step_failed<SYS: HarnessAble, SHIM: StateShim<SYS>>(
    shim: SHIM,
    state: SYS::State,
    fshim: SHIM,
    r: SYS::ControlResponse,
    fstate: SYS::State,
    dt: u64,
    e: Violation,
) -> bool {
    &&& shim.update_rel(state, fshim, r)
    &&& match SYS::sim_spec(state, r, dt) {
        None => e == Violation::OutOfRange && fstate == state,
        Some(n) => fshim.check_spec(n) == Err::<(), Violation>(e) && fstate == n,
    }
}

/// The records that the first `k` steps of a run keep: after step `i`, when
/// `logs_at(i, log_every)`, the record of the shim, the state and the
/// response of that step at time `t0 + i·dt`.
pub open spec fn run_log<SYS: HarnessAble, SHIM: StateShim<SYS>>(
    shims: Seq<SHIM>,
    states: Seq<SYS::State>,
    resps: Seq<SYS::ControlResponse>,
    t0: int,
    dt: int,
    log_every: int,
    k: int,
) -> Seq<SYS::LogData>
    decreases k,
{
    if k <= 0 {
        Seq::empty()
    } else {
        let prev = run_log::<SYS, SHIM>(shims, states, resps, t0, dt, log_every, k - 1);
        if logs_at(k, log_every) {
            prev.push(shims[k].log_spec(states[k], resps[k - 1], (t0 + k * dt) as u64))
        } else {
            prev
        }
    }
}

/// The records of the first `k` steps depend on those steps alone.
pub proof fn lemma_run_log_prefix<SYS: HarnessAble, SHIM: StateShim<SYS>>(
    shims: Seq<SHIM>,
    states: Seq<SYS::State>,
    resps: Seq<SYS::ControlResponse>,
    shims2: Seq<SHIM>,
    states2: Seq<SYS::State>,
    resps2: Seq<SYS::ControlResponse>,
    t0: int,
    dt: int,
    log_every: int,
    k: int,
)
    requires
        0 <= k < shims.len() <= shims2.len(),
        k < states.len() <= states2.len(),
        k <= resps.len() <= resps2.len(),
        forall|i: int| 0 <= i <= k ==> shims2[i] == shims[i] && states2[i] == states[i],
        forall|i: int| 0 <= i < k ==> resps2[i] == resps[i],
    ensures
        run_log::<SYS, SHIM>(shims2, states2, resps2, t0, dt, log_every, k) == run_log::<
            SYS,
            SHIM,
        >(shims, states, resps, t0, dt, log_every, k),
    decreases k,
{
    if k > 0 {
        lemma_run_log_prefix::<SYS, SHIM>(
            shims,
            states,
            resps,
            shims2,
            states2,
            resps2,
            t0,
            dt,
            log_every,
            k - 1,
        );
    }
}

/// The first `k` steps of a run keep `records_for(k, log_every)` records.
pub proof fn lemma_run_log_len<SYS: HarnessAble, SHIM: StateShim<SYS>>(
    shims: Seq<SHIM>,
    states: Seq<SYS::State>,
    resps: Seq<SYS::ControlResponse>,
    t0: int,
    dt: int,
    log_every: int,
    k: int,
)
    requires
        k >= 0,
        log_every >= 0,
    ensures
        run_log::<SYS, SHIM>(shims, states, resps, t0, dt, log_every, k).len() == records_for(
            k,
            log_every,
        ),
    decreases k,
{
    if k > 0 {
        lemma_run_log_len::<SYS, SHIM>(shims, states, resps, t0, dt, log_every, k - 1);
        if log_every > 0 {
            lemma_count_step(k - 1, log_every);
        }
    }
}

/// `k` whole periods of length `d` followed by `rest` need `k` periods more
/// than `rest` alone.
pub proof fn lemma_ceil_div_shift(k: int, rest: int, d: int)
    requires
        d > 0,
        k >= 0,
        rest >= 0,
    ensures
        ceil_div(k * d + rest, d) == k + ceil_div(rest, d),
{
    let x = rest + d - 1;
    vstd::arithmetic::div_mod::lemma_fundamental_div_mod(x, d);
    let q = x / d;
    let r = x % d;
    assert(k * d + rest + d - 1 == (k + q) * d + r) by (nonlinear_arith)
        requires
            x == d * q + r,
            x == rest + d - 1,
    ;
    vstd::arithmetic::div_mod::lemma_fundamental_div_mod_converse(k * d + rest + d - 1, d, k + q, r);
}

/// The records of a run of `k1` steps followed by one of `j` steps, when the
/// first fills whole logging groups: those of the first run, then those of
/// the second from its own start time.
pub proof fn lemma_run_log_concat<SYS: HarnessAble, SHIM: StateShim<SYS>>(
    sh1: Seq<SHIM>,
    st1: Seq<SYS::State>,
    rs1: Seq<SYS::ControlResponse>,
    sh2: Seq<SHIM>,
    st2: Seq<SYS::State>,
    rs2: Seq<SYS::ControlResponse>,
    t0: int,
    dt: int,
    every: int,
    j: int,
)
    requires
        sh1.len() == rs1.len() + 1,
        st1.len() == rs1.len() + 1,
        sh2.len() == rs2.len() + 1,
        st2.len() == rs2.len() + 1,
        sh2[0] == sh1[rs1.len() as int],
        st2[0] == st1[rs1.len() as int],
        every >= 0,
        every == 0 || (rs1.len() as int) % every == 0,
        0 <= j <= rs2.len(),
    ensures
        run_log::<SYS, SHIM>(
            sh1 + sh2.subrange(1, sh2.len() as int),
            st1 + st2.subrange(1, st2.len() as int),
            rs1 + rs2,
            t0,
            dt,
            every,
            rs1.len() + j,
        ) == run_log::<SYS, SHIM>(sh1, st1, rs1, t0, dt, every, rs1.len() as int) + run_log::<
            SYS,
            SHIM,
        >(sh2, st2, rs2, t0 + rs1.len() * dt, dt, every, j),
    decreases j,
{
    let k1 = rs1.len() as int;
    let shims = sh1 + sh2.subrange(1, sh2.len() as int);
    let states = st1 + st2.subrange(1, st2.len() as int);
    let resps = rs1 + rs2;
    if j == 0 {
        lemma_run_log_prefix::<SYS, SHIM>(sh1, st1, rs1, shims, states, resps, t0, dt, every, k1);
        assert(run_log::<SYS, SHIM>(sh1, st1, rs1, t0, dt, every, k1) + run_log::<SYS, SHIM>(
            sh2,
            st2,
            rs2,
            t0 + k1 * dt,
            dt,
            every,
            0,
        ) =~= run_log::<SYS, SHIM>(sh1, st1, rs1, t0, dt, every, k1));
    } else {
        lemma_run_log_concat::<SYS, SHIM>(sh1, st1, rs1, sh2, st2, rs2, t0, dt, every, j - 1);
        assert(shims[k1 + j] == sh2[j]);
        assert(states[k1 + j] == st2[j]);
        assert(resps[k1 + j - 1] == rs2[j - 1]);
        assert(t0 + (k1 + j) * dt == (t0 + k1 * dt) + j * dt) by (nonlinear_arith);
        if every > 0 {
            vstd::arithmetic::div_mod::lemma_fundamental_div_mod(k1, every);
            vstd::arithmetic::div_mod::lemma_mod_multiples_vanish(k1 / every, j, every);
            assert(logs_at(k1 + j, every) == logs_at(j, every));
        }
        let a = run_log::<SYS, SHIM>(sh1, st1, rs1, t0, dt, every, k1);
        let b = run_log::<SYS, SHIM>(sh2, st2, rs2, t0 + k1 * dt, dt, every, j - 1);
        if logs_at(j, every) {
            let x = sh2[j].log_spec(st2[j], rs2[j - 1], ((t0 + k1 * dt) + j * dt) as u64);
            assert((a + b).push(x) =~= a + b.push(x));
        }
    }
}

/// A run of `d1` microseconds that ended well, followed by a run of `d2`, is
/// a run of `d1 + d2` through the steps of both, when `d1` is a whole number
/// of control intervals and the first run's steps fill whole logging groups
/// (each run counts its own steps for logging).
pub proof fn lemma_run_split<SYS: HarnessAble, SHIM: StateShim<SYS>>(
    h0: SimulationHarness<SYS, SHIM>,
    h1: SimulationHarness<SYS, SHIM>,
    h2: SimulationHarness<SYS, SHIM>,
    d1: u64,
    d2: u64,
    s1: SYS::State,
    r2: Result<SYS::State, Violation>,
    sh1: Seq<SHIM>,
    st1: Seq<SYS::State>,
    rs1: Seq<SYS::ControlResponse>,
    sh2: Seq<SHIM>,
    st2: Seq<SYS::State>,
    rs2: Seq<SYS::ControlResponse>,
)
    requires
        SYS::spec_control_dt() > 0,
        h0.run_outcome(h1, d1, Ok(s1), sh1, st1, rs1),
        h1.run_outcome(h2, d2, r2, sh2, st2, rs2),
        (d1 as int) % (SYS::spec_control_dt() as int) == 0,
        d1 + d2 <= u64::MAX,
        h0.spec_log_every() == 0 || (rs1.len() as int) % (h0.spec_log_every() as int) == 0,
    ensures
        h0.run_outcome(
            h2,
            (d1 + d2) as u64,
            r2,
            sh1 + sh2.subrange(1, sh2.len() as int),
            st1 + st2.subrange(1, st2.len() as int),
            rs1 + rs2,
        ),
{
    let dt = SYS::spec_control_dt();
    let every = h0.spec_log_every() as int;
    let k1 = rs1.len() as int;
    let k2 = rs2.len() as int;
    let shims = sh1 + sh2.subrange(1, sh2.len() as int);
    let states = st1 + st2.subrange(1, st2.len() as int);
    let resps = rs1 + rs2;
    // d1 is exactly k1 intervals
    vstd::arithmetic::div_mod::lemma_fundamental_div_mod(d1 as int, dt as int);
    lemma_ceil_div_shift((d1 as int) / (dt as int), 0, dt as int);
    vstd::arithmetic::div_mod::lemma_fundamental_div_mod_converse(
        dt as int - 1,
        dt as int,
        0,
        dt as int - 1,
    );
    assert(ceil_div(0, dt as int) == 0);
    assert(k1 == (d1 as int) / (dt as int));
    assert(d1 == k1 * dt) by (nonlinear_arith)
        requires
            d1 == dt * ((d1 as int) / (dt as int)) + (d1 as int) % (dt as int),
            (d1 as int) % (dt as int) == 0,
            k1 == (d1 as int) / (dt as int),
    ;
    lemma_ceil_div_shift(k1, d2 as int, dt as int);
    assert(shims.len() == resps.len() + 1);
    assert forall|i: int| 0 <= i < resps.len() implies #[trigger] step_ok::<SYS, SHIM>(
        shims[i],
        states[i],
        shims[i + 1],
        resps[i],
        states[i + 1],
        dt,
    ) by {
        if i < k1 {
            assert(step_ok::<SYS, SHIM>(sh1[i], st1[i], sh1[i + 1], rs1[i], st1[i + 1], dt));
        } else {
            let m = i - k1;
            assert(step_ok::<SYS, SHIM>(sh2[m], st2[m], sh2[m + 1], rs2[m], st2[m + 1], dt));
            assert(shims[i] == sh2[m]);
            assert(shims[i + 1] == sh2[m + 1]);
            assert(states[i] == st2[m]);
            assert(states[i + 1] == st2[m + 1]);
            assert(resps[i] == rs2[m]);
        }
    }
    assert(shims[k1 + k2] == sh2[k2]);
    assert(states[k1 + k2] == st2[k2]);
    lemma_run_log_concat::<SYS, SHIM>(sh1, st1, rs1, sh2, st2, rs2, h0.spec_time() as int, dt as int, every, k2);
    assert(h2.spec_log() =~= h0.spec_log() + run_log::<SYS, SHIM>(
        shims,
        states,
        resps,
        h0.spec_time() as int,
        dt as int,
        every,
        k1 + k2,
    ));
    lemma_run_log_len::<SYS, SHIM>(shims, states, resps, h0.spec_time() as int, dt as int, every, k1 + k2);
    assert(h2.spec_time() == h0.spec_time() + (k1 + k2) * dt) by (nonlinear_arith)
        requires
            h1.spec_time() == h0.spec_time() + k1 * dt,
            h2.spec_time() == h1.spec_time() + k2 * dt,
    ;
    if let Err(e) = r2 {
        let fr = choose|fr: SYS::ControlResponse|
            #[trigger] step_failed::<SYS, SHIM>(
                sh2[k2],
                st2[k2],
                h2.spec_shim(),
                fr,
                h2.spec_state(),
                dt,
                e,
            );
        assert(step_failed::<SYS, SHIM>(
            shims[k1 + k2],
            states[k1 + k2],
            h2.spec_shim(),
            fr,
            h2.spec_state(),
            dt,
            e,
        ));
    }
}

/// Owns a shim and the state of the simulated system, and the log.
pub struct SimulationHarness<SYS: HarnessAble, SHIM: StateShim<SYS>> {
    shim: SHIM,
    state: SYS::State,
    time: u64,
    log_every: u32,
    log: Vec<SYS::LogData>,
}

impl<SYS: HarnessAble, SHIM: StateShim<SYS>> SimulationHarness<SYS, SHIM> {
    /// The shim.
    pub closed spec fn spec_shim(&self) -> SHIM {
        self.shim
    }

    /// The current state of the system.
    pub closed spec fn spec_state(&self) -> SYS::State {
        self.state
    }

    /// The simulated time since the harness was made, in microseconds.
    pub closed spec fn spec_time(&self) -> u64 {
        self.time
    }

    /// A record is kept every `spec_log_every()` control steps.
    pub closed spec fn spec_log_every(&self) -> u32 {
        self.log_every
    }

    /// The records kept so far.
    pub closed spec fn spec_log(&self) -> Seq<SYS::LogData> {
        self.log@
    }

    /// The harness can run: the shim is ready and the state is represented.
    pub open spec fn harness_ok(&self) -> bool {
        self.spec_shim().shim_ok() && SYS::state_ok(self.spec_state())
    }

    /// A harness at time zero with the state `initial` and an empty log.
    pub fn new(shim: SHIM, initial: SYS::State, log_every: u32) -> (r: Self)
        ensures
            r.spec_shim() == shim,
            r.spec_state() == initial,
            r.spec_time() == 0,
            r.spec_log_every() == log_every,
            r.spec_log().len() == 0,
    {
        SimulationHarness { shim, state: initial, time: 0, log_every, log: Vec::new() }
    }

    /// The shim.
    pub fn shim(&self) -> (r: &SHIM)
        ensures
            *r == self.spec_shim(),
    {
        &self.shim
    }

    /// The shim, to change it.
    pub fn shim_mut(&mut self) -> (r: &mut SHIM)
        ensures
            *r == old(self).spec_shim(),
            final(self).spec_shim() == *final(r),
            final(self).spec_state() == old(self).spec_state(),
            final(self).spec_time() == old(self).spec_time(),
            final(self).spec_log_every() == old(self).spec_log_every(),
            final(self).spec_log() == old(self).spec_log(),
    {
        &mut self.shim
    }

    /// The current state of the system.
    pub fn state(&self) -> (r: SYS::State)
        ensures
            r == self.spec_state(),
    {
        self.state
    }

    /// The simulated time since the harness was made, in microseconds.
    pub fn time(&self) -> (r: u64)
        ensures
            r == self.spec_time(),
    {
        self.time
    }

    /// The records kept so far.
    pub fn log(&self) -> (r: &Vec<SYS::LogData>)
        ensures
            r@ == self.spec_log(),
    {
        &self.log
    }

    /// What a run of `time` microseconds from this harness may end in: the
    /// harness `next` and the result `r`, through the passed steps `resps`
    /// (with their shims and states). The run takes `⌈time/dt⌉` steps and
    /// returns the last state, or stops at the first step that fails and
    /// returns its violation. Time advances by `dt` for each passed step, and
    /// the records of the passed steps are appended to the log.
    pub open spec fn run_outcome(
        self,
        next: Self,
        time: u64,
        r: Result<SYS::State, Violation>,
        shims: Seq<SHIM>,
        states: Seq<SYS::State>,
        resps: Seq<SYS::ControlResponse>,
    ) -> bool {
        let dt = SYS::spec_control_dt();
        let k = resps.len() as int;
        let steps = ceil_div(time as int, dt as int);
        let every = self.spec_log_every() as int;
        &&& trace_ok::<SYS, SHIM>(shims, states, resps, dt)
        &&& shims[0] == self.spec_shim()
        &&& states[0] == self.spec_state()
        &&& next.spec_log_every() == self.spec_log_every()
        &&& next.spec_time() == self.spec_time() + k * dt
        &&& next.spec_log() == self.spec_log() + run_log::<SYS, SHIM>(
            shims,
            states,
            resps,
            self.spec_time() as int,
            dt as int,
            every,
            k,
        )
        &&& next.spec_log().len() == self.spec_log().len() + records_for(k, every)
        &&& match r {
            Ok(s) => {
                &&& k == steps
                &&& s == states[k]
                &&& next.spec_state() == s
                &&& next.spec_shim() == shims[k]
            },
            Err(e) => {
                &&& k < steps
                &&& exists|fr: SYS::ControlResponse|
                    #[trigger] step_failed::<SYS, SHIM>(
                        shims[k],
                        states[k],
                        next.spec_shim(),
                        fr,
                        next.spec_state(),
                        dt,
                        e,
                    )
            },
        }
    }

    /// Runs the system for `time` microseconds: while less time has elapsed,
    /// the shim computes the controller's output from the state, the plant is
    /// simulated for one control interval under it, the safety bounds are
    /// checked, and every `log_every` steps of this run a record is kept. The
    /// last interval may overshoot `time`. Returns the final state, or the
    /// first violation, which ends the run.
    pub fn run_time(&mut self, time: u64) -> (r: Result<SYS::State, Violation>)
        requires
            old(self).harness_ok(),
            time <= MAX_DURATION,
            old(self).spec_time() + ceil_div(time as int, SYS::spec_control_dt() as int)
                * SYS::spec_control_dt() <= u64::MAX,
        ensures
            final(self).harness_ok(),
            exists|shims: Seq<SHIM>, states: Seq<SYS::State>, resps: Seq<SYS::ControlResponse>|
                #[trigger] old(self).run_outcome(*final(self), time, r, shims, states, resps),
            time == 0 ==> {
                &&& r == Ok::<SYS::State, Violation>(old(self).spec_state())
                &&& final(self).spec_state() == old(self).spec_state()
                &&& final(self).spec_shim() == old(self).spec_shim()
                &&& final(self).spec_time() == old(self).spec_time()
                &&& final(self).spec_log() == old(self).spec_log()
            },
    {
        let dt = SYS::control_dt();
        let ghost steps_total = ceil_div(time as int, dt as int);
        let ghost t0 = self.time as int;
        let ghost start_log = self.log@;
        let ghost every = self.log_every as int;
        let ghost mut shims: Seq<SHIM> = seq![self.shim];
        let ghost mut states: Seq<SYS::State> = seq![self.state];
        let ghost mut resps: Seq<SYS::ControlResponse> = Seq::empty();
        let mut elapsed: u64 = 0;
        let mut count: u32 = 0;
        proof {
            assert(self.log@ =~= start_log + run_log::<SYS, SHIM>(shims, states, resps, t0, dt as int, every, 0));
        }
        while elapsed < time
            invariant
                self.harness_ok(),
                start_log == old(self).log@,
                t0 == old(self).time,
                every == old(self).log_every,
                self.log_every == old(self).log_every,
                dt == SYS::spec_control_dt(),
                0 < dt <= MAX_DURATION,
                time <= MAX_DURATION,
                steps_total == ceil_div(time as int, dt as int),
                t0 + steps_total * dt <= u64::MAX,
                trace_ok::<SYS, SHIM>(shims, states, resps, dt),
                shims[0] == old(self).shim,
                states[0] == old(self).state,
                self.shim == shims[resps.len() as int],
                self.state == states[resps.len() as int],
                elapsed == resps.len() * dt,
                resps.len() == 0 || (resps.len() - 1) * dt < time,
                elapsed < time + dt,
                resps.len() <= steps_total,
                self.time == t0 + elapsed,
                self.log@ == start_log + run_log::<SYS, SHIM>(
                    shims,
                    states,
                    resps,
                    t0,
                    dt as int,
                    every,
                    resps.len() as int,
                ),
                count == if every == 0 {
                    0
                } else {
                    (resps.len() as int) % every
                },
            decreases time + dt - elapsed,
        {
            let ghost k = resps.len() as int;
            proof {
                lemma_below_ceil_div(k, time as int, dt as int);
                assert((k + 1) * dt <= steps_total * dt) by (nonlinear_arith)
                    requires
                        k + 1 <= steps_total,
                        dt > 0,
                ;
                assert((k + 1) * dt == k * dt + dt) by (nonlinear_arith);
                lemma_run_log_len::<SYS, SHIM>(shims, states, resps, t0, dt as int, every, k);
            }
            let response = self.shim.update(self.state);
            let ghost updated = self.shim;
            assert(shims[k].update_rel(states[k], updated, response));
            match SYS::sim_time(self.state, response, dt) {
                Some(next) => {
                    self.state = next;
                },
                None => {
                    proof {
                        assert(step_failed::<SYS, SHIM>(
                            shims[k],
                            states[k],
                            self.spec_shim(),
                            response,
                            self.spec_state(),
                            SYS::spec_control_dt(),
                            Violation::OutOfRange,
                        ));
                        assert(old(self).run_outcome(
                            *self,
                            time,
                            Err(Violation::OutOfRange),
                            shims,
                            states,
                            resps,
                        ));
                    }
                    return Err(Violation::OutOfRange);
                },
            }
            let checked = self.shim.assert_invariants(self.state);
            assert(self.shim == updated);
            assert(checked == updated.check_spec(self.state));
            match checked {
                Ok(u) => {
                    assert(checked == Ok::<(), Violation>(u));
                    assert(updated.check_spec(self.state) == Ok::<(), Violation>(()));
                },
                Err(v) => {
                    proof {
                        assert(step_failed::<SYS, SHIM>(
                            shims[k],
                            states[k],
                            self.spec_shim(),
                            response,
                            self.spec_state(),
                            SYS::spec_control_dt(),
                            v,
                        ));
                        assert(old(self).run_outcome(*self, time, Err(v), shims, states, resps));
                    }
                    return Err(v);
                },
            }
            let ghost old_shims = shims;
            let ghost old_states = states;
            let ghost old_resps = resps;
            proof {
                shims = shims.push(self.shim);
                states = states.push(self.state);
                resps = resps.push(response);
                assert forall|i: int| 0 <= i < resps.len() implies #[trigger] step_ok::<SYS, SHIM>(
                    shims[i],
                    states[i],
                    shims[i + 1],
                    resps[i],
                    states[i + 1],
                    dt,
                ) by {
                    if i == k {
                        assert(shims[i] == old_shims[k]);
                        assert(shims[i + 1] == updated);
                        assert(states[i + 1] == self.state);
                        assert(resps[i] == response);
                    }
                    if i < k {
                        assert(step_ok::<SYS, SHIM>(
                            old_shims[i],
                            old_states[i],
                            old_shims[i + 1],
                            old_resps[i],
                            old_states[i + 1],
                            dt,
                        ));
                    }
                }
                lemma_run_log_prefix::<SYS, SHIM>(
                    old_shims,
                    old_states,
                    old_resps,
                    shims,
                    states,
                    resps,
                    t0,
                    dt as int,
                    every,
                    k,
                );
                if every > 0 {
                    lemma_count_step(k, every);
                }
            }
            elapsed = elapsed + dt;
            self.time = self.time + dt;
            count = count + 1;
            if count >= self.log_every {
                let rec = self.shim.log_dat(self.state, response, self.time);
                self.log.push(rec);
                count = 0;
            }
            proof {
                assert(self.log@ =~= start_log + run_log::<SYS, SHIM>(
                    shims,
                    states,
                    resps,
                    t0,
                    dt as int,
                    every,
                    k + 1,
                ));
            }
        }
        proof {
            lemma_ceil_div(resps.len() as int, time as int, dt as int);
            lemma_run_log_len::<SYS, SHIM>(
                shims,
                states,
                resps,
                t0,
                dt as int,
                every,
                resps.len() as int,
            );
            assert(old(self).run_outcome(*self, time, Ok(self.state), shims, states, resps));
        }
        Ok(self.state)
    }
}

} // verus!
