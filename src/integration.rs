//! Classical fourth-order Runge-Kutta integration of `dx/dt = v`,
//! `dv/dt = a(t, v)` over any type with vector-space operations.
use crate::units::US_PER_S;
use crate::util::{div_trunc, div_trunc_spec};
use vstd::prelude::*;

verus! {

/// Values that can be added and scaled by a fraction `num / den`.
pub trait VectorSpace: Copy + Sized {
    /// The sum of `self` and `o`.
    spec fn plus_spec(self, o: Self) -> Self;

    /// `self` scaled by `num / den`.
    spec fn scaled_spec(self, num: int, den: int) -> Self;

    fn plus(self, o: Self) -> (r: Self)
        ensures
            r == self.plus_spec(o),
    ;

    fn scaled(self, num: i64, den: i64) -> (r: Self)
        requires
            den > 0,
        ensures
            r == self.scaled_spec(num as int, den as int),
    ;
}

/// `x` limited to the range of `i64`.
pub open spec fn saturate(x: int) -> int {
    if x < i64::MIN {
        i64::MIN as int
    } else if x > i64::MAX {
        i64::MAX as int
    } else {
        x
    }
}

fn saturate_wide(x: i128) -> (r: i64)
    ensures
        r == saturate(x as int),
{
    if x < i64::MIN as i128 {
        i64::MIN
    } else if x > i64::MAX as i128 {
        i64::MAX
    } else {
        x as i64
    }
}

/// A fixed-point scalar: sums and products are exact where they fit an `i64`,
/// products round toward zero, and results saturate at the ends of the range.
impl VectorSpace for i64 {
    open spec fn plus_spec(self, o: i64) -> i64 {
        saturate(self + o) as i64
    }

    open spec fn scaled_spec(self, num: int, den: int) -> i64 {
        saturate(div_trunc_spec(self * num, den)) as i64
    }

    fn plus(self, o: i64) -> (r: i64) {
        saturate_wide(self as i128 + o as i128)
    }

    fn scaled(self, num: i64, den: i64) -> (r: i64) {
        let a: i128 = self as i128;
        let b: i128 = num as i128;
        assert(-0x4000_0000_0000_0000_0000_0000_0000_0000 <= a * b
            <= 0x4000_0000_0000_0000_0000_0000_0000_0000) by (nonlinear_arith)
            requires
                -0x8000_0000_0000_0000 <= a <= 0x7fff_ffff_ffff_ffff,
                -0x8000_0000_0000_0000 <= b <= 0x7fff_ffff_ffff_ffff,
        ;
        let p: i128 = a * b;
        saturate_wide(div_trunc(p, den as i128))
    }
}

/// A pair of fixed-point scalars, added and scaled componentwise.
#[derive(Clone, Copy, Debug, PartialEq, Eq, Structural)]
pub struct Vec2 {
    pub x: i64,
    pub y: i64,
}

impl VectorSpace for Vec2 {
    open spec fn plus_spec(self, o: Vec2) -> Vec2 {
        Vec2 { x: self.x.plus_spec(o.x), y: self.y.plus_spec(o.y) }
    }

    open spec fn scaled_spec(self, num: int, den: int) -> Vec2 {
        Vec2 { x: self.x.scaled_spec(num, den), y: self.y.scaled_spec(num, den) }
    }

    fn plus(self, o: Vec2) -> (r: Vec2) {
        Vec2 { x: self.x.plus(o.x), y: self.y.plus(o.y) }
    }

    fn scaled(self, num: i64, den: i64) -> (r: Vec2) {
        Vec2 { x: self.x.scaled(num, den), y: self.y.scaled(num, den) }
    }
}

/// `a + 2·b + 2·c + d`, the weighting of the four stages.
pub open spec fn weighted_spec<V: VectorSpace>(a: V, b: V, c: V, d: V) -> V {
    a.plus_spec(b.scaled_spec(2, 1)).plus_spec(c.scaled_spec(2, 1)).plus_spec(d)
}

/// `v + k·h/2` for a step of `h` microseconds.
pub open spec fn half_step_spec<V: VectorSpace>(v: V, k: V, h: int) -> V {
    v.plus_spec(k.scaled_spec(h, 2 * US_PER_S))
}

/// `v + k·h` for a step of `h` microseconds.
pub open spec fn full_step_spec<V: VectorSpace>(v: V, k: V, h: int) -> V {
    v.plus_spec(k.scaled_spec(h, US_PER_S as int))
}

/// The position and velocity after one step of `h` microseconds, given the
/// four stage accelerations `k1..k4`: the stage velocities are `v`,
/// `v + k1·h/2`, `v + k2·h/2` and `v + k3·h`, and each of position and
/// velocity advances by `h/6` times the `(1, 2, 2, 1)` weighting of its
/// stage derivatives.
pub open spec fn rk4_spec<V: VectorSpace>(x: V, v: V, h: int, k1: V, k2: V, k3: V, k4: V) -> (
    V,
    V,
) {
    let dx = weighted_spec(v, half_step_spec(v, k1, h), half_step_spec(v, k2, h), full_step_spec(v, k3, h));
    let dv = weighted_spec(k1, k2, k3, k4);
    (x.plus_spec(dx.scaled_spec(h, 6 * US_PER_S)), v.plus_spec(dv.scaled_spec(h, 6 * US_PER_S)))
}

/// `r` is a result of one step of `h` microseconds from time `t`, position
/// `x` and velocity `v`: some four stage accelerations, each an output of
/// `acc` at its stage time and stage velocity, give `r` by `rk4_spec`.
pub open spec fn rk4_outcome<V: VectorSpace, F: Fn(i64, V) -> V>(
    acc: F,
    t: i64,
    x: V,
    v: V,
    h: i64,
    r: (V, V),
) -> bool {
    exists|k1: V, k2: V, k3: V, k4: V|
        {
            &&& acc.ensures((t, v), k1)
            &&& acc.ensures(((t + h / 2) as i64, half_step_spec(v, k1, h as int)), k2)
            &&& acc.ensures(((t + h / 2) as i64, half_step_spec(v, k2, h as int)), k3)
            &&& acc.ensures(((t + h) as i64, full_step_spec(v, k3, h as int)), k4)
            &&& r == rk4_spec(x, v, h as int, k1, k2, k3, k4)
        }
}

/// Where `acc` gives one output for each input, a step has one result:
/// identical inputs give identical results.
pub proof fn lemma_rk4_deterministic<V: VectorSpace, F: Fn(i64, V) -> V>(
    acc: F,
    t: i64,
    x: V,
    v: V,
    h: i64,
    r1: (V, V),
    r2: (V, V),
)
    requires
        forall|a: (i64, V), o1: V, o2: V|
            acc.ensures(a, o1) && acc.ensures(a, o2) ==> o1 == o2,
        rk4_outcome(acc, t, x, v, h, r1),
        rk4_outcome(acc, t, x, v, h, r2),
    ensures
        r1 == r2,
{
    let (a1, a2, a3, a4) = choose|k1: V, k2: V, k3: V, k4: V|
        {
            &&& acc.ensures((t, v), k1)
            &&& acc.ensures(((t + h / 2) as i64, half_step_spec(v, k1, h as int)), k2)
            &&& acc.ensures(((t + h / 2) as i64, half_step_spec(v, k2, h as int)), k3)
            &&& acc.ensures(((t + h) as i64, full_step_spec(v, k3, h as int)), k4)
            &&& r1 == rk4_spec(x, v, h as int, k1, k2, k3, k4)
        };
    let (b1, b2, b3, b4) = choose|k1: V, k2: V, k3: V, k4: V|
        {
            &&& acc.ensures((t, v), k1)
            &&& acc.ensures(((t + h / 2) as i64, half_step_spec(v, k1, h as int)), k2)
            &&& acc.ensures(((t + h / 2) as i64, half_step_spec(v, k2, h as int)), k3)
            &&& acc.ensures(((t + h) as i64, full_step_spec(v, k3, h as int)), k4)
            &&& r2 == rk4_spec(x, v, h as int, k1, k2, k3, k4)
        };
    assert(a1 == b1);
    assert(a2 == b2);
    assert(a3 == b3);
    assert(a4 == b4);
}

/// Advances position `x` and velocity `v` at time `t` by one step of `h`
/// microseconds, where `acc(t, v)` gives the acceleration. The stages
/// evaluate `acc` at `t`, twice at `t + h/2` and at `t + h`.
pub fn rk4<V: VectorSpace, F: Fn(i64, V) -> V>(t: i64, x: V, v: V, h: i64, acc: F) -> (r: (V, V))
    requires
        0 < h,
        t <= i64::MAX - h,
        forall|tt: i64, vv: V| acc.requires((tt, vv)),
    ensures
        rk4_outcome(acc, t, x, v, h, r),
{
    let t_mid = t + h / 2;
    let k1 = acc(t, v);
    let v2 = v.plus(k1.scaled(h, 2 * US_PER_S));
    let k2 = acc(t_mid, v2);
    let v3 = v.plus(k2.scaled(h, 2 * US_PER_S));
    let k3 = acc(t_mid, v3);
    let v4 = v.plus(k3.scaled(h, US_PER_S));
    let k4 = acc(t + h, v4);
    let dx = v.plus(v2.scaled(2, 1)).plus(v3.scaled(2, 1)).plus(v4);
    let dv = k1.plus(k2.scaled(2, 1)).plus(k3.scaled(2, 1)).plus(k4);
    let r = (x.plus(dx.scaled(h, 6 * US_PER_S)), v.plus(dv.scaled(h, 6 * US_PER_S)));
    assert(r == rk4_spec(x, v, h as int, k1, k2, k3, k4));
    r
}

} // verus!
