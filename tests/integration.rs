use control_sim::integration::{rk4, Vec2, VectorSpace};

#[test]
fn rk4_falling_with_drag() {
    // dv/dt = 9.81 − v, dx/dt = v, in nanometres and microseconds
    let mut x: i64 = 0;
    let mut v: i64 = 0;
    let h: i64 = 10_000;
    let mut t: i64 = 0;
    for _ in 0..10_000 {
        let (nx, nv) = rk4(t, x, v, h, |_t: i64, v: i64| 9_810_000_000 - v);
        x = nx;
        v = nv;
        t += h;
    }
    let expected = 975_914_200_000.0_f64;
    assert!(((x as f64) - expected).abs() / expected < 0.005, "x = {}", x);
    assert!((v - 9_810_000_000).abs() < 1_000, "v = {}", v);
}

#[test]
fn rk4_constant_acceleration_is_exact() {
    let g: i64 = -9_810_000;
    let (x, v) = rk4(0, 0i64, 0i64, 1_000_000, |_t: i64, _v: i64| g);
    assert_eq!(x, -4_905_000);
    assert_eq!(v, -9_810_000);
}

#[test]
fn rk4_stage_times() {
    // a(t) = t: v' = h²/2 exactly for the stages t, t+h/2, t+h/2, t+h
    let (x, v) = rk4(0, 0i64, 0i64, 2_000_000, |t: i64, _v: i64| t);
    assert_eq!(v, 2_000_000);
    // stage velocities 0, 0, 1_000_000 and 2_000_000: x' = h·4_000_000/6
    assert_eq!(x, 1_333_333);
}

#[test]
fn rk4_two_dimensional_projectile() {
    let g = Vec2 { x: 0, y: -9_810_000 };
    let x0 = Vec2 { x: 0, y: 0 };
    let v0 = Vec2 { x: 1_000_000, y: 0 };
    let (x, v) = rk4(0, x0, v0, 1_000_000, |_t: i64, _v: Vec2| g);
    assert_eq!(x, Vec2 { x: 1_000_000, y: -4_905_000 });
    assert_eq!(v, Vec2 { x: 1_000_000, y: -9_810_000 });
}

#[test]
fn fixed_point_scalar_operations() {
    assert_eq!(5i64.plus(7), 12);
    assert_eq!(i64::MAX.plus(1), i64::MAX);
    assert_eq!(i64::MIN.plus(-1), i64::MIN);
    assert_eq!(7i64.scaled(1, 2), 3);
    assert_eq!((-7i64).scaled(1, 2), -3);
    assert_eq!(i64::MAX.scaled(2, 1), i64::MAX);
    let a = Vec2 { x: 1, y: -2 };
    assert_eq!(a.plus(Vec2 { x: 3, y: 4 }), Vec2 { x: 4, y: 2 });
    assert_eq!(a.scaled(3, 1), Vec2 { x: 3, y: -6 });
}
