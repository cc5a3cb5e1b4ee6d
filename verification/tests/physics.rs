//! Scenario tests for the gravity core: mass derivation, pairwise
//! accumulation, the distance floor, the integration step, and a long
//! circular-orbit run.

use nbody::body::Body;
use nbody::body::FOUR_THIRDS_PI;
use nbody::fixed::SCALE;

/// One simulation unit in raw fixed-point units.
const UNIT: i64 = SCALE;

/// Gravitational constant of one simulation unit, used by every test.
const G: i64 = SCALE;

#[test]
fn mass_derived_from_density_and_radius() {
    // unit sphere, unit density: mass is exactly the 4/3 pi shape factor
    let a = Body::new(0, 0, 0, 0, UNIT, UNIT);
    assert_eq!(a.mass, FOUR_THIRDS_PI);
    // radius 2: eight times the volume, computed exactly in fixed point
    let b = Body::new(0, 0, 0, 0, UNIT, 2 * UNIT);
    assert_eq!(b.mass, 8 * FOUR_THIRDS_PI);
    // construction zeroes the kinematic history
    assert_eq!((a.a_x, a.a_y), (0, 0));
    assert_eq!((a.past_a_x, a.past_a_y), (0, 0));
    assert_eq!((a.past_x, a.past_y), (0, 0));
    assert_eq!(a.color, (255, 255, 255, 255));
}

#[test]
fn concrete_two_body_scenario() {
    // body A at the origin, body B ten units along +x, both unit spheres
    let mut a = Body::new(0, 0, 0, 0, UNIT, UNIT);
    let b = Body::new(10 * UNIT, 0, 0, 0, UNIT, UNIT);
    a.compute_gravity(b, G, UNIT);
    // the pull points toward +x with magnitude G * mass_B / 100,
    // which is 274517/65536 divided by 100, in fixed point
    assert!(a.a_x > 0);
    assert_eq!(a.a_x, 2745);
    assert_eq!(a.a_y, 0);
    // one integration step of size 1: x advances by 0.5 * a_x * 1^2
    a.update_self(UNIT, UNIT);
    assert_eq!(a.x, 1372);
    assert_eq!(a.y, 0);
    assert_eq!(a.past_x, 0);
    assert_eq!(a.past_a_x, 2745);
}

#[test]
fn accumulation_is_a_contribution_not_an_assignment() {
    let mut a = Body::new(0, 0, 0, 0, UNIT, UNIT);
    let b = Body::new(10 * UNIT, 0, 0, 0, UNIT, UNIT);
    a.compute_gravity(b, G, UNIT);
    a.compute_gravity(b, G, UNIT);
    assert_eq!(a.a_x, 2 * 2745);
}

#[test]
fn gravity_is_symmetric() {
    // unequal masses ten units apart; each side computed independently
    let mut a = Body::new(0, 0, 0, 0, UNIT, UNIT);
    let mut b = Body::new(10 * UNIT, 0, 0, 0, UNIT, 2 * UNIT);
    let (a0, b0) = (a, b);
    a.compute_gravity(b0, G, UNIT);
    b.compute_gravity(a0, G, UNIT);
    // magnitude on A is G * mass_B / r^2, on B it is G * mass_A / r^2,
    // both with the same clamped separation r
    assert_eq!(a.a_x, 21961);
    assert_eq!(a.a_y, 0);
    assert_eq!(b.a_x, -2745);
    assert_eq!(b.a_y, 0);
    // the ratio of the magnitudes matches the ratio of the masses,
    // up to fixed-point flooring: 21961 = 8 * 2745 + 1
    assert!(a.a_x >= 8 * -b.a_x && a.a_x <= 8 * (-b.a_x + 1));
}

#[test]
fn coincident_bodies_contribute_nothing() {
    // exactly coincident: the direction vector is zero, so the clamped
    // pull has nowhere to point and the contribution is (0, 0)
    let mut a = Body::new(3 * UNIT, -2 * UNIT, 0, 0, UNIT, UNIT);
    let b = Body::new(3 * UNIT, -2 * UNIT, 0, 0, UNIT, UNIT);
    a.compute_gravity(b, G, UNIT);
    assert_eq!(a.a_x, 0);
    assert_eq!(a.a_y, 0);
}

#[test]
fn near_coincident_bodies_hit_the_distance_floor() {
    // one raw unit apart: far below the floor, so the separation clamps
    // to MIN_DISTANCE and the pull is large but well-defined and finite
    let mut a = Body::new(0, 0, 0, 0, UNIT, UNIT);
    let b = Body::new(1, 0, 0, 0, UNIT, UNIT);
    a.compute_gravity(b, G, UNIT);
    assert_eq!(a.a_x, 3437333981070);
    assert_eq!(a.a_y, 0);
}

#[test]
fn reset_is_idempotent() {
    let mut a = Body::new(0, 0, 0, 0, UNIT, UNIT);
    let b = Body::new(10 * UNIT, 0, 0, 0, UNIT, UNIT);
    a.compute_gravity(b, G, UNIT);
    assert_ne!((a.a_x, a.a_y), (0, 0));
    a.reset_acceleration();
    assert_eq!((a.a_x, a.a_y), (0, 0));
    // resetting again, with no accumulation in between, changes nothing
    let saved = a;
    a.reset_acceleration();
    assert_eq!(a, saved);
}

#[test]
fn integration_is_deterministic() {
    // two bodies with identical state, stepped independently, stay
    // bit-identical
    let mut a = Body::new(5 * UNIT, -7 * UNIT, UNIT / 3, -UNIT / 5, UNIT, UNIT);
    let other = Body::new(-4 * UNIT, 2 * UNIT, 0, 0, UNIT, 3 * UNIT);
    a.compute_gravity(other, G, UNIT);
    a.update_self(UNIT, UNIT);
    let mut b = a;
    let mut c = a;
    b.compute_gravity(other, G, UNIT);
    b.update_self(UNIT / 2, UNIT);
    c.compute_gravity(other, G, UNIT);
    c.update_self(UNIT / 2, UNIT);
    assert_eq!(b, c);
}

#[test]
fn circular_orbit_separation_stays_bounded() {
    // a heavy central sphere and a light satellite on a circular orbit:
    // v = sqrt(G * M / r), with about 5000 steps per revolution; over
    // two revolutions the separation must stay within 5% of its start
    let r0: i64 = 2330646060;
    let v0: i64 = 2913308;
    let mut central = Body::new(0, 0, 0, 0, UNIT, 256 * UNIT);
    let mut satellite = Body::new(r0, 0, 0, v0, UNIT, 656);
    assert_eq!(satellite.mass, 0);
    let lo: i128 = (r0 as i128) * 95 / 100;
    let hi: i128 = (r0 as i128) * 105 / 100;
    let mut total: i64 = 0;
    for _ in 0..10000 {
        central.reset_acceleration();
        satellite.reset_acceleration();
        central.compute_gravity(satellite, G, UNIT);
        satellite.compute_gravity(central, G, UNIT);
        central.update_self(UNIT, total);
        satellite.update_self(UNIT, total);
        total += UNIT;
        let dx: i128 = (satellite.x - central.x) as i128;
        let dy: i128 = (satellite.y - central.y) as i128;
        let s2: i128 = dx * dx + dy * dy;
        assert!(s2 >= lo * lo, "orbit decayed below tolerance");
        assert!(s2 <= hi * hi, "orbit drifted above tolerance");
    }
    // the massless satellite never moves the central body
    assert_eq!((central.x, central.y), (0, 0));
}
