//! The simulation body and its two operations: gravitational
//! acceleration accumulation and the kinematic integration step.
//!
//! All scalars are saturating fixed-point `i64` values (see
//! [`crate::fixed`]); the driver is expected to zero each body's
//! acceleration, accumulate the contribution of every other body, and
//! only then integrate, once per step.

use crate::fixed::fp_add;
use crate::fixed::fp_add_spec;
use crate::fixed::fp_div;
use crate::fixed::fp_div_spec;
use crate::fixed::fp_half;
use crate::fixed::fp_half_spec;
use crate::fixed::fp_mul;
use crate::fixed::fp_mul_spec;
use crate::fixed::fp_sqrt;
use crate::fixed::fp_sqrt_spec;
use crate::fixed::fp_sub;
use crate::fixed::fp_sub_spec;
use vstd::prelude::*;

verus! {

/// `4/3 * pi` in fixed-point units, the shape factor of the mass of a
/// sphere of given radius and density.
pub const FOUR_THIRDS_PI: i64 = 274517;

/// Distance floor in raw fixed-point units (about `1e-4` simulation
/// units). Clamping the separation to this floor avoids a division by
/// zero when two bodies coincide or nearly coincide; it is a
/// numerical-stability policy, not physical truth.
pub const MIN_DISTANCE: i64 = 7;

/// A point mass: current and previous kinematic state plus the physical
/// parameters it was built from.
#[derive(Clone, Copy, PartialEq, Debug)]
pub struct Body {
    /// Acceleration of the previous step, already scaled by that step's
    /// time delta.
    pub past_a_x: i64,
    pub past_a_y: i64,
    /// Position at the prior integration step.
    pub past_x: i64,
    pub past_y: i64,
    /// Current position, mutated only by the integration step.
    pub x: i64,
    pub y: i64,
    /// Acceleration accumulated during the current step; the driver must
    /// reset it to zero before each accumulation round.
    pub a_x: i64,
    pub a_y: i64,
    /// Current velocity, mutated only by the integration step.
    pub v_x: i64,
    pub v_y: i64,
    /// Derived at construction from `size` and `density`, never mutated.
    pub mass: i64,
    /// Radius of the body, fixed at construction.
    pub size: i64,
    /// Density of the body, fixed at construction.
    pub density: i64,
    /// Display color; the rendering collaborator may overwrite it.
    pub color: (u8, u8, u8, u8),
}

/// Mass of a sphere: `4/3 * pi * size^3 * density`, evaluated left to
/// right in fixed point.
pub open spec fn mass_spec(size: int, density: int) -> int {
    fp_mul_spec(fp_mul_spec(fp_mul_spec(fp_mul_spec(FOUR_THIRDS_PI as int, size), size), size), density)
}

/// Displacement from `slf` toward `other`, x component.
pub open spec fn grav_dx(slf: Body, other: Body) -> int {
    fp_sub_spec(other.x as int, slf.x as int)
}

/// Displacement from `slf` toward `other`, y component.
pub open spec fn grav_dy(slf: Body, other: Body) -> int {
    fp_sub_spec(other.y as int, slf.y as int)
}

/// Squared Euclidean separation of the two bodies.
pub open spec fn grav_dist2(slf: Body, other: Body) -> int {
    fp_add_spec(
        fp_mul_spec(grav_dx(slf, other), grav_dx(slf, other)),
        fp_mul_spec(grav_dy(slf, other), grav_dy(slf, other)),
    )
}

/// Euclidean separation of the two bodies, clamped below by the
/// distance floor.
pub open spec fn grav_distance(slf: Body, other: Body) -> int {
    let s = fp_sqrt_spec(grav_dist2(slf, other));
    if s < MIN_DISTANCE as int {
        MIN_DISTANCE as int
    } else {
        s
    }
}

/// Magnitude of the gravitational acceleration a body of mass
/// `other_mass` imparts at separation `distance`: Newton's
/// `G * m_other / r^2`; the attracted body's own mass cancels out of
/// `F / m_self`, so it never enters the computation.
pub open spec fn grav_accel_mag(gravity: int, other_mass: int, distance: int) -> int {
    fp_div_spec(fp_div_spec(fp_mul_spec(gravity, other_mass), distance), distance)
}

/// Magnitude of the mutual gravitational force, `G * (m_a * m_b) / r^2`,
/// with the two masses multiplied together first so that the expression
/// is literally unchanged under swapping the bodies.
pub open spec fn force_mag_spec(gravity: int, m_a: int, m_b: int, distance: int) -> int {
    fp_div_spec(fp_div_spec(fp_mul_spec(gravity, fp_mul_spec(m_a, m_b)), distance), distance)
}

/// Acceleration contribution of `other` on `slf`, x component: the unit
/// direction toward `other` times the acceleration magnitude.
pub open spec fn grav_contrib_x(slf: Body, other: Body, gravity: int) -> int {
    let d = grav_distance(slf, other);
    fp_mul_spec(fp_div_spec(grav_dx(slf, other), d), grav_accel_mag(gravity, other.mass as int, d))
}

/// Acceleration contribution of `other` on `slf`, y component.
pub open spec fn grav_contrib_y(slf: Body, other: Body, gravity: int) -> int {
    let d = grav_distance(slf, other);
    fp_mul_spec(fp_div_spec(grav_dy(slf, other), d), grav_accel_mag(gravity, other.mass as int, d))
}

/// State of `slf` after accumulating the gravitational pull of `other`:
/// only the acceleration changes, and it changes by adding the
/// contribution of `other`.
pub open spec fn grav_step_spec(slf: Body, other: Body, gravity: int) -> Body {
    Body {
        a_x: fp_add_spec(slf.a_x as int, grav_contrib_x(slf, other, gravity)) as i64,
        a_y: fp_add_spec(slf.a_y as int, grav_contrib_y(slf, other, gravity)) as i64,
        ..slf
    }
}

/// State of `b` after one leapfrog integration step of size `mult`:
/// the position advances by `v * mult + 0.5 * a * mult^2`, the velocity
/// by the average of the current acceleration and the previous step's
/// already-scaled acceleration, and the current acceleration, scaled by
/// `mult`, is carried over as the next step's previous acceleration.
pub open spec fn integrate_spec(b: Body, mult: int) -> Body {
    let half_at2_x = fp_half_spec(fp_mul_spec(fp_mul_spec(b.a_x as int, mult), mult));
    let half_at2_y = fp_half_spec(fp_mul_spec(fp_mul_spec(b.a_y as int, mult), mult));
    Body {
        past_x: b.x,
        past_y: b.y,
        x: fp_add_spec(b.x as int, fp_add_spec(fp_mul_spec(b.v_x as int, mult), half_at2_x)) as i64,
        y: fp_add_spec(b.y as int, fp_add_spec(fp_mul_spec(b.v_y as int, mult), half_at2_y)) as i64,
        v_x: fp_add_spec(b.v_x as int, fp_half_spec(fp_add_spec(b.a_x as int, b.past_a_x as int))) as i64,
        v_y: fp_add_spec(b.v_y as int, fp_half_spec(fp_add_spec(b.a_y as int, b.past_a_y as int))) as i64,
        past_a_x: fp_mul_spec(b.a_x as int, mult) as i64,
        past_a_y: fp_mul_spec(b.a_y as int, mult) as i64,
        ..b
    }
}

/// State of `b` with its accumulated acceleration zeroed, as the driver
/// must do before each accumulation round.
pub open spec fn reset_spec(b: Body) -> Body {
    Body { a_x: 0, a_y: 0, ..b }
}

/// Gravity is symmetric: as long as the coordinate differences do not
/// saturate, the separation computed from either body's side is the
/// same; at that shared separation the acceleration magnitudes of the
/// two pulls are `G * m_other / r^2` with the bodies' masses swapped,
/// and the mutual force magnitude `G * (m_a * m_b) / r^2` is identical
/// regardless of which body's accumulation is computed first.
pub proof fn lemma_gravity_symmetry(a: Body, b: Body, gravity: int)
    requires
        -(i64::MAX as int) <= a.x - b.x <= i64::MAX as int,
        -(i64::MAX as int) <= a.y - b.y <= i64::MAX as int,
    ensures
        grav_distance(a, b) == grav_distance(b, a),
        grav_accel_mag(gravity, b.mass as int, grav_distance(a, b)) == grav_accel_mag(
            gravity,
            b.mass as int,
            grav_distance(b, a),
        ),
        grav_accel_mag(gravity, a.mass as int, grav_distance(b, a)) == grav_accel_mag(
            gravity,
            a.mass as int,
            grav_distance(a, b),
        ),
        force_mag_spec(gravity, a.mass as int, b.mass as int, grav_distance(a, b))
            == force_mag_spec(gravity, b.mass as int, a.mass as int, grav_distance(b, a)),
{
    let dxab = grav_dx(a, b);
    let dxba = grav_dx(b, a);
    let dyab = grav_dy(a, b);
    let dyba = grav_dy(b, a);
    assert(dxab == -dxba);
    assert(dyab == -dyba);
    assert(dxab * dxab == dxba * dxba) by (nonlinear_arith)
        requires
            dxab == -dxba,
    ;
    assert(dyab * dyab == dyba * dyba) by (nonlinear_arith)
        requires
            dyab == -dyba,
    ;
    assert(grav_dist2(a, b) == grav_dist2(b, a));
    assert((a.mass as int) * (b.mass as int) == (b.mass as int) * (a.mass as int))
        by (nonlinear_arith);
}

/// With the distance floor, two bodies at the same position still see a
/// defined, bounded pull: the clamped separation is exactly
/// `MIN_DISTANCE`, the acceleration magnitude is exactly
/// `G * m_other / MIN_DISTANCE^2`, and the contribution actually added
/// is the zero vector, since the direction vector is zero.
pub proof fn lemma_coincident_bounded(a: Body, b: Body, gravity: int)
    requires
        a.x == b.x,
        a.y == b.y,
    ensures
        grav_distance(a, b) == MIN_DISTANCE as int,
        grav_accel_mag(gravity, b.mass as int, grav_distance(a, b)) == fp_div_spec(
            fp_div_spec(fp_mul_spec(gravity, b.mass as int), MIN_DISTANCE as int),
            MIN_DISTANCE as int,
        ),
        grav_contrib_x(a, b, gravity) == 0,
        grav_contrib_y(a, b, gravity) == 0,
        grav_step_spec(a, b, gravity) == a,
{
    assert(grav_dx(a, b) == 0);
    assert(grav_dy(a, b) == 0);
    assert(fp_mul_spec(0, 0) == 0);
    assert(grav_dist2(a, b) == 0);
    assert(crate::fixed::sqrt_floor(0) == 0);
    assert(grav_distance(a, b) == MIN_DISTANCE as int);
    assert(fp_div_spec(0, MIN_DISTANCE as int) == 0);
    let mag = grav_accel_mag(gravity, b.mass as int, MIN_DISTANCE as int);
    assert(0 * mag == 0) by (nonlinear_arith);
    assert(fp_mul_spec(0, mag) == 0);
}

/// Whenever two bodies are effectively at the same position - their
/// separation falls below the distance floor - the floor engages: the
/// clamped separation is exactly `MIN_DISTANCE`, and the acceleration
/// magnitude is the bounded value `G * m_other / MIN_DISTANCE^2` rather
/// than a singularity.
pub proof fn lemma_distance_floor_engages(a: Body, b: Body, gravity: int)
    requires
        fp_sqrt_spec(grav_dist2(a, b)) < MIN_DISTANCE as int,
    ensures
        grav_distance(a, b) == MIN_DISTANCE as int,
        grav_accel_mag(gravity, b.mass as int, grav_distance(a, b)) == fp_div_spec(
            fp_div_spec(fp_mul_spec(gravity, b.mass as int), MIN_DISTANCE as int),
            MIN_DISTANCE as int,
        ),
{
}

/// The zero-reset is idempotent: resetting an already-reset body
/// changes nothing, so any number of resets before an accumulation
/// round leaves the acceleration at `(0, 0)`.
pub proof fn lemma_reset_idempotent(b: Body)
    ensures
        reset_spec(reset_spec(b)) == reset_spec(b),
        reset_spec(b).a_x == 0,
        reset_spec(b).a_y == 0,
{
}

/// The integration step is a pure function of the starting state and
/// the step size: two runs from identical state produce identical
/// results, bit for bit.
pub proof fn lemma_integrate_deterministic(b1: Body, b2: Body, mult: i64)
    requires
        b1 == b2,
    ensures
        integrate_spec(b1, mult as int) == integrate_spec(b2, mult as int),
{
}

impl Body {
    /// Build a body at `(x, y)` with velocity `(v_x, v_y)`; the mass is
    /// derived from the radius and density and never recomputed.
    pub fn new(x: i64, y: i64, v_x: i64, v_y: i64, density: i64, size: i64) -> (b: Body)
        ensures
            b.x == x,
            b.y == y,
            b.v_x == v_x,
            b.v_y == v_y,
            b.density == density,
            b.size == size,
            b.mass as int == mass_spec(size as int, density as int),
            b.a_x == 0,
            b.a_y == 0,
            b.past_a_x == 0,
            b.past_a_y == 0,
            b.past_x == 0,
            b.past_y == 0,
            b.color == (255u8, 255u8, 255u8, 255u8),
    {
        let m3: i64 = fp_mul(fp_mul(fp_mul(FOUR_THIRDS_PI, size), size), size);
        let mass: i64 = fp_mul(m3, density);
        Body {
            past_a_x: 0,
            past_a_y: 0,
            past_x: 0,
            past_y: 0,
            x,
            y,
            v_x,
            v_y,
            a_x: 0,
            a_y: 0,
            mass,
            size,
            density,
            color: (255, 255, 255, 255),
        }
    }

    /// Zero the accumulated acceleration, leaving every other field
    /// unchanged; the driver calls this once per body per step, before
    /// re-accumulating forces.
    pub fn reset_acceleration(&mut self)
        ensures
            *final(self) == reset_spec(*old(self)),
            final(self).a_x == 0,
            final(self).a_y == 0,
    {
        self.a_x = 0;
        self.a_y = 0;
    }

    /// Add the gravitational acceleration that `body` imparts on this
    /// body into the accumulated acceleration; a contribution, not an
    /// assignment. The separation is clamped below by `MIN_DISTANCE`, so
    /// the result is defined (and the magnitude bounded) even for
    /// coincident bodies. `_mult` is the step size; like the original
    /// scheme, the accumulation itself does not consume it.
    pub fn compute_gravity(&mut self, body: Body, gravity: i64, _mult: i64)
        ensures
            *final(self) == grav_step_spec(*old(self), body, gravity as int),
            final(self).a_x as int == fp_add_spec(
                old(self).a_x as int,
                grav_contrib_x(*old(self), body, gravity as int),
            ),
            final(self).a_y as int == fp_add_spec(
                old(self).a_y as int,
                grav_contrib_y(*old(self), body, gravity as int),
            ),
            final(self).x == old(self).x,
            final(self).y == old(self).y,
            final(self).v_x == old(self).v_x,
            final(self).v_y == old(self).v_y,
    {
        let dx: i64 = fp_sub(body.x, self.x);
        let dy: i64 = fp_sub(body.y, self.y);
        proof {
            crate::fixed::lemma_fp_square_nonneg(dx as int);
            crate::fixed::lemma_fp_square_nonneg(dy as int);
        }
        let d2: i64 = fp_add(fp_mul(dx, dx), fp_mul(dy, dy));
        let mut distance: i64 = fp_sqrt(d2);
        if distance < MIN_DISTANCE {
            distance = MIN_DISTANCE;
        }
        let unit_x: i64 = fp_div(dx, distance);
        let unit_y: i64 = fp_div(dy, distance);
        let acc: i64 = fp_div(fp_div(fp_mul(gravity, body.mass), distance), distance);
        self.a_x = fp_add(self.a_x, fp_mul(unit_x, acc));
        self.a_y = fp_add(self.a_y, fp_mul(unit_y, acc));
    }

    /// Advance position and velocity by one step of size `mult`,
    /// assuming the acceleration holds the fully accumulated value for
    /// this step. The velocity update averages the unscaled current
    /// acceleration with the previous step's already-scaled one; that
    /// asymmetry is intentional to this leapfrog variant. `_total_time`
    /// is carried for interface compatibility and not consumed.
    pub fn update_self(&mut self, mult: i64, _total_time: i64)
        ensures
            *final(self) == integrate_spec(*old(self), mult as int),
            final(self).past_x == old(self).x,
            final(self).past_y == old(self).y,
            final(self).a_x == old(self).a_x,
            final(self).a_y == old(self).a_y,
            final(self).mass == old(self).mass,
    {
        self.past_x = self.x;
        self.past_y = self.y;

        self.x = fp_add(self.x, fp_add(fp_mul(self.v_x, mult), fp_half(fp_mul(fp_mul(self.a_x, mult), mult))));
        self.y = fp_add(self.y, fp_add(fp_mul(self.v_y, mult), fp_half(fp_mul(fp_mul(self.a_y, mult), mult))));

        self.v_x = fp_add(self.v_x, fp_half(fp_add(self.a_x, self.past_a_x)));
        self.v_y = fp_add(self.v_y, fp_half(fp_add(self.a_y, self.past_a_y)));

        self.past_a_x = fp_mul(self.a_x, mult);
        self.past_a_y = fp_mul(self.a_y, mult);
    }
}

} // verus!
