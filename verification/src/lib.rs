//! A minimal real-time simulation kernel: positioned entities advanced by a
//! free-running presentation tick and a fixed-rate physics tick, with a
//! Newtonian force integrator over 2D vectors.
//!
//! All scene quantities (coordinates, velocities, masses, durations in
//! seconds) are fixed-point numbers: an `i64` holding the quantity scaled by
//! [`fixed::UNIT`]. Arithmetic saturates at the `i64` range instead of
//! wrapping, and every operation's exact result is pinned down by the spec
//! functions in [`fixed`].

pub mod fixed;
pub mod graphics;
pub mod physics;

use vstd::prelude::*;

verus! {

use crate::fixed::clip;
use crate::fixed::iabs;
use crate::fixed::spec_add_sat;
use crate::fixed::spec_div_units;
use crate::fixed::spec_isqrt;
use crate::fixed::spec_mul_units;
use crate::fixed::spec_sub_sat;
use crate::fixed::UNIT;

/// A 2D vector of fixed-point scalars: each component is the real value
/// scaled by [`fixed::UNIT`].
#[derive(Clone, Copy, Debug, PartialEq, Eq, Structural)]
pub struct Vector {
    pub x: i64,
    pub y: i64,
}

/// Componentwise saturating sum.
pub open spec fn vadd(a: Vector, b: Vector) -> Vector {
    Vector { x: spec_add_sat(a.x as int, b.x as int) as i64, y: spec_add_sat(a.y as int, b.y as int) as i64 }
}

/// Componentwise saturating difference.
pub open spec fn vsub(a: Vector, b: Vector) -> Vector {
    Vector { x: spec_sub_sat(a.x as int, b.x as int) as i64, y: spec_sub_sat(a.y as int, b.y as int) as i64 }
}

/// The vector scaled by the fixed-point scalar `s`.
pub open spec fn vscale(a: Vector, s: int) -> Vector {
    Vector { x: spec_mul_units(a.x as int, s) as i64, y: spec_mul_units(a.y as int, s) as i64 }
}

/// The vector divided by the fixed-point scalar `s`.
pub open spec fn vdiv(a: Vector, s: int) -> Vector
    recommends
        s != 0,
{
    Vector { x: spec_div_units(a.x as int, s) as i64, y: spec_div_units(a.y as int, s) as i64 }
}

/// The squared length of the vector, before rescaling.
pub open spec fn vnorm2(a: Vector) -> int {
    a.x as int * a.x as int + a.y as int * a.y as int
}

/// The fixed-point magnitude: the integer square root of the squared length,
/// saturated to the scalar range.
pub open spec fn vmag(a: Vector) -> int {
    clip(spec_isqrt(vnorm2(a)))
}

impl Vector {
    /// Builds the vector with the given fixed-point components.
    pub fn new(x: i64, y: i64) -> (r: Vector)
        ensures
            r == (Vector { x, y }),
    {
        Vector { x, y }
    }

    /// The magnitude `sqrt(x^2 + y^2)`, rounded down to a whole raw step.
    pub fn get_mag(&self) -> (m: i64)
        ensures
            m as int == vmag(*self),
    {
        let mx = abs_component(self.x);
        let my = abs_component(self.y);
        proof {
            assert(mx as int * mx as int <= 0x40000000000000000000000000000000int) by (nonlinear_arith)
                requires
                    0 <= mx as int <= 0x8000000000000000int,
            ;
            assert(my as int * my as int <= 0x40000000000000000000000000000000int) by (nonlinear_arith)
                requires
                    0 <= my as int <= 0x8000000000000000int,
            ;
            assert(mx as int * mx as int == self.x as int * self.x as int) by (nonlinear_arith)
                requires
                    mx as int == iabs(self.x as int),
            ;
            assert(my as int * my as int == self.y as int * self.y as int) by (nonlinear_arith)
                requires
                    my as int == iabs(self.y as int),
            ;
        }
        let sq: u128 = mx * mx + my * my;
        let r = crate::fixed::isqrt(sq);
        if r > i64::MAX as u128 {
            i64::MAX
        } else {
            proof {
                assert(clip(spec_isqrt(vnorm2(*self))) == r as int);
            }
            r as i64
        }
    }

    /// The unit vector pointing the same way.
    ///
    /// Undefined on the zero vector: callers must guard against a zero
    /// magnitude before normalizing.
    pub fn get_unit(&self) -> (r: Vector)
        requires
            vmag(*self) > 0,
        ensures
            r == vdiv(*self, vmag(*self)),
    {
        let mag = self.get_mag();
        Vector { x: crate::fixed::div_units(self.x, mag), y: crate::fixed::div_units(self.y, mag) }
    }

    /// The unit vector pointing the same way; the receiver is not changed.
    ///
    /// Undefined on the zero vector, as for [`Vector::get_unit`].
    pub fn get_normalized(&mut self) -> (r: Vector)
        requires
            vmag(*old(self)) > 0,
        ensures
            *final(self) == *old(self),
            r == vdiv(*old(self), vmag(*old(self))),
    {
        let mag = self.get_mag();
        Vector { x: crate::fixed::div_units(self.x, mag), y: crate::fixed::div_units(self.y, mag) }
    }

    /// Saturating vector sum.
    pub fn add(self, other: Vector) -> (r: Vector)
        ensures
            r == vadd(self, other),
    {
        Vector { x: crate::fixed::sat_add(self.x, other.x), y: crate::fixed::sat_add(self.y, other.y) }
    }

    /// Saturating vector difference.
    pub fn sub(self, other: Vector) -> (r: Vector)
        ensures
            r == vsub(self, other),
    {
        Vector { x: crate::fixed::sat_sub(self.x, other.x), y: crate::fixed::sat_sub(self.y, other.y) }
    }

    /// The vector scaled by the fixed-point scalar `scalar`.
    pub fn mul(self, scalar: i64) -> (r: Vector)
        ensures
            r == vscale(self, scalar as int),
    {
        Vector { x: crate::fixed::mul_units(self.x, scalar), y: crate::fixed::mul_units(self.y, scalar) }
    }

    /// The vector divided by the nonzero fixed-point scalar `scalar`.
    pub fn div(self, scalar: i64) -> (r: Vector)
        requires
            scalar != 0,
        ensures
            r == vdiv(self, scalar as int),
    {
        Vector { x: crate::fixed::div_units(self.x, scalar), y: crate::fixed::div_units(self.y, scalar) }
    }

    /// In-place saturating sum.
    pub fn add_assign(&mut self, other: Vector)
        ensures
            *final(self) == vadd(*old(self), other),
    {
        *self = self.add(other);
    }

    /// In-place saturating difference.
    pub fn sub_assign(&mut self, other: Vector)
        ensures
            *final(self) == vsub(*old(self), other),
    {
        *self = self.sub(other);
    }

    /// In-place scaling.
    pub fn mul_assign(&mut self, scalar: i64)
        ensures
            *final(self) == vscale(*old(self), scalar as int),
    {
        *self = self.mul(scalar);
    }

    /// In-place division by a nonzero scalar.
    pub fn div_assign(&mut self, scalar: i64)
        requires
            scalar != 0,
        ensures
            *final(self) == vdiv(*old(self), scalar as int),
    {
        *self = self.div(scalar);
    }
}

/// Magnitude of a component as an unsigned wide integer.
fn abs_component(a: i64) -> (r: u128)
    ensures
        r as int == iabs(a as int),
{
    if a >= 0 {
        a as u128
    } else {
        let m: i128 = -(a as i128);
        m as u128
    }
}

/// Adding a vector and subtracting it again gives the original vector back,
/// wherever the componentwise sums stay in the scalar range.
pub proof fn lemma_add_sub_cancel(a: Vector, b: Vector)
    requires
        i64::MIN <= a.x + b.x <= i64::MAX,
        i64::MIN <= a.y + b.y <= i64::MAX,
    ensures
        vsub(vadd(a, b), b) == a,
{
}

/// Scaling by a nonzero scalar and dividing by the same scalar gives the
/// original vector back, wherever the products rescale without truncation or
/// saturation.
pub proof fn lemma_mul_div_cancel(a: Vector, s: i64)
    requires
        s != 0,
        (a.x * s) % (UNIT as int) == 0,
        (a.y * s) % (UNIT as int) == 0,
        i64::MIN <= crate::fixed::quot(a.x * s, UNIT as int) <= i64::MAX,
        i64::MIN <= crate::fixed::quot(a.y * s, UNIT as int) <= i64::MAX,
    ensures
        vdiv(vscale(a, s as int), s as int) == a,
{
    crate::fixed::lemma_units_mul_div_cancel(a.x as int, s as int);
    crate::fixed::lemma_units_mul_div_cancel(a.y as int, s as int);
}

/// Normalizing scales the magnitude to one unit: for any vector at least one
/// unit long whose magnitude is unsaturated, the magnitude of its unit
/// vector is one unit, short by at most three raw steps of truncation loss.
pub proof fn lemma_unit_mag(v: Vector)
    requires
        UNIT as int <= vmag(v),
        spec_isqrt(vnorm2(v)) <= i64::MAX as int,
    ensures
        UNIT - 3 <= vmag(vdiv(v, vmag(v))) <= UNIT as int,
{
    let u = UNIT as int;
    let x = v.x as int;
    let y = v.y as int;
    let n2 = vnorm2(v);
    assert(x * x >= 0 && y * y >= 0) by (nonlinear_arith);
    crate::fixed::lemma_isqrt_exists(n2);
    let m = spec_isqrt(n2);
    assert(vmag(v) == m);
    assert(m * m <= n2 < (m + 1) * (m + 1));
    assert(m >= u);

    // each component is at most the magnitude
    assert(iabs(x) <= m && iabs(y) <= m) by (nonlinear_arith)
        requires
            x * x + y * y < (m + 1) * (m + 1),
            x * x >= 0,
            y * y >= 0,
            m >= 0,
    ;

    // the unit vector's components are the truncated quotients, unsaturated
    crate::fixed::lemma_quot_bounds(x * u, m);
    crate::fixed::lemma_quot_bounds(y * u, m);
    let a = iabs(x) * u;
    let b = iabs(y) * u;
    assert(iabs(x * u) == a && iabs(y * u) == b) by (nonlinear_arith)
        requires
            a == iabs(x) * u,
            b == iabs(y) * u,
            u > 0,
    ;
    let ax = a / m;
    let ay = b / m;
    assert(m * ax <= a < m * ax + m);
    assert(m * ay <= b < m * ay + m);
    assert(a <= m * u && b <= m * u) by (nonlinear_arith)
        requires
            a == iabs(x) * u,
            b == iabs(y) * u,
            iabs(x) <= m,
            iabs(y) <= m,
            u > 0,
    ;
    assert(ax <= u && ay <= u) by (nonlinear_arith)
        requires
            m * ax <= a,
            m * ay <= b,
            a <= m * u,
            b <= m * u,
            m > 0,
    ;
    assert(ax >= 0 && ay >= 0);
    let qx = crate::fixed::quot(x * u, m);
    let qy = crate::fixed::quot(y * u, m);
    assert(iabs(qx) == ax && iabs(qy) == ay);
    assert(spec_div_units(x, m) == qx && spec_div_units(y, m) == qy);
    let w = vdiv(v, m);
    assert(w.x as int == qx && w.y as int == qy);
    let s = vnorm2(w);
    assert(s == ax * ax + ay * ay) by (nonlinear_arith)
        requires
            s == (w.x as int) * (w.x as int) + (w.y as int) * (w.y as int),
            iabs(w.x as int) == ax,
            iabs(w.y as int) == ay,
    ;

    // squared magnitudes of the exact products
    assert(a * a + b * b == u * u * n2) by (nonlinear_arith)
        requires
            a == iabs(x) * u,
            b == iabs(y) * u,
            n2 == x * x + y * y,
    ;

    // upper bound: the squared length is under (UNIT + 1)^2
    assert(n2 <= m * m + 2 * m) by (nonlinear_arith)
        requires
            n2 < (m + 1) * (m + 1),
    ;
    assert(m * m * s <= a * a + b * b) by (nonlinear_arith)
        requires
            s == ax * ax + ay * ay,
            m * ax <= a,
            m * ay <= b,
            ax >= 0,
            ay >= 0,
            m > 0,
    ;
    assert(s <= u * u + 2 * u) by (nonlinear_arith)
        requires
            m * m * s <= u * u * n2,
            n2 <= m * m + 2 * m,
            m >= u,
            u > 0,
            s >= 0,
    ;

    // lower bound: each truncated quotient plus one overshoots, so the
    // squared length is at least (UNIT - 3)^2
    assert(m * (ax + 1) > a && m * (ay + 1) > b) by (nonlinear_arith)
        requires
            a < m * ax + m,
            b < m * ay + m,
    ;
    assert(m * m * ((ax + 1) * (ax + 1) + (ay + 1) * (ay + 1)) > a * a + b * b)
        by (nonlinear_arith)
        requires
            m * (ax + 1) > a,
            m * (ay + 1) > b,
            a >= 0,
            b >= 0,
    ;
    assert(u * u * n2 >= (u * m) * (u * m)) by (nonlinear_arith)
        requires
            n2 >= m * m,
            u > 0,
    ;
    assert((ax + 1) * (ax + 1) + (ay + 1) * (ay + 1) > u * u) by (nonlinear_arith)
        requires
            m * m * ((ax + 1) * (ax + 1) + (ay + 1) * (ay + 1)) > a * a + b * b,
            a * a + b * b == u * u * n2,
            u * u * n2 >= (u * m) * (u * m),
            m > 0,
            u > 0,
    ;
    assert(s >= u * u - 1 - 2 * (ax + ay)) by (nonlinear_arith)
        requires
            (ax + 1) * (ax + 1) + (ay + 1) * (ay + 1) > u * u,
            s == ax * ax + ay * ay,
    ;
    assert(s >= u * u - 4 * u - 1);

    // read the bounds back through the integer square root
    crate::fixed::lemma_isqrt_exists(s);
    let r = spec_isqrt(s);
    assert(r <= u) by (nonlinear_arith)
        requires
            r * r <= s,
            s <= u * u + 2 * u,
            r >= 0,
            u > 0,
    ;
    assert(r >= u - 3) by (nonlinear_arith)
        requires
            s < (r + 1) * (r + 1),
            s >= u * u - 4 * u - 1,
            r >= 0,
            u >= 5,
    ;
    assert(vmag(w) == r);
}

/// Per-entity logic run once per variable or fixed tick with exclusive
/// access to the owning entity. Hosts implement this to attach behavior to
/// entities; nothing is assumed about what an implementation does to its
/// entity.
pub trait Behavior: Sized {
    /// Runs once per variable tick on the owning entity.
    fn update(&mut self, obj: &mut SimObject<Self>);

    /// Runs once per fixed tick on the owning entity, before integration.
    fn fixed_update(&mut self, obj: &mut SimObject<Self>);
}

/// A simulated entity: a position and rotation, an identity assigned once at
/// creation, optional render state, an optional physics body, and optional
/// per-tick behaviors.
pub struct SimObject<B> {
    pub id: u128,
    pub x: i64,
    pub y: i64,
    pub rotation: i64,
    pub render_object: Option<crate::graphics::RenderObject>,
    pub physics_object: Option<crate::physics::PhysicsObject>,
    pub update: Option<B>,
    pub fixed_update: Option<B>,
}

/// Relies on uuid::Uuid::new_v4, read out through Uuid::as_u128: a freshly
/// drawn random 128-bit identifier. Nothing is promised of its value.
#[verifier::external_body]
fn fresh_id() -> u128 {
    uuid::Uuid::new_v4().as_u128()
}

impl<B> SimObject<B> {
    /// Builds an entity at the given position and rotation, with a fresh
    /// random identity. Pass `None` for any behavior slot that is not
    /// needed.
    pub fn new(
        x: i64,
        y: i64,
        rotation: i64,
        render_object: Option<crate::graphics::RenderObject>,
        physics_object: Option<crate::physics::PhysicsObject>,
        update: Option<B>,
        fixed_update: Option<B>,
    ) -> (r: SimObject<B>)
        ensures
            r.x == x,
            r.y == y,
            r.rotation == rotation,
            r.render_object == render_object,
            r.physics_object == physics_object,
            r.update == update,
            r.fixed_update == fixed_update,
    {
        SimObject {
            id: fresh_id(),
            x,
            y,
            rotation,
            render_object,
            physics_object,
            update,
            fixed_update,
        }
    }

    /// The entity's render state, or an error when it has none.
    pub fn get_render_object(&self) -> (r: Result<&crate::graphics::RenderObject, &'static str>)
        ensures
            match r {
                Ok(ro) => self.render_object == Some(*ro),
                Err(_) => self.render_object is None,
            },
    {
        match &self.render_object {
            Some(render_object) => Ok(render_object),
            None => Err("Render object is None. Object ID: {self.id}"),
        }
    }

    /// Exclusive access to the entity's render state, or an error when it
    /// has none.
    pub fn get_render_object_mut(&mut self) -> (r: Result<
        &mut crate::graphics::RenderObject,
        &'static str,
    >)
        ensures
            match r {
                Ok(ro) => {
                    &&& old(self).render_object == Some(*ro)
                    &&& final(self).render_object == Some(*final(ro))
                    &&& final(self).id == old(self).id
                    &&& final(self).x == old(self).x
                    &&& final(self).y == old(self).y
                    &&& final(self).rotation == old(self).rotation
                    &&& final(self).physics_object == old(self).physics_object
                    &&& final(self).update == old(self).update
                    &&& final(self).fixed_update == old(self).fixed_update
                },
                Err(_) => {
                    &&& *final(self) == *old(self)
                    &&& old(self).render_object is None
                },
            },
    {
        match &mut self.render_object {
            Some(render_object) => Ok(render_object),
            None => Err("Render object is None. Object ID: {self.id}"),
        }
    }
}

/// Wall time elapsed from `last` to `now`, in microseconds; a clock that
/// moved backwards counts as no time passed.
pub open spec fn elapsed_micros(last: u64, now: u64) -> int {
    if now >= last {
        now - last
    } else {
        0
    }
}

/// Whether a fixed tick is due: wall time elapsed since the last fixed tick
/// has reached the fixed tick interval.
pub open spec fn fixed_tick_due(last_fixed: u64, now: u64, time_step: i32) -> bool {
    elapsed_micros(last_fixed, now) >= time_step as int
}

/// Wall time elapsed from `last` to `now`.
fn elapsed_exec(last: u64, now: u64) -> (r: u64)
    ensures
        r as int == elapsed_micros(last, now),
{
    if now >= last {
        now - last
    } else {
        0
    }
}

/// The simulation kernel: owns the entities and the two clocks.
///
/// Timing is driven by the host: each call to [`Simulation::update`] passes
/// the current wall time in microseconds, on any monotonic timeline that
/// starts at zero when the simulation is built.
pub struct Simulation<B> {
    pub objects: Vec<SimObject<B>>,
    pub time_step: i32,
    pub physics: crate::physics::Physics,
    last_update_time: u64,
    last_fixed_update_time: u64,
    delta_time: u64,
    fixed_delta_time: u64,
}

impl<B: Behavior> Simulation<B> {
    /// The entity set, in order.
    pub closed spec fn spec_objects(self) -> Seq<SimObject<B>> {
        self.objects@
    }

    /// The fixed tick interval in microseconds.
    pub closed spec fn spec_time_step(self) -> i32 {
        self.time_step
    }

    /// The physics world.
    pub closed spec fn spec_physics(self) -> crate::physics::Physics {
        self.physics
    }

    /// Wall time of the last variable tick.
    pub closed spec fn spec_last_update_time(self) -> u64 {
        self.last_update_time
    }

    /// Wall time of the last fixed tick.
    pub closed spec fn spec_last_fixed_update_time(self) -> u64 {
        self.last_fixed_update_time
    }

    /// Wall time between the two most recent variable ticks.
    pub closed spec fn spec_delta_time(self) -> u64 {
        self.delta_time
    }

    /// Wall time between the two most recent fixed ticks.
    pub closed spec fn spec_fixed_delta_time(self) -> u64 {
        self.fixed_delta_time
    }

    /// Builds a simulation with the given fixed tick interval in
    /// microseconds and physics world. The interval must be positive: a
    /// simulation cannot run without a fixed cadence, and the host treats a
    /// nonpositive interval as a fatal configuration error.
    pub fn new(time_step: i32, physics: crate::physics::Physics) -> (r: Simulation<B>)
        requires
            time_step > 0,
        ensures
            r.spec_objects().len() == 0,
            r.spec_time_step() == time_step,
            r.spec_physics() == physics,
            r.spec_last_update_time() == 0,
            r.spec_last_fixed_update_time() == 0,
            r.spec_delta_time() == 0,
            r.spec_fixed_delta_time() == 0,
    {
        Simulation {
            objects: Vec::new(),
            time_step,
            physics,
            last_update_time: 0,
            last_fixed_update_time: 0,
            delta_time: 0,
            fixed_delta_time: 0,
        }
    }

    /// Wall time between the two most recent variable ticks, in
    /// microseconds.
    pub fn get_delta_time(&self) -> (r: u64)
        ensures
            r == self.spec_delta_time(),
    {
        self.delta_time
    }

    /// Wall time between the two most recent fixed ticks, in microseconds.
    pub fn get_fixed_delta_time(&self) -> (r: u64)
        ensures
            r == self.spec_fixed_delta_time(),
    {
        self.fixed_delta_time
    }

    /// One variable tick at wall time `now_micros`: runs every entity's
    /// variable behavior, then exactly one fixed tick when one is due — and
    /// none otherwise, however much time has accumulated — and finally
    /// updates the frame clock.
    ///
    /// Entities with no behaviors are changed only by the physics step of a
    /// due fixed tick, and exactly as [`crate::physics::stepped_entity`]
    /// says.
    pub fn update(&mut self, now_micros: u64)
        ensures
            final(self).spec_time_step() == old(self).spec_time_step(),
            final(self).spec_physics() == old(self).spec_physics(),
            final(self).spec_objects().len() == old(self).spec_objects().len(),
            final(self).spec_last_update_time() == now_micros,
            final(self).spec_delta_time() as int == elapsed_micros(
                old(self).spec_last_update_time(),
                now_micros,
            ),
            fixed_tick_due(
                old(self).spec_last_fixed_update_time(),
                now_micros,
                old(self).spec_time_step(),
            ) ==> {
                &&& final(self).spec_last_fixed_update_time() == now_micros
                &&& final(self).spec_fixed_delta_time() as int == elapsed_micros(
                    old(self).spec_last_fixed_update_time(),
                    now_micros,
                )
                &&& forall|i: int|
                    0 <= i < old(self).spec_objects().len() && old(self).spec_objects()[i].update
                        is None && old(self).spec_objects()[i].fixed_update is None
                        ==> crate::physics::stepped_entity(
                        #[trigger] old(self).spec_objects()[i],
                        old(self).spec_physics().spec_gravity(),
                        old(self).spec_fixed_delta_time(),
                        final(self).spec_objects()[i],
                    )
            },
            !fixed_tick_due(
                old(self).spec_last_fixed_update_time(),
                now_micros,
                old(self).spec_time_step(),
            ) ==> {
                &&& final(self).spec_last_fixed_update_time() == old(
                    self,
                ).spec_last_fixed_update_time()
                &&& final(self).spec_fixed_delta_time() == old(self).spec_fixed_delta_time()
                &&& forall|i: int|
                    0 <= i < old(self).spec_objects().len() && old(self).spec_objects()[i].update
                        is None ==> final(self).spec_objects()[i] == #[trigger] old(
                        self,
                    ).spec_objects()[i]
            },
    {
        let n = self.objects.len();
        let mut i: usize = 0;
        while i < n
            invariant
                i <= n,
                self.objects@.len() == n,
                n == old(self).objects@.len(),
                self.time_step == old(self).time_step,
                self.physics == old(self).physics,
                self.spec_last_update_time() == old(self).spec_last_update_time(),
                self.spec_last_fixed_update_time() == old(self).spec_last_fixed_update_time(),
                self.spec_delta_time() == old(self).spec_delta_time(),
                self.spec_fixed_delta_time() == old(self).spec_fixed_delta_time(),
                forall|j: int|
                    0 <= j < i && old(self).objects@[j].update is None ==> self.objects@[j]
                        == #[trigger] old(self).objects@[j],
                forall|j: int| i <= j < n ==> self.objects@[j] == #[trigger] old(self).objects@[j],
            decreases n - i,
        {
            let obj = &mut self.objects[i];
            match obj.update.take() {
                Some(mut behavior) => {
                    behavior.update(obj);
                    if obj.update.is_none() {
                        obj.update = Some(behavior);
                    }
                },
                None => {},
            }
            i += 1;
        }
        let el = elapsed_exec(self.last_fixed_update_time, now_micros);
        let due = if self.time_step <= 0 {
            true
        } else {
            el >= self.time_step as u64
        };
        if due {
            self.fixed_update(now_micros);
        }
        self.delta_time = elapsed_exec(self.last_update_time, now_micros);
        self.last_update_time = now_micros;
    }

    /// One fixed tick at wall time `now_micros`: runs every entity's
    /// fixed behavior, integrates the physics of the whole entity set with
    /// the last fixed tick's measured duration, and updates the fixed
    /// clock.
    pub fn fixed_update(&mut self, now_micros: u64)
        ensures
            final(self).spec_time_step() == old(self).spec_time_step(),
            final(self).spec_physics() == old(self).spec_physics(),
            final(self).spec_objects().len() == old(self).spec_objects().len(),
            final(self).spec_last_update_time() == old(self).spec_last_update_time(),
            final(self).spec_delta_time() == old(self).spec_delta_time(),
            final(self).spec_last_fixed_update_time() == now_micros,
            final(self).spec_fixed_delta_time() as int == elapsed_micros(
                old(self).spec_last_fixed_update_time(),
                now_micros,
            ),
            forall|i: int|
                0 <= i < old(self).spec_objects().len() && old(self).spec_objects()[i].fixed_update
                    is None ==> crate::physics::stepped_entity(
                    #[trigger] old(self).spec_objects()[i],
                    old(self).spec_physics().spec_gravity(),
                    old(self).spec_fixed_delta_time(),
                    final(self).spec_objects()[i],
                ),
    {
        let n = self.objects.len();
        let mut i: usize = 0;
        while i < n
            invariant
                i <= n,
                self.objects@.len() == n,
                n == old(self).objects@.len(),
                self.time_step == old(self).time_step,
                self.physics == old(self).physics,
                self.spec_last_update_time() == old(self).spec_last_update_time(),
                self.spec_last_fixed_update_time() == old(self).spec_last_fixed_update_time(),
                self.spec_delta_time() == old(self).spec_delta_time(),
                self.spec_fixed_delta_time() == old(self).spec_fixed_delta_time(),
                forall|j: int|
                    0 <= j < i && old(self).objects@[j].fixed_update is None ==> self.objects@[j]
                        == #[trigger] old(self).objects@[j],
                forall|j: int| i <= j < n ==> self.objects@[j] == #[trigger] old(self).objects@[j],
            decreases n - i,
        {
            let obj = &mut self.objects[i];
            match obj.fixed_update.take() {
                Some(mut behavior) => {
                    behavior.fixed_update(obj);
                    if obj.fixed_update.is_none() {
                        obj.fixed_update = Some(behavior);
                    }
                },
                None => {},
            }
            i += 1;
        }
        let dt = self.fixed_delta_time;
        self.physics.update(&mut self.objects, dt);
        self.fixed_delta_time = elapsed_exec(self.last_fixed_update_time, now_micros);
        self.last_fixed_update_time = now_micros;
    }
}

/// The wall time of the most recent fixed tick after a sequence of calls to
/// [`Simulation::update`] at the given wall times, starting from a last
/// fixed tick at `last_fixed`: each call moves it forward exactly when a
/// fixed tick is due, as the contract of `update` states.
pub open spec fn last_fixed_after(last_fixed: u64, nows: Seq<u64>, time_step: i32) -> u64
    decreases nows.len(),
{
    if nows.len() == 0 {
        last_fixed
    } else {
        let prev = last_fixed_after(last_fixed, nows.drop_last(), time_step);
        if fixed_tick_due(prev, nows.last(), time_step) {
            nows.last()
        } else {
            prev
        }
    }
}

/// How many fixed ticks a sequence of calls to [`Simulation::update`] at the
/// given wall times runs: one per call on which a tick is due, never more.
pub open spec fn fixed_ticks_run(last_fixed: u64, nows: Seq<u64>, time_step: i32) -> nat
    decreases nows.len(),
{
    if nows.len() == 0 {
        0
    } else {
        let prev = last_fixed_after(last_fixed, nows.drop_last(), time_step);
        fixed_ticks_run(last_fixed, nows.drop_last(), time_step) + if fixed_tick_due(
            prev,
            nows.last(),
            time_step,
        ) {
            1nat
        } else {
            0nat
        }
    }
}

/// While every call comes strictly before one fixed tick interval has
/// elapsed since the last fixed tick, no call runs a fixed tick, however
/// many calls are made.
pub proof fn lemma_quiet_window(last_fixed: u64, nows: Seq<u64>, time_step: i32)
    requires
        forall|k: int|
            0 <= k < nows.len() ==> elapsed_micros(last_fixed, #[trigger] nows[k]) < time_step as int,
    ensures
        last_fixed_after(last_fixed, nows, time_step) == last_fixed,
        fixed_ticks_run(last_fixed, nows, time_step) == 0,
    decreases nows.len(),
{
    if nows.len() > 0 {
        lemma_quiet_window(last_fixed, nows.drop_last(), time_step);
        assert(nows.last() == nows[nows.len() - 1]);
        assert(!fixed_tick_due(last_fixed, nows.last(), time_step));
    }
}

/// Once the accumulated elapsed time crosses the fixed tick interval,
/// exactly one fixed tick runs, on the call that crosses it: there is no
/// catch-up burst, however much time has accumulated.
pub proof fn lemma_crossing_tick(last_fixed: u64, nows: Seq<u64>, time_step: i32)
    requires
        nows.len() >= 1,
        forall|k: int|
            0 <= k < nows.len() - 1 ==> elapsed_micros(last_fixed, #[trigger] nows[k])
                < time_step as int,
        elapsed_micros(last_fixed, nows.last()) >= time_step as int,
    ensures
        last_fixed_after(last_fixed, nows, time_step) == nows.last(),
        fixed_ticks_run(last_fixed, nows, time_step) == 1,
{
    lemma_quiet_window(last_fixed, nows.drop_last(), time_step);
    assert(fixed_tick_due(last_fixed, nows.last(), time_step));
}

} // verus!
