//! The fixed-tick Newtonian integrator and the physics state attached to an
//! entity.
//!
//! Each fixed tick, for every entity that carries a [`PhysicsObject`], the
//! world rewrites force slot 0 with the gravity force, sums all applied
//! forces, derives the acceleration, advances the velocity by one step
//! (semi-implicit Euler), moves the entity by the new velocity, and clears
//! the injected forces, which are single-tick impulses.

use vstd::prelude::*;

use crate::fixed::clip;
use crate::fixed::spec_add_sat;
use crate::fixed::UNIT;
use crate::vadd;
use crate::vdiv;
use crate::vscale;
use crate::SimObject;
use crate::Vector;

verus! {

/// Geometric descriptor of an entity's physical extent. Purely descriptive:
/// no collision algorithm consumes it yet. Lengths are fixed-point scalars.
#[derive(Clone, Copy, Debug, PartialEq, Eq, Structural)]
pub enum ColliderType {
    Circle { radius: i64 },
    Rectangle { width: i64, height: i64 },
    Line { length: i64 },
}

/// The zero vector.
pub open spec fn vzero() -> Vector {
    Vector { x: 0, y: 0 }
}

/// Saturating sum of the first `n` entries of a force list.
pub open spec fn vsum_prefix(fs: Seq<Vector>, n: int) -> Vector
    decreases n,
{
    if n <= 0 {
        vzero()
    } else {
        vadd(vsum_prefix(fs, n - 1), fs[n - 1])
    }
}

/// Physics state owned by exactly one entity. Force slot 0 is reserved for
/// the gravity contribution and is overwritten every fixed tick; the
/// remaining slots are externally injected single-tick impulses.
pub struct PhysicsObject {
    collider: ColliderType,
    mass: i64,
    velocity: Vector,
    acceleration: Vector,
    forces: Vec<Vector>,
}

impl PhysicsObject {
    /// The mass is positive and the gravity slot always exists: enforced at
    /// construction and preserved by every operation.
    #[verifier::type_invariant]
    spec fn wf(self) -> bool {
        self.mass > 0 && self.forces@.len() >= 1
    }

    /// The collider descriptor.
    pub closed spec fn spec_collider(self) -> ColliderType {
        self.collider
    }

    /// The mass, a positive fixed-point scalar.
    pub closed spec fn spec_mass(self) -> i64 {
        self.mass
    }

    /// The current velocity.
    pub closed spec fn spec_velocity(self) -> Vector {
        self.velocity
    }

    /// The acceleration computed by the last fixed tick.
    pub closed spec fn spec_acceleration(self) -> Vector {
        self.acceleration
    }

    /// The applied forces; slot 0 is the gravity slot.
    pub closed spec fn spec_forces(self) -> Seq<Vector> {
        self.forces@
    }

    /// Builds a physics body. The mass must be positive: a nonpositive mass
    /// is a fatal configuration error, checked by the host before
    /// construction.
    pub fn new(collider: ColliderType, mass: i64, velocity: Vector, acceleration: Vector) -> (r:
        PhysicsObject)
        requires
            mass > 0,
        ensures
            r.spec_collider() == collider,
            r.spec_mass() == mass,
            r.spec_velocity() == velocity,
            r.spec_acceleration() == acceleration,
            r.spec_forces() =~= seq![vzero()],
    {
        let mut forces: Vec<Vector> = Vec::new();
        forces.push(Vector::new(0, 0));
        PhysicsObject { collider, mass, velocity, acceleration, forces }
    }

    /// Injects an external force for the next fixed tick. Injected forces
    /// are cleared after each integration step.
    pub fn apply_force(&mut self, force: Vector)
        ensures
            final(self).spec_forces() =~= old(self).spec_forces().push(force),
            final(self).spec_collider() == old(self).spec_collider(),
            final(self).spec_mass() == old(self).spec_mass(),
            final(self).spec_velocity() == old(self).spec_velocity(),
            final(self).spec_acceleration() == old(self).spec_acceleration(),
    {
        proof {
            use_type_invariant(&*self);
        }
        let mut fs: Vec<Vector> = Vec::new();
        fs.push(Vector::new(0, 0));
        std::mem::swap(&mut fs, &mut self.forces);
        fs.push(force);
        std::mem::swap(&mut fs, &mut self.forces);
    }

    /// The mass as a fixed-point scalar; always positive.
    pub fn get_mass(&self) -> (r: i64)
        ensures
            r == self.spec_mass(),
            r > 0,
    {
        proof {
            use_type_invariant(self);
        }
        self.mass
    }

    /// The current velocity.
    pub fn get_velocity(&self) -> (r: Vector)
        ensures
            r == self.spec_velocity(),
    {
        self.velocity
    }

    /// The acceleration computed by the last fixed tick.
    pub fn get_acceleration(&self) -> (r: Vector)
        ensures
            r == self.spec_acceleration(),
    {
        self.acceleration
    }

    /// How many force slots are filled, the gravity slot included.
    pub fn get_force_count(&self) -> (r: usize)
        ensures
            r == self.spec_forces().len(),
            r >= 1,
    {
        proof {
            use_type_invariant(self);
        }
        self.forces.len()
    }
}

/// The gravity force on a body of mass `m`: `g * m`.
pub open spec fn grav_force(g: Vector, m: i64) -> Vector {
    vscale(g, m as int)
}

/// The net force of a body under gravity `g`: the saturating sum of its
/// force list with slot 0 replaced by the gravity force.
pub open spec fn net_force(p: PhysicsObject, g: Vector) -> Vector {
    let fs = p.spec_forces().update(0, grav_force(g, p.spec_mass()));
    vsum_prefix(fs, fs.len() as int)
}

/// The acceleration of a body for this tick: net force over mass.
pub open spec fn step_accel(p: PhysicsObject, g: Vector) -> Vector {
    vdiv(net_force(p, g), p.spec_mass() as int)
}

/// A tick duration in microseconds read as a fixed-point scalar in seconds:
/// one microsecond is one raw step.
pub open spec fn dt_scalar(dt_micros: u64) -> int {
    clip(dt_micros as int)
}

/// The velocity after one fixed tick of length `dt_micros`: semi-implicit
/// Euler advances the velocity before the position.
pub open spec fn step_velocity(p: PhysicsObject, g: Vector, dt_micros: u64) -> Vector {
    vadd(p.spec_velocity(), vscale(step_accel(p, g), dt_scalar(dt_micros)))
}

/// The displacement of one fixed tick: the new velocity times the tick
/// length.
pub open spec fn step_displacement(p: PhysicsObject, g: Vector, dt_micros: u64) -> Vector {
    vscale(step_velocity(p, g, dt_micros), dt_scalar(dt_micros))
}

/// Relates a body to its state after one fixed tick under gravity `g`:
/// acceleration and velocity advanced, injected forces cleared, and the
/// gravity slot rewritten.
pub open spec fn stepped_body(p: PhysicsObject, g: Vector, dt_micros: u64, q: PhysicsObject) -> bool {
    &&& q.spec_collider() == p.spec_collider()
    &&& q.spec_mass() == p.spec_mass()
    &&& q.spec_acceleration() == step_accel(p, g)
    &&& q.spec_velocity() == step_velocity(p, g, dt_micros)
    &&& q.spec_forces() =~= seq![grav_force(g, p.spec_mass())]
}

/// Relates an entity to its state after one fixed tick: an entity without a
/// physics body is left exactly as it was; one with a body keeps its
/// identity, rotation, render state and behaviors, moves by the tick's
/// displacement, and carries the stepped body.
pub open spec fn stepped_entity<B>(
    e: SimObject<B>,
    g: Vector,
    dt_micros: u64,
    e2: SimObject<B>,
) -> bool {
    match (e.physics_object, e2.physics_object) {
        (Option::Some(p), Option::Some(q)) => {
            &&& stepped_body(p, g, dt_micros, q)
            &&& e2.x as int == spec_add_sat(e.x as int, step_displacement(p, g, dt_micros).x as int)
            &&& e2.y as int == spec_add_sat(e.y as int, step_displacement(p, g, dt_micros).y as int)
            &&& e2.id == e.id
            &&& e2.rotation == e.rotation
            &&& e2.render_object == e.render_object
            &&& e2.update == e.update
            &&& e2.fixed_update == e.fixed_update
        },
        (Option::None, Option::None) => e2 == e,
        _ => false,
    }
}

/// The physics world: a constant gravity field applied to every entity with
/// a physics body, once per fixed tick.
pub struct Physics {
    gravity: Vector,
}

impl Physics {
    /// The gravity field, fixed at construction.
    pub closed spec fn spec_gravity(self) -> Vector {
        self.gravity
    }

    /// Builds a world with the given constant gravity field.
    pub fn new(gravity: Vector) -> (r: Physics)
        ensures
            r.spec_gravity() == gravity,
    {
        Physics { gravity }
    }

    /// The gravity field.
    pub fn get_gravity(&self) -> (r: Vector)
        ensures
            r == self.spec_gravity(),
    {
        self.gravity
    }

    /// Integrates every entity with a physics body by one fixed tick of
    /// `fixed_delta_micros` microseconds; entities without a body are left
    /// untouched.
    pub fn update<B>(&mut self, objects: &mut Vec<SimObject<B>>, fixed_delta_micros: u64)
        ensures
            *final(self) == *old(self),
            final(objects).len() == old(objects).len(),
            forall|i: int|
                0 <= i < old(objects).len() ==> stepped_entity(
                    #[trigger] old(objects)@[i],
                    old(self).spec_gravity(),
                    fixed_delta_micros,
                    final(objects)@[i],
                ),
    {
        let g = self.gravity;
        let dt = dt_to_scalar(fixed_delta_micros);
        let n = objects.len();
        let mut i: usize = 0;
        while i < n
            invariant
                i <= n,
                objects.len() == n,
                n == old(objects).len(),
                *self == *old(self),
                g == old(self).spec_gravity(),
                dt as int == dt_scalar(fixed_delta_micros),
                forall|j: int|
                    0 <= j < i ==> stepped_entity(
                        #[trigger] old(objects)@[j],
                        g,
                        fixed_delta_micros,
                        objects@[j],
                    ),
                forall|j: int| i <= j < n ==> objects@[j] == #[trigger] old(objects)@[j],
            decreases n - i,
        {
            let obj = &mut objects[i];
            match obj.physics_object.take() {
                Option::Some(b) => {
                    proof {
                        use_type_invariant(&b);
                    }
                    let m = b.mass;
                    let gf = self.calc_gravity_force(m);
                    let ghost fs = b.forces@.update(0, gf);
                    let len = b.forces.len();
                    let mut net = gf;
                    proof {
                        assert(vsum_prefix(fs, 0) == vzero());
                        assert(vadd(vzero(), gf) == gf);
                        assert(fs[0] == gf);
                        assert(net == vsum_prefix(fs, 1));
                    }
                    let mut k: usize = 1;
                    while k < len
                        invariant
                            1 <= k <= len,
                            len == b.forces@.len(),
                            fs == b.forces@.update(0, gf),
                            net == vsum_prefix(fs, k as int),
                        decreases len - k,
                    {
                        net = net.add(b.forces[k]);
                        proof {
                            assert(fs[k as int] == b.forces@[k as int]);
                        }
                        k += 1;
                    }
                    let acc = self.calc_accel(net, m);
                    let v2 = self.calc_velo(acc, b.velocity, dt);
                    let disp = self.calc_displacement(v2, dt);
                    let mut nf: Vec<Vector> = Vec::new();
                    nf.push(gf);
                    let q = PhysicsObject {
                        collider: b.collider,
                        mass: m,
                        velocity: v2,
                        acceleration: acc,
                        forces: nf,
                    };
                    obj.x = crate::fixed::sat_add(obj.x, disp.x);
                    obj.y = crate::fixed::sat_add(obj.y, disp.y);
                    obj.physics_object = Some(q);
                },
                Option::None => {},
            }
            i += 1;
        }
    }

    /// The gravity force on a body of mass `mass`: `F = m * g`.
    fn calc_gravity_force(&mut self, mass: i64) -> (r: Vector)
        ensures
            *final(self) == *old(self),
            r == grav_force(old(self).spec_gravity(), mass),
    {
        self.gravity.mul(mass)
    }

    /// The acceleration produced by `force` on a body of mass `mass`:
    /// `a = F / m`.
    fn calc_accel(&mut self, force: Vector, mass: i64) -> (r: Vector)
        requires
            mass != 0,
        ensures
            *final(self) == *old(self),
            r == vdiv(force, mass as int),
    {
        force.div(mass)
    }

    /// The velocity after one tick: `v = u + a * t`.
    fn calc_velo(&mut self, accel: Vector, old_velo: Vector, dt: i64) -> (r: Vector)
        ensures
            *final(self) == *old(self),
            r == vadd(old_velo, vscale(accel, dt as int)),
    {
        old_velo.add(accel.mul(dt))
    }

    /// The displacement of one tick: `s = v * t`.
    fn calc_displacement(&mut self, velo: Vector, dt: i64) -> (r: Vector)
        ensures
            *final(self) == *old(self),
            r == vscale(velo, dt as int),
    {
        velo.mul(dt)
    }
}

/// An entity at rest: it carries a body of positive mass with zero velocity
/// and no injected forces.
pub open spec fn at_rest<B>(e: SimObject<B>) -> bool {
    match e.physics_object {
        Option::Some(p) => {
            &&& p.spec_mass() > 0
            &&& p.spec_velocity() == vzero()
            &&& p.spec_forces().len() == 1
        },
        Option::None => false,
    }
}

/// One fixed tick under zero gravity keeps an entity at rest exactly where
/// it is: position and rotation are unchanged and the entity is at rest
/// again.
pub proof fn lemma_rest_state_step<B>(e: SimObject<B>, e2: SimObject<B>, dt_micros: u64)
    requires
        at_rest(e),
        stepped_entity(e, vzero(), dt_micros, e2),
    ensures
        at_rest(e2),
        e2.x == e.x,
        e2.y == e.y,
        e2.rotation == e.rotation,
{
    let p = e.physics_object->Some_0;
    let q = e2.physics_object->Some_0;
    let m = p.spec_mass();
    assert(grav_force(vzero(), m) == vzero());
    let fs = p.spec_forces().update(0, vzero());
    assert(fs.len() == 1);
    assert(fs[0] == vzero());
    assert(vsum_prefix(fs, 0) == vzero());
    assert(net_force(p, vzero()) == vadd(vzero(), vzero()));
    assert(net_force(p, vzero()) == vzero());
    assert(crate::fixed::quot(0, m as int) == 0);
    assert(step_accel(p, vzero()) == vzero());
    assert(crate::fixed::quot(0, UNIT as int) == 0);
    assert(0 * dt_scalar(dt_micros) == 0);
    assert(vscale(vzero(), dt_scalar(dt_micros)) == vzero());
    assert(vadd(vzero(), vzero()) == vzero());
    assert(step_velocity(p, vzero(), dt_micros) == vzero());
    assert(step_displacement(p, vzero(), dt_micros) == vzero());
    assert(q.spec_velocity() == vzero());
    assert(q.spec_forces().len() == 1);
}

/// Rest-state idempotence: under zero gravity, an entity at rest with no
/// injected forces keeps its exact position and rotation through any number
/// of fixed ticks.
pub proof fn lemma_rest_state_chain<B>(states: Seq<SimObject<B>>, dts: Seq<u64>)
    requires
        states.len() == dts.len() + 1,
        at_rest(states[0]),
        forall|k: int|
            0 <= k < dts.len() ==> stepped_entity(
                #[trigger] states[k],
                vzero(),
                dts[k],
                states[k + 1],
            ),
    ensures
        forall|k: int|
            0 <= k < states.len() ==> at_rest(#[trigger] states[k]) && states[k].x == states[0].x
                && states[k].y == states[0].y && states[k].rotation == states[0].rotation,
{
    assert forall|k: int|
        0 <= k < states.len() implies at_rest(#[trigger] states[k]) && states[k].x == states[0].x
        && states[k].y == states[0].y && states[k].rotation == states[0].rotation by {
        lemma_rest_state_prefix(states, dts, k);
    }
}

/// The first `k + 1` states of a rest-state chain are all at rest in the
/// starting position.
proof fn lemma_rest_state_prefix<B>(states: Seq<SimObject<B>>, dts: Seq<u64>, k: int)
    requires
        states.len() == dts.len() + 1,
        at_rest(states[0]),
        forall|j: int|
            0 <= j < dts.len() ==> stepped_entity(
                #[trigger] states[j],
                vzero(),
                dts[j],
                states[j + 1],
            ),
        0 <= k < states.len(),
    ensures
        at_rest(states[k]),
        states[k].x == states[0].x,
        states[k].y == states[0].y,
        states[k].rotation == states[0].rotation,
    decreases k,
{
    if k > 0 {
        lemma_rest_state_prefix(states, dts, k - 1);
        lemma_rest_state_step(states[k - 1], states[k], dts[k - 1]);
    }
}

/// An entity with no physics body is carried through any number of fixed
/// ticks bit for bit unchanged, whatever the gravity field.
pub proof fn lemma_no_body_unchanged<B>(states: Seq<SimObject<B>>, g: Vector, dts: Seq<u64>)
    requires
        states.len() == dts.len() + 1,
        states[0].physics_object is None,
        forall|k: int|
            0 <= k < dts.len() ==> stepped_entity(#[trigger] states[k], g, dts[k], states[k + 1]),
    ensures
        forall|k: int| 0 <= k < states.len() ==> #[trigger] states[k] == states[0],
{
    assert forall|k: int| 0 <= k < states.len() implies #[trigger] states[k] == states[0] by {
        lemma_no_body_prefix(states, g, dts, k);
    }
}

/// The first `k + 1` states of a bodiless chain are all the starting state.
proof fn lemma_no_body_prefix<B>(states: Seq<SimObject<B>>, g: Vector, dts: Seq<u64>, k: int)
    requires
        states.len() == dts.len() + 1,
        states[0].physics_object is None,
        forall|j: int|
            0 <= j < dts.len() ==> stepped_entity(#[trigger] states[j], g, dts[j], states[j + 1]),
        0 <= k < states.len(),
    ensures
        states[k] == states[0],
    decreases k,
{
    if k > 0 {
        lemma_no_body_prefix(states, g, dts, k - 1);
        assert(stepped_entity(states[k - 1], g, dts[k - 1], states[k]));
    }
}

/// A tick duration in microseconds as a fixed-point scalar, saturated.
fn dt_to_scalar(dt_micros: u64) -> (r: i64)
    ensures
        r as int == dt_scalar(dt_micros),
{
    if dt_micros > i64::MAX as u64 {
        i64::MAX
    } else {
        dt_micros as i64
    }
}

} // verus!
