//! Particles and the fixed-step integrator.
//!
//! Each tick accumulates, for every particle, the pairwise Lennard-Jones
//! force from every other particle, then advances velocity from that force
//! and position from the new velocity (semi-implicit Euler). Pairs are told
//! apart by index, never by position: two coincident particles are still
//! distinct bodies, and only a pair whose computed distance is exactly zero
//! is skipped, as a guard against dividing by zero.

use vstd::prelude::*;

use crate::fixed::add_fp;
use crate::fixed::div_fp;
use crate::fixed::fp_add;
use crate::fixed::fp_div;
use crate::fixed::fp_mul;
use crate::fixed::fp_ok;
use crate::fixed::fp_sqrt;
use crate::fixed::fp_sub;
use crate::fixed::mul_fp;
use crate::fixed::sqrt_fp;
use crate::fixed::SCALE;
use crate::fixed::sub_fp;
use crate::vec2::spec_norm;
use crate::vec2::Vec2;

verus! {

/// Interaction strength of the force law (a fixed-point scalar).
pub const EPSILON: i64 = 10_000_000_000;

/// Equilibrium-distance constant of the force law (a fixed-point scalar).
pub const SIGMA: i64 = 345_000;

/// `24 * EPSILON`, the prefactor of the force law.
pub const EPS24: i64 = 24 * EPSILON;

/// A charged point particle.
#[derive(Clone, Copy, Debug, PartialEq, Eq, Structural)]
pub struct Particle {
    pub position: Vec2,
    pub velocity: Vec2,
    pub mass: i64,
    pub charge: i64,
}

/// Per-particle visual attributes handed to a renderer.
#[derive(Clone, Copy, Debug, PartialEq, Eq, Structural)]
pub struct RawParticle {
    pub position: Vec2,
    pub radius: i64,
    pub charge: i64,
}

/// The Lennard-Jones force at separation `d`, as computed in saturating
/// fixed-point arithmetic:
///
/// `F(d) = (24 * epsilon / d) * ((sigma/d)^6 - 2 * (sigma/d)^12)`
///
/// The sign convention is: a positive value pulls the particle toward the
/// other body (attraction, mid range), a negative value pushes it away
/// (repulsion, short range). The magnitude tends to zero as `d` grows.
/// The bracket is evaluated in the factored form `r6 * (1 - 2 * r6)` with
/// `r6 = (sigma/d)^6`, so that when `r6` saturates at very small `d` the
/// whole force still saturates on the repulsive side instead of the two
/// saturated terms cancelling.
pub open spec fn spec_lj_force(d: int) -> int {
    let ratio: int = fp_div(SIGMA as int, d);
    let r2: int = fp_mul(ratio, ratio);
    let r4: int = fp_mul(r2, r2);
    let r6: int = fp_mul(r4, r2);
    let term: int = fp_mul(r6, fp_sub(SCALE as int, fp_add(r6, r6)));
    let pref: int = fp_div(EPS24 as int, d);
    fp_mul(pref, term)
}

/// The force that particle `j` exerts on particle `i`: the unit direction
/// from `i` toward `j`, scaled by the force law at their separation. Zero
/// for the self pair and for a pair at exactly zero computed distance.
pub open spec fn spec_pair_force(ps: Seq<Particle>, i: int, j: int) -> (int, int) {
    if i == j {
        (0, 0)
    } else {
        let dx: int = fp_sub(ps[j].position.x as int, ps[i].position.x as int);
        let dy: int = fp_sub(ps[j].position.y as int, ps[i].position.y as int);
        let d: int = spec_norm(dx, dy);
        if d == 0 {
            (0, 0)
        } else {
            let f: int = spec_lj_force(d);
            (fp_mul(fp_div(dx, d), f), fp_mul(fp_div(dy, d), f))
        }
    }
}

/// The net force on particle `i` from particles `0 .. m`, accumulated in
/// index order with saturating addition.
pub open spec fn spec_net_force(ps: Seq<Particle>, i: int, m: int) -> (int, int)
    decreases m,
{
    if m <= 0 {
        (0, 0)
    } else {
        let acc: (int, int) = spec_net_force(ps, i, m - 1);
        let c: (int, int) = spec_pair_force(ps, i, m - 1);
        (fp_add(acc.0, c.0), fp_add(acc.1, c.1))
    }
}

/// Velocity of particle `i` after one step: `v + (F / m) * dt`, where `F` is
/// the net force over the whole sequence at the start of the step.
pub open spec fn spec_step_velocity(ps: Seq<Particle>, i: int, dt: int) -> (int, int) {
    let f: (int, int) = spec_net_force(ps, i, ps.len() as int);
    let m: int = ps[i].mass as int;
    (
        fp_add(ps[i].velocity.x as int, fp_mul(fp_div(f.0, m), dt)),
        fp_add(ps[i].velocity.y as int, fp_mul(fp_div(f.1, m), dt)),
    )
}

/// Position of particle `i` after one step: `p + v' * dt` for the freshly
/// advanced velocity `v'`.
pub open spec fn spec_step_position(ps: Seq<Particle>, i: int, dt: int) -> (int, int) {
    let v: (int, int) = spec_step_velocity(ps, i, dt);
    (
        fp_add(ps[i].position.x as int, fp_mul(v.0, dt)),
        fp_add(ps[i].position.y as int, fp_mul(v.1, dt)),
    )
}

/// Particle `i` after one step; mass and charge never change.
pub open spec fn spec_step_particle(ps: Seq<Particle>, i: int, dt: int) -> Particle {
    let v: (int, int) = spec_step_velocity(ps, i, dt);
    let p: (int, int) = spec_step_position(ps, i, dt);
    Particle {
        position: Vec2 { x: p.0 as i64, y: p.1 as i64 },
        velocity: Vec2 { x: v.0 as i64, y: v.1 as i64 },
        mass: ps[i].mass,
        charge: ps[i].charge,
    }
}

/// The whole particle sequence after one step.
pub open spec fn spec_step_seq(ps: Seq<Particle>, dt: int) -> Seq<Particle> {
    Seq::new(ps.len(), |i: int| spec_step_particle(ps, i, dt))
}

/// The Lennard-Jones force at separation `d`.
pub fn lennard_jones_force(d: i64) -> (f: i64)
    requires
        d > 0,
    ensures
        f as int == spec_lj_force(d as int),
        fp_ok(f as int),
{
    let ratio: i64 = div_fp(SIGMA, d);
    let r2: i64 = mul_fp(ratio, ratio);
    let r4: i64 = mul_fp(r2, r2);
    let r6: i64 = mul_fp(r4, r2);
    let term: i64 = mul_fp(r6, sub_fp(SCALE, add_fp(r6, r6)));
    let pref: i64 = div_fp(EPS24, d);
    mul_fp(pref, term)
}

impl Particle {
    /// All components lie in the fixed-point domain and the mass is positive,
    /// so it can serve as a force divisor.
    pub open spec fn wf(self) -> bool {
        &&& self.position.wf()
        &&& self.velocity.wf()
        &&& 0 < self.mass
        &&& fp_ok(self.charge as int)
    }

    /// Make a particle. A non-positive mass would corrupt the division in the
    /// integrator, so it is excluded up front.
    pub fn new(position: Vec2, velocity: Vec2, mass: i64, charge: i64) -> (p: Particle)
        requires
            position.wf(),
            velocity.wf(),
            mass > 0,
            fp_ok(charge as int),
        ensures
            p == (Particle { position, velocity, mass, charge }),
            p.wf(),
    {
        Particle { position, velocity, mass, charge }
    }

    /// Leave a decaying snapshot of this particle: full lifetime, current
    /// position, radius `sqrt(mass)`, current charge.
    pub fn create_trail(&self) -> (t: crate::particle_trail::Trail)
        requires
            self.wf(),
        ensures
            t == crate::particle_trail::spec_trail_of(*self),
            t.wf(),
    {
        crate::particle_trail::Trail::new(
            crate::particle_trail::TRAIL_TTL,
            self.position,
            sqrt_fp(self.mass),
            self.charge,
        )
    }

    /// The particle's visual attributes, as a flat record.
    pub open spec fn spec_to_raw(self) -> RawParticle {
        RawParticle {
            position: self.position,
            radius: fp_sqrt(self.mass as int) as i64,
            charge: self.charge,
        }
    }

    /// Repack the particle as per-instance draw attributes.
    pub fn to_raw(&self) -> (r: RawParticle)
        ensures
            r == self.spec_to_raw(),
    {
        RawParticle { position: self.position, radius: sqrt_fp(self.mass), charge: self.charge }
    }

    /// Advance every particle by one tick of length `dt`: accumulate the
    /// pairwise forces over the starting positions, then update velocities
    /// from the forces and positions from the new velocities.
    pub fn update(particles: &mut Vec<Particle>, dt: i64)
        requires
            dt > 0,
            forall|k: int|
                0 <= k < old(particles)@.len() ==> (#[trigger] old(particles)@[k]).wf(),
        ensures
            final(particles)@ == spec_step_seq(old(particles)@, dt as int),
            forall|k: int| 0 <= k < final(particles)@.len() ==> (#[trigger] final(particles)@[k]).wf(),
    {
        let ghost ps0: Seq<Particle> = particles@;
        let n: usize = particles.len();
        let mut forces: Vec<Vec2> = Vec::new();
        let mut i: usize = 0;
        while i < n
            invariant
                particles@ == ps0,
                n == ps0.len(),
                forall|k: int| 0 <= k < ps0.len() ==> (#[trigger] ps0[k]).wf(),
                i <= n,
                forces@.len() == i,
                forall|k: int|
                    0 <= k < i ==> {
                        let f: (int, int) = spec_net_force(ps0, k, n as int);
                        (#[trigger] forces@[k]) == (Vec2 { x: f.0 as i64, y: f.1 as i64 })
                    },
            decreases n - i,
        {
            let mut fx: i64 = 0;
            let mut fy: i64 = 0;
            let mut j: usize = 0;
            while j < n
                invariant
                    particles@ == ps0,
                    n == ps0.len(),
                    forall|k: int| 0 <= k < ps0.len() ==> (#[trigger] ps0[k]).wf(),
                    i < n,
                    j <= n,
                    fp_ok(fx as int),
                    fp_ok(fy as int),
                    (fx as int, fy as int) == spec_net_force(ps0, i as int, j as int),
                decreases n - j,
            {
                if j != i {
                    let dx: i64 = sub_fp(particles[j].position.x, particles[i].position.x);
                    let dy: i64 = sub_fp(particles[j].position.y, particles[i].position.y);
                    let dvec: Vec2 = Vec2 { x: dx, y: dy };
                    let d: i64 = dvec.magnitude();
                    if d != 0 {
                        let f: i64 = lennard_jones_force(d);
                        let cx: i64 = mul_fp(div_fp(dx, d), f);
                        let cy: i64 = mul_fp(div_fp(dy, d), f);
                        fx = add_fp(fx, cx);
                        fy = add_fp(fy, cy);
                    }
                }
                j += 1;
            }
            forces.push(Vec2 { x: fx, y: fy });
            i += 1;
        }
        let mut out: Vec<Particle> = Vec::new();
        let mut i: usize = 0;
        while i < n
            invariant
                particles@ == ps0,
                n == ps0.len(),
                forall|k: int| 0 <= k < ps0.len() ==> (#[trigger] ps0[k]).wf(),
                i <= n,
                out@.len() == i,
                forces@.len() == n,
                forall|k: int|
                    0 <= k < n ==> {
                        let f: (int, int) = spec_net_force(ps0, k, n as int);
                        (#[trigger] forces@[k]) == (Vec2 { x: f.0 as i64, y: f.1 as i64 })
                    },
                forall|k: int|
                    0 <= k < i ==> (#[trigger] out@[k]) == spec_step_particle(
                        ps0,
                        k,
                        dt as int,
                    ),
                forall|k: int| 0 <= k < i ==> (#[trigger] out@[k]).wf(),
                dt > 0,
            decreases n - i,
        {
            let p: Particle = particles[i];
            let fv: Vec2 = forces[i];
            let ax: i64 = mul_fp(div_fp(fv.x, p.mass), dt);
            let ay: i64 = mul_fp(div_fp(fv.y, p.mass), dt);
            let vx: i64 = add_fp(p.velocity.x, ax);
            let vy: i64 = add_fp(p.velocity.y, ay);
            let px: i64 = add_fp(p.position.x, mul_fp(vx, dt));
            let py: i64 = add_fp(p.position.y, mul_fp(vy, dt));
            out.push(
                Particle {
                    position: Vec2 { x: px, y: py },
                    velocity: Vec2 { x: vx, y: vy },
                    mass: p.mass,
                    charge: p.charge,
                },
            );
            i += 1;
        }
        *particles = out;
        proof {
            assert(particles@ =~= spec_step_seq(ps0, dt as int));
        }
    }
}

} // verus!
