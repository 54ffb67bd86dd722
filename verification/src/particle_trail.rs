//! Decaying snapshots of particle state ("trails") and their manager.
//!
//! On every tick the manager first ages every live trail and discards the
//! ones whose time to live has run out, and only then appends one fresh
//! snapshot per particle — so a trail born on a tick always starts at the
//! full lifetime and is never pruned on the tick that created it. A trail is
//! a pure value copy: it never moves with the particle it snapshotted.

use vstd::prelude::*;

use crate::fixed::fp_ok;
use crate::fixed::fp_sqrt;
use crate::fixed::sqrt_fp;
use crate::particle::Particle;
use crate::vec2::Vec2;

verus! {

/// Initial time to live of a freshly spawned trail (3 whole time units).
pub const TRAIL_TTL: i64 = 3_000_000;

/// A decaying snapshot of one particle: captured position, a radius derived
/// from the mass at capture time, the charge, and the remaining lifetime.
#[derive(Clone, Copy, Debug, PartialEq, Eq, Structural)]
pub struct Trail {
    pub time_to_live: i64,
    pub position: Vec2,
    pub radius: i64,
    pub charge: i64,
}

/// Per-trail visual attributes handed to a renderer.
#[derive(Clone, Copy, Debug, PartialEq, Eq, Structural)]
pub struct RawTrail {
    pub position: Vec2,
    pub time_to_live: i64,
    pub radius: i64,
    pub charge: i64,
}

/// One trail after `dt` of aging: the lifetime drops by `dt`, floored at
/// zero; everything else is untouched.
pub open spec fn spec_aged(t: Trail, dt: int) -> Trail {
    Trail {
        time_to_live: (if t.time_to_live > dt {
            t.time_to_live - dt
        } else {
            0
        }) as i64,
        ..t
    }
}

/// A whole trail sequence after `dt` of aging.
pub open spec fn spec_age(s: Seq<Trail>, dt: int) -> Seq<Trail> {
    s.map_values(|t: Trail| spec_aged(t, dt))
}

/// The trails that survive pruning: those with lifetime left, in order.
pub open spec fn spec_prune(s: Seq<Trail>) -> Seq<Trail>
    decreases s.len(),
{
    if s.len() == 0 {
        Seq::empty()
    } else {
        let pre: Seq<Trail> = spec_prune(s.drop_last());
        if s.last().time_to_live > 0 {
            pre.push(s.last())
        } else {
            pre
        }
    }
}

/// The snapshot a particle leaves behind: full lifetime, current position,
/// radius `sqrt(mass)`, current charge.
pub open spec fn spec_trail_of(p: Particle) -> Trail {
    Trail {
        time_to_live: TRAIL_TTL,
        position: p.position,
        radius: fp_sqrt(p.mass as int) as i64,
        charge: p.charge,
    }
}

/// One fresh trail per particle, in particle order.
pub open spec fn spec_spawn(ps: Seq<Particle>) -> Seq<Trail> {
    ps.map_values(|p: Particle| spec_trail_of(p))
}

impl Trail {
    /// The trail's components lie in the fixed-point domain and its lifetime
    /// is not negative.
    pub open spec fn wf(self) -> bool {
        &&& 0 <= self.time_to_live
        &&& self.position.wf()
        &&& fp_ok(self.radius as int)
        &&& fp_ok(self.charge as int)
    }

    /// Make a trail from captured values.
    pub fn new(time_to_live: i64, position: Vec2, radius: i64, charge: i64) -> (t: Trail)
        requires
            time_to_live >= 0,
            position.wf(),
            fp_ok(radius as int),
            fp_ok(charge as int),
        ensures
            t == (Trail { time_to_live, position, radius, charge }),
            t.wf(),
    {
        Trail { time_to_live, position, radius, charge }
    }

    /// The trail's visual attributes, as a flat record.
    pub open spec fn spec_to_raw(self) -> RawTrail {
        RawTrail {
            position: self.position,
            time_to_live: self.time_to_live,
            radius: self.radius,
            charge: self.charge,
        }
    }

    /// Repack the trail as per-instance draw attributes.
    pub fn to_raw(&self) -> (r: RawTrail)
        ensures
            r == self.spec_to_raw(),
    {
        RawTrail {
            position: self.position,
            time_to_live: self.time_to_live,
            radius: self.radius,
            charge: self.charge,
        }
    }
}

/// Owns every live trail; nothing else creates or destroys them.
pub struct TrailManager {
    pub trails: Vec<Trail>,
}

impl TrailManager {
    /// Every live trail is well formed, still has lifetime left, and carries
    /// no more than the full initial lifetime.
    pub open spec fn wf(self) -> bool {
        forall|k: int|
            0 <= k < self.trails@.len() ==> {
                &&& (#[trigger] self.trails@[k]).wf()
                &&& 0 < self.trails@[k].time_to_live <= TRAIL_TTL
            }
    }

    /// An empty manager.
    pub fn new() -> (m: TrailManager)
        ensures
            m.trails@ == Seq::<Trail>::empty(),
            m.wf(),
    {
        TrailManager { trails: Vec::new() }
    }

    /// One tick of trail bookkeeping: age every live trail by `dt` (floored
    /// at zero), drop the ones that ran out, then append one fresh snapshot
    /// per particle.
    pub fn update(&mut self, dt: i64, particles: &Vec<Particle>)
        requires
            dt > 0,
            old(self).wf(),
            forall|k: int| 0 <= k < particles@.len() ==> (#[trigger] particles@[k]).wf(),
        ensures
            final(self).trails@ == spec_prune(spec_age(old(self).trails@, dt as int))
                + spec_spawn(particles@),
            final(self).wf(),
    {
        let ghost t0: Seq<Trail> = self.trails@;
        let n: usize = self.trails.len();
        let mut kept: Vec<Trail> = Vec::new();
        let mut i: usize = 0;
        while i < n
            invariant
                self.trails@ == t0,
                n == t0.len(),
                forall|k: int|
                    0 <= k < t0.len() ==> {
                        &&& (#[trigger] t0[k]).wf()
                        &&& 0 < t0[k].time_to_live <= TRAIL_TTL
                    },
                i <= n,
                dt > 0,
                kept@ == spec_prune(spec_age(t0.take(i as int), dt as int)),
                forall|k: int|
                    0 <= k < kept@.len() ==> {
                        &&& (#[trigger] kept@[k]).wf()
                        &&& 0 < kept@[k].time_to_live <= TRAIL_TTL
                    },
            decreases n - i,
        {
            let t: Trail = self.trails[i];
            if t.time_to_live > dt {
                let aged: Trail = Trail {
                    time_to_live: t.time_to_live - dt,
                    position: t.position,
                    radius: t.radius,
                    charge: t.charge,
                };
                kept.push(aged);
            }
            proof {
                let ghost taken: Seq<Trail> = spec_age(t0.take(i as int + 1), dt as int);
                assert(taken.drop_last() =~= spec_age(t0.take(i as int), dt as int));
                assert(taken.last() == spec_aged(t0[i as int], dt as int));
            }
            i += 1;
        }
        proof {
            assert(t0.take(n as int) =~= t0);
        }
        let ghost pruned: Seq<Trail> = kept@;
        let m: usize = particles.len();
        let mut j: usize = 0;
        while j < m
            invariant
                m == particles@.len(),
                forall|k: int| 0 <= k < particles@.len() ==> (#[trigger] particles@[k]).wf(),
                j <= m,
                kept@ == pruned + spec_spawn(particles@.take(j as int)),
                forall|k: int|
                    0 <= k < kept@.len() ==> {
                        &&& (#[trigger] kept@[k]).wf()
                        &&& 0 < kept@[k].time_to_live <= TRAIL_TTL
                    },
            decreases m - j,
        {
            let p: Particle = particles[j];
            kept.push(p.create_trail());
            proof {
                let ghost spawned: Seq<Trail> = spec_spawn(particles@.take(j as int + 1));
                assert(spawned.drop_last() =~= spec_spawn(particles@.take(j as int)));
                assert(spawned.last() == spec_trail_of(particles@[j as int]));
                assert(kept@ =~= pruned + spawned);
            }
            j += 1;
        }
        proof {
            assert(particles@.take(m as int) =~= particles@);
        }
        self.trails = kept;
    }

    /// The visual attributes of every live trail, in order.
    pub fn get_buffer(&self) -> (r: Vec<RawTrail>)
        ensures
            r@.len() == self.trails@.len(),
            forall|k: int|
                0 <= k < r@.len() ==> (#[trigger] r@[k]) == self.trails@[k].spec_to_raw(),
    {
        let mut r: Vec<RawTrail> = Vec::new();
        let mut i: usize = 0;
        let n: usize = self.trails.len();
        while i < n
            invariant
                n == self.trails@.len(),
                i <= n,
                r@.len() == i,
                forall|k: int|
                    0 <= k < i ==> (#[trigger] r@[k]) == self.trails@[k].spec_to_raw(),
            decreases n - i,
        {
            let raw: RawTrail = self.trails[i].to_raw();
            r.push(raw);
            i += 1;
        }
        r
    }

    /// How many trails are currently live.
    pub fn len(&self) -> (r: u32)
        requires
            self.trails@.len() <= u32::MAX,
        ensures
            r == self.trails@.len(),
    {
        self.trails.len() as u32
    }
}

} // verus!
