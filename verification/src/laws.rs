//! System-wide properties of the simulation, stated and proved once.

use vstd::prelude::*;

use crate::fixed::lemma_fp_div_neg_left;
use crate::fixed::lemma_fp_mul_neg_both;
use crate::fixed::lemma_fp_mul_neg_left;
use crate::particle::spec_net_force;
use crate::particle::spec_pair_force;
use crate::particle::spec_step_particle;
use crate::particle::spec_step_seq;
use crate::particle::Particle;
use crate::particle_trail::spec_age;
use crate::particle_trail::spec_prune;
use crate::particle_trail::spec_spawn;
use crate::particle_trail::Trail;
use crate::particle_trail::TRAIL_TTL;
use crate::vec2::Vec2;
use vstd::math::max;

verus! {

/// Newton's third law for one pair: the force that `j` exerts on `i` is
/// equal in magnitude and opposite in direction to the force that `i`
/// exerts on `j` — exactly, down to the last fixed-point unit.
pub proof fn lemma_pair_force_antisymmetric(ps: Seq<Particle>, i: int, j: int)
    requires
        0 <= i < ps.len(),
        0 <= j < ps.len(),
    ensures
        spec_pair_force(ps, i, j).0 == -spec_pair_force(ps, j, i).0,
        spec_pair_force(ps, i, j).1 == -spec_pair_force(ps, j, i).1,
{
    if i != j {
        let dx: int = crate::fixed::fp_sub(ps[j].position.x as int, ps[i].position.x as int);
        let dy: int = crate::fixed::fp_sub(ps[j].position.y as int, ps[i].position.y as int);
        lemma_fp_mul_neg_both(dx, dx);
        lemma_fp_mul_neg_both(dy, dy);
        let d: int = crate::vec2::spec_norm(dx, dy);
        if d != 0 {
            let f: int = crate::particle::spec_lj_force(d);
            lemma_fp_div_neg_left(dx, d);
            lemma_fp_div_neg_left(dy, d);
            lemma_fp_mul_neg_left(crate::fixed::fp_div(dx, d), f);
            lemma_fp_mul_neg_left(crate::fixed::fp_div(dy, d), f);
        }
    }
}

/// For a two-body system the accumulated net forces themselves are exact
/// mirror images — here for the very accumulator `Particle::update` uses,
/// saturation included.
pub proof fn lemma_two_body_net_forces_opposite(ps: Seq<Particle>)
    requires
        ps.len() == 2,
    ensures
        spec_net_force(ps, 0, 2).0 == -spec_net_force(ps, 1, 2).0,
        spec_net_force(ps, 0, 2).1 == -spec_net_force(ps, 1, 2).1,
{
    lemma_pair_force_antisymmetric(ps, 0, 1);
    let c01: (int, int) = spec_pair_force(ps, 0, 1);
    let c10: (int, int) = spec_pair_force(ps, 1, 0);
    assert(crate::fixed::fp_ok(c01.0) && crate::fixed::fp_ok(c01.1));
    assert(crate::fixed::fp_ok(c10.0) && crate::fixed::fp_ok(c10.1));
    assert(spec_net_force(ps, 0, 0) == ((0int, 0int)));
    assert(spec_net_force(ps, 1, 0) == ((0int, 0int)));
    assert(spec_net_force(ps, 0, 1) == ((0int, 0int)));
    assert(spec_net_force(ps, 1, 1) == c10);
    assert(spec_net_force(ps, 0, 2) == c01);
    crate::fixed::lemma_fp_zero(c10.0);
    crate::fixed::lemma_fp_zero(c10.1);
    assert(spec_net_force(ps, 1, 2) == c10);
}

/// Sum of the pairwise forces on particle `i` from particles `0 .. m`, as
/// exact (unsaturated) integers.
pub open spec fn spec_force_sum_row(ps: Seq<Particle>, i: int, m: int) -> (int, int)
    decreases m,
{
    if m <= 0 {
        (0, 0)
    } else {
        let acc: (int, int) = spec_force_sum_row(ps, i, m - 1);
        let c: (int, int) = spec_pair_force(ps, i, m - 1);
        (acc.0 + c.0, acc.1 + c.1)
    }
}

/// Sum of the pairwise forces exerted on particles `0 .. m` by particle `j`,
/// as exact integers.
pub open spec fn spec_force_sum_col(ps: Seq<Particle>, j: int, m: int) -> (int, int)
    decreases m,
{
    if m <= 0 {
        (0, 0)
    } else {
        let acc: (int, int) = spec_force_sum_col(ps, j, m - 1);
        let c: (int, int) = spec_pair_force(ps, m - 1, j);
        (acc.0 + c.0, acc.1 + c.1)
    }
}

/// Sum over particles `0 .. m` of their row sums up to `n`, as exact
/// integers: the total force flowing in the `m` by `n` corner of the
/// pair grid.
pub open spec fn spec_force_sum_grid(ps: Seq<Particle>, m: int, n: int) -> (int, int)
    decreases m,
{
    if m <= 0 {
        (0, 0)
    } else {
        let acc: (int, int) = spec_force_sum_grid(ps, m - 1, n);
        let row: (int, int) = spec_force_sum_row(ps, m - 1, n);
        (acc.0 + row.0, acc.1 + row.1)
    }
}

proof fn lemma_grid_peel_column(ps: Seq<Particle>, m: int, n: int)
    requires
        n >= 1,
    ensures
        spec_force_sum_grid(ps, m, n).0 == spec_force_sum_grid(ps, m, n - 1).0
            + spec_force_sum_col(ps, n - 1, m).0,
        spec_force_sum_grid(ps, m, n).1 == spec_force_sum_grid(ps, m, n - 1).1
            + spec_force_sum_col(ps, n - 1, m).1,
    decreases m,
{
    if m > 0 {
        lemma_grid_peel_column(ps, m - 1, n);
    }
}

proof fn lemma_col_is_negated_row(ps: Seq<Particle>, j: int, m: int)
    requires
        0 <= j < ps.len(),
        m <= ps.len(),
    ensures
        spec_force_sum_col(ps, j, m).0 == -spec_force_sum_row(ps, j, m).0,
        spec_force_sum_col(ps, j, m).1 == -spec_force_sum_row(ps, j, m).1,
    decreases m,
{
    if m > 0 {
        lemma_col_is_negated_row(ps, j, m - 1);
        lemma_pair_force_antisymmetric(ps, m - 1, j);
    }
}

/// Newton's third law for the closed system: summed over every ordered pair,
/// the exact pairwise force contributions cancel to zero net force. (The
/// executable accumulator saturates; the cancellation here is of the
/// mathematical sum of the same contributions.)
pub proof fn lemma_net_force_sum_zero(ps: Seq<Particle>)
    ensures
        spec_force_sum_grid(ps, ps.len() as int, ps.len() as int) == ((0int, 0int)),
{
    lemma_square_sum_zero(ps, ps.len() as int);
}

proof fn lemma_square_sum_zero(ps: Seq<Particle>, n: int)
    requires
        n <= ps.len(),
    ensures
        spec_force_sum_grid(ps, n, n) == ((0int, 0int)),
    decreases n,
{
    if n > 0 {
        lemma_square_sum_zero(ps, n - 1);
        lemma_grid_peel_column(ps, n, n);
        lemma_col_is_negated_row(ps, n - 1, n - 1);
        assert(spec_pair_force(ps, n - 1, n - 1) == ((0int, 0int)));
    }
}

/// With no other body around there is no force: a step leaves the velocity
/// of a lone particle unchanged, and its position too when it is at rest.
pub proof fn lemma_small_system_is_static(ps: Seq<Particle>, dt: int)
    requires
        ps.len() <= 1,
        forall|k: int| 0 <= k < ps.len() ==> (#[trigger] ps[k]).wf(),
    ensures
        forall|i: int|
            0 <= i < ps.len() ==> (#[trigger] spec_step_particle(ps, i, dt)).velocity
                == ps[i].velocity,
        forall|i: int|
            0 <= i < ps.len() && ps[i].velocity == (Vec2 { x: 0, y: 0 })
                ==> (#[trigger] spec_step_particle(ps, i, dt)).position == ps[i].position,
{
    if ps.len() == 1 {
        assert(spec_net_force(ps, 0, 0) == ((0int, 0int)));
        assert(spec_net_force(ps, 0, 1) == ((0int, 0int)));
        crate::fixed::lemma_fp_zero(ps[0].mass as int);
        crate::fixed::lemma_fp_zero(dt);
        crate::fixed::lemma_fp_zero(ps[0].velocity.x as int);
        crate::fixed::lemma_fp_zero(ps[0].velocity.y as int);
        assert(spec_step_particle(ps, 0, dt).velocity == ps[0].velocity);
        if ps[0].velocity == (Vec2 { x: 0, y: 0 }) {
            crate::fixed::lemma_fp_zero(ps[0].position.x as int);
            crate::fixed::lemma_fp_zero(ps[0].position.y as int);
            assert(spec_step_particle(ps, 0, dt).position == ps[0].position);
        }
    }
}

/// Determinism: the step is a pure function of the particle state and the
/// tick length, so two invocations on identical state produce identical
/// results. (`Particle::update` ensures its outcome equals this function.)
pub proof fn lemma_step_deterministic(a: Seq<Particle>, b: Seq<Particle>, dt: int)
    requires
        a == b,
    ensures
        spec_step_seq(a, dt) == spec_step_seq(b, dt),
{
}

/// The first update from an empty trail collection leaves exactly one trail
/// per particle.
pub proof fn lemma_first_update_count(ts: Seq<Trail>, ps: Seq<Particle>, dt: int)
    requires
        ts.len() == 0,
    ensures
        (spec_prune(spec_age(ts, dt)) + spec_spawn(ps)).len() == ps.len(),
{
    assert(spec_age(ts, dt).len() == 0);
}

/// The trail state after `k` updates with tick `dt`, each over the same
/// particle sequence, starting from `ts`.
pub open spec fn spec_iter_update(ts: Seq<Trail>, dt: int, ps: Seq<Particle>, k: nat) -> Seq<
    Trail,
>
    decreases k,
{
    if k == 0 {
        ts
    } else {
        spec_prune(spec_age(spec_iter_update(ts, dt, ps, (k - 1) as nat), dt)) + spec_spawn(ps)
    }
}

/// How many updates of tick `dt` a trail with lifetime `ttl` survives.
pub open spec fn spec_lifespan(ttl: int, dt: int) -> nat
    decreases max(ttl, 0),
{
    if ttl <= 0 || dt <= 0 {
        0
    } else {
        1 + spec_lifespan(ttl - dt, dt)
    }
}

proof fn lemma_lifespan_iff(ttl: int, dt: int, a: nat)
    requires
        dt > 0,
    ensures
        (a * dt < ttl) <==> (a < spec_lifespan(ttl, dt)),
    decreases a,
{
    if a == 0 {
        assert(0 * dt == 0);
    } else {
        lemma_lifespan_iff(ttl - dt, dt, (a - 1) as nat);
        assert(a * dt == (a - 1) * dt + dt) by (nonlinear_arith);
        assert((a - 1) * dt >= 0) by (nonlinear_arith)
            requires
                a >= 1,
                dt > 0,
        ;
    }
}

/// A trail `a` ticks after its capture: the lifetime has dropped by `a * dt`,
/// floored at zero.
pub open spec fn spec_trail_at_age(p: Particle, dt: int, a: nat) -> Trail {
    Trail {
        time_to_live: (if TRAIL_TTL - a * dt > 0 {
            TRAIL_TTL - a * dt
        } else {
            0
        }) as i64,
        ..crate::particle_trail::spec_trail_of(p)
    }
}

/// The cohort of trails spawned on one tick, `a` ticks later.
pub open spec fn spec_cohort(ps: Seq<Particle>, dt: int, a: nat) -> Seq<Trail> {
    ps.map_values(|p: Particle| spec_trail_at_age(p, dt, a))
}

/// The full trail pipeline with `m` cohorts: oldest first, freshest last.
pub open spec fn spec_stack(ps: Seq<Particle>, dt: int, m: nat) -> Seq<Trail>
    decreases m,
{
    if m == 0 {
        Seq::empty()
    } else {
        spec_cohort(ps, dt, (m - 1) as nat) + spec_stack(ps, dt, (m - 1) as nat)
    }
}

proof fn lemma_age_distributes(a: Seq<Trail>, b: Seq<Trail>, dt: int)
    ensures
        spec_age(a + b, dt) == spec_age(a, dt) + spec_age(b, dt),
{
    assert(spec_age(a + b, dt) =~= spec_age(a, dt) + spec_age(b, dt));
}

proof fn lemma_prune_distributes(a: Seq<Trail>, b: Seq<Trail>)
    ensures
        spec_prune(a + b) == spec_prune(a) + spec_prune(b),
    decreases b.len(),
{
    if b.len() == 0 {
        assert(a + b =~= a);
        assert(spec_prune(a) + spec_prune(b) =~= spec_prune(a));
    } else {
        lemma_prune_distributes(a, b.drop_last());
        assert((a + b).drop_last() =~= a + b.drop_last());
        assert((a + b).len() > 0);
        assert((a + b).last() == b.last());
        if b.last().time_to_live > 0 {
            assert(spec_prune(a) + spec_prune(b.drop_last()).push(b.last()) =~= (spec_prune(a)
                + spec_prune(b.drop_last())).push(b.last()));
        }
    }
}

proof fn lemma_prune_all_positive(s: Seq<Trail>)
    requires
        forall|k: int| 0 <= k < s.len() ==> (#[trigger] s[k]).time_to_live > 0,
    ensures
        spec_prune(s) == s,
    decreases s.len(),
{
    if s.len() > 0 {
        lemma_prune_all_positive(s.drop_last());
        assert(s.drop_last().push(s.last()) =~= s);
    }
}

proof fn lemma_prune_none_positive(s: Seq<Trail>)
    requires
        forall|k: int| 0 <= k < s.len() ==> (#[trigger] s[k]).time_to_live <= 0,
    ensures
        spec_prune(s) == Seq::<Trail>::empty(),
    decreases s.len(),
{
    if s.len() > 0 {
        lemma_prune_none_positive(s.drop_last());
    }
}

proof fn lemma_cohort_ages(ps: Seq<Particle>, dt: int, a: nat)
    requires
        dt > 0,
    ensures
        spec_age(spec_cohort(ps, dt, a), dt) == spec_cohort(ps, dt, a + 1),
{
    assert((a + 1) * dt == a * dt + dt) by (nonlinear_arith);
    assert(spec_age(spec_cohort(ps, dt, a), dt) =~= spec_cohort(ps, dt, a + 1));
}

proof fn lemma_stack_step(ps: Seq<Particle>, dt: int, m: nat)
    requires
        dt > 0,
        m + 1 <= spec_lifespan(TRAIL_TTL as int, dt),
    ensures
        spec_prune(spec_age(spec_stack(ps, dt, m), dt)) + spec_spawn(ps) == spec_stack(
            ps,
            dt,
            m + 1,
        ),
    decreases m,
{
    let s: nat = spec_lifespan(TRAIL_TTL as int, dt);
    if m == 0 {
        assert(spec_age(spec_stack(ps, dt, 0), dt) =~= Seq::<Trail>::empty());
        assert(0 * dt == 0);
        assert(spec_spawn(ps) =~= spec_cohort(ps, dt, 0));
        assert(spec_prune(Seq::<Trail>::empty()) + spec_spawn(ps) =~= spec_cohort(ps, dt, 0));
        assert(spec_stack(ps, dt, 1) =~= spec_cohort(ps, dt, 0));
    } else {
        let older: Seq<Trail> = spec_cohort(ps, dt, (m - 1) as nat);
        let rest: Seq<Trail> = spec_stack(ps, dt, (m - 1) as nat);
        lemma_age_distributes(older, rest, dt);
        lemma_cohort_ages(ps, dt, (m - 1) as nat);
        lemma_prune_distributes(spec_cohort(ps, dt, m), spec_age(rest, dt));
        lemma_lifespan_iff(TRAIL_TTL as int, dt, m);
        assert(forall|k: int|
            0 <= k < spec_cohort(ps, dt, m).len() ==> (#[trigger] spec_cohort(ps, dt, m)[k])
                .time_to_live > 0);
        lemma_prune_all_positive(spec_cohort(ps, dt, m));
        lemma_stack_step(ps, dt, (m - 1) as nat);
        assert(spec_cohort(ps, dt, m) + (spec_prune(spec_age(rest, dt)) + spec_spawn(ps))
            =~= (spec_cohort(ps, dt, m) + spec_prune(spec_age(rest, dt))) + spec_spawn(ps));
    }
}

proof fn lemma_stack_saturated(ps: Seq<Particle>, dt: int)
    requires
        dt > 0,
        spec_lifespan(TRAIL_TTL as int, dt) >= 1,
    ensures
        spec_prune(spec_age(spec_stack(ps, dt, spec_lifespan(TRAIL_TTL as int, dt)), dt)) + spec_spawn(
            ps,
        ) == spec_stack(ps, dt, spec_lifespan(TRAIL_TTL as int, dt)),
{
    let s: nat = spec_lifespan(TRAIL_TTL as int, dt);
    let older: Seq<Trail> = spec_cohort(ps, dt, (s - 1) as nat);
    let rest: Seq<Trail> = spec_stack(ps, dt, (s - 1) as nat);
    lemma_age_distributes(older, rest, dt);
    lemma_cohort_ages(ps, dt, (s - 1) as nat);
    lemma_prune_distributes(spec_cohort(ps, dt, s), spec_age(rest, dt));
    lemma_lifespan_iff(TRAIL_TTL as int, dt, s);
    assert(forall|k: int|
        0 <= k < spec_cohort(ps, dt, s).len() ==> (#[trigger] spec_cohort(ps, dt, s)[k])
            .time_to_live <= 0);
    lemma_prune_none_positive(spec_cohort(ps, dt, s));
    lemma_stack_step(ps, dt, (s - 1) as nat);
    assert(Seq::<Trail>::empty() + spec_prune(spec_age(rest, dt)) =~= spec_prune(
        spec_age(rest, dt),
    ));
}

proof fn lemma_pipeline_is_stack(ps: Seq<Particle>, dt: int, k: nat)
    requires
        dt > 0,
    ensures
        spec_iter_update(Seq::empty(), dt, ps, k) == spec_stack(
            ps,
            dt,
            if k < spec_lifespan(TRAIL_TTL as int, dt) {
                k
            } else {
                spec_lifespan(TRAIL_TTL as int, dt)
            },
        ),
    decreases k,
{
    let s: nat = spec_lifespan(TRAIL_TTL as int, dt);
    if k == 0 {
    } else {
        lemma_pipeline_is_stack(ps, dt, (k - 1) as nat);
        if k - 1 < s {
            lemma_stack_step(ps, dt, (k - 1) as nat);
        } else {
            lemma_lifespan_iff(TRAIL_TTL as int, dt, 1);
            assert(1 * dt == dt);
            assert(s >= 1);
            lemma_stack_saturated(ps, dt);
        }
    }
}

proof fn lemma_stack_len(ps: Seq<Particle>, dt: int, m: nat)
    ensures
        spec_stack(ps, dt, m).len() == m * ps.len(),
    decreases m,
{
    if m == 0 {
        assert(0 * ps.len() == 0);
    } else {
        lemma_stack_len(ps, dt, (m - 1) as nat);
        assert(m * ps.len() == (m - 1) * ps.len() + ps.len()) by (nonlinear_arith);
    }
}

/// The trail count invariant. Starting from an empty collection and updating
/// `k` times over the same `N` particles, the count is `N` after the first
/// update and grows by `N` per tick until the pipeline is full; from the
/// `spec_lifespan(TRAIL_TTL as int, dt)`-th update on it holds steady, each tick
/// removing exactly the oldest cohort of `N` and adding `N` fresh trails.
pub proof fn lemma_trail_count_pipeline(ps: Seq<Particle>, dt: int, k: nat)
    requires
        dt > 0,
    ensures
        spec_iter_update(Seq::empty(), dt, ps, k).len() == (if k
            < spec_lifespan(TRAIL_TTL as int, dt) {
            k
        } else {
            spec_lifespan(TRAIL_TTL as int, dt)
        }) * ps.len(),
{
    lemma_pipeline_is_stack(ps, dt, k);
    if k < spec_lifespan(TRAIL_TTL as int, dt) {
        lemma_stack_len(ps, dt, k);
    } else {
        lemma_stack_len(ps, dt, spec_lifespan(TRAIL_TTL as int, dt));
    }
}

/// Monotonic decay: aging never leaves a negative lifetime, never raises
/// one, and strictly lowers every lifetime that was still positive.
pub proof fn lemma_monotonic_decay(ts: Seq<Trail>, dt: int)
    requires
        dt > 0,
        forall|k: int| 0 <= k < ts.len() ==> (#[trigger] ts[k]).time_to_live >= 0,
    ensures
        forall|k: int|
            0 <= k < ts.len() ==> 0 <= (#[trigger] spec_age(ts, dt)[k]).time_to_live,
        forall|k: int|
            0 <= k < ts.len() ==> (#[trigger] spec_age(ts, dt)[k]).time_to_live
                <= ts[k].time_to_live,
        forall|k: int|
            0 <= k < ts.len() && ts[k].time_to_live > 0
                ==> (#[trigger] spec_age(ts, dt)[k]).time_to_live < ts[k].time_to_live,
{
}

} // verus!

