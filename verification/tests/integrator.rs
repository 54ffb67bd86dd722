use atomica::particle::Particle;
use atomica::particle::RawParticle;
use atomica::vec2::Vec2;

// One tick of 1/60 time units, in fixed-point.
const DT: i64 = 16_666;

fn scenario_pair() -> Vec<Particle> {
    vec![
        Particle::new(
            Vec2 { x: -6_000_000, y: 750_000 },
            Vec2 { x: 1_000_000, y: 0 },
            1_000_000,
            1_000_000,
        ),
        Particle::new(
            Vec2 { x: 6_000_000, y: -750_000 },
            Vec2 { x: -1_000_000, y: 0 },
            1_000_000,
            -1_000_000,
        ),
    ]
}

#[test]
fn empty_system_stays_empty() {
    let mut particles: Vec<Particle> = Vec::new();
    Particle::update(&mut particles, DT);
    assert!(particles.is_empty());
}

#[test]
fn single_particle_at_rest_stays_put() {
    let mut particles = vec![Particle::new(
        Vec2 { x: 2_000_000, y: -3_000_000 },
        Vec2 { x: 0, y: 0 },
        1_000_000,
        1_000_000,
    )];
    Particle::update(&mut particles, DT);
    assert_eq!(particles[0].position, Vec2 { x: 2_000_000, y: -3_000_000 });
    assert_eq!(particles[0].velocity, Vec2 { x: 0, y: 0 });
}

#[test]
fn single_particle_keeps_its_velocity() {
    let mut particles = vec![Particle::new(
        Vec2 { x: 0, y: 0 },
        Vec2 { x: 1_000_000, y: 0 },
        1_000_000,
        0,
    )];
    Particle::update(&mut particles, DT);
    // no self-force: the velocity is untouched and the position drifts
    // by exactly v * dt
    assert_eq!(particles[0].velocity, Vec2 { x: 1_000_000, y: 0 });
    assert_eq!(particles[0].position, Vec2 { x: 16_666, y: 0 });
}

#[test]
fn step_is_deterministic() {
    let mut a = scenario_pair();
    let mut b = scenario_pair();
    Particle::update(&mut a, DT);
    Particle::update(&mut b, DT);
    assert_eq!(a, b);
    // and again, from the stepped state
    Particle::update(&mut a, DT);
    Particle::update(&mut b, DT);
    assert_eq!(a, b);
}

#[test]
fn two_body_scenario_stays_finite() {
    // Two particles at (-6, 0.75) and (6, -0.75), equal mass, opposite
    // charge, approaching at 1.0 unit per time unit each.
    let mut particles = scenario_pair();
    Particle::update(&mut particles, DT);
    // at a separation over 12 units the force vanishes below the
    // fixed-point resolution, so each particle moves by exactly v * dt
    assert_eq!(particles[0].position, Vec2 { x: -5_983_334, y: 750_000 });
    assert_eq!(particles[1].position, Vec2 { x: 5_983_334, y: -750_000 });
    assert_eq!(particles[0].velocity, Vec2 { x: 1_000_000, y: 0 });
    assert_eq!(particles[1].velocity, Vec2 { x: -1_000_000, y: 0 });
    // the separation stays finite and positive
    let dx = particles[1].position.x - particles[0].position.x;
    assert!(dx > 0);
    // and nobody jumped further than the velocity bound |v| * dt
    assert!((particles[0].position.x - -6_000_000).abs() <= 16_666);
    assert!((particles[1].position.x - 6_000_000).abs() <= 16_666);
}

#[test]
fn forces_on_a_symmetric_pair_are_opposite() {
    // Two equal masses at rest on the x axis, inside the equilibrium
    // distance so they repel: after one step their velocities must be
    // exact mirror images
    let mut particles = vec![
        Particle::new(Vec2 { x: -150_000, y: 0 }, Vec2 { x: 0, y: 0 }, 1_000_000, 1_000_000),
        Particle::new(Vec2 { x: 150_000, y: 0 }, Vec2 { x: 0, y: 0 }, 1_000_000, -1_000_000),
    ];
    Particle::update(&mut particles, DT);
    assert_eq!(particles[0].velocity.x, -particles[1].velocity.x);
    assert_eq!(particles[0].velocity.y, -particles[1].velocity.y);
    assert!(particles[0].velocity.x != 0);
    // pushed apart, not pulled together
    assert!(particles[0].velocity.x < 0);
    assert!(particles[1].velocity.x > 0);
}

#[test]
fn coincident_particles_exert_no_force() {
    // Exactly coincident bodies are still distinct, but their pair is
    // skipped by the zero-distance guard instead of dividing by zero.
    let mut particles = vec![
        Particle::new(Vec2 { x: 0, y: 0 }, Vec2 { x: 0, y: 0 }, 1_000_000, 1_000_000),
        Particle::new(Vec2 { x: 0, y: 0 }, Vec2 { x: 0, y: 0 }, 1_000_000, 1_000_000),
    ];
    Particle::update(&mut particles, DT);
    assert_eq!(particles[0].position, Vec2 { x: 0, y: 0 });
    assert_eq!(particles[1].position, Vec2 { x: 0, y: 0 });
    assert_eq!(particles[0].velocity, Vec2 { x: 0, y: 0 });
    assert_eq!(particles[1].velocity, Vec2 { x: 0, y: 0 });
}

#[test]
fn mass_and_charge_never_change() {
    let mut particles = scenario_pair();
    Particle::update(&mut particles, DT);
    assert_eq!(particles[0].mass, 1_000_000);
    assert_eq!(particles[0].charge, 1_000_000);
    assert_eq!(particles[1].mass, 1_000_000);
    assert_eq!(particles[1].charge, -1_000_000);
}

#[test]
fn raw_particle_carries_sqrt_mass_radius() {
    let p = Particle::new(
        Vec2 { x: 7, y: -9 },
        Vec2 { x: 0, y: 0 },
        4_000_000,
        -1_000_000,
    );
    let raw: RawParticle = p.to_raw();
    assert_eq!(raw.position, Vec2 { x: 7, y: -9 });
    assert_eq!(raw.radius, 2_000_000);
    assert_eq!(raw.charge, -1_000_000);
}
