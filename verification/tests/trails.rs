use atomica::particle::Particle;
use atomica::particle_trail::RawTrail;
use atomica::particle_trail::Trail;
use atomica::particle_trail::TrailManager;
use atomica::particle_trail::TRAIL_TTL;
use atomica::vec2::Vec2;

fn two_particles() -> Vec<Particle> {
    vec![
        Particle::new(Vec2 { x: 1_000_000, y: 0 }, Vec2 { x: 0, y: 0 }, 1_000_000, 1_000_000),
        Particle::new(Vec2 { x: -1_000_000, y: 0 }, Vec2 { x: 0, y: 0 }, 4_000_000, -1_000_000),
    ]
}

#[test]
fn first_update_counts_one_trail_per_particle() {
    let particles = two_particles();
    let mut trails = TrailManager::new();
    assert_eq!(trails.len(), 0);
    trails.update(16_666, &particles);
    assert_eq!(trails.len(), 2);
}

#[test]
fn fresh_trails_snapshot_the_particle() {
    let particles = two_particles();
    let mut trails = TrailManager::new();
    trails.update(16_666, &particles);
    let buffer: Vec<RawTrail> = trails.get_buffer();
    assert_eq!(buffer.len(), 2);
    assert_eq!(buffer[0].position, Vec2 { x: 1_000_000, y: 0 });
    assert_eq!(buffer[0].time_to_live, TRAIL_TTL);
    assert_eq!(buffer[0].radius, 1_000_000);
    assert_eq!(buffer[0].charge, 1_000_000);
    // radius is sqrt(mass) at capture time
    assert_eq!(buffer[1].radius, 2_000_000);
    assert_eq!(buffer[1].charge, -1_000_000);
}

#[test]
fn trails_age_while_new_ones_start_fresh() {
    let particles = two_particles();
    let mut trails = TrailManager::new();
    trails.update(1_000_000, &particles);
    trails.update(1_000_000, &particles);
    let buffer = trails.get_buffer();
    assert_eq!(buffer.len(), 4);
    // the old cohort decayed by exactly dt, the fresh one is at full life
    assert_eq!(buffer[0].time_to_live, 2_000_000);
    assert_eq!(buffer[1].time_to_live, 2_000_000);
    assert_eq!(buffer[2].time_to_live, 3_000_000);
    assert_eq!(buffer[3].time_to_live, 3_000_000);
}

#[test]
fn count_stabilizes_once_the_pipeline_is_full() {
    // With dt == 1.0 and a lifetime of 3.0, a trail survives three updates:
    // the count climbs by N per tick and then holds at 3 * N
    let particles = two_particles();
    let mut trails = TrailManager::new();
    trails.update(1_000_000, &particles);
    assert_eq!(trails.len(), 2);
    trails.update(1_000_000, &particles);
    assert_eq!(trails.len(), 4);
    trails.update(1_000_000, &particles);
    assert_eq!(trails.len(), 6);
    for _ in 0..10 {
        trails.update(1_000_000, &particles);
        assert_eq!(trails.len(), 6);
    }
}

#[test]
fn trail_born_this_tick_is_never_pruned_this_tick() {
    // Aging and pruning happen before appending: even a dt as long as the
    // whole lifetime removes only the old cohort
    let particles = two_particles();
    let mut trails = TrailManager::new();
    trails.update(TRAIL_TTL, &particles);
    assert_eq!(trails.len(), 2);
    trails.update(TRAIL_TTL, &particles);
    assert_eq!(trails.len(), 2);
    let buffer = trails.get_buffer();
    assert_eq!(buffer[0].time_to_live, TRAIL_TTL);
    assert_eq!(buffer[1].time_to_live, TRAIL_TTL);
}

#[test]
fn no_lifetime_is_ever_negative() {
    // dt longer than the lifetime floors at zero and prunes, it never wraps
    let particles = two_particles();
    let mut trails = TrailManager::new();
    trails.update(16_666, &particles);
    trails.update(i64::MAX, &particles);
    let buffer = trails.get_buffer();
    assert_eq!(buffer.len(), 2);
    for raw in &buffer {
        assert!(raw.time_to_live > 0);
        assert!(raw.time_to_live <= TRAIL_TTL);
    }
}

#[test]
fn trail_is_a_value_copy() {
    // A trail does not follow the particle it snapshotted
    let mut particles = vec![Particle::new(
        Vec2 { x: 0, y: 0 },
        Vec2 { x: 1_000_000, y: 0 },
        1_000_000,
        1_000_000,
    )];
    let mut trails = TrailManager::new();
    trails.update(16_666, &particles);
    Particle::update(&mut particles, 16_666);
    assert!(particles[0].position.x > 0);
    let buffer = trails.get_buffer();
    assert_eq!(buffer[0].position, Vec2 { x: 0, y: 0 });
}

#[test]
fn trail_new_and_to_raw_round_trip() {
    let t = Trail::new(123, Vec2 { x: 4, y: 5 }, 6, 7);
    let raw = t.to_raw();
    assert_eq!(raw.time_to_live, 123);
    assert_eq!(raw.position, Vec2 { x: 4, y: 5 });
    assert_eq!(raw.radius, 6);
    assert_eq!(raw.charge, 7);
}
