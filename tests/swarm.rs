use facility_pso::geometry::{distance, fitness_of, Xy};
use facility_pso::random::RandomSource;
use facility_pso::swarm::Swarm;
use facility_pso::{ConfigError, UNIT};

fn xy(x: i64, y: i64) -> Xy {
    Xy { x, y }
}

fn build(
    facilities: usize,
    particles: usize,
    bounds: &[(i64, i64)],
    stores: &[Xy],
    residential: &[Xy],
    seed: u64,
) -> Result<Swarm, ConfigError> {
    let mut rng = RandomSource::from_seed(seed);
    Swarm::new(facilities, particles, bounds, stores, residential, 700, 1500, 1500, &mut rng)
}

fn square(n: usize) -> Vec<(i64, i64)> {
    let mut b = Vec::new();
    for _ in 0..n {
        b.push((0, 100 * UNIT));
        b.push((0, 100 * UNIT));
    }
    b
}

#[test]
fn construction_errors() {
    let s = [xy(0, 0)];
    let r = [xy(UNIT, UNIT)];
    assert_eq!(build(0, 5, &[], &s, &r, 1).err(), Some(ConfigError::NoFacilities));
    assert_eq!(build(2, 5, &square(1), &s, &r, 1).err(), Some(ConfigError::DimensionMismatch));
    assert_eq!(
        build(1, 5, &[(0, 10), (0, 10), (0, 10)], &s, &r, 1).err(),
        Some(ConfigError::DimensionMismatch)
    );
    assert_eq!(build(1, 0, &square(1), &s, &r, 1).err(), Some(ConfigError::NoParticles));
    assert_eq!(build(1, 5, &square(1), &[], &r, 1).err(), Some(ConfigError::NoStores));
    assert_eq!(build(1, 5, &square(1), &s, &[], 1).err(), Some(ConfigError::NoResidential));
    assert_eq!(build(1, 5, &[(5, 4), (0, 10)], &s, &r, 1).err(), Some(ConfigError::BadBound));
    assert_eq!(
        build(1, 5, &[(0, 10), (0, 1073741825)], &s, &r, 1).err(),
        Some(ConfigError::BadBound)
    );
    assert_eq!(
        build(1, 5, &square(1), &[xy(0, 1073741825)], &r, 1).err(),
        Some(ConfigError::CoordinateOutOfRange)
    );
    let mut rng = RandomSource::from_seed(1);
    let w = Swarm::new(1, 5, &square(1), &s, &r, 700, 1000001, 1500, &mut rng);
    assert_eq!(w.err(), Some(ConfigError::WeightOutOfRange));
}

#[test]
fn global_best_is_seeded_from_the_first_particle() {
    let stores = [xy(20 * UNIT, 20 * UNIT), xy(80 * UNIT, 80 * UNIT)];
    let residential = [xy(50 * UNIT, 50 * UNIT)];
    let swarm = build(2, 30, &square(2), &stores, &residential, 3).unwrap();
    assert_eq!(swarm.particles.len(), 30);
    assert_eq!(swarm.global_best_position, swarm.particles[0].best_position);
    assert_eq!(swarm.global_best_fitness, swarm.particles[0].best_fitness);
}

#[test]
fn global_best_never_decreases_over_improvements() {
    let stores = [xy(20 * UNIT, 20 * UNIT), xy(20 * UNIT, 80 * UNIT), xy(80 * UNIT, 20 * UNIT)];
    let residential = [xy(15 * UNIT, 10 * UNIT), xy(50 * UNIT, 40 * UNIT)];
    let mut swarm = build(2, 40, &square(2), &stores, &residential, 11).unwrap();
    let start = swarm.global_best_fitness;
    let firsts: Vec<i64> = swarm.particles.iter().map(|p| p.best_fitness).collect();
    let events = swarm.optimise(30, &mut RandomSource::from_seed(12));
    for w in events.windows(2) {
        assert!(w[0] < w[1]);
    }
    for e in &events {
        assert!(*e > start);
    }
    assert!(swarm.global_best_fitness >= start);
    if let Some(last) = events.last() {
        assert_eq!(*last, swarm.global_best_fitness);
    }
    for (p, first) in swarm.particles.iter().zip(firsts) {
        assert!(p.best_fitness >= first);
        assert!(p.best_fitness <= swarm.global_best_fitness);
        for i in 0..4 {
            assert!(0 <= p.position[i] && p.position[i] <= 100 * UNIT);
        }
    }
    assert_eq!(
        swarm.global_best_fitness,
        fitness_of(&swarm.global_best_position, &stores.to_vec(), &residential.to_vec())
    );
}

#[test]
fn zero_iterations_change_nothing() {
    let stores = [xy(0, 0)];
    let residential = [xy(10 * UNIT, 10 * UNIT)];
    let mut swarm = build(1, 5, &square(1), &stores, &residential, 5).unwrap();
    let before = swarm.global_best_position.clone();
    let events = swarm.optimize(0, &mut RandomSource::from_seed(5));
    assert!(events.is_empty());
    assert_eq!(swarm.global_best_position, before);
}

#[test]
fn single_facility_converges_to_the_store() {
    let bounds = [(0, 10 * UNIT), (0, 10 * UNIT)];
    let stores = [xy(0, 0)];
    let residential = [xy(10 * UNIT, 10 * UNIT)];
    let mut rng = RandomSource::from_seed(2024);
    let mut swarm =
        Swarm::new(1, 20, &bounds, &stores, &residential, 700, 1500, 1500, &mut rng).unwrap();
    swarm.optimise(100, &mut rng);
    let best = xy(swarm.global_best_position[0], swarm.global_best_position[1]);
    assert!(distance(&best, &xy(0, 0)) < UNIT);
}

fn seeded_run(seed: u64) -> (Vec<i64>, Vec<i64>) {
    let stores = [xy(20 * UNIT, 20 * UNIT), xy(80 * UNIT, 80 * UNIT)];
    let residential = [xy(15 * UNIT, 10 * UNIT), xy(30 * UNIT, 90 * UNIT)];
    let mut rng = RandomSource::from_seed(seed);
    let mut swarm =
        Swarm::new(2, 25, &square(2), &stores, &residential, 700, 1500, 1500, &mut rng).unwrap();
    let events = swarm.optimise(40, &mut rng);
    (events, swarm.global_best_position)
}

#[test]
fn same_seed_gives_the_same_run() {
    assert_eq!(seeded_run(99), seeded_run(99));
    assert_eq!(seeded_run(0), seeded_run(0));
}
