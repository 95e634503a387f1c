use facility_pso::geometry::{fitness_of, Xy};
use facility_pso::particle::Particle;
use facility_pso::random::RandomSource;
use facility_pso::UNIT;

fn xy(x: i64, y: i64) -> Xy {
    Xy { x, y }
}

fn particle(position: Vec<i64>, velocity: Vec<i64>, bounds: &Vec<(i64, i64)>) -> Particle {
    Particle::from_parts(position, velocity, bounds, &vec![xy(0, 0)], &vec![xy(100, 100)])
}

#[test]
fn velocity_step_exact() {
    let bounds = vec![(-10000, 10000), (-10000, 10000)];
    let mut p = particle(vec![0, 0], vec![1000, -1001], &bounds);
    p.best_position = vec![2000, 0];
    let global_best = vec![4000, 0];
    // weights 0.5, 1.0, 1.0; draws 0.5 and (65535 / 65536) in the first dimension
    p.update_velocity_with(&global_best, 500, 1000, 1000, &vec![(32768, 65535), (0, 0)]);
    // (0.5 * 1000 + 0.5 * 2000 + 0.99998 * 4000) = 5499.94, toward zero
    assert_eq!(p.velocity[0], 5499);
    // -500.5 toward zero
    assert_eq!(p.velocity[1], -500);
    assert_eq!(p.position, vec![0, 0]);
    assert_eq!(p.best_position, vec![2000, 0]);
}

#[test]
fn velocity_step_saturates() {
    let bounds = vec![(0, 10), (0, 10)];
    let mut p = particle(vec![0, 0], vec![i64::MAX, i64::MIN], &bounds);
    p.update_velocity_with(&vec![0, 0], 1000000, 0, 0, &vec![(0, 0), (0, 0)]);
    assert_eq!(p.velocity, vec![i64::MAX, i64::MIN]);
}

#[test]
fn position_is_clamped_into_bounds() {
    let bounds = vec![(0, 100), (-50, 50)];
    let mut p = particle(vec![90, -40], vec![25, -30], &bounds);
    p.update_position(&bounds, &vec![xy(0, 0)], &vec![xy(100, 100)]);
    assert_eq!(p.position, vec![100, -50]);
    let mut q = particle(vec![10, 0], vec![i64::MIN, i64::MAX], &bounds);
    q.update_position(&bounds, &vec![xy(0, 0)], &vec![xy(100, 100)]);
    assert_eq!(q.position, vec![0, 50]);
}

#[test]
fn personal_best_moves_only_on_strict_improvement() {
    let bounds = vec![(0, 100), (0, 100)];
    let stores = vec![xy(0, 0)];
    let residential = vec![xy(100, 100)];
    // moving away from the store is worse: the best stays
    let mut p = particle(vec![10, 10], vec![20, 20], &bounds);
    let before = p.best_fitness;
    p.update_position(&bounds, &stores, &residential);
    assert_eq!(p.position, vec![30, 30]);
    assert_eq!(p.best_position, vec![10, 10]);
    assert_eq!(p.best_fitness, before);
    // moving onto the store is better: the best follows
    p.velocity = vec![-30, -30];
    p.update_position(&bounds, &stores, &residential);
    assert_eq!(p.best_position, vec![0, 0]);
    assert_eq!(p.best_fitness, fitness_of(&vec![0, 0], &stores, &residential));
    assert!(p.best_fitness > before);
    // standing still is no strict improvement
    p.velocity = vec![0, 0];
    let best = p.best_fitness;
    p.update_position(&bounds, &stores, &residential);
    assert_eq!(p.best_fitness, best);
}

#[test]
fn new_particle_lies_within_bounds() {
    let bounds = vec![(-5, 5), (100, 100), (0, 1000)];
    let stores = vec![xy(0, 0)];
    let residential = vec![xy(9, 9)];
    let mut rng = RandomSource::from_seed(7);
    for _ in 0..50 {
        let p = Particle::new(&bounds, &stores, &residential, &mut rng);
        for i in 0..bounds.len() {
            assert!(bounds[i].0 <= p.position[i] && p.position[i] <= bounds[i].1);
            assert!(-UNIT <= p.velocity[i] && p.velocity[i] <= UNIT);
        }
        assert_eq!(p.best_position, p.position);
        assert_eq!(p.best_fitness, fitness_of(&p.position, &stores, &residential));
    }
}

#[test]
fn uniform_draws_stay_in_range_and_vary() {
    let mut rng = RandomSource::from_seed(1);
    let mut seen = std::collections::HashSet::new();
    for _ in 0..200 {
        let v = rng.uniform(-3, 3);
        assert!((-3..=3).contains(&v));
        seen.insert(v);
    }
    assert_eq!(seen.len(), 7);
    assert_eq!(rng.uniform(42, 42), 42);
}
