//! The population: its particles, the shared search space and weights, and
//! the best position any particle has found.
use vstd::prelude::*;

use crate::geometry::{check_points, fitness_spec, points_ok, Xy};
use crate::particle::{
    bounds_ok, check_bounds, copy_coords, draws_ok, lemma_within_coords, moved, space_ok, steered,
    weight_ok, within, Particle, ParticleModel,
};
use crate::random::RandomSource;
use crate::{ConfigError, UNIT, WEIGHT_LIMIT};

verus! {

/// A swarm over a fixed search space: `bounds` holds one `(min, max)` per
/// coordinate of a flat position, and the weights are in units of
/// `1 / WEIGHT_SCALE`.
pub struct Swarm {
    pub global_best_position: Vec<i64>,
    pub global_best_fitness: i64,
    pub particles: Vec<Particle>,
    pub bounds: Vec<(i64, i64)>,
    pub stores: Vec<Xy>,
    pub residential: Vec<Xy>,
    pub i_weight: i64,
    pub m_weight: i64,
    pub s_weight: i64,
}

/// Why `Swarm::new` refuses a configuration, if it does; the first failing
/// condition in this order decides.
pub open spec fn config_error(
    num_facilities: nat,
    num_particles: nat,
    bounds: Seq<(i64, i64)>,
    stores: Seq<Xy>,
    residential: Seq<Xy>,
    i_weight: int,
    m_weight: int,
    s_weight: int,
) -> Option<ConfigError> {
    if num_facilities == 0 {
        Some(ConfigError::NoFacilities)
    } else if bounds.len() != 2 * num_facilities {
        Some(ConfigError::DimensionMismatch)
    } else if num_particles == 0 {
        Some(ConfigError::NoParticles)
    } else if stores.len() == 0 {
        Some(ConfigError::NoStores)
    } else if residential.len() == 0 {
        Some(ConfigError::NoResidential)
    } else if !bounds_ok(bounds) {
        Some(ConfigError::BadBound)
    } else if !points_ok(stores) || !points_ok(residential) {
        Some(ConfigError::CoordinateOutOfRange)
    } else if !weight_ok(i_weight) || !weight_ok(m_weight) || !weight_ok(s_weight) {
        Some(ConfigError::WeightOutOfRange)
    } else {
        None
    }
}

/// What a swarm is, as plain values, apart from its fixed setting.
pub struct SwarmModel {
    pub particles: Seq<ParticleModel>,
    pub global_best_position: Seq<i64>,
    pub global_best_fitness: int,
}

impl View for Swarm {
    type V = SwarmModel;

    open spec fn view(&self) -> SwarmModel {
        SwarmModel {
            particles: self.particles@.map_values(|p: Particle| p@),
            global_best_position: self.global_best_position@,
            global_best_fitness: self.global_best_fitness as int,
        }
    }
}

/// Random factors for `passes` passes over `n` particles of `dim`
/// dimensions: `draws[t][i][d]` steers dimension `d` of particle `i` in pass
/// `t`.
pub open spec fn run_draws_ok(draws: Seq<Seq<Seq<(i64, i64)>>>, passes: nat, n: nat, dim: nat) -> bool {
    &&& draws.len() == passes
    &&& forall|t: int| 0 <= t < passes ==> pass_draws_ok(#[trigger] draws[t], n, dim)
}

pub open spec fn pass_draws_ok(draws: Seq<Seq<(i64, i64)>>, n: nat, dim: nat) -> bool {
    &&& draws.len() == n
    &&& forall|i: int| 0 <= i < n ==> draws_ok(#[trigger] draws[i], dim as int)
}

/// What a run of `iterations` passes guarantees, given the swarm before
/// (`old`), after (`new`), and the fitness values it reported, in order, each
/// time the global best improved.
pub open spec fn run_outcome(old: Swarm, new: Swarm, iterations: nat, events: Seq<i64>) -> bool {
    &&& exists|draws: Seq<Seq<Seq<(i64, i64)>>>|
        run_draws_ok(draws, iterations, old.particles@.len(), old.bounds@.len())
            && #[trigger] old.run(old@, draws, iterations) == new@
    &&& new.wf()
    &&& new.same_setting(&old)
    &&& new.global_best_fitness >= old.global_best_fitness
    &&& forall|j: int|
        0 <= j < new.particles@.len() ==> (#[trigger] new.particles@[j]).best_fitness
            >= old.particles@[j].best_fitness
    &&& forall|a: int, b: int| 0 <= a < b < events.len() ==> events[a] < events[b]
    &&& forall|a: int| 0 <= a < events.len() ==> old.global_best_fitness < #[trigger] events[a]
    &&& events.len() > 0 ==> events.last() == new.global_best_fitness
    &&& events.len() == 0 ==> {
        &&& new.global_best_fitness == old.global_best_fitness
        &&& new.global_best_position@ == old.global_best_position@
    }
    &&& iterations > 0 ==> forall|j: int|
        0 <= j < new.particles@.len() ==> (#[trigger] new.particles@[j]).best_fitness
            <= new.global_best_fitness
}

fn check_weight(w: i64) -> (r: bool)
    ensures
        r == weight_ok(w as int),
{
    -WEIGHT_LIMIT <= w && w <= WEIGHT_LIMIT
}

impl Swarm {
    /// Every particle is in the search space, and the global best is a
    /// position within bounds together with its fitness.
    pub open spec fn wf(&self) -> bool {
        &&& space_ok(self.bounds@, self.stores@, self.residential@)
        &&& weight_ok(self.i_weight as int)
        &&& weight_ok(self.m_weight as int)
        &&& weight_ok(self.s_weight as int)
        &&& self.particles@.len() >= 1
        &&& forall|j: int|
            0 <= j < self.particles@.len() ==> (#[trigger] self.particles@[j]).wf(
                self.bounds@,
                self.stores@,
                self.residential@,
            )
        &&& within(self.global_best_position@, self.bounds@)
        &&& self.global_best_fitness == fitness_spec(
            self.global_best_position@,
            self.stores@,
            self.residential@,
        )
    }

    /// Particle `i` steers with `draws` toward the global best of `m`, moves,
    /// and replaces the global best if its own best now beats it.
    pub open spec fn visit(&self, m: SwarmModel, i: int, draws: Seq<(i64, i64)>) -> SwarmModel {
        let p = moved(
            steered(
                m.particles[i],
                m.global_best_position,
                self.i_weight as int,
                self.m_weight as int,
                self.s_weight as int,
                draws,
            ),
            self.bounds@,
            self.stores@,
            self.residential@,
        );
        let particles = m.particles.update(i, p);
        if p.best_fitness > m.global_best_fitness {
            SwarmModel {
                particles,
                global_best_position: p.best_position,
                global_best_fitness: p.best_fitness,
            }
        } else {
            SwarmModel { particles, ..m }
        }
    }

    /// The first `k` visits of a pass, in index order.
    pub open spec fn pass(&self, m: SwarmModel, draws: Seq<Seq<(i64, i64)>>, k: nat) -> SwarmModel
        decreases k,
    {
        if k == 0 {
            m
        } else {
            self.visit(self.pass(m, draws, (k - 1) as nat), k - 1, draws[k - 1])
        }
    }

    /// `t` whole passes over the particles.
    pub open spec fn run(&self, m: SwarmModel, draws: Seq<Seq<Seq<(i64, i64)>>>, t: nat) -> SwarmModel
        decreases t,
    {
        if t == 0 {
            m
        } else {
            self.pass(self.run(m, draws, (t - 1) as nat), draws[t - 1], self.particles@.len())
        }
    }

    proof fn lemma_pass_prefix(
        &self,
        m: SwarmModel,
        d1: Seq<Seq<(i64, i64)>>,
        d2: Seq<Seq<(i64, i64)>>,
        k: nat,
    )
        requires
            k <= d1.len(),
            k <= d2.len(),
            forall|i: int| 0 <= i < k ==> d1[i] == d2[i],
        ensures
            self.pass(m, d1, k) == self.pass(m, d2, k),
        decreases k,
    {
        if k > 0 {
            self.lemma_pass_prefix(m, d1, d2, (k - 1) as nat);
        }
    }

    proof fn lemma_run_prefix(
        &self,
        m: SwarmModel,
        d1: Seq<Seq<Seq<(i64, i64)>>>,
        d2: Seq<Seq<Seq<(i64, i64)>>>,
        t: nat,
    )
        requires
            t <= d1.len(),
            t <= d2.len(),
            forall|i: int| 0 <= i < t ==> d1[i] == d2[i],
        ensures
            self.run(m, d1, t) == self.run(m, d2, t),
        decreases t,
    {
        if t > 0 {
            self.lemma_run_prefix(m, d1, d2, (t - 1) as nat);
        }
    }

    /// The configuration that a run leaves alone.
    pub open spec fn same_setting(&self, other: &Swarm) -> bool {
        &&& self.bounds@ == other.bounds@
        &&& self.stores@ == other.stores@
        &&& self.residential@ == other.residential@
        &&& self.i_weight == other.i_weight
        &&& self.m_weight == other.m_weight
        &&& self.s_weight == other.s_weight
        &&& self.particles@.len() == other.particles@.len()
    }

    /// Validates the configuration, places `num_particles` particles at
    /// random, and takes the first particle's best as the global best.
    pub fn new(
        num_facilities: usize,
        num_particles: usize,
        bounds: &[(i64, i64)],
        stores: &[Xy],
        residential: &[Xy],
        i_weight: i64,
        m_weight: i64,
        s_weight: i64,
        rng: &mut RandomSource,
    ) -> (r: Result<Swarm, ConfigError>)
        ensures
            match r {
                Err(e) => config_error(
                    num_facilities as nat,
                    num_particles as nat,
                    bounds@,
                    stores@,
                    residential@,
                    i_weight as int,
                    m_weight as int,
                    s_weight as int,
                ) == Some(e),
                Ok(s) => {
                    &&& config_error(
                        num_facilities as nat,
                        num_particles as nat,
                        bounds@,
                        stores@,
                        residential@,
                        i_weight as int,
                        m_weight as int,
                        s_weight as int,
                    ) == None::<ConfigError>
                    &&& s.wf()
                    &&& s.particles@.len() == num_particles
                    &&& s.bounds@ == bounds@
                    &&& s.stores@ == stores@
                    &&& s.residential@ == residential@
                    &&& s.i_weight == i_weight
                    &&& s.m_weight == m_weight
                    &&& s.s_weight == s_weight
                    &&& s.global_best_position@ == s.particles@[0].best_position@
                    &&& s.global_best_fitness == s.particles@[0].best_fitness
                    &&& forall|j: int, i: int|
                        0 <= j < num_particles && 0 <= i < bounds@.len() ==> -UNIT
                            <= #[trigger] s.particles@[j].velocity@[i] <= UNIT
                    &&& forall|j: int|
                        0 <= j < num_particles ==> (#[trigger] s.particles@[j]).best_position@
                            == s.particles@[j].position@
                },
            },
    {
        if num_facilities == 0 {
            return Err(ConfigError::NoFacilities);
        }
        if bounds.len() % 2 != 0 || bounds.len() / 2 != num_facilities {
            return Err(ConfigError::DimensionMismatch);
        }
        if num_particles == 0 {
            return Err(ConfigError::NoParticles);
        }
        if stores.len() == 0 {
            return Err(ConfigError::NoStores);
        }
        if residential.len() == 0 {
            return Err(ConfigError::NoResidential);
        }
        let bounds: Vec<(i64, i64)> = vstd::slice::slice_to_vec(bounds);
        let stores: Vec<Xy> = vstd::slice::slice_to_vec(stores);
        let residential: Vec<Xy> = vstd::slice::slice_to_vec(residential);
        if !check_bounds(&bounds) {
            return Err(ConfigError::BadBound);
        }
        if !check_points(&stores) || !check_points(&residential) {
            return Err(ConfigError::CoordinateOutOfRange);
        }
        if !check_weight(i_weight) || !check_weight(m_weight) || !check_weight(s_weight) {
            return Err(ConfigError::WeightOutOfRange);
        }
        let mut particles: Vec<Particle> = Vec::new();
        let mut k: usize = 0;
        while k < num_particles
            invariant
                k <= num_particles,
                space_ok(bounds@, stores@, residential@),
                particles@.len() == k,
                forall|j: int|
                    0 <= j < k ==> (#[trigger] particles@[j]).wf(bounds@, stores@, residential@),
                forall|j: int|
                    0 <= j < k ==> (#[trigger] particles@[j]).best_position@ == particles@[j].position@,
                forall|j: int, i: int|
                    0 <= j < k && 0 <= i < bounds@.len() ==> -UNIT <= #[trigger] particles@[j].velocity@[i]
                        <= UNIT,
            decreases num_particles - k,
        {
            let p: Particle = Particle::new(&bounds, &stores, &residential, rng);
            particles.push(p);
            k = k + 1;
        }
        let global_best_position: Vec<i64> = copy_coords(&particles[0].best_position);
        let global_best_fitness: i64 = particles[0].best_fitness;
        Ok(
            Swarm {
                global_best_position,
                global_best_fitness,
                particles,
                bounds,
                stores,
                residential,
                i_weight,
                m_weight,
                s_weight,
            },
        )
    }

    /// Runs `iterations` passes. In each pass every particle, in index
    /// order, steers toward its own best and the current global best, moves,
    /// and on beating the global best replaces it. Returns the new global
    /// best fitness of each improvement, in order.
    pub fn optimise(&mut self, iterations: usize, rng: &mut RandomSource) -> (events: Vec<i64>)
        requires
            old(self).wf(),
        ensures
            run_outcome(*old(self), *final(self), iterations as nat, events@),
    {
        let ghost start: Swarm = *self;
        let ghost dim: nat = self.bounds@.len();
        let ghost mut all: Seq<Seq<Seq<(i64, i64)>>> = Seq::empty();
        let n: usize = self.particles.len();
        let mut events: Vec<i64> = Vec::new();
        let mut t: usize = 0;
        assert(run_draws_ok(all, 0, n as nat, dim));
        assert(start.run(start@, all, 0) == self@);
        while t < iterations
            invariant
                t <= iterations,
                n == self.particles@.len(),
                dim == start.bounds@.len(),
                run_draws_ok(all, t as nat, n as nat, dim),
                start.run(start@, all, t as nat) == self@,
                run_outcome(start, *self, t as nat, events@),
            decreases iterations - t,
        {
            let ghost pass_start: SwarmModel = self@;
            let ghost mut cur: Seq<Seq<(i64, i64)>> = Seq::empty();
            let mut i: usize = 0;
            while i < n
                invariant
                    i <= n,
                    dim == start.bounds@.len(),
                    pass_start == start.run(start@, all, t as nat),
                    pass_draws_ok(cur, i as nat, dim),
                    self@ == start.pass(pass_start, cur, i as nat),
                    n == self.particles@.len(),
                    self.wf(),
                    self.same_setting(&start),
                    self.global_best_fitness >= start.global_best_fitness,
                    forall|j: int|
                        0 <= j < n ==> (#[trigger] self.particles@[j]).best_fitness
                            >= start.particles@[j].best_fitness,
                    forall|a: int, b: int| 0 <= a < b < events@.len() ==> events@[a] < events@[b],
                    forall|a: int|
                        0 <= a < events@.len() ==> start.global_best_fitness < #[trigger] events@[a],
                    events@.len() > 0 ==> events@.last() == self.global_best_fitness,
                    events@.len() == 0 ==> {
                        &&& self.global_best_fitness == start.global_best_fitness
                        &&& self.global_best_position@ == start.global_best_position@
                    },
                    forall|j: int|
                        0 <= j < n && (j < i || t > 0) ==> (#[trigger] self.particles@[j]).best_fitness
                            <= self.global_best_fitness,
                decreases n - i,
            {
                let ghost before: SwarmModel = self@;
                let ghost p0: ParticleModel = self.particles@[i as int]@;
                proof {
                    let p = self.particles@[i as int];
                    assert(p.wf(self.bounds@, self.stores@, self.residential@));
                    lemma_within_coords(p.position@, self.bounds@);
                    lemma_within_coords(p.best_position@, self.bounds@);
                    lemma_within_coords(self.global_best_position@, self.bounds@);
                }
                self.particles[i].update_velocity(
                    &self.global_best_position,
                    self.i_weight,
                    self.m_weight,
                    self.s_weight,
                    rng,
                );
                let ghost dr: Seq<(i64, i64)> = choose|dr: Seq<(i64, i64)>|
                    draws_ok(dr, dim as int) && #[trigger] steered(
                        p0,
                        before.global_best_position,
                        self.i_weight as int,
                        self.m_weight as int,
                        self.s_weight as int,
                        dr,
                    ) == self.particles@[i as int]@;
                self.particles[i].update_position(&self.bounds, &self.stores, &self.residential);
                if self.particles[i].best_fitness > self.global_best_fitness {
                    self.global_best_fitness = self.particles[i].best_fitness;
                    self.global_best_position = copy_coords(&self.particles[i].best_position);
                    events.push(self.global_best_fitness);
                }
                proof {
                    assert(self@.particles =~= before.particles.update(
                        i as int,
                        self.particles@[i as int]@,
                    ));
                    assert(self@ == start.visit(before, i as int, dr));
                    let prev = cur;
                    cur = cur.push(dr);
                    start.lemma_pass_prefix(pass_start, prev, cur, i as nat);
                }
                i = i + 1;
            }
            proof {
                let prev = all;
                all = all.push(cur);
                start.lemma_run_prefix(start@, prev, all, t as nat);
            }
            t = t + 1;
        }
        events
    }

    /// The same run as `optimise`.
    pub fn optimize(&mut self, iterations: usize, rng: &mut RandomSource) -> (events: Vec<i64>)
        requires
            old(self).wf(),
        ensures
            run_outcome(*old(self), *final(self), iterations as nat, events@),
    {
        self.optimise(iterations, rng)
    }
}

} // verus!
