//! One candidate of the swarm: a position, a velocity and the best position
//! it has occupied.
use vstd::prelude::*;

use crate::geometry::{coord_ok, coords_ok, fitness_of, fitness_spec, points_ok, Xy};
use crate::random::RandomSource;
use crate::{COORD_LIMIT, RAND_SCALE, UNIT, WEIGHT_LIMIT, WEIGHT_SCALE};

verus! {

pub open spec fn weight_ok(w: int) -> bool {
    -WEIGHT_LIMIT <= w <= WEIGHT_LIMIT
}

/// Each bound is a non-empty range of coordinates the library can hold.
pub open spec fn bounds_ok(bounds: Seq<(i64, i64)>) -> bool {
    forall|i: int|
        0 <= i < bounds.len() ==> coord_ok(#[trigger] bounds[i].0 as int) && coord_ok(
            bounds[i].1 as int,
        ) && bounds[i].0 <= bounds[i].1
}

/// The search space and the two point sets that fitness is measured on.
pub open spec fn space_ok(bounds: Seq<(i64, i64)>, stores: Seq<Xy>, residential: Seq<Xy>) -> bool {
    &&& bounds.len() >= 2
    &&& bounds_ok(bounds)
    &&& stores.len() >= 1
    &&& points_ok(stores)
    &&& residential.len() >= 1
    &&& points_ok(residential)
}

/// Every coordinate lies within its bound, inclusive.
pub open spec fn within(cs: Seq<i64>, bounds: Seq<(i64, i64)>) -> bool {
    &&& cs.len() == bounds.len()
    &&& forall|i: int| 0 <= i < cs.len() ==> bounds[i].0 <= #[trigger] cs[i] <= bounds[i].1
}

pub open spec fn clamp(z: int, lo: int, hi: int) -> int {
    if z < lo {
        lo
    } else if z > hi {
        hi
    } else {
        z
    }
}

/// Division rounding toward zero.
pub open spec fn trunc_div(a: int, d: int) -> int {
    if a >= 0 {
        a / d
    } else {
        -((-a) / d)
    }
}

/// The nearest value of `i64`.
pub open spec fn saturate(z: int) -> int {
    clamp(z, i64::MIN as int, i64::MAX as int)
}

/// New velocity of one dimension: inertia, plus a random pull toward the
/// personal best, plus a random pull toward the global best. Weights are in
/// units of `1 / WEIGHT_SCALE`, draws in units of `1 / RAND_SCALE`.
pub open spec fn velocity_step(
    v: int,
    x: int,
    pb: int,
    gb: int,
    i_weight: int,
    m_weight: int,
    s_weight: int,
    r1: int,
    r2: int,
) -> int {
    saturate(
        trunc_div(
            i_weight * v * RAND_SCALE + m_weight * r1 * (pb - x) + s_weight * r2 * (gb - x),
            WEIGHT_SCALE * RAND_SCALE,
        ),
    )
}

pub open spec fn draws_ok(draws: Seq<(i64, i64)>, n: int) -> bool {
    &&& draws.len() == n
    &&& forall|i: int|
        0 <= i < n ==> 0 <= #[trigger] draws[i].0 < RAND_SCALE && 0 <= draws[i].1 < RAND_SCALE
}

/// A candidate placement of all facilities, as a flat `x, y, x, y, ...`
/// position, with its velocity and the best position it has occupied.
pub struct Particle {
    pub position: Vec<i64>,
    pub velocity: Vec<i64>,
    pub best_position: Vec<i64>,
    pub best_fitness: i64,
}

/// What a particle is, as plain values.
pub struct ParticleModel {
    pub position: Seq<i64>,
    pub velocity: Seq<i64>,
    pub best_position: Seq<i64>,
    pub best_fitness: int,
}

impl View for Particle {
    type V = ParticleModel;

    open spec fn view(&self) -> ParticleModel {
        ParticleModel {
            position: self.position@,
            velocity: self.velocity@,
            best_position: self.best_position@,
            best_fitness: self.best_fitness as int,
        }
    }
}

/// `p` after its velocity update with the random factors `draws`.
pub open spec fn steered(
    p: ParticleModel,
    global_best: Seq<i64>,
    i_weight: int,
    m_weight: int,
    s_weight: int,
    draws: Seq<(i64, i64)>,
) -> ParticleModel {
    ParticleModel {
        velocity: Seq::new(
            p.velocity.len(),
            |i: int|
                velocity_step(
                    p.velocity[i] as int,
                    p.position[i] as int,
                    p.best_position[i] as int,
                    global_best[i] as int,
                    i_weight,
                    m_weight,
                    s_weight,
                    draws[i].0 as int,
                    draws[i].1 as int,
                ) as i64,
        ),
        ..p
    }
}

/// `p` after its position update: moved, clamped, re-scored, and its best
/// replaced on a strict improvement.
pub open spec fn moved(
    p: ParticleModel,
    bounds: Seq<(i64, i64)>,
    stores: Seq<Xy>,
    residential: Seq<Xy>,
) -> ParticleModel {
    let position = Seq::new(
        p.position.len(),
        |i: int| clamp(p.position[i] + p.velocity[i], bounds[i].0 as int, bounds[i].1 as int) as i64,
    );
    let f = fitness_spec(position, stores, residential);
    if f > p.best_fitness {
        ParticleModel { position, best_position: position, best_fitness: f, ..p }
    } else {
        ParticleModel { position, ..p }
    }
}

pub(crate) proof fn lemma_within_coords(cs: Seq<i64>, bounds: Seq<(i64, i64)>)
    requires
        within(cs, bounds),
        bounds_ok(bounds),
    ensures
        coords_ok(cs),
{
    assert forall|i: int| 0 <= i < cs.len() implies coord_ok(#[trigger] cs[i] as int) by {
        assert(coord_ok(bounds[i].0 as int) && coord_ok(bounds[i].1 as int));
    }
}

pub(crate) fn copy_coords(v: &Vec<i64>) -> (r: Vec<i64>)
    ensures
        r@ == v@,
{
    let mut r: Vec<i64> = Vec::new();
    let mut k: usize = 0;
    while k < v.len()
        invariant
            k <= v.len(),
            r@ == v@.take(k as int),
        decreases v.len() - k,
    {
        r.push(v[k]);
        k = k + 1;
        assert(r@ =~= v@.take(k as int));
    }
    assert(r@ =~= v@);
    r
}

pub fn check_bounds(bounds: &Vec<(i64, i64)>) -> (r: bool)
    ensures
        r == bounds_ok(bounds@),
{
    let mut k: usize = 0;
    while k < bounds.len()
        invariant
            k <= bounds.len(),
            forall|i: int|
                0 <= i < k ==> coord_ok(#[trigger] bounds@[i].0 as int) && coord_ok(
                    bounds@[i].1 as int,
                ) && bounds@[i].0 <= bounds@[i].1,
        decreases bounds.len() - k,
    {
        let (lo, hi) = bounds[k];
        if lo < -COORD_LIMIT || hi > COORD_LIMIT || lo > hi {
            assert(!(coord_ok(bounds@[k as int].0 as int) && coord_ok(bounds@[k as int].1 as int)
                && bounds@[k as int].0 <= bounds@[k as int].1));
            return false;
        }
        k = k + 1;
    }
    true
}

/// One dimension of the velocity update, exactly.
fn step_velocity(
    v: i64,
    x: i64,
    pb: i64,
    gb: i64,
    i_weight: i64,
    m_weight: i64,
    s_weight: i64,
    r1: i64,
    r2: i64,
) -> (r: i64)
    requires
        coord_ok(x as int),
        coord_ok(pb as int),
        coord_ok(gb as int),
        weight_ok(i_weight as int),
        weight_ok(m_weight as int),
        weight_ok(s_weight as int),
        0 <= r1 < RAND_SCALE,
        0 <= r2 < RAND_SCALE,
    ensures
        r == velocity_step(
            v as int,
            x as int,
            pb as int,
            gb as int,
            i_weight as int,
            m_weight as int,
            s_weight as int,
            r1 as int,
            r2 as int,
        ),
{
    let iw: i128 = i_weight as i128;
    let mw: i128 = m_weight as i128;
    let sw: i128 = s_weight as i128;
    let dp: i128 = pb as i128 - x as i128;
    let dg: i128 = gb as i128 - x as i128;
    assert(-1000000 <= iw <= 1000000 && -1000000 <= mw <= 1000000 && -1000000 <= sw <= 1000000);
    assert(-4294967296 <= dp <= 4294967296 && -4294967296 <= dg <= 4294967296);
    assert(-0x1000000000000000000000000 <= iw * v <= 0x1000000000000000000000000)
        by (nonlinear_arith)
        requires
            -1000000 <= iw <= 1000000,
            -0x8000000000000000 <= v <= 0x8000000000000000,
    ;
    let a: i128 = iw * (v as i128);
    assert(-0x10000000000000000000000000000 <= a * 65536 <= 0x10000000000000000000000000000)
        by (nonlinear_arith)
        requires
            -0x1000000000000000000000000 <= a <= 0x1000000000000000000000000,
    ;
    let a: i128 = a * (RAND_SCALE as i128);
    assert(-0x10000000000000000000 <= mw * r1 * dp <= 0x10000000000000000000)
        by (nonlinear_arith)
        requires
            -1000000 <= mw <= 1000000,
            0 <= r1 < 65536,
            -4294967296 <= dp <= 4294967296,
    ;
    assert(-0x10000000000000000000 <= sw * r2 * dg <= 0x10000000000000000000)
        by (nonlinear_arith)
        requires
            -1000000 <= sw <= 1000000,
            0 <= r2 < 65536,
            -4294967296 <= dg <= 4294967296,
    ;
    assert(-0x1000000000000 <= mw * r1 <= 0x1000000000000 && -0x1000000000000 <= sw * r2
        <= 0x1000000000000) by (nonlinear_arith)
        requires
            -1000000 <= mw <= 1000000,
            -1000000 <= sw <= 1000000,
            0 <= r1 < 65536,
            0 <= r2 < 65536,
    ;
    let b: i128 = mw * (r1 as i128) * dp;
    let c: i128 = sw * (r2 as i128) * dg;
    let num: i128 = a + b + c;
    assert(num == i_weight * v * RAND_SCALE + m_weight * r1 * (pb - x) + s_weight * r2 * (gb
        - x)) by (nonlinear_arith)
        requires
            a == iw * v * 65536,
            b == mw * r1 * dp,
            c == sw * r2 * dg,
            num == a + b + c,
            iw == i_weight,
            mw == m_weight,
            sw == s_weight,
            dp == pb - x,
            dg == gb - x,
            RAND_SCALE == 65536,
    ;
    let den: u128 = 65536000;
    let q: i128 = if num >= 0 {
        ((num as u128) / den) as i128
    } else {
        -((((-num) as u128) / den) as i128)
    };
    if q < i64::MIN as i128 {
        i64::MIN
    } else if q > i64::MAX as i128 {
        i64::MAX
    } else {
        q as i64
    }
}

/// One dimension of the position update: move, then clamp into the bound.
fn step_position(x: i64, v: i64, lo: i64, hi: i64) -> (r: i64)
    requires
        lo <= hi,
    ensures
        r == clamp(x + v, lo as int, hi as int),
{
    let s: i128 = x as i128 + v as i128;
    if s < lo as i128 {
        lo
    } else if s > hi as i128 {
        hi
    } else {
        s as i64
    }
}

impl Particle {
    /// The particle is inside the search space and remembers the fitness of
    /// its best position.
    pub open spec fn wf(&self, bounds: Seq<(i64, i64)>, stores: Seq<Xy>, residential: Seq<Xy>) -> bool {
        &&& within(self.position@, bounds)
        &&& within(self.best_position@, bounds)
        &&& self.velocity@.len() == bounds.len()
        &&& self.best_fitness == fitness_spec(self.best_position@, stores, residential)
    }

    /// A particle at `position` moving at `velocity`, whose best is where it
    /// stands.
    pub fn from_parts(
        position: Vec<i64>,
        velocity: Vec<i64>,
        bounds: &Vec<(i64, i64)>,
        stores: &Vec<Xy>,
        residential: &Vec<Xy>,
    ) -> (r: Particle)
        requires
            space_ok(bounds@, stores@, residential@),
            within(position@, bounds@),
            velocity@.len() == bounds@.len(),
        ensures
            r.wf(bounds@, stores@, residential@),
            r.position@ == position@,
            r.velocity@ == velocity@,
            r.best_position@ == position@,
            r.best_fitness == fitness_spec(position@, stores@, residential@),
    {
        proof {
            lemma_within_coords(position@, bounds@);
        }
        let fitness: i64 = fitness_of(&position, stores, residential);
        let best_position: Vec<i64> = copy_coords(&position);
        Particle { position, velocity, best_position, best_fitness: fitness }
    }

    /// A particle placed uniformly at random within `bounds`, with each
    /// velocity drawn from `[-UNIT, UNIT]`.
    pub fn new(
        bounds: &Vec<(i64, i64)>,
        stores: &Vec<Xy>,
        residential: &Vec<Xy>,
        rng: &mut RandomSource,
    ) -> (r: Particle)
        requires
            space_ok(bounds@, stores@, residential@),
        ensures
            r.wf(bounds@, stores@, residential@),
            r.best_position@ == r.position@,
            forall|i: int| 0 <= i < r.velocity@.len() ==> -UNIT <= #[trigger] r.velocity@[i] <= UNIT,
    {
        let mut position: Vec<i64> = Vec::new();
        let mut k: usize = 0;
        while k < bounds.len()
            invariant
                k <= bounds.len(),
                bounds_ok(bounds@),
                position@.len() == k,
                forall|i: int| 0 <= i < k ==> bounds@[i].0 <= #[trigger] position@[i] <= bounds@[i].1,
            decreases bounds.len() - k,
        {
            let (lo, hi) = bounds[k];
            let c: i64 = rng.uniform(lo, hi);
            position.push(c);
            k = k + 1;
        }
        let mut velocity: Vec<i64> = Vec::new();
        let mut k: usize = 0;
        while k < bounds.len()
            invariant
                k <= bounds.len(),
                velocity@.len() == k,
                forall|i: int| 0 <= i < k ==> -UNIT <= #[trigger] velocity@[i] <= UNIT,
            decreases bounds.len() - k,
        {
            let v: i64 = rng.uniform(-UNIT, UNIT);
            velocity.push(v);
            k = k + 1;
        }
        Particle::from_parts(position, velocity, bounds, stores, residential)
    }

    /// Replaces each velocity by its step, with the random factors of
    /// dimension `i` taken from `draws[i]`.
    pub fn update_velocity_with(
        &mut self,
        global_best: &Vec<i64>,
        i_weight: i64,
        m_weight: i64,
        s_weight: i64,
        draws: &Vec<(i64, i64)>,
    )
        requires
            old(self).position@.len() == old(self).velocity@.len(),
            old(self).best_position@.len() == old(self).velocity@.len(),
            global_best@.len() == old(self).velocity@.len(),
            coords_ok(old(self).position@),
            coords_ok(old(self).best_position@),
            coords_ok(global_best@),
            weight_ok(i_weight as int),
            weight_ok(m_weight as int),
            weight_ok(s_weight as int),
            draws_ok(draws@, old(self).velocity@.len() as int),
        ensures
            final(self)@ == steered(
                old(self)@,
                global_best@,
                i_weight as int,
                m_weight as int,
                s_weight as int,
                draws@,
            ),
    {
        let n: usize = self.velocity.len();
        let mut k: usize = 0;
        while k < n
            invariant
                k <= n,
                n == old(self).velocity@.len(),
                self.position@ == old(self).position@,
                self.best_position@ == old(self).best_position@,
                self.best_fitness == old(self).best_fitness,
                self.velocity@.len() == n,
                self.position@.len() == n,
                self.best_position@.len() == n,
                global_best@.len() == n,
                coords_ok(self.position@),
                coords_ok(self.best_position@),
                coords_ok(global_best@),
                weight_ok(i_weight as int),
                weight_ok(m_weight as int),
                weight_ok(s_weight as int),
                draws_ok(draws@, n as int),
                forall|i: int| k <= i < n ==> #[trigger] self.velocity@[i] == old(self).velocity@[i],
                forall|i: int|
                    0 <= i < k ==> #[trigger] self.velocity@[i] == velocity_step(
                        old(self).velocity@[i] as int,
                        old(self).position@[i] as int,
                        old(self).best_position@[i] as int,
                        global_best@[i] as int,
                        i_weight as int,
                        m_weight as int,
                        s_weight as int,
                        draws@[i].0 as int,
                        draws@[i].1 as int,
                    ),
            decreases n - k,
        {
            let (r1, r2) = draws[k];
            assert(coord_ok(self.position@[k as int] as int));
            assert(coord_ok(self.best_position@[k as int] as int));
            assert(coord_ok(global_best@[k as int] as int));
            let v: i64 = step_velocity(
                self.velocity[k],
                self.position[k],
                self.best_position[k],
                global_best[k],
                i_weight,
                m_weight,
                s_weight,
                r1,
                r2,
            );
            self.velocity.set(k, v);
            k = k + 1;
        }
        assert(self@.velocity =~= steered(
            old(self)@,
            global_best@,
            i_weight as int,
            m_weight as int,
            s_weight as int,
            draws@,
        ).velocity);
    }
    /// Replaces each velocity by its step, drawing both random factors of
    /// every dimension afresh.
    pub fn update_velocity(
        &mut self,
        global_best: &Vec<i64>,
        i_weight: i64,
        m_weight: i64,
        s_weight: i64,
        rng: &mut RandomSource,
    )
        requires
            old(self).position@.len() == old(self).velocity@.len(),
            old(self).best_position@.len() == old(self).velocity@.len(),
            global_best@.len() == old(self).velocity@.len(),
            coords_ok(old(self).position@),
            coords_ok(old(self).best_position@),
            coords_ok(global_best@),
            weight_ok(i_weight as int),
            weight_ok(m_weight as int),
            weight_ok(s_weight as int),
        ensures
            final(self).position@ == old(self).position@,
            final(self).best_position@ == old(self).best_position@,
            final(self).best_fitness == old(self).best_fitness,
            final(self).velocity@.len() == old(self).velocity@.len(),
            exists|draws: Seq<(i64, i64)>|
                draws_ok(draws, old(self).velocity@.len() as int) && #[trigger] steered(
                    old(self)@,
                    global_best@,
                    i_weight as int,
                    m_weight as int,
                    s_weight as int,
                    draws,
                ) == final(self)@,
    {
        let n: usize = self.velocity.len();
        let mut draws: Vec<(i64, i64)> = Vec::new();
        let mut k: usize = 0;
        while k < n
            invariant
                k <= n,
                draws@.len() == k,
                forall|i: int|
                    0 <= i < k ==> 0 <= #[trigger] draws@[i].0 < RAND_SCALE && 0 <= draws@[i].1
                        < RAND_SCALE,
            decreases n - k,
        {
            let r1: i64 = rng.uniform(0, RAND_SCALE - 1);
            let r2: i64 = rng.uniform(0, RAND_SCALE - 1);
            draws.push((r1, r2));
            k = k + 1;
        }
        self.update_velocity_with(global_best, i_weight, m_weight, s_weight, &draws);
    }

    /// Moves by the velocity, clamps each coordinate into its bound and
    /// re-scores; the personal best moves only on a strict improvement.
    pub fn update_position(&mut self, bounds: &Vec<(i64, i64)>, stores: &Vec<Xy>, residential: &Vec<Xy>)
        requires
            space_ok(bounds@, stores@, residential@),
            old(self).wf(bounds@, stores@, residential@),
        ensures
            final(self).wf(bounds@, stores@, residential@),
            final(self)@ == moved(old(self)@, bounds@, stores@, residential@),
            within(final(self).position@, bounds@),
            final(self).velocity@ == old(self).velocity@,
            forall|i: int|
                0 <= i < bounds@.len() ==> #[trigger] final(self).position@[i] == clamp(
                    old(self).position@[i] + old(self).velocity@[i],
                    bounds@[i].0 as int,
                    bounds@[i].1 as int,
                ),
            fitness_spec(final(self).position@, stores@, residential@) > old(self).best_fitness ==> {
                &&& final(self).best_position@ == final(self).position@
                &&& final(self).best_fitness == fitness_spec(
                    final(self).position@,
                    stores@,
                    residential@,
                )
            },
            fitness_spec(final(self).position@, stores@, residential@) <= old(self).best_fitness
                ==> {
                &&& final(self).best_position@ == old(self).best_position@
                &&& final(self).best_fitness == old(self).best_fitness
            },
            final(self).best_fitness >= old(self).best_fitness,
    {
        let n: usize = self.position.len();
        let mut k: usize = 0;
        while k < n
            invariant
                k <= n,
                n == bounds@.len(),
                bounds_ok(bounds@),
                self.position@.len() == n,
                self.velocity@.len() == n,
                self.velocity@ == old(self).velocity@,
                self.best_position@ == old(self).best_position@,
                self.best_fitness == old(self).best_fitness,
                forall|i: int| k <= i < n ==> #[trigger] self.position@[i] == old(self).position@[i],
                forall|i: int|
                    0 <= i < k ==> #[trigger] self.position@[i] == clamp(
                        old(self).position@[i] + old(self).velocity@[i],
                        bounds@[i].0 as int,
                        bounds@[i].1 as int,
                    ),
            decreases n - k,
        {
            let (lo, hi) = bounds[k];
            let x: i64 = step_position(self.position[k], self.velocity[k], lo, hi);
            self.position.set(k, x);
            k = k + 1;
        }
        assert(within(self.position@, bounds@));
        proof {
            lemma_within_coords(self.position@, bounds@);
        }
        let fitness: i64 = fitness_of(&self.position, stores, residential);
        assert(self.position@ =~= moved(old(self)@, bounds@, stores@, residential@).position);
        if fitness > self.best_fitness {
            self.best_fitness = fitness;
            self.best_position = copy_coords(&self.position);
        }
    }
}

} // verus!
