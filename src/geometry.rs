//! Points, distances, the flat coordinate encoding and the fitness model.
use vstd::prelude::*;

use crate::{ConfigError, COORD_LIMIT};

verus! {

/// A point of the plane, in fixed-point coordinates.
#[derive(Clone, Copy, Debug, PartialEq, Eq, Structural)]
pub struct Xy {
    pub x: i64,
    pub y: i64,
}

/// A coordinate that the library can hold without overflow.
pub open spec fn coord_ok(c: int) -> bool {
    -COORD_LIMIT <= c <= COORD_LIMIT
}

pub open spec fn point_ok(p: Xy) -> bool {
    coord_ok(p.x as int) && coord_ok(p.y as int)
}

pub open spec fn points_ok(ps: Seq<Xy>) -> bool {
    forall|i: int| 0 <= i < ps.len() ==> point_ok(#[trigger] ps[i])
}

pub open spec fn coords_ok(cs: Seq<i64>) -> bool {
    forall|i: int| 0 <= i < cs.len() ==> coord_ok(#[trigger] cs[i] as int)
}

/// The exact squared Euclidean distance.
pub open spec fn sq_dist(a: Xy, b: Xy) -> nat {
    ((a.x - b.x) * (a.x - b.x) + (a.y - b.y) * (a.y - b.y)) as nat
}

pub open spec fn is_isqrt(n: nat, r: nat) -> bool {
    r * r <= n < (r + 1) * (r + 1)
}

/// The integer square root: the largest `r` with `r * r <= n`.
pub open spec fn isqrt(n: nat) -> nat {
    choose|r: nat| is_isqrt(n, r)
}

/// Euclidean distance, rounded down to a whole step.
pub open spec fn dist(a: Xy, b: Xy) -> nat {
    isqrt(sq_dist(a, b))
}

proof fn lemma_square_monotone(a: nat, b: nat)
    requires
        a <= b,
    ensures
        a * a <= b * b,
{
    assert(a * a <= b * b) by (nonlinear_arith)
        requires
            a <= b,
    ;
}

/// At most one `r` is the integer square root of `n`.
proof fn lemma_isqrt_unique(n: nat, r: nat, s: nat)
    requires
        is_isqrt(n, r),
        is_isqrt(n, s),
    ensures
        r == s,
{
    if r < s {
        lemma_square_monotone(r + 1, s);
    } else if s < r {
        lemma_square_monotone(s + 1, r);
    }
}

/// A witness of the root pins `isqrt` down.
proof fn lemma_isqrt_is(n: nat, r: nat)
    requires
        is_isqrt(n, r),
    ensures
        isqrt(n) == r,
{
    assert(exists|s: nat| is_isqrt(n, s));
    let s = isqrt(n);
    lemma_isqrt_unique(n, r, s);
}

/// The distance from a point to itself is zero.
pub proof fn lemma_distance_zero(p: Xy)
    ensures
        dist(p, p) == 0,
{
    assert(sq_dist(p, p) == 0);
    assert(is_isqrt(0, 0)) by (nonlinear_arith);
    lemma_isqrt_is(0, 0);
}

/// Distance does not depend on the order of its arguments.
pub proof fn lemma_distance_symmetric(a: Xy, b: Xy)
    ensures
        dist(a, b) == dist(b, a),
{
    assert((a.x - b.x) * (a.x - b.x) == (b.x - a.x) * (b.x - a.x)) by (nonlinear_arith);
    assert((a.y - b.y) * (a.y - b.y) == (b.y - a.y) * (b.y - a.y)) by (nonlinear_arith);
    assert(sq_dist(a, b) == sq_dist(b, a));
}

/// Integer square root of a 64-bit value, by bisection.
fn isqrt_u64(n: u64) -> (r: u64)
    ensures
        r == isqrt(n as nat),
        r < 4294967296,
{
    let mut lo: u64 = 0;
    let mut hi: u64 = 4294967296;
    assert(n < hi * hi) by (nonlinear_arith)
        requires
            hi == 4294967296,
            n <= u64::MAX,
    ;
    while hi - lo > 1
        invariant
            lo < hi <= 4294967296,
            lo * lo <= n,
            n < hi * hi,
        decreases hi - lo,
    {
        let mid: u64 = lo + (hi - lo) / 2;
        assert(mid * mid < 18446744073709551616) by (nonlinear_arith)
            requires
                mid < 4294967296,
        ;
        if mid * mid <= n {
            lo = mid;
        } else {
            hi = mid;
        }
    }
    assert(hi == lo + 1);
    proof {
        lemma_isqrt_is(n as nat, lo as nat);
    }
    lo
}

/// Euclidean distance between two points, rounded down.
pub fn distance(p1: &Xy, p2: &Xy) -> (r: i64)
    requires
        point_ok(*p1),
        point_ok(*p2),
    ensures
        r == dist(*p1, *p2),
        0 <= r < 4294967296,
{
    let dx: i64 = p1.x - p2.x;
    let dy: i64 = p1.y - p2.y;
    let ax: u64 = if dx < 0 { (-dx) as u64 } else { dx as u64 };
    let ay: u64 = if dy < 0 { (-dy) as u64 } else { dy as u64 };
    assert(ax * ax <= 4611686018427387904 && ay * ay <= 4611686018427387904) by (nonlinear_arith)
        requires
            ax <= 2147483648,
            ay <= 2147483648,
    ;
    assert(ax * ax == dx * dx && ay * ay == dy * dy) by (nonlinear_arith)
        requires
            ax == dx || ax == -dx,
            ay == dy || ay == -dy,
    ;
    let n: u64 = ax * ax + ay * ay;
    let r: u64 = isqrt_u64(n);
    r as i64
}

/// The facilities that a flat coordinate sequence encodes, one per
/// consecutive `(x, y)` pair.
pub open spec fn facilities_of(position: Seq<i64>) -> Seq<Xy> {
    Seq::new(position.len() / 2, |i: int| Xy { x: position[2 * i], y: position[2 * i + 1] })
}

/// Splits a flat coordinate sequence into points, pair by pair.
pub fn decode_position(position: &Vec<i64>) -> (r: Vec<Xy>)
    ensures
        r@ == facilities_of(position@),
{
    let n: usize = position.len() / 2;
    let mut r: Vec<Xy> = Vec::new();
    let mut k: usize = 0;
    while k < n
        invariant
            n == position.len() / 2,
            k <= n,
            r@ == facilities_of(position@).take(k as int),
        decreases n - k,
    {
        r.push(Xy { x: position[2 * k], y: position[2 * k + 1] });
        k = k + 1;
        assert(r@ =~= facilities_of(position@).take(k as int));
    }
    assert(r@ =~= facilities_of(position@));
    r
}

/// Flattens points into `x, y, x, y, ...`.
pub fn encode_points(points: &Vec<Xy>) -> (r: Vec<i64>)
    requires
        points.len() <= usize::MAX / 2,
    ensures
        r.len() == 2 * points.len(),
        forall|i: int|
            0 <= i < points.len() ==> r@[2 * i] == points@[i].x && r@[2 * i + 1] == points@[i].y,
        facilities_of(r@) == points@,
{
    let mut r: Vec<i64> = Vec::new();
    let mut k: usize = 0;
    while k < points.len()
        invariant
            k <= points.len() <= usize::MAX / 2,
            r.len() == 2 * k,
            forall|i: int| 0 <= i < k ==> r@[2 * i] == points@[i].x && r@[2 * i + 1] == points@[i].y,
        decreases points.len() - k,
    {
        r.push(points[k].x);
        r.push(points[k].y);
        k = k + 1;
    }
    assert(facilities_of(r@) =~= points@);
    r
}

/// Distance from `p` to the nearest of `facs`.
pub open spec fn nearest(p: Xy, facs: Seq<Xy>) -> int
    decreases facs.len(),
{
    if facs.len() <= 1 {
        if facs.len() == 1 {
            dist(p, facs[0]) as int
        } else {
            0
        }
    } else {
        let a = nearest(p, facs.drop_last());
        let b = dist(p, facs.last()) as int;
        if b < a {
            b
        } else {
            a
        }
    }
}

/// The largest distance from a store to its nearest facility.
pub open spec fn worst_store(stores: Seq<Xy>, facs: Seq<Xy>) -> int
    decreases stores.len(),
{
    if stores.len() <= 1 {
        if stores.len() == 1 {
            nearest(stores[0], facs)
        } else {
            0
        }
    } else {
        let a = worst_store(stores.drop_last(), facs);
        let b = nearest(stores.last(), facs);
        if b > a {
            b
        } else {
            a
        }
    }
}

/// The smallest distance from a residential point to its nearest facility.
pub open spec fn closest_residential(residential: Seq<Xy>, facs: Seq<Xy>) -> int
    decreases residential.len(),
{
    if residential.len() <= 1 {
        if residential.len() == 1 {
            nearest(residential[0], facs)
        } else {
            0
        }
    } else {
        let a = closest_residential(residential.drop_last(), facs);
        let b = nearest(residential.last(), facs);
        if b < a {
            b
        } else {
            a
        }
    }
}

/// The score of a flat facility position: higher is better.
pub open spec fn fitness_spec(position: Seq<i64>, stores: Seq<Xy>, residential: Seq<Xy>) -> int {
    let facs = facilities_of(position);
    closest_residential(residential, facs) - worst_store(stores, facs)
}

proof fn lemma_nearest_bounds(p: Xy, facs: Seq<Xy>, j: int)
    requires
        0 <= j < facs.len(),
    ensures
        0 <= nearest(p, facs) <= dist(p, facs[j]),
    decreases facs.len(),
{
    if facs.len() > 1 {
        let init = facs.drop_last();
        if j < facs.len() - 1 {
            lemma_nearest_bounds(p, init, j);
        } else {
            lemma_nearest_bounds(p, init, 0);
        }
    }
}

proof fn lemma_nearest_on_facility(p: Xy, facs: Seq<Xy>)
    requires
        facs.contains(p),
    ensures
        nearest(p, facs) == 0,
{
    let j = choose|j: int| 0 <= j < facs.len() && facs[j] == p;
    lemma_distance_zero(p);
    lemma_nearest_bounds(p, facs, j);
}

/// When each facility stands on a store and each store has a facility on
/// it, no store is any distance from its nearest facility.
pub proof fn lemma_worst_store_zero(stores: Seq<Xy>, facs: Seq<Xy>)
    requires
        forall|i: int| 0 <= i < facs.len() ==> stores.contains(#[trigger] facs[i]),
        forall|i: int| 0 <= i < stores.len() ==> facs.contains(#[trigger] stores[i]),
    ensures
        worst_store(stores, facs) == 0,
{
    lemma_worst_store_zero_covered(stores, facs);
}

proof fn lemma_worst_store_zero_covered(stores: Seq<Xy>, facs: Seq<Xy>)
    requires
        forall|i: int| 0 <= i < stores.len() ==> facs.contains(#[trigger] stores[i]),
    ensures
        worst_store(stores, facs) == 0,
    decreases stores.len(),
{
    if stores.len() >= 1 {
        lemma_nearest_on_facility(stores.last(), facs);
        lemma_nearest_on_facility(stores[0], facs);
    }
    if stores.len() > 1 {
        let init = stores.drop_last();
        assert forall|i: int| 0 <= i < init.len() implies facs.contains(#[trigger] init[i]) by {
            assert(init[i] == stores[i]);
        }
        lemma_worst_store_zero_covered(init, facs);
    }
}

/// Distance from `p` to the nearest facility.
fn nearest_facility(p: &Xy, facs: &Vec<Xy>) -> (r: i64)
    requires
        facs.len() >= 1,
        point_ok(*p),
        points_ok(facs@),
    ensures
        r == nearest(*p, facs@),
        0 <= r < 4294967296,
{
    let mut best: i64 = distance(p, &facs[0]);
    let mut k: usize = 1;
    while k < facs.len()
        invariant
            1 <= k <= facs.len(),
            point_ok(*p),
            points_ok(facs@),
            best == nearest(*p, facs@.take(k as int)),
            0 <= best < 4294967296,
        decreases facs.len() - k,
    {
        let d: i64 = distance(p, &facs[k]);
        assert(facs@.take(k + 1).drop_last() =~= facs@.take(k as int));
        if d < best {
            best = d;
        }
        k = k + 1;
    }
    assert(facs@.take(facs.len() as int) =~= facs@);
    best
}

/// Fitness of a flat facility position: the distance from the residential
/// point closest to any facility, less the distance from the store farthest
/// from every facility.
pub fn fitness_of(position: &Vec<i64>, stores: &Vec<Xy>, residential: &Vec<Xy>) -> (r: i64)
    requires
        position.len() >= 2,
        coords_ok(position@),
        stores.len() >= 1,
        points_ok(stores@),
        residential.len() >= 1,
        points_ok(residential@),
    ensures
        r == fitness_spec(position@, stores@, residential@),
{
    let facs: Vec<Xy> = decode_position(position);
    assert forall|i: int| 0 <= i < facs.len() implies point_ok(#[trigger] facs@[i]) by {
        assert(coord_ok(position@[2 * i] as int));
        assert(coord_ok(position@[2 * i + 1] as int));
    }
    let mut worst: i64 = nearest_facility(&stores[0], &facs);
    let mut k: usize = 1;
    while k < stores.len()
        invariant
            1 <= k <= stores.len(),
            facs.len() >= 1,
            points_ok(facs@),
            points_ok(stores@),
            worst == worst_store(stores@.take(k as int), facs@),
            0 <= worst < 4294967296,
        decreases stores.len() - k,
    {
        let d: i64 = nearest_facility(&stores[k], &facs);
        assert(stores@.take(k + 1).drop_last() =~= stores@.take(k as int));
        if d > worst {
            worst = d;
        }
        k = k + 1;
    }
    assert(stores@.take(stores.len() as int) =~= stores@);
    let mut closest: i64 = nearest_facility(&residential[0], &facs);
    let mut k: usize = 1;
    while k < residential.len()
        invariant
            1 <= k <= residential.len(),
            facs.len() >= 1,
            points_ok(facs@),
            points_ok(residential@),
            closest == closest_residential(residential@.take(k as int), facs@),
            0 <= closest < 4294967296,
        decreases residential.len() - k,
    {
        let d: i64 = nearest_facility(&residential[k], &facs);
        assert(residential@.take(k + 1).drop_last() =~= residential@.take(k as int));
        if d < closest {
            closest = d;
        }
        k = k + 1;
    }
    assert(residential@.take(residential.len() as int) =~= residential@);
    closest - worst
}

pub fn check_point(p: &Xy) -> (r: bool)
    ensures
        r == point_ok(*p),
{
    -COORD_LIMIT <= p.x && p.x <= COORD_LIMIT && -COORD_LIMIT <= p.y && p.y <= COORD_LIMIT
}

pub fn check_points(ps: &Vec<Xy>) -> (r: bool)
    ensures
        r == points_ok(ps@),
{
    let mut k: usize = 0;
    while k < ps.len()
        invariant
            k <= ps.len(),
            forall|i: int| 0 <= i < k ==> point_ok(#[trigger] ps@[i]),
        decreases ps.len() - k,
    {
        if !check_point(&ps[k]) {
            return false;
        }
        k = k + 1;
    }
    true
}

pub fn check_coords(cs: &Vec<i64>) -> (r: bool)
    ensures
        r == coords_ok(cs@),
{
    let mut k: usize = 0;
    while k < cs.len()
        invariant
            k <= cs.len(),
            forall|i: int| 0 <= i < k ==> coord_ok(#[trigger] cs@[i] as int),
        decreases cs.len() - k,
    {
        if cs[k] < -COORD_LIMIT || cs[k] > COORD_LIMIT {
            assert(!coord_ok(cs@[k as int] as int));
            return false;
        }
        k = k + 1;
    }
    true
}

/// Why `fitness` refuses its arguments, if it does.
pub open spec fn evaluation_error(position: Seq<i64>, stores: Seq<Xy>, residential: Seq<Xy>) -> Option<
    ConfigError,
> {
    if position.len() == 0 {
        Some(ConfigError::NoFacilities)
    } else if position.len() % 2 != 0 {
        Some(ConfigError::DimensionMismatch)
    } else if stores.len() == 0 {
        Some(ConfigError::NoStores)
    } else if residential.len() == 0 {
        Some(ConfigError::NoResidential)
    } else if !coords_ok(position) || !points_ok(stores) || !points_ok(residential) {
        Some(ConfigError::CoordinateOutOfRange)
    } else {
        None
    }
}

/// Fitness of a flat facility position, refusing empty or out-of-range
/// input instead of scoring it.
pub fn fitness(position: &Vec<i64>, stores: &Vec<Xy>, residential: &Vec<Xy>) -> (r: Result<i64, ConfigError>)
    ensures
        match r {
            Ok(f) => evaluation_error(position@, stores@, residential@) == None::<ConfigError>
                && f == fitness_spec(position@, stores@, residential@),
            Err(e) => evaluation_error(position@, stores@, residential@) == Some(e),
        },
{
    if position.len() == 0 {
        Err(ConfigError::NoFacilities)
    } else if position.len() % 2 != 0 {
        Err(ConfigError::DimensionMismatch)
    } else if stores.len() == 0 {
        Err(ConfigError::NoStores)
    } else if residential.len() == 0 {
        Err(ConfigError::NoResidential)
    } else if !check_coords(position) || !check_points(stores) || !check_points(residential) {
        Err(ConfigError::CoordinateOutOfRange)
    } else {
        Ok(fitness_of(position, stores, residential))
    }
}

} // verus!
