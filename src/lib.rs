//! Facility placement by particle swarm optimisation, on a fixed-point plane.
//!
//! Coordinates are integers: one real unit of length is `UNIT` steps, and
//! every coordinate the library handles lies within `COORD_LIMIT` of the
//! origin. Distances are the integer square root of the exact squared
//! Euclidean distance.
use vstd::prelude::*;

pub mod geometry;
pub mod particle;
pub mod random;
pub mod swarm;

verus! {

/// Number of integer steps in one unit of length.
pub const UNIT: i64 = 1000;

/// Largest magnitude of any coordinate or bound.
pub const COORD_LIMIT: i64 = 1073741824;

/// A weight of `WEIGHT_SCALE` stands for a factor of one.
pub const WEIGHT_SCALE: i64 = 1000;

/// Largest magnitude of a weight.
pub const WEIGHT_LIMIT: i64 = 1000000;

/// The random factors of a velocity update are draws `k` from
/// `0..RAND_SCALE`, standing for `k / RAND_SCALE` in `[0, 1)`.
pub const RAND_SCALE: i64 = 65536;

/// Why a configuration or an evaluation request was refused.
#[derive(Clone, Copy, Debug, PartialEq, Eq, Structural)]
pub enum ConfigError {
    /// No facility to place.
    NoFacilities,
    /// The number of coordinates is not twice the number of facilities.
    DimensionMismatch,
    /// A swarm of no particles.
    NoParticles,
    /// No store to stay close to.
    NoStores,
    /// No residential point to stay away from.
    NoResidential,
    /// A bound is empty or reaches beyond `COORD_LIMIT`.
    BadBound,
    /// A point or coordinate lies beyond `COORD_LIMIT`.
    CoordinateOutOfRange,
    /// A weight lies beyond `WEIGHT_LIMIT`.
    WeightOutOfRange,
}

} // verus!
