//! Global configuration of the universe: dimensions, bucket grid, friction
//! and the global force scales, together with the validity invariant that
//! construction must establish (`well_formed`).

use vstd::prelude::*;

verus! {

/// Fixed-point scale: one position unit is `SCALE` stored steps.
pub const SCALE: i64 = 1000;

/// Largest universe extent (in fixed-point steps) the engine accepts.
pub const EXTENT_LIMIT: i64 = 1_000_000_000;

/// Largest force reach (in fixed-point steps) the engine accepts.
pub const REACH_LIMIT: i64 = 10_000_000;

/// Largest magnitude of a force amplitude (fixed-point).
pub const AMPLITUDE_LIMIT: i64 = 1_000_000;

/// Largest denominator of the friction ratio.
pub const FRICTION_DEN_LIMIT: i64 = 1000;

/// Velocity components are saturated at this magnitude; it is far beyond any
/// reachable speed (the whole universe is at most `EXTENT_LIMIT` wide), but it
/// gives the integrator an inductive bound.
pub const SPEED_LIMIT: i64 = 1_000_000_000_000_000;

/// Largest magnitude of one pairwise force component (see `movement_calculator`).
pub const FORCE_COMPONENT_LIMIT: i64 = 10_000_000_000;

/// Largest magnitude of the total force on one particle: nine buckets of at
/// most `MAX_SPORES` candidates, each within `FORCE_COMPONENT_LIMIT`.
pub const TOTAL_FORCE_LIMIT: i64 = 90_000_000_000_000_000;

/// Largest number of particles a state may hold.
pub const MAX_SPORES: u64 = 1_000_000;

/// Largest number of buckets along one axis.
pub const GRID_DIM_LIMIT: usize = 4096;

/// All global constants the engine consumes, as one value.
///
/// Lengths (`universe_*`, `bucket_*`, `max_force_reach`, `max_repulsion_dist`)
/// are fixed-point steps; `max_force_amplitude` and `repulsion_amplitude` are
/// fixed-point force scales; friction is the ratio
/// `friction_num / friction_den`.
#[derive(Clone, Copy, PartialEq, Eq, Structural, Debug)]
pub struct UniverseConfig {
    pub universe_width: i64,
    pub universe_height: i64,
    pub nr_horz_buckets: usize,
    pub nr_vert_buckets: usize,
    pub bucket_width: i64,
    pub bucket_height: i64,
    pub max_force_reach: i64,
    pub max_repulsion_dist: i64,
    pub max_force_amplitude: i64,
    pub repulsion_amplitude: i64,
    pub friction_num: i64,
    pub friction_den: i64,
    pub nr_of_spore_types: u8,
}

impl UniverseConfig {
    /// The construction-time invariant: a grid of at least 3x3 buckets that
    /// tiles the universe exactly, every bucket edge at least the maximal
    /// force reach (the guarantee behind searching only the 3x3
    /// neighborhood), friction below or equal to one, a repulsion amplitude
    /// that repels (nonpositive), and bounds that keep all fixed-point
    /// arithmetic inside `i64`.
    pub open spec fn well_formed(self) -> bool {
        &&& 3 <= self.nr_horz_buckets <= GRID_DIM_LIMIT
        &&& 3 <= self.nr_vert_buckets <= GRID_DIM_LIMIT
        &&& 1 <= self.bucket_width
        &&& 1 <= self.bucket_height
        &&& self.universe_width == self.bucket_width * self.nr_horz_buckets
        &&& self.universe_height == self.bucket_height * self.nr_vert_buckets
        &&& 1 <= self.universe_width <= EXTENT_LIMIT
        &&& 1 <= self.universe_height
        &&& self.universe_height <= EXTENT_LIMIT
        &&& 1 <= self.max_force_reach <= REACH_LIMIT
        &&& self.max_force_reach <= self.bucket_width
        &&& self.max_force_reach <= self.bucket_height
        &&& 2 <= self.max_repulsion_dist
        &&& self.max_repulsion_dist * 12 < self.max_force_reach * 10
        &&& 1 <= self.max_force_amplitude <= AMPLITUDE_LIMIT
        &&& -AMPLITUDE_LIMIT <= self.repulsion_amplitude <= 0
        &&& 1 <= self.friction_den <= FRICTION_DEN_LIMIT
        &&& 0 <= self.friction_num <= self.friction_den
        &&& 1 <= self.nr_of_spore_types
    }

    /// Decides `well_formed`; construction refuses a configuration for which
    /// this returns false.
    pub fn is_valid(&self) -> (r: bool)
        ensures
            r == self.well_formed(),
    {
        if !(3 <= self.nr_horz_buckets && self.nr_horz_buckets <= GRID_DIM_LIMIT && 3
            <= self.nr_vert_buckets && self.nr_vert_buckets <= GRID_DIM_LIMIT && 1
            <= self.bucket_width && 1 <= self.bucket_height) {
            return false;
        }
        if self.bucket_width > EXTENT_LIMIT || self.bucket_height > EXTENT_LIMIT {
            proof {
                assert(!self.well_formed()) by (nonlinear_arith)
                    requires
                        (self.bucket_width > EXTENT_LIMIT || self.bucket_height > EXTENT_LIMIT)
                            && 1 <= self.bucket_width && 1 <= self.bucket_height && 3
                            <= self.nr_horz_buckets && 3 <= self.nr_vert_buckets;
            }
            return false;
        }
        proof {
            assert((self.bucket_width as int) * (self.nr_horz_buckets as int)
                <= 4096000000000int && (self.bucket_height as int) * (self.nr_vert_buckets as int)
                <= 4096000000000int && (self.bucket_width as int) * (self.nr_horz_buckets as int)
                >= 1 && (self.bucket_height as int) * (self.nr_vert_buckets as int) >= 1)
                by (nonlinear_arith)
                requires
                    1 <= self.bucket_width <= EXTENT_LIMIT && 1 <= self.bucket_height
                        <= EXTENT_LIMIT && 1 <= self.nr_horz_buckets <= GRID_DIM_LIMIT && 1
                        <= self.nr_vert_buckets <= GRID_DIM_LIMIT;
        }
        self.universe_width == self.bucket_width * (self.nr_horz_buckets as i64)
            && self.universe_height == self.bucket_height * (self.nr_vert_buckets as i64)
            && 1 <= self.universe_width && self.universe_width <= EXTENT_LIMIT
            && 1 <= self.universe_height && self.universe_height <= EXTENT_LIMIT
            && 1 <= self.max_force_reach && self.max_force_reach <= REACH_LIMIT
            && self.max_force_reach <= self.bucket_width
            && self.max_force_reach <= self.bucket_height
            && 2 <= self.max_repulsion_dist && self.max_repulsion_dist <= REACH_LIMIT
            && self.max_repulsion_dist * 12 < self.max_force_reach * 10
            && 1 <= self.max_force_amplitude && self.max_force_amplitude <= AMPLITUDE_LIMIT
            && -AMPLITUDE_LIMIT <= self.repulsion_amplitude && self.repulsion_amplitude <= 0
            && 1 <= self.friction_den && self.friction_den <= FRICTION_DEN_LIMIT
            && 0 <= self.friction_num && self.friction_num <= self.friction_den
            && 1 <= self.nr_of_spore_types
    }

    /// Number of buckets in the whole grid.
    pub open spec fn spec_nr_buckets(self) -> int {
        self.nr_horz_buckets * self.nr_vert_buckets
    }
}

} // verus!
