//! The force calculator and the integrator: toroidally calibrated
//! displacements, the pairwise force law, the force sum over the Moore
//! neighborhood, and the velocity/position update of one tick's first phase.

use vstd::prelude::*;
use vstd::math::abs;

use rayon::iter::IntoParallelRefIterator;
use rayon::iter::ParallelIterator;

use crate::bucket::flat_index;
use crate::bucket::get_neighbors;
use crate::bucket::neighbor_seq;
use crate::bucket::BucketCoord;
use crate::configuration::FORCE_COMPONENT_LIMIT;
use crate::configuration::SCALE;
use crate::configuration::SPEED_LIMIT;
use crate::configuration::TOTAL_FORCE_LIMIT;
use crate::configuration::UniverseConfig;
use crate::fixed::div_fix;
use crate::fixed::div_tz;
use crate::fixed::emod_fix;
use crate::fixed::is_sqrt_floor;
use crate::fixed::isqrt_fix;
use crate::fixed::sat_spec;
use crate::fixed::sat_fix;
use crate::fixed::sqrt_floor;
use crate::spore::SporeConfigs;
use crate::spore::record_ok;
use crate::spore::SporesState;
use crate::vector::zero_vec;
use crate::vector::Vector;

verus! {

/// One axis of the toroidal recalibration: a raw displacement whose
/// magnitude reaches `extent - max_reach` wraps shorter around the seam, so
/// one extent is subtracted in the direction of its sign.
pub open spec fn calibrate_axis(raw: int, extent: int, max_reach: int) -> int {
    if raw >= extent - max_reach {
        raw - extent
    } else if -raw >= extent - max_reach {
        raw + extent
    } else {
        raw
    }
}

/// Calibrated displacement from `spore` to `other`, horizontal axis.
pub open spec fn calibrated_dx(cfg: UniverseConfig, other: Vector, spore: Vector) -> int {
    calibrate_axis(other.x - spore.x, cfg.universe_width as int, cfg.max_force_reach as int)
}

/// Calibrated displacement from `spore` to `other`, vertical axis.
pub open spec fn calibrated_dy(cfg: UniverseConfig, other: Vector, spore: Vector) -> int {
    calibrate_axis(other.y - spore.y, cfg.universe_height as int, cfg.max_force_reach as int)
}

/// Euclidean magnitude (rounded down) of the calibrated displacement.
pub open spec fn calibrated_scalar(cfg: UniverseConfig, other: Vector, spore: Vector) -> int {
    let dx = calibrated_dx(cfg, other, spore);
    let dy = calibrated_dy(cfg, other, spore);
    sqrt_floor(dx * dx + dy * dy)
}

/// The repulsion-regime multiplier at distance `r` from a particle with
/// repulsion distance `rd`: the fixed-point form of
/// `(r - rd)^2 * repulsion_amplitude / rd^2`.
pub open spec fn repulsion_multiplier(cfg: UniverseConfig, rd: int, r: int) -> int {
    let q = div_tz((rd - r) * SCALE, rd);
    let f1 = div_tz(q * q, SCALE as int);
    div_tz(f1 * cfg.repulsion_amplitude, SCALE as int)
}

/// The attraction-regime multiplier: the fixed-point form of
/// `factor * (|net_reach - offset| / net_reach / 2)`, still to be divided
/// by `r` when it scales the displacement.
pub open spec fn attraction_multiplier(rd: int, factor: int, reach: int, r: int) -> int {
    let net = reach - rd;
    let offset = r - rd;
    let center = abs(net - offset) as int;
    let scale = div_tz(center * SCALE, 2 * net);
    div_tz(factor * scale, SCALE as int)
}

/// The pairwise force a particle of parameters `(rd, factor, reach)` exerts
/// over the calibrated displacement `(dx, dy)` of magnitude `r`: zero at
/// magnitude zero, the repulsion regime below `rd`, the triangular
/// attraction/repulsion regime from `rd` to `reach`.
pub open spec fn pair_force(
    cfg: UniverseConfig,
    rd: int,
    factor: int,
    reach: int,
    dx: int,
    dy: int,
    r: int,
) -> (int, int) {
    if r == 0 {
        (0, 0)
    } else if r < rd {
        let f = repulsion_multiplier(cfg, rd, r);
        (div_tz(dx * f, SCALE as int), div_tz(dy * f, SCALE as int))
    } else {
        let m = attraction_multiplier(rd, factor, reach, r);
        (div_tz(dx * m, r), div_tz(dy * m, r))
    }
}

/// The magnitude of a truncating quotient is the quotient of magnitudes.
pub proof fn lemma_div_tz_abs(a: int, b: int)
    requires
        b >= 1,
    ensures
        abs(div_tz(a, b)) == abs(a) as int / b,
        abs(div_tz(a, b)) <= abs(a),
{
    vstd::arithmetic::div_mod::lemma_div_pos_is_pos(abs(a) as int, b);
    vstd::arithmetic::div_mod::lemma_div_nonincreasing(abs(a) as int, b);
}

/// `|a| <= c` and `b >= 1` bound the truncating quotient by `c / b`.
pub proof fn lemma_div_tz_bound(a: int, b: int, c: int)
    requires
        b >= 1,
        abs(a) <= c,
    ensures
        abs(div_tz(a, b)) <= c / b,
        abs(div_tz(a, b)) <= c,
{
    lemma_div_tz_abs(a, b);
    vstd::arithmetic::div_mod::lemma_div_is_ordered(abs(a) as int, c, b);
    vstd::arithmetic::div_mod::lemma_div_nonincreasing(c, b);
}

/// A product of bounded factors is bounded.
pub proof fn lemma_abs_mul_bound(a: int, b: int, ba: int, bb: int)
    requires
        abs(a) <= ba,
        abs(b) <= bb,
    ensures
        abs(a * b) <= ba * bb,
{
    assert(abs(a * b) <= ba * bb) by (nonlinear_arith)
        requires
            abs(a) <= ba && abs(b) <= bb;
}

/// Both components of a pairwise force are bounded by
/// `FORCE_COMPONENT_LIMIT`, given parameters within the configuration
/// bounds and a displacement no longer than the reach.
pub proof fn lemma_pair_force_bound(
    cfg: UniverseConfig,
    rd: int,
    factor: int,
    reach: int,
    dx: int,
    dy: int,
    r: int,
)
    requires
        cfg.well_formed(),
        1 <= rd < reach,
        reach <= cfg.max_force_reach,
        abs(factor) <= cfg.max_force_amplitude,
        0 <= r <= reach,
        abs(dx) <= r,
        abs(dy) <= r,
    ensures
        abs(pair_force(cfg, rd, factor, reach, dx, dy, r).0) <= FORCE_COMPONENT_LIMIT,
        abs(pair_force(cfg, rd, factor, reach, dx, dy, r).1) <= FORCE_COMPONENT_LIMIT,
{
    if r == 0 {
    } else if r < rd {
        let q = div_tz((rd - r) * SCALE, rd);
        let f1 = div_tz(q * q, SCALE as int);
        let f = div_tz(f1 * cfg.repulsion_amplitude, SCALE as int);
        assert(abs((rd - r) * SCALE) <= rd * SCALE - SCALE) by (nonlinear_arith)
            requires
                1 <= r < rd && SCALE == 1000;
        lemma_div_tz_bound((rd - r) * SCALE, rd, rd * SCALE - SCALE);
        assert((rd * SCALE - SCALE) / rd <= SCALE - 1) by (nonlinear_arith)
            requires
                rd >= 1 && SCALE == 1000;
        assert(abs(q * q) <= (SCALE - 1) * (SCALE - 1)) by (nonlinear_arith)
            requires
                abs(q) <= SCALE - 1;
        lemma_div_tz_bound(q * q, SCALE as int, (SCALE - 1) * (SCALE - 1));
        assert(abs(f1) <= SCALE);
        lemma_abs_mul_bound(f1, cfg.repulsion_amplitude as int, SCALE as int, 1_000_000int);
        lemma_div_tz_bound(f1 * (cfg.repulsion_amplitude as int), SCALE as int, SCALE * 1_000_000);
        assert(abs(f) <= 1_000_000int);
        lemma_abs_mul_bound(dx, f, 10_000_000int, 1_000_000int);
        lemma_abs_mul_bound(dy, f, 10_000_000int, 1_000_000int);
        lemma_div_tz_bound(dx * f, SCALE as int, 10_000_000_000_000int);
        lemma_div_tz_bound(dy * f, SCALE as int, 10_000_000_000_000int);
        assert(10_000_000_000_000int / (SCALE as int) == FORCE_COMPONENT_LIMIT);
    } else {
        let net = reach - rd;
        let offset = r - rd;
        let center = abs(net - offset) as int;
        let scale = div_tz(center * SCALE, 2 * net);
        let m = div_tz(factor * scale, SCALE as int);
        assert(center <= net);
        assert(abs(center * SCALE) <= net * SCALE) by (nonlinear_arith)
            requires
                0 <= center <= net && SCALE == 1000;
        lemma_div_tz_bound(center * SCALE, 2 * net, net * SCALE);
        assert((net * SCALE) / (2 * net) <= SCALE) by (nonlinear_arith)
            requires
                net >= 1 && SCALE == 1000;
        assert(abs(scale) <= SCALE);
        lemma_abs_mul_bound(factor, scale, 1_000_000int, SCALE as int);
        lemma_div_tz_bound(factor * scale, SCALE as int, 1_000_000int * (SCALE as int));
        assert(abs(m) <= 1_000_000int);
        lemma_abs_mul_bound(dx, m, r, 1_000_000int);
        lemma_abs_mul_bound(dy, m, r, 1_000_000int);
        lemma_div_tz_bound(dx * m, r, r * 1_000_000);
        lemma_div_tz_bound(dy * m, r, r * 1_000_000);
        assert((r * 1_000_000) / r <= 1_000_000int) by (nonlinear_arith)
            requires
                r >= 1;
        assert(abs(pair_force(cfg, rd, factor, reach, dx, dy, r).0) <= FORCE_COMPONENT_LIMIT);
        assert(abs(pair_force(cfg, rd, factor, reach, dx, dy, r).1) <= FORCE_COMPONENT_LIMIT);
    }
}

/// Intermediate bounds of the repulsion regime: the squared ratio stays
/// within one fixed-point unit and the multiplier within the amplitude.
pub proof fn lemma_repulsion_parts(cfg: UniverseConfig, rd: int, r: int)
    requires
        cfg.well_formed(),
        1 <= r < rd <= 10_000_000,
    ensures
        ({
            let q = div_tz((rd - r) * SCALE, rd);
            let f1 = div_tz(q * q, SCALE as int);
            &&& 0 <= q <= SCALE - 1
            &&& 0 <= f1 <= SCALE
            &&& abs(repulsion_multiplier(cfg, rd, r)) <= 1_000_000
        }),
{
    let q = div_tz((rd - r) * SCALE, rd);
    let f1 = div_tz(q * q, SCALE as int);
    assert(abs((rd - r) * SCALE) <= rd * SCALE - SCALE && (rd - r) * SCALE >= 0)
        by (nonlinear_arith)
        requires
            1 <= r < rd && SCALE == 1000;
    lemma_div_tz_bound((rd - r) * SCALE, rd, rd * SCALE - SCALE);
    assert((rd * SCALE - SCALE) / rd <= SCALE - 1) by (nonlinear_arith)
        requires
            rd >= 1 && SCALE == 1000;
    vstd::arithmetic::div_mod::lemma_div_pos_is_pos((rd - r) * SCALE, rd);
    assert(abs(q * q) <= (SCALE - 1) * (SCALE - 1) && q * q >= 0) by (nonlinear_arith)
        requires
            0 <= q <= SCALE - 1;
    lemma_div_tz_bound(q * q, SCALE as int, (SCALE - 1) * (SCALE - 1));
    vstd::arithmetic::div_mod::lemma_div_pos_is_pos(q * q, SCALE as int);
    lemma_abs_mul_bound(f1, cfg.repulsion_amplitude as int, SCALE as int, 1_000_000int);
    lemma_div_tz_bound(f1 * (cfg.repulsion_amplitude as int), SCALE as int, SCALE * 1_000_000);
}

/// Calibrated distance symmetry: between two wrapped positions the
/// calibrated displacements are exact opposites, so their magnitudes agree.
pub proof fn lemma_calibrated_symmetry(cfg: UniverseConfig, a: Vector, b: Vector)
    requires
        cfg.well_formed(),
        0 <= a.x < cfg.universe_width,
        0 <= a.y < cfg.universe_height,
        0 <= b.x < cfg.universe_width,
        0 <= b.y < cfg.universe_height,
    ensures
        calibrated_dx(cfg, b, a) == -calibrated_dx(cfg, a, b),
        calibrated_dy(cfg, b, a) == -calibrated_dy(cfg, a, b),
        calibrated_scalar(cfg, b, a) == calibrated_scalar(cfg, a, b),
{
    assert((cfg.max_force_reach as int) * 3 <= cfg.universe_width && (cfg.max_force_reach as int)
        * 3 <= cfg.universe_height) by (nonlinear_arith)
        requires
            cfg.max_force_reach <= cfg.bucket_width && cfg.max_force_reach <= cfg.bucket_height
                && cfg.nr_horz_buckets >= 3 && cfg.nr_vert_buckets >= 3 && cfg.universe_width
                == cfg.bucket_width * cfg.nr_horz_buckets && cfg.universe_height
                == cfg.bucket_height * cfg.nr_vert_buckets && cfg.bucket_width >= 1
                && cfg.bucket_height >= 1 && cfg.max_force_reach >= 1;
    let dx = calibrated_dx(cfg, b, a);
    let dy = calibrated_dy(cfg, b, a);
    assert(dx * dx == (-dx) * (-dx) && dy * dy == (-dy) * (-dy)) by (nonlinear_arith);
}

/// At the outer boundary `r == force_reach` the attraction regime yields
/// the zero force: the force law is continuous at the reach.
pub proof fn lemma_force_zero_at_reach(
    cfg: UniverseConfig,
    rd: int,
    factor: int,
    reach: int,
    dx: int,
    dy: int,
)
    requires
        cfg.well_formed(),
        1 <= rd < reach,
    ensures
        pair_force(cfg, rd, factor, reach, dx, dy, reach) == (0int, 0int),
{
    let net = reach - rd;
    assert(abs(net - (reach - rd)) == 0);
    assert(div_tz(0 * SCALE, 2 * net) == 0) by {
        vstd::arithmetic::div_mod::lemma_div_of0(2 * net);
    }
    assert(attraction_multiplier(rd, factor, reach, reach) == div_tz(factor * 0, SCALE as int));
    assert(factor * 0 == 0) by (nonlinear_arith);
    assert(attraction_multiplier(rd, factor, reach, reach) == 0) by {
        vstd::arithmetic::div_mod::lemma_div_of0(SCALE as int);
    }
    assert(dx * 0 == 0 && dy * 0 == 0) by (nonlinear_arith);
    assert(pair_force(cfg, rd, factor, reach, dx, dy, reach).0 == div_tz(0, reach));
    vstd::arithmetic::div_mod::lemma_div_of0(reach);
}

/// At the inner boundary `r == repulsion_distance` the repulsion regime's
/// magnitude vanishes: approaching the boundary from below, the repulsion
/// force goes to zero.
pub proof fn lemma_repulsion_zero_at_boundary(cfg: UniverseConfig, rd: int)
    requires
        cfg.well_formed(),
        1 <= rd,
    ensures
        repulsion_multiplier(cfg, rd, rd) == 0,
{
    vstd::arithmetic::div_mod::lemma_div_of0(rd);
    assert((rd - rd) * SCALE == 0) by (nonlinear_arith);
    assert(div_tz(0, rd) == 0);
    assert(repulsion_multiplier(cfg, rd, rd) == div_tz(
        div_tz(0int * 0int, SCALE as int) * (cfg.repulsion_amplitude as int),
        SCALE as int,
    ));
    vstd::arithmetic::div_mod::lemma_div_of0(SCALE as int);
    assert(0 * cfg.repulsion_amplitude == 0) by (nonlinear_arith);
}

/// A displacement with its Euclidean magnitude.
pub struct Dist {
    pub vector: Vector,
    pub scalar: i64,
}

/// The calibrated displacement from `spore` to `other`: the raw difference,
/// corrected on each axis for the shorter way around the toroidal seam, with
/// its magnitude.
pub fn to_calibrated_dist(cfg: &UniverseConfig, other: Vector, spore: Vector) -> (d: Dist)
    requires
        cfg.well_formed(),
        0 <= other.x < cfg.universe_width,
        0 <= other.y < cfg.universe_height,
        0 <= spore.x < cfg.universe_width,
        0 <= spore.y < cfg.universe_height,
    ensures
        d.vector.x == calibrated_dx(*cfg, other, spore),
        d.vector.y == calibrated_dy(*cfg, other, spore),
        d.scalar == calibrated_scalar(*cfg, other, spore),
        0 <= d.scalar <= 2_000_000_000,
        abs(d.vector.x as int) <= d.scalar,
        abs(d.vector.y as int) <= d.scalar,
{
    let uncalibrated = other.minus(spore);
    let raw_x = uncalibrated.x;
    let raw_y = uncalibrated.y;
    let x = if raw_x >= cfg.universe_width - cfg.max_force_reach {
        raw_x - cfg.universe_width
    } else if -raw_x >= cfg.universe_width - cfg.max_force_reach {
        raw_x + cfg.universe_width
    } else {
        raw_x
    };
    let y = if raw_y >= cfg.universe_height - cfg.max_force_reach {
        raw_y - cfg.universe_height
    } else if -raw_y >= cfg.universe_height - cfg.max_force_reach {
        raw_y + cfg.universe_height
    } else {
        raw_y
    };
    proof {
        assert(x == calibrated_dx(*cfg, other, spore));
        assert(y == calibrated_dy(*cfg, other, spore));
        assert(abs(x as int) < 1_000_000_000 && abs(y as int) < 1_000_000_000);
        assert((x as int) * (x as int) + (y as int) * (y as int) <= 2_000_000_000_000_000_000int
            && (x as int) * (x as int) >= 0 && (y as int) * (y as int) >= 0) by (nonlinear_arith)
            requires
                abs(x as int) < 1_000_000_000 && abs(y as int) < 1_000_000_000;
    }
    let n: u64 = ((x * x) + (y * y)) as u64;
    let s: u64 = isqrt_fix(n);
    proof {
        assert((s as int) <= 2_000_000_000) by (nonlinear_arith)
            requires
                (s as int) * (s as int) <= 2_000_000_000_000_000_000int && s as int >= 0;
        assert(abs(x as int) <= s as int && abs(y as int) <= s as int) by (nonlinear_arith)
            requires
                is_sqrt_floor((x as int) * (x as int) + (y as int) * (y as int), s as int);
    }
    Dist { vector: Vector { x, y }, scalar: s as i64 }
}

/// The attraction/repulsion regime (`repulsion_distance <= r <= reach`):
/// the triangular profile `factor * |net_reach - offset| / net_reach / 2`,
/// scaled onto the displacement and divided by the distance.
fn scale_force(cfg: &UniverseConfig, configs: &SporeConfigs, spore_type: u8, dist: Dist) -> (f:
    Vector)
    requires
        cfg.well_formed(),
        configs.well_formed(*cfg),
        spore_type < cfg.nr_of_spore_types,
        configs.repulsion_dists@[spore_type as int] <= dist.scalar
            <= configs.force_reaches@[spore_type as int],
        abs(dist.vector.x as int) <= dist.scalar,
        abs(dist.vector.y as int) <= dist.scalar,
    ensures
        ({
            let t = spore_type as int;
            let m = attraction_multiplier(
                configs.repulsion_dists@[t] as int,
                configs.force_factors@[t] as int,
                configs.force_reaches@[t] as int,
                dist.scalar as int,
            );
            f.x == div_tz(dist.vector.x * m, dist.scalar as int) && f.y == div_tz(
                dist.vector.y * m,
                dist.scalar as int,
            )
        }),
{
    proof {
        assert(configs.type_ok(*cfg, spore_type as int));
    }
    let repulsion_dist = configs.repulsion_dists[spore_type as usize];
    let not_repulsion_dist = dist.scalar - repulsion_dist;
    let net_force_reach = configs.force_reaches[spore_type as usize] - repulsion_dist;
    let dist_from_force_reach_center = if net_force_reach >= not_repulsion_dist {
        net_force_reach - not_repulsion_dist
    } else {
        not_repulsion_dist - net_force_reach
    };
    let factor = configs.force_factors[spore_type as usize];
    proof {
        assert(dist_from_force_reach_center * (SCALE as int) <= 10_000_000_000int
            && dist_from_force_reach_center * (SCALE as int) >= 0) by (nonlinear_arith)
            requires
                0 <= dist_from_force_reach_center <= 10_000_000 && SCALE == 1000;
    }
    let scale = div_fix(dist_from_force_reach_center * SCALE, 2 * net_force_reach);
    proof {
        let net = net_force_reach as int;
        lemma_div_tz_bound(
            (dist_from_force_reach_center as int) * (SCALE as int),
            2 * net,
            net * (SCALE as int),
        );
        assert(abs((dist_from_force_reach_center as int) * (SCALE as int)) <= net * (SCALE as int))
            by (nonlinear_arith)
            requires
                0 <= dist_from_force_reach_center <= net && SCALE == 1000;
        assert((net * (SCALE as int)) / (2 * net) <= SCALE) by (nonlinear_arith)
            requires
                net >= 1 && SCALE == 1000;
        lemma_abs_mul_bound(factor as int, scale as int, 1_000_000int, SCALE as int);
    }
    let m = div_fix(factor * scale, SCALE);
    proof {
        lemma_div_tz_bound((factor as int) * (scale as int), SCALE as int, 1_000_000_000int);
        lemma_abs_mul_bound(dist.vector.x as int, m as int, 2_000_000_000int, 1_000_000int);
        lemma_abs_mul_bound(dist.vector.y as int, m as int, 2_000_000_000int, 1_000_000int);
    }
    dist.vector.scale_div(m, dist.scalar)
}

/// The pairwise force of one candidate particle of type `spore_type` on the
/// subject, over the calibrated displacement `dist`: zero at magnitude zero
/// (the candidate is the subject itself or coincides with it), the repulsion
/// regime below the repulsion distance, the attraction/repulsion regime up
/// to the reach.
pub fn calculate_force(
    cfg: &UniverseConfig,
    configs: &SporeConfigs,
    spore_type: u8,
    dist: Dist,
) -> (f: Vector)
    requires
        cfg.well_formed(),
        configs.well_formed(*cfg),
        spore_type < cfg.nr_of_spore_types,
        0 <= dist.scalar <= configs.force_reaches@[spore_type as int],
        abs(dist.vector.x as int) <= dist.scalar,
        abs(dist.vector.y as int) <= dist.scalar,
    ensures
        ({
            let t = spore_type as int;
            let pf = pair_force(
                *cfg,
                configs.repulsion_dists@[t] as int,
                configs.force_factors@[t] as int,
                configs.force_reaches@[t] as int,
                dist.vector.x as int,
                dist.vector.y as int,
                dist.scalar as int,
            );
            f.x == pf.0 && f.y == pf.1
        }),
        dist.scalar == 0 ==> f == zero_vec(),
        abs(f.x as int) <= FORCE_COMPONENT_LIMIT,
        abs(f.y as int) <= FORCE_COMPONENT_LIMIT,
{
    proof {
        assert(configs.type_ok(*cfg, spore_type as int));
        lemma_pair_force_bound(
            *cfg,
            configs.repulsion_dists@[spore_type as int] as int,
            configs.force_factors@[spore_type as int] as int,
            configs.force_reaches@[spore_type as int] as int,
            dist.vector.x as int,
            dist.vector.y as int,
            dist.scalar as int,
        );
    }
    let repulsion_dist = configs.repulsion_dists[spore_type as usize];
    if dist.scalar == 0 {
        // the candidate is (at) the subject's own location
        Vector::zero()
    } else if dist.scalar < repulsion_dist {
        proof {
            lemma_repulsion_parts(*cfg, repulsion_dist as int, dist.scalar as int);
            assert((repulsion_dist - dist.scalar) * (SCALE as int) <= 10_000_000_000int
                && (repulsion_dist - dist.scalar) * (SCALE as int) >= 0) by (nonlinear_arith)
                requires
                    0 < repulsion_dist - dist.scalar <= 10_000_000 && SCALE == 1000;
        }
        let q = div_fix((repulsion_dist - dist.scalar) * SCALE, repulsion_dist);
        let f1 = div_fix(q * q, SCALE);
        let f2 = div_fix(f1 * cfg.repulsion_amplitude, SCALE);
        proof {
            lemma_abs_mul_bound(dist.vector.x as int, f2 as int, 2_000_000_000int, 1_000_000int);
            lemma_abs_mul_bound(dist.vector.y as int, f2 as int, 2_000_000_000int, 1_000_000int);
        }
        dist.vector.scale_div(f2, SCALE)
    } else {
        scale_force(cfg, configs, spore_type, dist)
    }
}

/// The force one candidate particle at `other` of type `t` contributes to
/// the subject at `spore`: the pairwise force if the calibrated distance is
/// within the candidate's own reach (the reach is keyed by the candidate's
/// type, not the subject's), zero otherwise.
pub open spec fn candidate_force(
    cfg: UniverseConfig,
    configs: SporeConfigs,
    spore: Vector,
    other: Vector,
    t: int,
) -> (int, int) {
    let dx = calibrated_dx(cfg, other, spore);
    let dy = calibrated_dy(cfg, other, spore);
    let r = calibrated_scalar(cfg, other, spore);
    if r <= configs.force_reaches@[t] {
        pair_force(
            cfg,
            configs.repulsion_dists@[t] as int,
            configs.force_factors@[t] as int,
            configs.force_reaches@[t] as int,
            dx,
            dy,
            r,
        )
    } else {
        (0, 0)
    }
}

/// The sum of the candidate forces of one bucket's particles on the
/// subject, in storage order.
pub open spec fn bucket_force(
    cfg: UniverseConfig,
    configs: SporeConfigs,
    spore: Vector,
    positions: Seq<Vector>,
    types: Seq<u8>,
) -> (int, int)
    decreases positions.len(),
{
    if positions.len() == 0 {
        (0, 0)
    } else {
        let prev = bucket_force(cfg, configs, spore, positions.drop_last(), types.drop_last());
        let c = candidate_force(
            cfg,
            configs,
            spore,
            positions.last(),
            types[positions.len() - 1] as int,
        );
        (prev.0 + c.0, prev.1 + c.1)
    }
}

/// One candidate's contribution is bounded by `FORCE_COMPONENT_LIMIT`.
pub proof fn lemma_candidate_force_bound(
    cfg: UniverseConfig,
    configs: SporeConfigs,
    spore: Vector,
    other: Vector,
    t: int,
)
    requires
        cfg.well_formed(),
        configs.well_formed(cfg),
        0 <= t < cfg.nr_of_spore_types,
        0 <= spore.x < cfg.universe_width,
        0 <= spore.y < cfg.universe_height,
        0 <= other.x < cfg.universe_width,
        0 <= other.y < cfg.universe_height,
    ensures
        abs(candidate_force(cfg, configs, spore, other, t).0) <= FORCE_COMPONENT_LIMIT,
        abs(candidate_force(cfg, configs, spore, other, t).1) <= FORCE_COMPONENT_LIMIT,
{
    let dx = calibrated_dx(cfg, other, spore);
    let dy = calibrated_dy(cfg, other, spore);
    let n = dx * dx + dy * dy;
    assert(dx * dx >= 0 && dy * dy >= 0) by (nonlinear_arith);
    assert(n >= 0);
    crate::fixed::lemma_sqrt_floor_exists(n);
    let r = sqrt_floor(n);
    assert(abs(dx) <= r && abs(dy) <= r) by (nonlinear_arith)
        requires
            is_sqrt_floor(dx * dx + dy * dy, r);
    if r <= configs.force_reaches@[t] {
        assert(configs.type_ok(cfg, t));
        lemma_pair_force_bound(
            cfg,
            configs.repulsion_dists@[t] as int,
            configs.force_factors@[t] as int,
            configs.force_reaches@[t] as int,
            dx,
            dy,
            r,
        );
    }
}

/// A bucket's force sum is bounded by its size times the per-candidate
/// bound.
pub proof fn lemma_bucket_force_bound(
    cfg: UniverseConfig,
    configs: SporeConfigs,
    spore: Vector,
    positions: Seq<Vector>,
    types: Seq<u8>,
)
    requires
        cfg.well_formed(),
        configs.well_formed(cfg),
        0 <= spore.x < cfg.universe_width,
        0 <= spore.y < cfg.universe_height,
        types.len() == positions.len(),
        forall|j: int|
            0 <= j < positions.len() ==> 0 <= (#[trigger] positions[j]).x < cfg.universe_width && 0
                <= positions[j].y < cfg.universe_height,
        forall|j: int| 0 <= j < types.len() ==> (#[trigger] types[j]) < cfg.nr_of_spore_types,
    ensures
        abs(bucket_force(cfg, configs, spore, positions, types).0) <= positions.len()
            * FORCE_COMPONENT_LIMIT,
        abs(bucket_force(cfg, configs, spore, positions, types).1) <= positions.len()
            * FORCE_COMPONENT_LIMIT,
    decreases positions.len(),
{
    if positions.len() == 0 {
    } else {
        lemma_bucket_force_bound(cfg, configs, spore, positions.drop_last(), types.drop_last());
        lemma_candidate_force_bound(
            cfg,
            configs,
            spore,
            positions.last(),
            types[positions.len() - 1] as int,
        );
        assert((positions.len() - 1) * FORCE_COMPONENT_LIMIT + FORCE_COMPONENT_LIMIT
            == positions.len() * FORCE_COMPONENT_LIMIT) by (nonlinear_arith);
    }
}

/// The force all particles of one bucket exert on the subject at `spore`:
/// calibrate each candidate's displacement, keep the candidates within
/// their own reach, and sum their pairwise forces.
fn calc_force_from_bucket(
    cfg: &UniverseConfig,
    configs: &SporeConfigs,
    spore: Vector,
    bucket_positions: &Vec<Vector>,
    bucket_spore_types: &Vec<u8>,
) -> (f: Vector)
    requires
        cfg.well_formed(),
        configs.well_formed(*cfg),
        0 <= spore.x < cfg.universe_width,
        0 <= spore.y < cfg.universe_height,
        bucket_spore_types@.len() == bucket_positions@.len(),
        bucket_positions@.len() <= 1_000_000,
        forall|j: int|
            0 <= j < bucket_positions@.len() ==> 0 <= (#[trigger] bucket_positions@[j]).x
                < cfg.universe_width && 0 <= bucket_positions@[j].y < cfg.universe_height,
        forall|j: int|
            0 <= j < bucket_spore_types@.len() ==> (#[trigger] bucket_spore_types@[j])
                < cfg.nr_of_spore_types,
    ensures
        ({
            let b = bucket_force(*cfg, *configs, spore, bucket_positions@, bucket_spore_types@);
            f.x == b.0 && f.y == b.1
        }),
        abs(f.x as int) <= bucket_positions@.len() * FORCE_COMPONENT_LIMIT,
        abs(f.y as int) <= bucket_positions@.len() * FORCE_COMPONENT_LIMIT,
{
    let mut fx: i64 = 0;
    let mut fy: i64 = 0;
    let len = bucket_positions.len();
    let mut j: usize = 0;
    while j < len
        invariant
            j <= len,
            len == bucket_positions@.len(),
            cfg.well_formed(),
            configs.well_formed(*cfg),
            0 <= spore.x < cfg.universe_width,
            0 <= spore.y < cfg.universe_height,
            bucket_spore_types@.len() == bucket_positions@.len(),
            bucket_positions@.len() <= 1_000_000,
            forall|i: int|
                0 <= i < bucket_positions@.len() ==> 0 <= (#[trigger] bucket_positions@[i]).x
                    < cfg.universe_width && 0 <= bucket_positions@[i].y < cfg.universe_height,
            forall|i: int|
                0 <= i < bucket_spore_types@.len() ==> (#[trigger] bucket_spore_types@[i])
                    < cfg.nr_of_spore_types,
            ({
                let b = bucket_force(
                    *cfg,
                    *configs,
                    spore,
                    bucket_positions@.take(j as int),
                    bucket_spore_types@.take(j as int),
                );
                fx == b.0 && fy == b.1
            }),
            abs(fx as int) <= j * FORCE_COMPONENT_LIMIT,
            abs(fy as int) <= j * FORCE_COMPONENT_LIMIT,
        decreases len - j,
    {
        let dist = to_calibrated_dist(cfg, bucket_positions[j], spore);
        let t = bucket_spore_types[j];
        let pair_f: Vector = if dist.scalar <= configs.force_reaches[t as usize] {
            calculate_force(cfg, configs, t, dist)
        } else {
            Vector::zero()
        };
        proof {
            let cj = candidate_force(*cfg, *configs, spore, bucket_positions@[j as int], t as int);
            assert(configs.type_ok(*cfg, t as int));
            lemma_candidate_force_bound(
                *cfg,
                *configs,
                spore,
                bucket_positions@[j as int],
                t as int,
            );
            assert(pair_f.x == cj.0 && pair_f.y == cj.1);
            assert(bucket_positions@.take(j + 1).drop_last() =~= bucket_positions@.take(j as int));
            assert(bucket_spore_types@.take(j + 1).drop_last() =~= bucket_spore_types@.take(
                j as int,
            ));
            assert(bucket_positions@.take(j + 1).last() == bucket_positions@[j as int]);
            assert(bucket_spore_types@.take(j + 1)[j as int] == bucket_spore_types@[j as int]);
            assert(j * FORCE_COMPONENT_LIMIT + FORCE_COMPONENT_LIMIT == (j + 1)
                * FORCE_COMPONENT_LIMIT) by (nonlinear_arith);
            assert((j + 1) * FORCE_COMPONENT_LIMIT <= 1_000_000 * FORCE_COMPONENT_LIMIT)
                by (nonlinear_arith)
                requires
                    0 <= j + 1 <= 1_000_000;
        }
        fx = fx + pair_f.x;
        fy = fy + pair_f.y;
        j = j + 1;
    }
    proof {
        assert(bucket_positions@.take(len as int) =~= bucket_positions@);
        assert(bucket_spore_types@.take(len as int) =~= bucket_spore_types@);
    }
    Vector { x: fx, y: fy }
}

/// The force on the subject from a list of buckets given by their cell
/// coordinates, summed in list order.
pub open spec fn force_over_buckets(
    cfg: UniverseConfig,
    configs: SporeConfigs,
    spore: Vector,
    state: &SporesState,
    coords: Seq<(int, int)>,
) -> (int, int)
    decreases coords.len(),
{
    if coords.len() == 0 {
        (0, 0)
    } else {
        let prev = force_over_buckets(cfg, configs, spore, state, coords.drop_last());
        let c = coords.last();
        let k = flat_index(cfg, c.0, c.1);
        let b = bucket_force(
            cfg,
            configs,
            spore,
            state.positions@[k]@,
            state.spore_types@[k]@,
        );
        (prev.0 + b.0, prev.1 + b.1)
    }
}

/// The total force on the subject at `spore` stored in cell `(h, v)`: the
/// sum over its Moore neighborhood.
pub open spec fn force_on_spore(
    cfg: UniverseConfig,
    configs: SporeConfigs,
    spore: Vector,
    state: &SporesState,
    h: int,
    v: int,
) -> (int, int) {
    force_over_buckets(cfg, configs, spore, state, neighbor_seq(cfg, h, v))
}

/// The force from a list of buckets is bounded by the list length times
/// one bucket's worst case.
pub proof fn lemma_force_over_buckets_bound(
    cfg: UniverseConfig,
    configs: SporeConfigs,
    spore: Vector,
    state: &SporesState,
    coords: Seq<(int, int)>,
)
    requires
        cfg.well_formed(),
        configs.well_formed(cfg),
        state.records_ok(cfg),
        0 <= spore.x < cfg.universe_width,
        0 <= spore.y < cfg.universe_height,
        forall|i: int|
            0 <= i < coords.len() ==> 0 <= (#[trigger] coords[i]).0 < cfg.nr_horz_buckets && 0
                <= coords[i].1 < cfg.nr_vert_buckets,
    ensures
        abs(force_over_buckets(cfg, configs, spore, state, coords).0) <= coords.len()
            * 10_000_000_000_000_000,
        abs(force_over_buckets(cfg, configs, spore, state, coords).1) <= coords.len()
            * 10_000_000_000_000_000,
    decreases coords.len(),
{
    if coords.len() > 0 {
        lemma_force_over_buckets_bound(cfg, configs, spore, state, coords.drop_last());
        let c = coords.last();
        let k = flat_index(cfg, c.0, c.1);
        assert(0 <= k < cfg.spec_nr_buckets()) by (nonlinear_arith)
            requires
                0 <= c.0 < cfg.nr_horz_buckets && 0 <= c.1 < cfg.nr_vert_buckets && k == c.1
                    * cfg.nr_horz_buckets + c.0;
        crate::spore::lemma_bucket_fields(state, cfg, k);
        lemma_bucket_force_bound(cfg, configs, spore, state.positions@[k]@, state.spore_types@[k]@);
        assert(state.positions@[k]@.len() * FORCE_COMPONENT_LIMIT <= 10_000_000_000_000_000int)
            by (nonlinear_arith)
            requires
                0 <= state.positions@[k]@.len() <= 1_000_000 && FORCE_COMPONENT_LIMIT
                    == 10_000_000_000i64;
        assert((coords.len() - 1) * 10_000_000_000_000_000int + 10_000_000_000_000_000int
            == coords.len() * 10_000_000_000_000_000int) by (nonlinear_arith);
    }
}

/// The total force on any stored particle is bounded by
/// `TOTAL_FORCE_LIMIT`.
pub proof fn lemma_force_on_spore_bound(
    cfg: UniverseConfig,
    configs: SporeConfigs,
    spore: Vector,
    state: &SporesState,
    h: int,
    v: int,
)
    requires
        cfg.well_formed(),
        configs.well_formed(cfg),
        state.records_ok(cfg),
        0 <= spore.x < cfg.universe_width,
        0 <= spore.y < cfg.universe_height,
        0 <= h < cfg.nr_horz_buckets,
        0 <= v < cfg.nr_vert_buckets,
    ensures
        abs(force_on_spore(cfg, configs, spore, state, h, v).0) <= TOTAL_FORCE_LIMIT,
        abs(force_on_spore(cfg, configs, spore, state, h, v).1) <= TOTAL_FORCE_LIMIT,
{
    let nh = cfg.nr_horz_buckets as int;
    let nv = cfg.nr_vert_buckets as int;
    vstd::arithmetic::div_mod::lemma_mod_division_less_than_divisor(h + nh - 1, nh);
    vstd::arithmetic::div_mod::lemma_mod_division_less_than_divisor(h + 1, nh);
    vstd::arithmetic::div_mod::lemma_mod_division_less_than_divisor(v + nv - 1, nv);
    vstd::arithmetic::div_mod::lemma_mod_division_less_than_divisor(v + 1, nv);
    let ns = neighbor_seq(cfg, h, v);
    assert(forall|i: int|
        0 <= i < ns.len() ==> 0 <= (#[trigger] ns[i]).0 < cfg.nr_horz_buckets && 0 <= ns[i].1
            < cfg.nr_vert_buckets);
    lemma_force_over_buckets_bound(cfg, configs, spore, state, ns);
}

/// The force all particles within reach exert on the subject at `spore`,
/// found by scanning the subject's own bucket `(horz, vert)` and its 8
/// toroidal neighbors.
pub fn calculate_forces_on_spore(
    cfg: &UniverseConfig,
    configs: &SporeConfigs,
    spore: Vector,
    spores: &SporesState,
    coord: BucketCoord,
) -> (f: Vector)
    requires
        cfg.well_formed(),
        configs.well_formed(*cfg),
        spores.records_ok(*cfg),
        0 <= spore.x < cfg.universe_width,
        0 <= spore.y < cfg.universe_height,
        coord.0 < cfg.nr_horz_buckets,
        coord.1 < cfg.nr_vert_buckets,
    ensures
        ({
            let t = force_on_spore(*cfg, *configs, spore, spores, coord.0 as int, coord.1 as int);
            f.x == t.0 && f.y == t.1
        }),
        abs(f.x as int) <= TOTAL_FORCE_LIMIT,
        abs(f.y as int) <= TOTAL_FORCE_LIMIT,
{
    let (horz, vert) = coord;
    let neighbors = get_neighbors(cfg, horz, vert);
    let ghost ns = neighbor_seq(*cfg, horz as int, vert as int);
    proof {
        assert(ns.len() == 9);
        assert(forall|i: int|
            0 <= i < 9 ==> (#[trigger] ns[i]).0 == neighbors@[i].0 as int && ns[i].1
                == neighbors@[i].1 as int);
        assert(forall|k: int, i: int|
            0 <= k < spores@.len() && 0 <= i < spores@[k].len() ==> (#[trigger] spores@[k][i])
                == (spores.positions@[k]@[i], spores.speeds@[k]@[i], spores.spore_types@[k]@[i]));
    }
    let mut fx: i64 = 0;
    let mut fy: i64 = 0;
    let mut i: usize = 0;
    while i < 9
        invariant
            i <= 9,
            cfg.well_formed(),
            configs.well_formed(*cfg),
            spores.records_ok(*cfg),
            0 <= spore.x < cfg.universe_width,
            0 <= spore.y < cfg.universe_height,
            neighbors@.len() == 9,
            ns.len() == 9,
            forall|j: int|
                0 <= j < 9 ==> (#[trigger] ns[j]).0 == neighbors@[j].0 as int && ns[j].1
                    == neighbors@[j].1 as int,
            forall|j: int|
                0 <= j < 9 ==> (#[trigger] neighbors@[j]).0 < cfg.nr_horz_buckets
                    && neighbors@[j].1 < cfg.nr_vert_buckets,
            ({
                let t = force_over_buckets(*cfg, *configs, spore, spores, ns.take(i as int));
                fx == t.0 && fy == t.1
            }),
            abs(fx as int) <= i * 10_000_000_000_000_000int,
            abs(fy as int) <= i * 10_000_000_000_000_000int,
        decreases 9 - i,
    {
        let (h, v) = neighbors[i];
        proof {
            assert((v as int) * (cfg.nr_horz_buckets as int) + (h as int)
                < cfg.spec_nr_buckets() && (v as int) * (cfg.nr_horz_buckets as int) + (h as int)
                <= 16777216int) by (nonlinear_arith)
                requires
                    h < cfg.nr_horz_buckets <= 4096 && v < cfg.nr_vert_buckets <= 4096;
        }
        let k = v * cfg.nr_horz_buckets + h;
        proof {
            let ki = k as int;
            assert(0 <= ki < spores@.len());
            assert(spores@[ki].len() == spores.positions@[ki]@.len());
            assert(spores.lens_match());
            assert(spores.speeds@[ki]@.len() == spores.positions@[ki]@.len()
                && spores.spore_types@[ki]@.len() == spores.positions@[ki]@.len());
            assert forall|j: int| 0 <= j < spores.positions@[ki]@.len() implies 0 <= (
            #[trigger] spores.positions@[ki]@[j]).x < cfg.universe_width && 0
                <= spores.positions@[ki]@[j].y < cfg.universe_height
                && spores.spore_types@[ki]@[j] < cfg.nr_of_spore_types by {
                assert(spores@[ki][j] == (
                    spores.positions@[ki]@[j],
                    spores.speeds@[ki]@[j],
                    spores.spore_types@[ki]@[j],
                ));
                assert(record_ok(*cfg, spores@[ki][j]));
            }
            assert forall|j: int| 0 <= j < spores.spore_types@[ki]@.len() implies (
            #[trigger] spores.spore_types@[ki]@[j]) < cfg.nr_of_spore_types by {
                assert(spores@[ki][j] == (
                    spores.positions@[ki]@[j],
                    spores.speeds@[ki]@[j],
                    spores.spore_types@[ki]@[j],
                ));
                assert(record_ok(*cfg, spores@[ki][j]));
            }
            crate::spore::lemma_row_le_total(spores@, ki);
            crate::spore::lemma_total_count_nonneg(spores@);
        }
        let b = calc_force_from_bucket(
            cfg,
            configs,
            spore,
            &spores.positions[k],
            &spores.spore_types[k],
        );
        proof {
            let ki = k as int;
            assert(spores.positions@[ki]@.len() * FORCE_COMPONENT_LIMIT
                <= 10_000_000_000_000_000int) by (nonlinear_arith)
                requires
                    0 <= spores.positions@[ki]@.len() <= 1_000_000
                        && FORCE_COMPONENT_LIMIT == 10_000_000_000,
            ;
            assert(ns.take(i + 1).drop_last() =~= ns.take(i as int));
            assert(ns.take(i + 1).last() == ns[i as int]);
            assert(flat_index(*cfg, ns[i as int].0, ns[i as int].1) == ki);
            assert(i * 10_000_000_000_000_000int + 10_000_000_000_000_000int == (i + 1)
                * 10_000_000_000_000_000int) by (nonlinear_arith);
        }
        fx = fx + b.x;
        fy = fy + b.y;
        i = i + 1;
    }
    proof {
        assert(ns.take(9) =~= ns);
    }
    Vector { x: fx, y: fy }
}

/// One tick's force pass for the bucket `coord`: every particle's total
/// force, computed in parallel against the same immutable snapshot.
///
/// Relies on rayon's `par_iter().map(..).collect::<Vec<_>>()`: an indexed
/// parallel map collects into a vector of the same length whose element `i`
/// is the closure's result on element `i`; the closure only calls the
/// verified `calculate_forces_on_spore`, whose contract gives each element.
#[verifier::external_body]
fn calc_forces(
    cfg: &UniverseConfig,
    configs: &SporeConfigs,
    spores: &SporesState,
    coord: BucketCoord,
) -> (r: Vec<Vector>)
    requires
        cfg.well_formed(),
        configs.well_formed(*cfg),
        spores.records_ok(*cfg),
        coord.0 < cfg.nr_horz_buckets,
        coord.1 < cfg.nr_vert_buckets,
    ensures
        r@.len() == spores.positions@[flat_index(*cfg, coord.0 as int, coord.1 as int)]@.len(),
        forall|i: int|
            0 <= i < r@.len() ==> {
                let k = flat_index(*cfg, coord.0 as int, coord.1 as int);
                let t = force_on_spore(
                    *cfg,
                    *configs,
                    spores.positions@[k]@[i],
                    spores,
                    coord.0 as int,
                    coord.1 as int,
                );
                (#[trigger] r@[i]).x == t.0 && r@[i].y == t.1
            },
{
    let k = coord.1 * cfg.nr_horz_buckets + coord.0;
    spores.positions[k]
        .par_iter()
        .map(|spore_position| calculate_forces_on_spore(cfg, configs, *spore_position, spores, coord))
        .collect()
}

/// Friction, then force: the next velocity component, saturated at
/// `SPEED_LIMIT`.
pub open spec fn next_speed_axis(cfg: UniverseConfig, v: int, f: int) -> int {
    sat_spec(div_tz(v * cfg.friction_num, cfg.friction_den as int) + f, SPEED_LIMIT as int)
}

/// Toroidal wraparound of one coordinate: the Euclidean remainder, always
/// in `[0, extent)` whatever the sign of `p`.
pub open spec fn wrap_axis(p: int, extent: int) -> int {
    p % extent
}

/// Wraparound correctness: the wrapped coordinate lies in `[0, extent)`,
/// and translating by a whole extent does not change it.
pub proof fn lemma_wrap_periodic(p: int, extent: int)
    requires
        extent >= 1,
    ensures
        0 <= wrap_axis(p, extent) < extent,
        wrap_axis(p + extent, extent) == wrap_axis(p, extent),
{
    vstd::arithmetic::div_mod::lemma_mod_division_less_than_divisor(p, extent);
    vstd::arithmetic::div_mod::lemma_mod_add_multiples_vanish(p, extent);
}

/// A position wrapped into the universe, each axis independently.
pub fn modulo_position(cfg: &UniverseConfig, position: Vector) -> (r: Vector)
    requires
        cfg.well_formed(),
        position.x > i64::MIN,
        position.y > i64::MIN,
    ensures
        r.x == wrap_axis(position.x as int, cfg.universe_width as int),
        r.y == wrap_axis(position.y as int, cfg.universe_height as int),
        0 <= r.x < cfg.universe_width,
        0 <= r.y < cfg.universe_height,
{
    Vector {
        x: emod_fix(position.x, cfg.universe_width),
        y: emod_fix(position.y, cfg.universe_height),
    }
}

/// The stepped values of particle `j` of bucket `k` under the given force
/// components `(fx, fy)`: `nv` is the saturated next velocity (friction,
/// then force), `np` the wrapped next position.
pub open spec fn stepped_at(
    cfg: UniverseConfig,
    state: &SporesState,
    k: int,
    fx: int,
    fy: int,
    np: Vector,
    nv: Vector,
    j: int,
) -> bool {
    let vx = next_speed_axis(cfg, state.speeds@[k]@[j].x as int, fx);
    let vy = next_speed_axis(cfg, state.speeds@[k]@[j].y as int, fy);
    &&& nv.x == vx
    &&& nv.y == vy
    &&& np.x == wrap_axis(state.positions@[k]@[j].x + vx, cfg.universe_width as int)
    &&& np.y == wrap_axis(state.positions@[k]@[j].y + vy, cfg.universe_height as int)
    &&& 0 <= np.x < cfg.universe_width
    &&& 0 <= np.y < cfg.universe_height
    &&& -SPEED_LIMIT <= nv.x <= SPEED_LIMIT
    &&& -SPEED_LIMIT <= nv.y <= SPEED_LIMIT
}

/// Phase A integration for one bucket, given every particle's total force:
/// friction scales the old velocity, the force is added (saturated at
/// `SPEED_LIMIT`), and the particle moves by the new velocity with toroidal
/// wraparound.  The new values are returned, not yet written back.
fn update_spores_with_forces(
    cfg: &UniverseConfig,
    spores: &SporesState,
    coord: BucketCoord,
    forces: &Vec<Vector>,
) -> (r: (Vec<Vector>, Vec<Vector>))
    requires
        cfg.well_formed(),
        spores.records_ok(*cfg),
        coord.0 < cfg.nr_horz_buckets,
        coord.1 < cfg.nr_vert_buckets,
        forces@.len() == spores.positions@[flat_index(
            *cfg,
            coord.0 as int,
            coord.1 as int,
        )]@.len(),
        forall|j: int|
            0 <= j < forces@.len() ==> abs((#[trigger] forces@[j]).x as int) <= TOTAL_FORCE_LIMIT
                && abs(forces@[j].y as int) <= TOTAL_FORCE_LIMIT,
    ensures
        r.0@.len() == forces@.len(),
        r.1@.len() == forces@.len(),
        forall|i: int|
            #![trigger r.0@[i]]
            #![trigger r.1@[i]]
            0 <= i < r.0@.len() ==> stepped_at(
                *cfg,
                spores,
                flat_index(*cfg, coord.0 as int, coord.1 as int),
                forces@[i].x as int,
                forces@[i].y as int,
                r.0@[i],
                r.1@[i],
                i,
            ),
{
    let (horz, vert) = coord;
    proof {
        assert((coord.1 as int) * (cfg.nr_horz_buckets as int) + (coord.0 as int)
            < cfg.spec_nr_buckets() && (coord.1 as int) * (cfg.nr_horz_buckets as int) + (
        coord.0 as int) <= 16777216int) by (nonlinear_arith)
            requires
                coord.0 < cfg.nr_horz_buckets <= 4096 && coord.1 < cfg.nr_vert_buckets <= 4096;
    }
    let k = vert * cfg.nr_horz_buckets + horz;
    let ghost ki = k as int;
    proof {
        assert(0 <= ki < spores.positions@.len());
        crate::spore::lemma_bucket_fields(spores, *cfg, ki);
    }
    let len = forces.len();
    let mut new_poss: Vec<Vector> = Vec::new();
    let mut new_speeds: Vec<Vector> = Vec::new();
    let mut i: usize = 0;
    while i < len
        invariant
            i <= len,
            cfg.well_formed(),
            spores.records_ok(*cfg),
            coord.0 < cfg.nr_horz_buckets,
            coord.1 < cfg.nr_vert_buckets,
            ki == flat_index(*cfg, coord.0 as int, coord.1 as int),
            k == ki,
            0 <= ki < spores.positions@.len(),
            len == spores.positions@[ki]@.len(),
            spores.speeds@[ki]@.len() == spores.positions@[ki]@.len(),
            forces@.len() == len,
            forall|j: int|
                0 <= j < len ==> 0 <= (#[trigger] spores.positions@[ki]@[j]).x
                    < cfg.universe_width && 0 <= spores.positions@[ki]@[j].y < cfg.universe_height,
            forall|j: int|
                0 <= j < len ==> -SPEED_LIMIT <= (#[trigger] spores.speeds@[ki]@[j]).x
                    <= SPEED_LIMIT && -SPEED_LIMIT <= spores.speeds@[ki]@[j].y <= SPEED_LIMIT,
            forall|j: int|
                0 <= j < len ==> abs((#[trigger] forces@[j]).x as int) <= TOTAL_FORCE_LIMIT && abs(
                    forces@[j].y as int,
                ) <= TOTAL_FORCE_LIMIT,
            new_poss@.len() == i,
            new_speeds@.len() == i,
            forall|j: int|
                #![trigger new_poss@[j]]
                #![trigger new_speeds@[j]]
                0 <= j < i ==> stepped_at(
                    *cfg,
                    spores,
                    ki as int,
                    forces@[j].x as int,
                    forces@[j].y as int,
                    new_poss@[j],
                    new_speeds@[j],
                    j,
                ),
        decreases len - i,
    {
        let old_pos = spores.positions[k][i];
        let old_speed = spores.speeds[k][i];
        let force = forces[i];
        proof {
            assert(abs((old_speed.x as int) * (cfg.friction_num as int))
                <= 1_000_000_000_000_000_000int && abs(
                (old_speed.y as int) * (cfg.friction_num as int),
            ) <= 1_000_000_000_000_000_000int && abs(
                (old_speed.x as int) * (cfg.friction_num as int),
            ) <= SPEED_LIMIT * cfg.friction_den && abs(
                (old_speed.y as int) * (cfg.friction_num as int),
            ) <= SPEED_LIMIT * cfg.friction_den) by (nonlinear_arith)
                requires
                    abs(old_speed.x as int) <= SPEED_LIMIT && abs(old_speed.y as int)
                        <= SPEED_LIMIT && 0 <= cfg.friction_num <= cfg.friction_den && 1
                        <= cfg.friction_den <= 1000 && SPEED_LIMIT == 1_000_000_000_000_000i64;
            lemma_div_tz_bound(
                (old_speed.x as int) * (cfg.friction_num as int),
                cfg.friction_den as int,
                SPEED_LIMIT * cfg.friction_den,
            );
            lemma_div_tz_bound(
                (old_speed.y as int) * (cfg.friction_num as int),
                cfg.friction_den as int,
                SPEED_LIMIT * cfg.friction_den,
            );
            vstd::arithmetic::div_mod::lemma_div_multiples_vanish(
                SPEED_LIMIT as int,
                cfg.friction_den as int,
            );
        }
        let vx = sat_fix(div_fix(old_speed.x * cfg.friction_num, cfg.friction_den) + force.x, SPEED_LIMIT);
        let vy = sat_fix(div_fix(old_speed.y * cfg.friction_num, cfg.friction_den) + force.y, SPEED_LIMIT);
        let new_speed = Vector { x: vx, y: vy };
        let new_pos = modulo_position(cfg, old_pos.plus(new_speed));
        new_poss.push(new_pos);
        new_speeds.push(new_speed);
        proof {
            assert(new_speeds@[i as int] == (Vector { x: vx, y: vy }));
            assert(new_poss@[i as int] == new_pos);
            assert(stepped_at(
                *cfg,
                spores,
                ki as int,
                forces@[i as int].x as int,
                forces@[i as int].y as int,
                new_poss@[i as int],
                new_speeds@[i as int],
                i as int,
            ));
        }
        i = i + 1;
    }
    (new_poss, new_speeds)
}

/// The integrated values of particle `j` of bucket `k`: `np` is its new
/// wrapped position and `nv` its new saturated velocity, as Phase A defines
/// them from the snapshot `state`.
pub open spec fn integrated_at(
    cfg: UniverseConfig,
    configs: SporeConfigs,
    state: &SporesState,
    k: int,
    h: int,
    v: int,
    np: Vector,
    nv: Vector,
    j: int,
) -> bool {
    let f = force_on_spore(cfg, configs, state.positions@[k]@[j], state, h, v);
    let vx = next_speed_axis(cfg, state.speeds@[k]@[j].x as int, f.0);
    let vy = next_speed_axis(cfg, state.speeds@[k]@[j].y as int, f.1);
    &&& nv.x == vx
    &&& nv.y == vy
    &&& np.x == wrap_axis(state.positions@[k]@[j].x + vx, cfg.universe_width as int)
    &&& np.y == wrap_axis(state.positions@[k]@[j].y + vy, cfg.universe_height as int)
    &&& 0 <= np.x < cfg.universe_width
    &&& 0 <= np.y < cfg.universe_height
    &&& -SPEED_LIMIT <= nv.x <= SPEED_LIMIT
    &&& -SPEED_LIMIT <= nv.y <= SPEED_LIMIT
}

/// Phase A for one bucket: from the snapshot `spores`, the new velocities
/// (friction applied, force added) and the new wrapped positions of every
/// particle of bucket `coord`, in storage order.  Nothing is written yet.
pub fn calc_new_positions_and_speeds(
    cfg: &UniverseConfig,
    configs: &SporeConfigs,
    spores: &SporesState,
    coord: BucketCoord,
) -> (r: (Vec<Vector>, Vec<Vector>))
    requires
        cfg.well_formed(),
        configs.well_formed(*cfg),
        spores.records_ok(*cfg),
        coord.0 < cfg.nr_horz_buckets,
        coord.1 < cfg.nr_vert_buckets,
    ensures
        r.0@.len() == spores.positions@[flat_index(*cfg, coord.0 as int, coord.1 as int)]@.len(),
        r.1@.len() == spores.positions@[flat_index(*cfg, coord.0 as int, coord.1 as int)]@.len(),
        forall|i: int|
            #![trigger r.0@[i]]
            #![trigger r.1@[i]]
            0 <= i < r.0@.len() ==> integrated_at(
                *cfg,
                *configs,
                spores,
                flat_index(*cfg, coord.0 as int, coord.1 as int),
                coord.0 as int,
                coord.1 as int,
                r.0@[i],
                r.1@[i],
                i,
            ),
{
    proof {
        assert((coord.1 as int) * (cfg.nr_horz_buckets as int) + (coord.0 as int)
            < cfg.spec_nr_buckets() && (coord.1 as int) * (cfg.nr_horz_buckets as int) + (
        coord.0 as int) <= 16777216int) by (nonlinear_arith)
            requires
                coord.0 < cfg.nr_horz_buckets <= 4096 && coord.1 < cfg.nr_vert_buckets <= 4096;
    }
    let ghost ki = flat_index(*cfg, coord.0 as int, coord.1 as int);
    let forces = calc_forces(cfg, configs, spores, coord);
    proof {
        assert(0 <= ki < spores.positions@.len());
        crate::spore::lemma_bucket_fields(spores, *cfg, ki);
        assert forall|j: int| 0 <= j < forces@.len() implies abs(
            (#[trigger] forces@[j]).x as int,
        ) <= TOTAL_FORCE_LIMIT && abs(forces@[j].y as int) <= TOTAL_FORCE_LIMIT by {
            lemma_force_on_spore_bound(
                *cfg,
                *configs,
                spores.positions@[ki]@[j],
                spores,
                coord.0 as int,
                coord.1 as int,
            );
        }
    }
    let r = update_spores_with_forces(cfg, spores, coord, &forces);
    proof {
        assert forall|i: int| 0 <= i < r.0@.len() implies integrated_at(
            *cfg,
            *configs,
            spores,
            ki,
            coord.0 as int,
            coord.1 as int,
            r.0@[i],
            r.1@[i],
            i,
        ) by {
            let f = force_on_spore(
                *cfg,
                *configs,
                spores.positions@[ki]@[i],
                spores,
                coord.0 as int,
                coord.1 as int,
            );
            assert(forces@[i].x == f.0 && forces@[i].y == f.1);
            assert(stepped_at(
                *cfg,
                spores,
                ki,
                forces@[i].x as int,
                forces@[i].y as int,
                r.0@[i],
                r.1@[i],
                i,
            ));
        }
    }
    r
}

/// The record of particle `j` of bucket `k` after Phase A: friction and
/// force applied to the velocity, the position moved and wrapped, the type
/// unchanged.
pub open spec fn next_record(
    cfg: UniverseConfig,
    configs: SporeConfigs,
    state: &SporesState,
    k: int,
    j: int,
) -> crate::spore::SporeRecord {
    let h = k % (cfg.nr_horz_buckets as int);
    let v = k / (cfg.nr_horz_buckets as int);
    let f = force_on_spore(cfg, configs, state.positions@[k]@[j], state, h, v);
    let vx = next_speed_axis(cfg, state.speeds@[k]@[j].x as int, f.0);
    let vy = next_speed_axis(cfg, state.speeds@[k]@[j].y as int, f.1);
    (
        Vector {
            x: wrap_axis(state.positions@[k]@[j].x + vx, cfg.universe_width as int) as i64,
            y: wrap_axis(state.positions@[k]@[j].y + vy, cfg.universe_height as int) as i64,
        },
        Vector { x: vx as i64, y: vy as i64 },
        state.spore_types@[k]@[j],
    )
}

/// The whole state Phase A produces from the snapshot `state`: every bucket
/// keeps its length, every record is integrated in place.
pub open spec fn phase_a_view(
    cfg: UniverseConfig,
    configs: SporeConfigs,
    state: &SporesState,
) -> Seq<Seq<crate::spore::SporeRecord>> {
    Seq::new(
        state.positions@.len(),
        |k: int|
            Seq::new(
                state.positions@[k]@.len(),
                |j: int| next_record(cfg, configs, state, k, j),
            ),
    )
}

/// A pair that satisfies `integrated_at` for the cell of rank `k` is
/// exactly the `next_record` of that slot.
pub proof fn lemma_integrated_is_next(
    cfg: UniverseConfig,
    configs: SporeConfigs,
    state: &SporesState,
    k: int,
    np: Vector,
    nv: Vector,
    j: int,
)
    requires
        integrated_at(
            cfg,
            configs,
            state,
            k,
            k % (cfg.nr_horz_buckets as int),
            k / (cfg.nr_horz_buckets as int),
            np,
            nv,
            j,
        ),
    ensures
        (np, nv, state.spore_types@[k]@[j]) == next_record(cfg, configs, state, k, j),
{
}

} // verus!
