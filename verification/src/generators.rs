//! Construction of the initial simulation data: a freshly randomized
//! per-type force table (within the configuration invariant), a fixed
//! baseline table, and a randomly placed population with zero velocity.

use vstd::prelude::*;

use rand::Rng;

use crate::bucket::get_bucket;
use crate::configuration::UniverseConfig;
use crate::spore::record_ok;
use crate::spore::total_count;
use crate::spore::SporeConfigs;
use crate::spore::SporesState;
use crate::vector::zero_vec;
use crate::vector::Vector;

verus! {

/// Relies on rand's `thread_rng().gen_range(lo..hi)`: a value drawn
/// uniformly from `[lo, hi)`.  It panics only on an empty range, which the
/// precondition excludes; nothing more is assumed of the outcome.
#[verifier::external_body]
fn random_below(lo: u64, hi: u64) -> (r: u64)
    requires
        lo < hi,
    ensures
        lo <= r < hi,
{
    rand::thread_rng().gen_range(lo..hi)
}

/// A fresh force table: for every type a repulsion distance, a force reach
/// and a signed force factor, each drawn from the ranges the global scales
/// allow, clamped so that the configuration invariant
/// (`0 < repulsion distance < reach <= maximal reach`) holds by
/// construction.
pub fn generate_spore_configs(cfg: &UniverseConfig) -> (c: SporeConfigs)
    requires
        cfg.well_formed(),
    ensures
        c.well_formed(*cfg),
{
    let mut repulsion_dists: Vec<i64> = Vec::new();
    let mut force_factors: Vec<i64> = Vec::new();
    let mut force_reaches: Vec<i64> = Vec::new();
    let n = cfg.nr_of_spore_types;
    let mut t: usize = 0;
    while t < n as usize
        invariant
            t <= n as usize,
            cfg.well_formed(),
            n == cfg.nr_of_spore_types,
            repulsion_dists@.len() == t,
            force_factors@.len() == t,
            force_reaches@.len() == t,
            forall|u: int|
                0 <= u < t ==> 1 <= (#[trigger] repulsion_dists@[u]) && repulsion_dists@[u]
                    < force_reaches@[u] && force_reaches@[u] <= cfg.max_force_reach
                    && -cfg.max_force_amplitude <= force_factors@[u] && force_factors@[u]
                    <= cfg.max_force_amplitude,
        decreases n as usize - t,
    {
        let mrd = cfg.max_repulsion_dist;
        let mfr = cfg.max_force_reach;
        let mfa = cfg.max_force_amplitude;
        let rd_lo: i64 = if mrd * 8 / 100 < 1 {
            1
        } else {
            mrd * 8 / 100
        };
        let rd_hi: i64 = mrd * 12 / 10;
        proof {
            vstd::arithmetic::div_mod::lemma_div_pos_is_pos((mrd * 8) as int, 100int);
            vstd::arithmetic::div_mod::lemma_div_pos_is_pos((mrd * 12) as int, 10int);
            assert(mrd * 8 >= 0 && mrd * 12 >= 20 && mrd * 8 * 10 < mrd * 12 * 100)
                by (nonlinear_arith)
                requires
                    mrd >= 2;
            assert((mrd * 12) / 10 >= 2) by (nonlinear_arith)
                requires
                    mrd >= 2;
            vstd::arithmetic::div_mod::lemma_multiply_divide_lt(
                (mrd * 12) as int,
                10int,
                cfg.max_force_reach as int,
            );
            assert(mrd * 12 < 10 * cfg.max_force_reach) by (nonlinear_arith)
                requires
                    mrd * 12 < cfg.max_force_reach * 10;
        }
        let repulsion_dist = random_below(rd_lo as u64, rd_hi as u64) as i64;
        let re_lo: i64 = if repulsion_dist + 1 > mfr * 2 / 10 {
            repulsion_dist + 1
        } else {
            mfr * 2 / 10
        };
        proof {
            vstd::arithmetic::div_mod::lemma_div_pos_is_pos((mfr * 2) as int, 10int);
            vstd::arithmetic::div_mod::lemma_multiply_divide_le(
                (mfr * 2) as int,
                10int,
                mfr as int,
            );
            assert(mfr * 2 >= 0 && mfr * 2 <= 10 * mfr) by (nonlinear_arith)
                requires
                    mfr >= 1;
        }
        let force_reach = random_below(re_lo as u64, (mfr + 1) as u64) as i64;
        proof {
            vstd::arithmetic::div_mod::lemma_div_pos_is_pos((mfa * 15) as int, 100int);
            vstd::arithmetic::div_mod::lemma_multiply_divide_lt(
                (mfa * 15) as int,
                100int,
                mfa as int,
            );
            assert(mfa * 15 >= 0 && mfa * 15 < 100 * mfa) by (nonlinear_arith)
                requires
                    mfa >= 1;
        }
        let magnitude = random_below((mfa * 15 / 100) as u64, mfa as u64) as i64;
        let positive = random_below(0, 100) < 65;
        let force_factor = if positive {
            magnitude
        } else {
            -magnitude
        };
        let ghost pr = repulsion_dists@;
        let ghost pf = force_factors@;
        let ghost pe = force_reaches@;
        repulsion_dists.push(repulsion_dist);
        force_reaches.push(force_reach);
        force_factors.push(force_factor);
        proof {
            assert forall|u: int| 0 <= u < t + 1 implies 1 <= (#[trigger] repulsion_dists@[u])
                && repulsion_dists@[u] < force_reaches@[u] && force_reaches@[u]
                <= cfg.max_force_reach && -cfg.max_force_amplitude <= force_factors@[u]
                && force_factors@[u] <= cfg.max_force_amplitude by {
                if u < t {
                    assert(repulsion_dists@[u] == pr[u]);
                    assert(force_factors@[u] == pf[u]);
                    assert(force_reaches@[u] == pe[u]);
                } else {
                    assert(repulsion_dists@[u] == repulsion_dist);
                    assert(force_reaches@[u] == force_reach);
                    assert(force_factors@[u] == force_factor);
                }
            }
        }
        t = t + 1;
    }
    let c = SporeConfigs { repulsion_dists, force_factors, force_reaches };
    proof {
        assert forall|u: int| 0 <= u < cfg.nr_of_spore_types implies #[trigger] c.type_ok(
            *cfg,
            u,
        ) by {
            assert(1 <= c.repulsion_dists@[u]);
        }
    }
    c
}

/// The fixed baseline force table: six types with the same hand-picked
/// parameters on every run.
pub fn get_previous_configs() -> (c: SporeConfigs)
    ensures
        c.repulsion_dists@ == seq![9820i64, 5970, 9160, 17590, 17570, 5080],
        c.force_factors@ == seq![80i64, -40i64, 60i64, 70i64, 100i64, -80i64],
        c.force_reaches@ == seq![27410i64, 58380, 38750, 36550, 52390, 65820],
{
    let mut repulsion_dists: Vec<i64> = Vec::new();
    repulsion_dists.push(9820);
    repulsion_dists.push(5970);
    repulsion_dists.push(9160);
    repulsion_dists.push(17590);
    repulsion_dists.push(17570);
    repulsion_dists.push(5080);
    let mut force_factors: Vec<i64> = Vec::new();
    force_factors.push(80);
    force_factors.push(-40);
    force_factors.push(60);
    force_factors.push(70);
    force_factors.push(100);
    force_factors.push(-80);
    let mut force_reaches: Vec<i64> = Vec::new();
    force_reaches.push(27410);
    force_reaches.push(58380);
    force_reaches.push(38750);
    force_reaches.push(36550);
    force_reaches.push(52390);
    force_reaches.push(65820);
    proof {
        assert(repulsion_dists@ =~= seq![9820i64, 5970, 9160, 17590, 17570, 5080]);
        assert(force_factors@ =~= seq![80i64, -40i64, 60i64, 70i64, 100i64, -80i64]);
        assert(force_reaches@ =~= seq![27410i64, 58380, 38750, 36550, 52390, 65820]);
    }
    SporeConfigs { repulsion_dists, force_factors, force_reaches }
}

/// A fresh population: `nr_of_spores` particles at uniformly random wrapped
/// positions, each already stored in the bucket of its position, with zero
/// velocity and a uniformly random type.
pub fn generate_spores(cfg: &UniverseConfig, nr_of_spores: u16) -> (s: SporesState)
    requires
        cfg.well_formed(),
    ensures
        s.well_formed(*cfg),
        total_count(s@) == nr_of_spores,
        forall|k: int, i: int|
            0 <= k < s@.len() && 0 <= i < s@[k].len() ==> (#[trigger] s@[k][i]).1 == zero_vec(),
{
    let nh = cfg.nr_horz_buckets;
    let nv = cfg.nr_vert_buckets;
    proof {
        assert((nh as int) * (nv as int) <= 16777216int && (nh as int) * (nv as int) >= 9)
            by (nonlinear_arith)
            requires
                3 <= nh <= 4096 && 3 <= nv <= 4096;
    }
    let nr_buckets = nh * nv;
    let mut positions: Vec<Vec<Vector>> = Vec::new();
    let mut speeds: Vec<Vec<Vector>> = Vec::new();
    let mut spore_types: Vec<Vec<u8>> = Vec::new();
    let mut b: usize = 0;
    while b < nr_buckets
        invariant
            b <= nr_buckets,
            positions@.len() == b,
            speeds@.len() == b,
            spore_types@.len() == b,
            forall|k: int| 0 <= k < b ==> (#[trigger] positions@[k])@.len() == 0,
            forall|k: int| 0 <= k < b ==> (#[trigger] speeds@[k])@.len() == 0,
            forall|k: int| 0 <= k < b ==> (#[trigger] spore_types@[k])@.len() == 0,
        decreases nr_buckets - b,
    {
        positions.push(Vec::new());
        speeds.push(Vec::new());
        spore_types.push(Vec::new());
        b = b + 1;
    }
    let mut spores = SporesState { positions, speeds, spore_types };
    proof {
        crate::spore::lemma_total_count_nonneg(spores@);
        assert forall|k: int| 0 <= k < spores@.len() implies (#[trigger] spores@[k]).len()
            == 0 by {}
        lemma_total_of_empty_rows(spores@);
        assert(spores.well_formed(*cfg));
    }
    let mut placed: u16 = 0;
    while placed < nr_of_spores
        invariant
            placed <= nr_of_spores,
            cfg.well_formed(),
            nh == cfg.nr_horz_buckets,
            spores.well_formed(*cfg),
            total_count(spores@) == placed,
            forall|k: int, i: int|
                0 <= k < spores@.len() && 0 <= i < spores@[k].len() ==> (
                #[trigger] spores@[k][i]).1 == zero_vec(),
        decreases nr_of_spores - placed,
    {
        let x = random_below(0, cfg.universe_width as u64) as i64;
        let y = random_below(0, cfg.universe_height as u64) as i64;
        let spore_type = random_below(0, cfg.nr_of_spore_types as u64) as u8;
        let (horz, vert) = get_bucket(cfg, x, y);
        proof {
            assert((vert as int) * (nh as int) + (horz as int) < cfg.spec_nr_buckets() && (
            vert as int) * (nh as int) + (horz as int) <= 16777216int) by (nonlinear_arith)
                requires
                    horz < cfg.nr_horz_buckets <= 4096 && vert < cfg.nr_vert_buckets <= 4096 && nh
                        == cfg.nr_horz_buckets;
        }
        let k = vert * nh + horz;
        let ghost pre = spores;
        let ghost ki = k as int;
        let ghost rec = (Vector { x, y }, zero_vec(), spore_type);
        proof {
            assert(0 <= ki < spores.positions@.len());
            assert(spores.lens_match());
            assert(spores.speeds@[ki]@.len() == spores.positions@[ki]@.len());
            assert(spores.spore_types@[ki]@.len() == spores.positions@[ki]@.len());
        }
        spores.positions[k].push(Vector { x, y });
        spores.speeds[k].push(Vector { x: 0, y: 0 });
        spores.spore_types[k].push(spore_type);
        proof {
            let newrow = pre@[ki].push(rec);
            assert(spores@[ki] =~= newrow);
            assert forall|dd: int| 0 <= dd < spores@.len() && dd != ki implies spores@[dd]
                =~= pre@[dd] by {}
            assert(spores@ =~= pre@.update(ki, newrow));
            crate::spore::lemma_total_count_update(pre@, ki, newrow);
            assert(record_ok(*cfg, rec));
            assert(crate::bucket::flat_bucket_of_pos(*cfg, rec.0) == ki);
            assert forall|kk: int, i: int|
                0 <= kk < spores@.len() && 0 <= i < spores@[kk].len() implies record_ok(
                *cfg,
                #[trigger] spores@[kk][i],
            ) && crate::bucket::flat_bucket_of_pos(*cfg, spores@[kk][i].0) == kk && spores@[kk][i].1
                == zero_vec() by {
                if kk == ki && i == spores@[ki].len() - 1 {
                    assert(spores@[kk][i] == rec);
                } else {
                    assert(spores@[kk][i] == pre@[kk][i]);
                    assert(record_ok(*cfg, pre@[kk][i]));
                }
            }
        }
        placed = placed + 1;
    }
    spores
}

/// A state whose buckets are all empty holds no particle.
proof fn lemma_total_of_empty_rows(s: Seq<Seq<crate::spore::SporeRecord>>)
    requires
        forall|k: int| 0 <= k < s.len() ==> (#[trigger] s[k]).len() == 0,
    ensures
        total_count(s) == 0,
    decreases s.len(),
{
    if s.len() > 0 {
        lemma_total_of_empty_rows(s.drop_last());
    }
}

} // verus!
