//! The bucket grid: mapping a wrapped position to its cell, enumerating all
//! cells, and enumerating the Moore neighborhood (a cell and its 8 toroidal
//! neighbors) of a cell.

use vstd::prelude::*;

use crate::configuration::UniverseConfig;
use crate::vector::Vector;

verus! {

/// A cell of the grid: `(horizontal index, vertical index)`.
pub type BucketCoord = (usize, usize);

/// The horizontal index, wrapped one cell to the left.
pub open spec fn dec_wrap(i: int, n: int) -> int {
    (i + n - 1) % n
}

/// The index, wrapped one cell to the right (or up).
pub open spec fn inc_wrap(i: int, n: int) -> int {
    (i + 1) % n
}

/// The cell that holds a wrapped position: floor division of each coordinate
/// by the bucket edge.
pub open spec fn bucket_of_pos(cfg: UniverseConfig, pos: Vector) -> (int, int) {
    (pos.x as int / cfg.bucket_width as int, pos.y as int / cfg.bucket_height as int)
}

/// The row-major rank of a cell: vertical index times row width plus
/// horizontal index.  It is also the index a cell has in `get_buckets` and
/// the index of the bucket in the simulation state.
pub open spec fn flat_index(cfg: UniverseConfig, h: int, v: int) -> int {
    v * cfg.nr_horz_buckets + h
}

/// The flat rank of the cell that holds a wrapped position.
pub open spec fn flat_bucket_of_pos(cfg: UniverseConfig, pos: Vector) -> int {
    flat_index(cfg, bucket_of_pos(cfg, pos).0, bucket_of_pos(cfg, pos).1)
}

/// The Moore neighborhood of a cell, in the order `get_neighbors` returns
/// it: the three cells above, the three beside, the three below.
pub open spec fn neighbor_seq(cfg: UniverseConfig, h: int, v: int) -> Seq<(int, int)> {
    let nh = cfg.nr_horz_buckets as int;
    let nv = cfg.nr_vert_buckets as int;
    seq![
        (dec_wrap(h, nh), inc_wrap(v, nv)),
        (h, inc_wrap(v, nv)),
        (inc_wrap(h, nh), inc_wrap(v, nv)),
        (dec_wrap(h, nh), v),
        (h, v),
        (inc_wrap(h, nh), v),
        (dec_wrap(h, nh), dec_wrap(v, nv)),
        (h, dec_wrap(v, nv)),
        (inc_wrap(h, nh), dec_wrap(v, nv)),
    ]
}

/// Every cell of the grid, exactly once: element `k` is the cell
/// `(k % width, k / width)`, so rows are enumerated horizontally.
pub fn get_buckets(cfg: &UniverseConfig) -> (r: Vec<BucketCoord>)
    requires
        cfg.well_formed(),
    ensures
        r@.len() == cfg.spec_nr_buckets(),
        forall|k: int|
            0 <= k < r@.len() ==> (#[trigger] r@[k]).0 == k % (cfg.nr_horz_buckets as int)
                && r@[k].1 == k / (cfg.nr_horz_buckets as int),
        forall|k: int|
            0 <= k < r@.len() ==> (#[trigger] r@[k]).0 < cfg.nr_horz_buckets && r@[k].1
                < cfg.nr_vert_buckets,
{
    let nh = cfg.nr_horz_buckets;
    let nv = cfg.nr_vert_buckets;
    proof {
        assert((nh as int) * (nv as int) <= 16777216int) by (nonlinear_arith)
            requires
                nh <= 4096 && nv <= 4096;
    }
    let mut buckets: Vec<BucketCoord> = Vec::new();
    let mut vert: usize = 0;
    while vert < nv
        invariant
            vert <= nv,
            nh == cfg.nr_horz_buckets,
            nv == cfg.nr_vert_buckets,
            cfg.well_formed(),
            buckets@.len() == vert * nh,
            forall|k: int|
                0 <= k < buckets@.len() ==> (#[trigger] buckets@[k]).0 == k % (nh as int)
                    && buckets@[k].1 == k / (nh as int),
        decreases nv - vert,
    {
        let mut horz: usize = 0;
        while horz < nh
            invariant
                vert < nv,
                horz <= nh,
                nh == cfg.nr_horz_buckets,
                nv == cfg.nr_vert_buckets,
                cfg.well_formed(),
                buckets@.len() == vert * nh + horz,
                forall|k: int|
                    0 <= k < buckets@.len() ==> (#[trigger] buckets@[k]).0 == k % (nh as int)
                        && buckets@[k].1 == k / (nh as int),
            decreases nh - horz,
        {
            proof {
                assert((vert as int) * (nh as int) + horz + 1 <= 16777216int) by (nonlinear_arith)
                    requires
                        vert < nv <= 4096 && horz < nh <= 4096;
                vstd::arithmetic::div_mod::lemma_mod_multiples_vanish(
                    vert as int,
                    horz as int,
                    nh as int,
                );
                vstd::arithmetic::div_mod::lemma_small_mod(horz as nat, nh as nat);
                vstd::arithmetic::div_mod::lemma_div_multiples_vanish_fancy(
                    vert as int,
                    horz as int,
                    nh as int,
                );
            }
            buckets.push((horz, vert));
            proof {
                let k0 = buckets@.len() - 1;
                assert(k0 == (nh as int) * (vert as int) + horz as int) by (nonlinear_arith)
                    requires
                        k0 == (vert as int) * (nh as int) + horz as int;
                assert(buckets@[k0].0 == k0 % (nh as int) && buckets@[k0].1 == k0 / (nh as int));
            }
            horz = horz + 1;
        }
        vert = vert + 1;
        proof {
            assert((vert as int) * (nh as int) == (vert as int - 1) * (nh as int) + nh as int)
                by (nonlinear_arith);
        }
    }
    proof {
        assert((nv as int) * (nh as int) == cfg.spec_nr_buckets()) by (nonlinear_arith)
            requires
                nh == cfg.nr_horz_buckets && nv == cfg.nr_vert_buckets;
        assert forall|k: int| 0 <= k < buckets@.len() implies (#[trigger] buckets@[k]).0
            < cfg.nr_horz_buckets && buckets@[k].1 < cfg.nr_vert_buckets by {
            vstd::arithmetic::div_mod::lemma_mod_division_less_than_divisor(k, nh as int);
            vstd::arithmetic::div_mod::lemma_multiply_divide_lt(k, nh as int, nv as int);
        }
    }
    buckets
}

/// The cell that holds the wrapped position `(x, y)`.
pub fn get_bucket(cfg: &UniverseConfig, x: i64, y: i64) -> (r: BucketCoord)
    requires
        cfg.well_formed(),
        0 <= x < cfg.universe_width,
        0 <= y < cfg.universe_height,
    ensures
        r.0 == x as int / cfg.bucket_width as int,
        r.1 == y as int / cfg.bucket_height as int,
        r.0 < cfg.nr_horz_buckets,
        r.1 < cfg.nr_vert_buckets,
{
    proof {
        vstd::arithmetic::div_mod::lemma_multiply_divide_lt(
            x as int,
            cfg.bucket_width as int,
            cfg.nr_horz_buckets as int,
        );
        vstd::arithmetic::div_mod::lemma_multiply_divide_lt(
            y as int,
            cfg.bucket_height as int,
            cfg.nr_vert_buckets as int,
        );
        vstd::arithmetic::div_mod::lemma_div_pos_is_pos(x as int, cfg.bucket_width as int);
        vstd::arithmetic::div_mod::lemma_div_pos_is_pos(y as int, cfg.bucket_height as int);
    }
    let h = ((x as u64) / (cfg.bucket_width as u64)) as usize;
    let v = ((y as u64) / (cfg.bucket_height as u64)) as usize;
    (h, v)
}

/// The cell that holds a wrapped position.
pub fn get_bucket_from_pos(cfg: &UniverseConfig, pos: Vector) -> (r: BucketCoord)
    requires
        cfg.well_formed(),
        0 <= pos.x < cfg.universe_width,
        0 <= pos.y < cfg.universe_height,
    ensures
        (r.0 as int, r.1 as int) == bucket_of_pos(*cfg, pos),
        r.0 < cfg.nr_horz_buckets,
        r.1 < cfg.nr_vert_buckets,
{
    get_bucket(cfg, pos.x, pos.y)
}

/// The horizontal index wrapped into the grid.
pub fn mod_horz(cfg: &UniverseConfig, horz: usize) -> (r: usize)
    requires
        1 <= cfg.nr_horz_buckets,
        horz + cfg.nr_horz_buckets <= usize::MAX,
    ensures
        r == (horz as int) % (cfg.nr_horz_buckets as int),
        r < cfg.nr_horz_buckets,
{
    proof {
        vstd::arithmetic::div_mod::lemma_mod_multiples_vanish(
            1int,
            horz as int,
            cfg.nr_horz_buckets as int,
        );
        vstd::arithmetic::div_mod::lemma_mod_division_less_than_divisor(
            horz as int,
            cfg.nr_horz_buckets as int,
        );
    }
    (horz + cfg.nr_horz_buckets) % cfg.nr_horz_buckets
}

/// The vertical index wrapped into the grid.
pub fn mod_vert(cfg: &UniverseConfig, vert: usize) -> (r: usize)
    requires
        1 <= cfg.nr_vert_buckets,
        vert + cfg.nr_vert_buckets <= usize::MAX,
    ensures
        r == (vert as int) % (cfg.nr_vert_buckets as int),
        r < cfg.nr_vert_buckets,
{
    proof {
        vstd::arithmetic::div_mod::lemma_mod_multiples_vanish(
            1int,
            vert as int,
            cfg.nr_vert_buckets as int,
        );
        vstd::arithmetic::div_mod::lemma_mod_division_less_than_divisor(
            vert as int,
            cfg.nr_vert_buckets as int,
        );
    }
    (vert + cfg.nr_vert_buckets) % cfg.nr_vert_buckets
}

/// The cell `(horz, vert)` and its 8 toroidal neighbors, each coordinate
/// wrapped independently.  Callers must not rely on the order.
pub fn get_neighbors(cfg: &UniverseConfig, horz: usize, vert: usize) -> (r: [BucketCoord; 9])
    requires
        cfg.well_formed(),
        horz < cfg.nr_horz_buckets,
        vert < cfg.nr_vert_buckets,
    ensures
        ({
            let nh = cfg.nr_horz_buckets as int;
            let nv = cfg.nr_vert_buckets as int;
            let h = horz as int;
            let v = vert as int;
            &&& r@.len() == 9
            &&& r@[0].0 == dec_wrap(h, nh) && r@[0].1 == inc_wrap(v, nv)
            &&& r@[1].0 == h && r@[1].1 == inc_wrap(v, nv)
            &&& r@[2].0 == inc_wrap(h, nh) && r@[2].1 == inc_wrap(v, nv)
            &&& r@[3].0 == dec_wrap(h, nh) && r@[3].1 == v
            &&& r@[4].0 == h && r@[4].1 == v
            &&& r@[5].0 == inc_wrap(h, nh) && r@[5].1 == v
            &&& r@[6].0 == dec_wrap(h, nh) && r@[6].1 == dec_wrap(v, nv)
            &&& r@[7].0 == h && r@[7].1 == dec_wrap(v, nv)
            &&& r@[8].0 == inc_wrap(h, nh) && r@[8].1 == dec_wrap(v, nv)
            &&& forall|i: int|
                0 <= i < 9 ==> (#[trigger] r@[i]).0 < cfg.nr_horz_buckets && r@[i].1
                    < cfg.nr_vert_buckets
        }),
{
    let h_left = mod_horz(cfg, (horz + cfg.nr_horz_buckets) - 1);
    let h_mid = mod_horz(cfg, horz);
    let h_right = mod_horz(cfg, horz + 1);
    let v_down = mod_vert(cfg, (vert + cfg.nr_vert_buckets) - 1);
    let v_mid = mod_vert(cfg, vert);
    let v_up = mod_vert(cfg, vert + 1);
    proof {
        let nh = cfg.nr_horz_buckets as int;
        let nv = cfg.nr_vert_buckets as int;
        vstd::arithmetic::div_mod::lemma_small_mod(horz as nat, cfg.nr_horz_buckets as nat);
        vstd::arithmetic::div_mod::lemma_small_mod(vert as nat, cfg.nr_vert_buckets as nat);
        vstd::arithmetic::div_mod::lemma_mod_multiples_vanish(1int, horz as int - 1, nh);
        vstd::arithmetic::div_mod::lemma_mod_multiples_vanish(1int, vert as int - 1, nv);
    }
    [
        (h_left, v_up),
        (h_mid, v_up),
        (h_right, v_up),
        (h_left, v_mid),
        (h_mid, v_mid),
        (h_right, v_mid),
        (h_left, v_down),
        (h_mid, v_down),
        (h_right, v_down),
    ]
}

} // verus!
