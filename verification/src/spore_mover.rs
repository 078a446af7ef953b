//! The tick driver and the migrator: Phase A integrates every bucket
//! against the pre-tick snapshot, Phase B relocates the particles whose new
//! position maps to another bucket, keeping the three parallel arrays of
//! every bucket in step.

use vstd::prelude::*;
use vstd::multiset::Multiset;
use vstd::assert_multisets_equal;

use crate::bucket::flat_bucket_of_pos;
use crate::bucket::flat_index;
use crate::bucket::get_bucket_from_pos;
use crate::configuration::UniverseConfig;
use crate::movement_calculator::calc_new_positions_and_speeds;
use crate::movement_calculator::integrated_at;
use crate::movement_calculator::lemma_integrated_is_next;
use crate::movement_calculator::phase_a_view;
use crate::spore::all_records;
use crate::spore::record_ok;
use crate::spore::total_count;
use crate::spore::SporeConfigs;
use crate::spore::SporeRecord;
use crate::spore::SporesState;
use crate::vector::Vector;

verus! {

/// The records of a bucket's row that belong to cell `k`, in storage order:
/// what remains of the row after migration.
pub open spec fn keepers(cfg: UniverseConfig, row: Seq<SporeRecord>, k: int) -> Seq<SporeRecord>
    decreases row.len(),
{
    if row.len() == 0 {
        Seq::empty()
    } else {
        let prev = keepers(cfg, row.drop_last(), k);
        if flat_bucket_of_pos(cfg, row.last().0) == k {
            prev.push(row.last())
        } else {
            prev
        }
    }
}

/// The records of a bucket's row that belong elsewhere, in storage order:
/// what migration relocates.
pub open spec fn movers(cfg: UniverseConfig, row: Seq<SporeRecord>, k: int) -> Seq<SporeRecord>
    decreases row.len(),
{
    if row.len() == 0 {
        Seq::empty()
    } else {
        let prev = movers(cfg, row.drop_last(), k);
        if flat_bucket_of_pos(cfg, row.last().0) != k {
            prev.push(row.last())
        } else {
            prev
        }
    }
}

/// Keepers and movers partition the row: together they hold exactly the
/// row's records, and their lengths add up.
pub proof fn lemma_keepers_movers_partition(cfg: UniverseConfig, row: Seq<SporeRecord>, k: int)
    ensures
        keepers(cfg, row, k).to_multiset().add(movers(cfg, row, k).to_multiset())
            == row.to_multiset(),
        keepers(cfg, row, k).len() + movers(cfg, row, k).len() == row.len(),
        forall|i: int|
            0 <= i < keepers(cfg, row, k).len() ==> flat_bucket_of_pos(
                cfg,
                (#[trigger] keepers(cfg, row, k)[i]).0,
            ) == k,
        forall|i: int|
            0 <= i < movers(cfg, row, k).len() ==> flat_bucket_of_pos(
                cfg,
                (#[trigger] movers(cfg, row, k)[i]).0,
            ) != k,
        forall|i: int|
            0 <= i < keepers(cfg, row, k).len() ==> row.to_multiset().count(
                #[trigger] keepers(cfg, row, k)[i],
            ) > 0,
        forall|i: int|
            0 <= i < movers(cfg, row, k).len() ==> row.to_multiset().count(
                #[trigger] movers(cfg, row, k)[i],
            ) > 0,
    decreases row.len(),
{
    broadcast use vstd::seq_lib::group_to_multiset_ensures;
    broadcast use vstd::multiset::group_multiset_axioms;

    if row.len() > 0 {
        lemma_keepers_movers_partition(cfg, row.drop_last(), k);
        assert(row.drop_last().push(row.last()) =~= row);
        assert(row.drop_last().to_multiset().insert(row.last()) =~= row.to_multiset());
        if flat_bucket_of_pos(cfg, row.last().0) == k {
            assert(keepers(cfg, row, k).to_multiset() =~= keepers(
                cfg,
                row.drop_last(),
                k,
            ).to_multiset().insert(row.last()));
            assert_multisets_equal!(
                keepers(cfg, row, k).to_multiset().add(movers(cfg, row, k).to_multiset()),
                row.to_multiset()
            );
        } else {
            assert(movers(cfg, row, k).to_multiset() =~= movers(
                cfg,
                row.drop_last(),
                k,
            ).to_multiset().insert(row.last()));
            assert_multisets_equal!(
                keepers(cfg, row, k).to_multiset().add(movers(cfg, row, k).to_multiset()),
                row.to_multiset()
            );
        }
        assert forall|i: int| 0 <= i < keepers(cfg, row, k).len() implies row.to_multiset().count(
            #[trigger] keepers(cfg, row, k)[i],
        ) > 0 by {
            assert(keepers(cfg, row, k).to_multiset().count(keepers(cfg, row, k)[i]) > 0);
        }
        assert forall|i: int| 0 <= i < movers(cfg, row, k).len() implies row.to_multiset().count(
            #[trigger] movers(cfg, row, k)[i],
        ) > 0 by {
            assert(movers(cfg, row, k).to_multiset().count(movers(cfg, row, k)[i]) > 0);
        }
    }
}

/// One planned relocation: the flat rank of the destination bucket and the
/// particle's record.
struct SporeBucketMovement {
    new_bucket: usize,
    spore_data: SporeRecord,
}

/// Phase B, step one, for the bucket `coord`: the records whose updated
/// position maps to another cell, each with its destination, in storage
/// order.  Nothing is modified.
fn calc_bucket_movements(
    cfg: &UniverseConfig,
    spores: &SporesState,
    coord: (usize, usize),
) -> (m: Vec<SporeBucketMovement>)
    requires
        cfg.well_formed(),
        spores.rows_ok(*cfg),
        coord.0 < cfg.nr_horz_buckets,
        coord.1 < cfg.nr_vert_buckets,
    ensures
        ({
            let k = coord.1 * cfg.nr_horz_buckets + coord.0;
            let mv = movers(*cfg, spores@[k as int], k as int);
            &&& m@.len() == mv.len()
            &&& forall|i: int| 0 <= i < m@.len() ==> (#[trigger] m@[i]).spore_data == mv[i]
            &&& forall|i: int|
                0 <= i < m@.len() ==> (#[trigger] m@[i]).new_bucket == flat_bucket_of_pos(
                    *cfg,
                    mv[i].0,
                ) && m@[i].new_bucket != k && m@[i].new_bucket < cfg.spec_nr_buckets()
        }),
{
    let (horz, vert) = coord;
    proof {
        assert((coord.1 as int) * (cfg.nr_horz_buckets as int) + (coord.0 as int)
            < cfg.spec_nr_buckets() && (coord.1 as int) * (cfg.nr_horz_buckets as int) + (
        coord.0 as int) <= 16777216int) by (nonlinear_arith)
            requires
                coord.0 < cfg.nr_horz_buckets <= 4096 && coord.1 < cfg.nr_vert_buckets <= 4096;
    }
    let k = vert * cfg.nr_horz_buckets + horz;
    let ghost ki = k as int;
    proof {
        assert(0 <= ki < spores.positions@.len());
        assert(spores.lens_match());
        assert(spores.speeds@[ki]@.len() == spores.positions@[ki]@.len());
        assert(spores.spore_types@[ki]@.len() == spores.positions@[ki]@.len());
        assert(spores@[ki].len() == spores.positions@[ki]@.len());
    }
    let len = spores.positions[k].len();
    let mut bucket_movements: Vec<SporeBucketMovement> = Vec::new();
    let mut j: usize = 0;
    while j < len
        invariant
            j <= len,
            cfg.well_formed(),
            spores.rows_ok(*cfg),
            coord.0 < cfg.nr_horz_buckets,
            coord.1 < cfg.nr_vert_buckets,
            horz == coord.0,
            vert == coord.1,
            0 <= ki < spores.positions@.len(),
            ki < spores@.len(),
            k == ki,
            ki == coord.1 * cfg.nr_horz_buckets + coord.0,
            len == spores.positions@[ki]@.len(),
            spores.speeds@[ki]@.len() == len,
            spores.spore_types@[ki]@.len() == len,
            spores@[ki].len() == len,
            ({
                let mv = movers(*cfg, spores@[ki].take(j as int), ki);
                &&& bucket_movements@.len() == mv.len()
                &&& forall|i: int|
                    0 <= i < mv.len() ==> (#[trigger] bucket_movements@[i]).spore_data == mv[i]
                &&& forall|i: int|
                    0 <= i < mv.len() ==> (#[trigger] bucket_movements@[i]).new_bucket
                        == flat_bucket_of_pos(*cfg, mv[i].0) && bucket_movements@[i].new_bucket
                        != ki && bucket_movements@[i].new_bucket < cfg.spec_nr_buckets()
            }),
        decreases len - j,
    {
        proof {
            assert(spores@[ki][j as int] == (
                spores.positions@[ki]@[j as int],
                spores.speeds@[ki]@[j as int],
                spores.spore_types@[ki]@[j as int],
            ));
            assert(record_ok(*cfg, spores@[ki][j as int]));
        }
        let pos = spores.positions[k][j];
        let new_bucket_coord = get_bucket_from_pos(cfg, pos);
        proof {
            assert((new_bucket_coord.1 as int) * (cfg.nr_horz_buckets as int) + (
            new_bucket_coord.0 as int) < cfg.spec_nr_buckets() && (new_bucket_coord.1 as int) * (
            cfg.nr_horz_buckets as int) + (new_bucket_coord.0 as int) <= 16777216int)
                by (nonlinear_arith)
                requires
                    new_bucket_coord.0 < cfg.nr_horz_buckets <= 4096 && new_bucket_coord.1
                        < cfg.nr_vert_buckets <= 4096;
            assert(spores@[ki].take(j + 1).drop_last() =~= spores@[ki].take(j as int));
            assert(spores@[ki].take(j + 1).last() == spores@[ki][j as int]);
        }
        if new_bucket_coord.0 != horz || new_bucket_coord.1 != vert {
            let dest = new_bucket_coord.1 * cfg.nr_horz_buckets + new_bucket_coord.0;
            let speed = spores.speeds[k][j];
            let spore_type = spores.spore_types[k][j];
            proof {
                assert(dest != ki) by (nonlinear_arith)
                    requires
                        dest == (new_bucket_coord.1 as int) * (cfg.nr_horz_buckets as int) + (
                        new_bucket_coord.0 as int) && ki == (coord.1 as int) * (
                        cfg.nr_horz_buckets as int) + (coord.0 as int) && new_bucket_coord.0
                            < cfg.nr_horz_buckets && coord.0 < cfg.nr_horz_buckets && (
                        new_bucket_coord.0 != coord.0 || new_bucket_coord.1 != coord.1);
            }
            bucket_movements.push(
                SporeBucketMovement { new_bucket: dest, spore_data: (pos, speed, spore_type) },
            );
        }
        j = j + 1;
    }
    proof {
        assert(spores@[ki].take(len as int) =~= spores@[ki]);
    }
    bucket_movements
}

/// The records a list of movements carries, in order.
spec fn movement_data(m: Seq<SporeBucketMovement>) -> Seq<SporeRecord> {
    m.map_values(|mv: SporeBucketMovement| mv.spore_data)
}

/// Phase B, append, for one bucket's movements: every recorded record is
/// pushed onto its destination bucket's three parallel arrays.
fn copy_spores_to_new_bucket(
    cfg: &UniverseConfig,
    bucket_movements: &Vec<SporeBucketMovement>,
    spores: &mut SporesState,
    src: Ghost<int>,
)
    requires
        cfg.well_formed(),
        old(spores).rows_ok(*cfg),
        forall|i: int|
            0 <= i < bucket_movements@.len() ==> (#[trigger] bucket_movements@[i]).new_bucket
                < cfg.spec_nr_buckets() && bucket_movements@[i].new_bucket == flat_bucket_of_pos(
                *cfg,
                bucket_movements@[i].spore_data.0,
            ) && record_ok(*cfg, bucket_movements@[i].spore_data),
        forall|i: int|
            0 <= i < bucket_movements@.len() ==> (#[trigger] bucket_movements@[i]).new_bucket
                != src@,
    ensures
        0 <= src@ < old(spores)@.len() ==> final(spores)@[src@] == old(spores)@[src@],
        final(spores).rows_ok(*cfg),
        final(spores)@.len() == old(spores)@.len(),
        final(spores).positions@.len() == old(spores).positions@.len(),
        all_records(final(spores)@) == all_records(old(spores)@).add(
            movement_data(bucket_movements@).to_multiset(),
        ),
        total_count(final(spores)@) == total_count(old(spores)@) + bucket_movements@.len(),
        forall|d: int, i: int|
            0 <= d < old(spores)@.len() && 0 <= i < old(spores)@[d].len() ==> (
            #[trigger] final(spores)@[d][i]) == old(spores)@[d][i],
        forall|d: int|
            0 <= d < old(spores)@.len() ==> (#[trigger] final(spores)@[d]).len()
                >= old(spores)@[d].len(),
        forall|d: int, i: int|
            0 <= d < old(spores)@.len() && old(spores)@[d].len() <= i < final(spores)@[d].len()
                ==> flat_bucket_of_pos(*cfg, (#[trigger] final(spores)@[d][i]).0) == d,
{
    proof {
        broadcast use vstd::seq_lib::group_to_multiset_ensures;
        broadcast use vstd::multiset::group_multiset_axioms;

        assert(movement_data(bucket_movements@.take(0)).to_multiset() =~= Multiset::empty());
    }
    let len = bucket_movements.len();
    let mut m: usize = 0;
    while m < len
        invariant
            m <= len,
            cfg.well_formed(),
            len == bucket_movements@.len(),
            forall|i: int|
                0 <= i < bucket_movements@.len() ==> (#[trigger] bucket_movements@[i]).new_bucket
                    < cfg.spec_nr_buckets() && bucket_movements@[i].new_bucket
                    == flat_bucket_of_pos(*cfg, bucket_movements@[i].spore_data.0) && record_ok(
                    *cfg,
                    bucket_movements@[i].spore_data,
                ),
            spores.rows_ok(*cfg),
            spores@.len() == old(spores)@.len(),
            spores.positions@.len() == old(spores).positions@.len(),
            forall|i: int|
                0 <= i < bucket_movements@.len() ==> (#[trigger] bucket_movements@[i]).new_bucket
                    != src@,
            0 <= src@ < old(spores)@.len() ==> spores@[src@] == old(spores)@[src@],
            all_records(spores@) == all_records(old(spores)@).add(
                movement_data(bucket_movements@.take(m as int)).to_multiset(),
            ),
            total_count(spores@) == total_count(old(spores)@) + m,
            forall|d: int, i: int|
                0 <= d < old(spores)@.len() && 0 <= i < old(spores)@[d].len() ==> (
                #[trigger] spores@[d][i]) == old(spores)@[d][i],
            forall|d: int|
                0 <= d < old(spores)@.len() ==> (#[trigger] spores@[d]).len()
                    >= old(spores)@[d].len(),
            forall|d: int, i: int|
                0 <= d < old(spores)@.len() && old(spores)@[d].len() <= i < spores@[d].len()
                    ==> flat_bucket_of_pos(*cfg, (#[trigger] spores@[d][i]).0) == d,
        decreases len - m,
    {
        let new_bucket = bucket_movements[m].new_bucket;
        let (pos, speed, spore_type) = bucket_movements[m].spore_data;
        let ghost pre = *spores;
        let ghost rec = bucket_movements@[m as int].spore_data;
        let ghost d = new_bucket as int;
        proof {
            assert(0 <= d < spores.positions@.len());
            assert(spores.lens_match());
            assert(spores.speeds@[d]@.len() == spores.positions@[d]@.len());
            assert(spores.spore_types@[d]@.len() == spores.positions@[d]@.len());
        }
        spores.positions[new_bucket].push(pos);
        spores.speeds[new_bucket].push(speed);
        spores.spore_types[new_bucket].push(spore_type);
        proof {
            broadcast use vstd::seq_lib::group_to_multiset_ensures;
            broadcast use vstd::multiset::group_multiset_axioms;

            let newrow = pre@[d].push(rec);
            assert(spores@[d] =~= newrow);
            assert forall|dd: int| 0 <= dd < spores@.len() && dd != d implies spores@[dd]
                =~= pre@[dd] by {}
            if 0 <= src@ < old(spores)@.len() {
                assert(src@ != d);
                assert(spores@[src@] =~= pre@[src@]);
            }
            assert(spores@ =~= pre@.update(d, newrow));
            crate::spore::lemma_all_records_update(pre@, d, newrow);
            crate::spore::lemma_total_count_update(pre@, d, newrow);
            assert(newrow.to_multiset() =~= pre@[d].to_multiset().insert(rec));
            assert(movement_data(bucket_movements@.take(m + 1)) =~= movement_data(
                bucket_movements@.take(m as int),
            ).push(rec));
            assert(movement_data(bucket_movements@.take(m + 1)).to_multiset() =~= movement_data(
                bucket_movements@.take(m as int),
            ).to_multiset().insert(rec));
            assert_multisets_equal!(
                all_records(spores@),
                all_records(old(spores)@).add(
                    movement_data(bucket_movements@.take(m + 1)).to_multiset()),
                key => {
                    assert(all_records(pre@.update(d, newrow)).add(pre@[d].to_multiset()).count(key)
                        == all_records(pre@).add(newrow.to_multiset()).count(key));
                }
            );
            assert forall|dd: int, i: int|
                0 <= dd < old(spores)@.len() && old(spores)@[dd].len() <= i
                    < spores@[dd].len() implies flat_bucket_of_pos(
                *cfg,
                (#[trigger] spores@[dd][i]).0,
            ) == dd by {
                if dd == d && i == spores@[d].len() - 1 {
                    assert(spores@[dd][i] == rec);
                } else {
                    assert(spores@[dd][i] == pre@[dd][i]);
                }
            }
            assert forall|kk: int, i: int|
                0 <= kk < spores@.len() && 0 <= i < spores@[kk].len() implies record_ok(
                *cfg,
                #[trigger] spores@[kk][i],
            ) by {
                if kk == d && i == spores@[d].len() - 1 {
                    assert(spores@[kk][i] == rec);
                } else {
                    assert(spores@[kk][i] == pre@[kk][i]);
                    assert(record_ok(*cfg, pre@[kk][i]));
                }
            }
        }
        m = m + 1;
    }
    proof {
        assert(bucket_movements@.take(len as int) =~= bucket_movements@);
    }
}

/// Phase B, removal, for the bucket `coord`: only the records whose
/// position still maps to this cell are retained, the same indices removed
/// from all three parallel arrays at once.
fn remove_spores_from_old_buckets(
    cfg: &UniverseConfig,
    spores: &mut SporesState,
    coord: (usize, usize),
)
    requires
        cfg.well_formed(),
        old(spores).rows_ok(*cfg),
        coord.0 < cfg.nr_horz_buckets,
        coord.1 < cfg.nr_vert_buckets,
    ensures
        ({
            let k = coord.1 * cfg.nr_horz_buckets + coord.0;
            &&& final(spores)@ == old(spores)@.update(k as int, keepers(*cfg, old(spores)@[k as int], k as int))
            &&& final(spores).lens_match()
            &&& final(spores).positions@.len() == old(spores).positions@.len()
        }),
{
    let (horz, vert) = coord;
    proof {
        assert((coord.1 as int) * (cfg.nr_horz_buckets as int) + (coord.0 as int)
            < cfg.spec_nr_buckets() && (coord.1 as int) * (cfg.nr_horz_buckets as int) + (
        coord.0 as int) <= 16777216int) by (nonlinear_arith)
            requires
                coord.0 < cfg.nr_horz_buckets <= 4096 && coord.1 < cfg.nr_vert_buckets <= 4096;
    }
    let k = vert * cfg.nr_horz_buckets + horz;
    let ghost ki = k as int;
    let ghost row = spores@[ki];
    proof {
        assert(0 <= ki < spores.positions@.len());
        assert(spores.lens_match());
        assert(spores.speeds@[ki]@.len() == spores.positions@[ki]@.len());
        assert(spores.spore_types@[ki]@.len() == spores.positions@[ki]@.len());
        assert(row.len() == spores.positions@[ki]@.len());
    }
    let len = spores.positions[k].len();
    let mut new_p: Vec<Vector> = Vec::new();
    let mut new_s: Vec<Vector> = Vec::new();
    let mut new_t: Vec<u8> = Vec::new();
    let mut j: usize = 0;
    while j < len
        invariant
            j <= len,
            cfg.well_formed(),
            spores.rows_ok(*cfg),
            coord.0 < cfg.nr_horz_buckets,
            coord.1 < cfg.nr_vert_buckets,
            horz == coord.0,
            vert == coord.1,
            0 <= ki < spores.positions@.len(),
            ki < spores@.len(),
            k == ki,
            ki == coord.1 * cfg.nr_horz_buckets + coord.0,
            row == spores@[ki],
            len == spores.positions@[ki]@.len(),
            spores.speeds@[ki]@.len() == len,
            spores.spore_types@[ki]@.len() == len,
            row.len() == len,
            ({
                let kept = keepers(*cfg, row.take(j as int), ki);
                &&& new_p@.len() == kept.len()
                &&& new_s@.len() == kept.len()
                &&& new_t@.len() == kept.len()
                &&& forall|i: int|
                    0 <= i < kept.len() ==> (#[trigger] kept[i]) == (new_p@[i], new_s@[i], new_t@[i])
            }),
        decreases len - j,
    {
        proof {
            assert(spores@[ki][j as int] == (
                spores.positions@[ki]@[j as int],
                spores.speeds@[ki]@[j as int],
                spores.spore_types@[ki]@[j as int],
            ));
            assert(record_ok(*cfg, spores@[ki][j as int]));
            assert(row.take(j + 1).drop_last() =~= row.take(j as int));
            assert(row.take(j + 1).last() == row[j as int]);
        }
        let pos = spores.positions[k][j];
        let new_bucket_coord = get_bucket_from_pos(cfg, pos);
        proof {
            if new_bucket_coord.0 == horz && new_bucket_coord.1 == vert {
                assert(flat_bucket_of_pos(*cfg, pos) == ki);
            } else {
                assert(flat_bucket_of_pos(*cfg, pos) != ki) by (nonlinear_arith)
                    requires
                        flat_bucket_of_pos(*cfg, pos) == (new_bucket_coord.1 as int) * (
                        cfg.nr_horz_buckets as int) + (new_bucket_coord.0 as int) && ki == (
                        coord.1 as int) * (cfg.nr_horz_buckets as int) + (coord.0 as int)
                            && new_bucket_coord.0 < cfg.nr_horz_buckets && coord.0
                            < cfg.nr_horz_buckets && (new_bucket_coord.0 != coord.0
                            || new_bucket_coord.1 != coord.1);
            }
        }
        if new_bucket_coord.0 == horz && new_bucket_coord.1 == vert {
            new_p.push(pos);
            new_s.push(spores.speeds[k][j]);
            new_t.push(spores.spore_types[k][j]);
        }
        j = j + 1;
    }
    proof {
        assert(row.take(len as int) =~= row);
    }
    spores.positions[k] = new_p;
    spores.speeds[k] = new_s;
    spores.spore_types[k] = new_t;
    proof {
        let kept = keepers(*cfg, row, ki);
        assert forall|d: int, i: int|
            0 <= d < spores@.len() && 0 <= i < spores@[d].len() && d != ki implies spores@[d][i]
            == old(spores)@[d][i] by {}
        assert(spores@[ki] =~= kept);
        assert(spores@ =~= old(spores)@.update(ki, kept));
    }
}

/// One full simulation tick over the whole population.
///
/// Phase A computes every particle's force against the immutable pre-tick
/// snapshot and commits the integrated positions and velocities bucket by
/// bucket; Phase B relocates every particle whose new position maps to a
/// different bucket.  Afterwards the state is well formed again (every
/// particle stored in the bucket of its position), the population count is
/// unchanged, and the records are exactly those Phase A defines on the old
/// state.
pub fn move_spores(
    cfg: &UniverseConfig,
    spore_configs: &SporeConfigs,
    spores_state: &mut SporesState,
)
    requires
        cfg.well_formed(),
        spore_configs.well_formed(*cfg),
        old(spores_state).well_formed(*cfg),
    ensures
        final(spores_state).well_formed(*cfg),
        total_count(final(spores_state)@) == total_count(old(spores_state)@),
        all_records(final(spores_state)@) == all_records(
            phase_a_view(*cfg, *spore_configs, old(spores_state)),
        ),
{
    broadcast use vstd::seq_lib::group_to_multiset_ensures;
    broadcast use vstd::multiset::group_multiset_axioms;

    let ghost orig = *spores_state;
    let nh = cfg.nr_horz_buckets;
    let n = spores_state.positions.len();
    proof {
        assert(n == cfg.spec_nr_buckets());
    }

    // Phase A, compute: every bucket's forces and integrated values, all
    // read from the same pre-tick snapshot.
    let mut updates: Vec<(Vec<Vector>, Vec<Vector>)> = Vec::new();
    let mut k: usize = 0;
    while k < n
        invariant
            k <= n,
            updates@.len() == k,
            cfg.well_formed(),
            spore_configs.well_formed(*cfg),
            *spores_state == orig,
            orig.records_ok(*cfg),
            nh == cfg.nr_horz_buckets,
            n == spores_state.positions@.len(),
            n == cfg.spec_nr_buckets(),
            forall|kk: int|
                0 <= kk < k ==> (#[trigger] updates@[kk]).0@.len() == orig.positions@[kk]@.len()
                    && updates@[kk].1@.len() == orig.positions@[kk]@.len(),
            forall|kk: int, i: int|
                #![trigger updates@[kk].0@[i]]
                0 <= kk < k && 0 <= i < updates@[kk].0@.len() ==> integrated_at(
                    *cfg,
                    *spore_configs,
                    &orig,
                    kk,
                    kk % (nh as int),
                    kk / (nh as int),
                    updates@[kk].0@[i],
                    updates@[kk].1@[i],
                    i,
                ),
        decreases n - k,
    {
        proof {
            vstd::arithmetic::div_mod::lemma_mod_division_less_than_divisor(k as int, nh as int);
            vstd::arithmetic::div_mod::lemma_multiply_divide_lt(
                k as int,
                nh as int,
                cfg.nr_vert_buckets as int,
            );
            vstd::arithmetic::div_mod::lemma_fundamental_div_mod(k as int, nh as int);
            assert((nh as int) * ((k as int) / (nh as int)) == ((k as int) / (nh as int)) * (
            nh as int)) by (nonlinear_arith);
            assert((k as int) < (nh as int) * (cfg.nr_vert_buckets as int)) by (nonlinear_arith)
                requires
                    (k as int) < cfg.spec_nr_buckets() && cfg.spec_nr_buckets()
                        == cfg.nr_horz_buckets * cfg.nr_vert_buckets && nh == cfg.nr_horz_buckets;
        }
        let h = k % nh;
        let v = k / nh;
        proof {
            assert(flat_index(*cfg, h as int, v as int) == k);
        }
        let pair = calc_new_positions_and_speeds(cfg, spore_configs, spores_state, (h, v));
        updates.push(pair);
        k = k + 1;
    }

    // Phase A, commit: write each bucket's new positions and velocities
    // back in place; bucket membership is not changed yet.
    let mut k2: usize = n;
    while k2 > 0
        invariant
            k2 <= n,
            updates@.len() == k2,
            cfg.well_formed(),
            spore_configs.well_formed(*cfg),
            orig.records_ok(*cfg),
            nh == cfg.nr_horz_buckets,
            n == spores_state.positions@.len(),
            n == cfg.spec_nr_buckets(),
            spores_state.speeds@.len() == n,
            spores_state.spore_types@.len() == n,
            orig.positions@.len() == n,
            forall|kk: int|
                0 <= kk < k2 ==> (#[trigger] spores_state.positions@[kk]) == orig.positions@[kk]
                    && spores_state.speeds@[kk] == orig.speeds@[kk],
            forall|kk: int|
                0 <= kk < n ==> (#[trigger] spores_state.spore_types@[kk])
                    == orig.spore_types@[kk],
            forall|kk: int|
                0 <= kk < k2 ==> (#[trigger] updates@[kk]).0@.len() == orig.positions@[kk]@.len()
                    && updates@[kk].1@.len() == orig.positions@[kk]@.len(),
            forall|kk: int, i: int|
                #![trigger updates@[kk].0@[i]]
                0 <= kk < k2 && 0 <= i < updates@[kk].0@.len() ==> integrated_at(
                    *cfg,
                    *spore_configs,
                    &orig,
                    kk,
                    kk % (nh as int),
                    kk / (nh as int),
                    updates@[kk].0@[i],
                    updates@[kk].1@[i],
                    i,
                ),
            forall|kk: int|
                k2 <= kk < n ==> (#[trigger] spores_state.speeds@[kk])@.len()
                    == spores_state.positions@[kk]@.len() && spores_state.positions@[kk]@.len()
                    == orig.positions@[kk]@.len(),
            forall|kk: int|
                k2 <= kk < n ==> (#[trigger] spores_state@[kk]) == phase_a_view(
                    *cfg,
                    *spore_configs,
                    &orig,
                )[kk],
        decreases k2,
    {
        k2 = k2 - 1;
        let ghost pre2 = *spores_state;
        let pair = updates.pop().unwrap();
        spores_state.positions[k2] = pair.0;
        spores_state.speeds[k2] = pair.1;
        proof {
            let ki = k2 as int;
            let pv = phase_a_view(*cfg, *spore_configs, &orig);
            assert forall|i: int| 0 <= i < spores_state@[ki].len() implies spores_state@[ki][i]
                == pv[ki][i] by {
                lemma_integrated_is_next(
                    *cfg,
                    *spore_configs,
                    &orig,
                    ki,
                    pair.0@[i],
                    pair.1@[i],
                    i,
                );
                assert(spores_state@[ki][i] == (pair.0@[i], pair.1@[i], orig.spore_types@[ki]@[i]));
            }
            assert(spores_state@[ki] =~= pv[ki]);
            assert forall|kk: int| 0 <= kk < k2 implies (#[trigger] spores_state.positions@[kk])
                == orig.positions@[kk] && spores_state.speeds@[kk] == orig.speeds@[kk] by {
                assert(spores_state.positions@[kk] == pre2.positions@[kk]);
                assert(spores_state.speeds@[kk] == pre2.speeds@[kk]);
            }
            assert forall|kk: int| k2 < kk < n implies (#[trigger] spores_state@[kk])
                == pv[kk] by {
                assert(pre2@[kk] == pv[kk]);
                assert(spores_state.positions@[kk] == pre2.positions@[kk]);
                assert(spores_state.speeds@[kk] == pre2.speeds@[kk]);
                assert(spores_state.spore_types@[kk] == pre2.spore_types@[kk]);
                assert(spores_state@[kk] =~= pre2@[kk]);
            }
        }
    }
    proof {
        let pv = phase_a_view(*cfg, *spore_configs, &orig);
        assert forall|kk: int| 0 <= kk < n implies (#[trigger] spores_state@[kk]) == pv[kk] by {}
        assert(spores_state@ =~= pv);
        assert(spores_state@ == pv);
        // the integrated state is structurally sound: lengths kept, records ok
        assert forall|kk: int| 0 <= kk < spores_state.positions@.len() implies (
        #[trigger] spores_state.spore_types@[kk])@.len() == spores_state.positions@[kk]@.len() by {
            assert(orig.lens_match());
            assert(orig.spore_types@[kk]@.len() == orig.positions@[kk]@.len());
            assert(spores_state.spore_types@[kk] == orig.spore_types@[kk]);
            assert(spores_state.speeds@[kk]@.len() == spores_state.positions@[kk]@.len());
            assert(spores_state.positions@[kk]@.len() == orig.positions@[kk]@.len());
        }
        assert(spores_state.lens_match());
        assert forall|kk: int, i: int|
            0 <= kk < spores_state@.len() && 0 <= i < spores_state@[kk].len() implies record_ok(
            *cfg,
            #[trigger] spores_state@[kk][i],
        ) by {
            crate::spore::lemma_bucket_fields(&orig, *cfg, kk);
            assert(orig@[kk][i] == (orig.positions@[kk]@[i], orig.speeds@[kk]@[i], orig.spore_types@[kk]@[i]));
            assert(record_ok(*cfg, orig@[kk][i]));
            assert(spores_state@[kk][i] == pv[kk][i]);
        }
        assert(forall|kk: int|
            0 <= kk < n ==> (#[trigger] spores_state@[kk]).len() == orig@[kk].len());
        crate::spore::lemma_total_count_same_lens(spores_state@, orig@);
        assert(total_count(spores_state@) <= crate::configuration::MAX_SPORES);
        assert(spores_state.records_ok(*cfg));
    }
    let ghost m0 = spores_state@;

    // Phase B, migrate: detect the particles of each bucket whose new
    // position maps elsewhere, append them to their destinations, and
    // retain only this bucket's own records.
    let mut kb: usize = 0;
    while kb < n
        invariant
            kb <= n,
            cfg.well_formed(),
            nh == cfg.nr_horz_buckets,
            n == spores_state.positions@.len(),
            n == cfg.spec_nr_buckets(),
            spores_state.rows_ok(*cfg),
            all_records(spores_state@) == all_records(m0),
            total_count(spores_state@) == total_count(m0),
            total_count(m0) <= crate::configuration::MAX_SPORES,
            total_count(m0) == total_count(orig@),
            m0 == phase_a_view(*cfg, *spore_configs, &orig),
            forall|kk: int, i: int|
                0 <= kk < kb && 0 <= i < spores_state@[kk].len() ==> flat_bucket_of_pos(
                    *cfg,
                    (#[trigger] spores_state@[kk][i]).0,
                ) == kk,
        decreases n - kb,
    {
        proof {
            vstd::arithmetic::div_mod::lemma_mod_division_less_than_divisor(kb as int, nh as int);
            vstd::arithmetic::div_mod::lemma_multiply_divide_lt(
                kb as int,
                nh as int,
                cfg.nr_vert_buckets as int,
            );
            vstd::arithmetic::div_mod::lemma_fundamental_div_mod(kb as int, nh as int);
            assert((nh as int) * ((kb as int) / (nh as int)) == ((kb as int) / (nh as int)) * (
            nh as int)) by (nonlinear_arith);
            assert((kb as int) < (nh as int) * (cfg.nr_vert_buckets as int)) by (nonlinear_arith)
                requires
                    (kb as int) < cfg.spec_nr_buckets() && cfg.spec_nr_buckets()
                        == cfg.nr_horz_buckets * cfg.nr_vert_buckets && nh == cfg.nr_horz_buckets;
        }
        let h = kb % nh;
        let v = kb / nh;
        let ghost ki = kb as int;
        proof {
            assert((v as int) * (nh as int) + (h as int) == ki);
        }
        let ghost pre = *spores_state;
        let ghost row = pre@[ki];
        let ghost keep = keepers(*cfg, row, ki);
        let ghost mov = movers(*cfg, row, ki);
        proof {
            broadcast use vstd::seq_lib::group_to_multiset_ensures;
            broadcast use vstd::multiset::group_multiset_axioms;

            lemma_keepers_movers_partition(*cfg, row, ki);
            assert forall|i: int| 0 <= i < mov.len() implies record_ok(
                *cfg,
                #[trigger] mov[i],
            ) by {
                assert(row.to_multiset().count(mov[i]) > 0);
                assert(row.contains(mov[i]));
                let j = choose|j: int| 0 <= j < row.len() && row[j] == mov[i];
                assert(record_ok(*cfg, pre@[ki][j]));
            }
        }
        let movements = calc_bucket_movements(cfg, spores_state, (h, v));
        proof {
            assert(movement_data(movements@) =~= mov);
        }
        copy_spores_to_new_bucket(cfg, &movements, spores_state, Ghost(ki));
        let ghost mid = *spores_state;
        remove_spores_from_old_buckets(cfg, spores_state, (h, v));
        proof {
            broadcast use vstd::seq_lib::group_to_multiset_ensures;
            broadcast use vstd::multiset::group_multiset_axioms;

            // the source bucket was untouched by the append, so the retained
            // records are exactly the keepers of the pre-iteration row
            assert(mid@[ki] == row);
            assert(spores_state@ == mid@.update(ki, keepers(*cfg, mid@[ki], ki)));
            assert(keepers(*cfg, mid@[ki], ki) == keep);
            crate::spore::lemma_all_records_update(mid@, ki, keep);
            crate::spore::lemma_total_count_update(mid@, ki, keep);
            assert(all_records(mid@) == all_records(pre@).add(mov.to_multiset()));
            assert_multisets_equal!(all_records(spores_state@), all_records(m0), key => {
                assert(all_records(mid@.update(ki, keep)).add(mid@[ki].to_multiset()).count(key)
                    == all_records(mid@).add(keep.to_multiset()).count(key));
                assert(keep.to_multiset().count(key) + mov.to_multiset().count(key)
                    == row.to_multiset().count(key));
            });
            assert(total_count(spores_state@) == total_count(mid@) - row.len() + keep.len());
            assert(total_count(spores_state@) == total_count(m0));
            // structure: every record of the new state is a record of `mid`
            assert forall|kk: int, i: int|
                0 <= kk < spores_state@.len() && 0 <= i < spores_state@[kk].len() implies record_ok(
                *cfg,
                #[trigger] spores_state@[kk][i],
            ) by {
                if kk == ki {
                    assert(spores_state@[ki] == keep);
                    assert(row.to_multiset().count(keep[i]) > 0);
                    assert(row.contains(keep[i]));
                    let j = choose|j: int| 0 <= j < row.len() && row[j] == keep[i];
                    assert(record_ok(*cfg, pre@[ki][j]));
                } else {
                    assert(spores_state@[kk][i] == mid@[kk][i]);
                    assert(record_ok(*cfg, mid@[kk][i]));
                }
            }
            assert(spores_state.rows_ok(*cfg));
            // consistency of every finished bucket
            assert forall|kk: int, i: int|
                0 <= kk < kb + 1 && 0 <= i < spores_state@[kk].len() implies flat_bucket_of_pos(
                *cfg,
                (#[trigger] spores_state@[kk][i]).0,
            ) == kk by {
                if kk == ki {
                    assert(spores_state@[ki] == keep);
                    assert(flat_bucket_of_pos(*cfg, keep[i].0) == ki);
                } else {
                    assert(spores_state@[kk][i] == mid@[kk][i]);
                    if i < pre@[kk].len() {
                        assert(mid@[kk][i] == pre@[kk][i]);
                    } else {
                        assert(flat_bucket_of_pos(*cfg, mid@[kk][i].0) == kk);
                    }
                }
            }
        }
        kb = kb + 1;
    }
    proof {
        assert(spores_state.consistent(*cfg));
        assert(spores_state.records_ok(*cfg));
    }
}

} // verus!
