//! The data of the simulation: the per-type force parameters and the
//! authoritative particle state, partitioned by bucket into parallel arrays.

use vstd::prelude::*;
use vstd::multiset::Multiset;
use vstd::assert_multisets_equal;

use crate::bucket::flat_bucket_of_pos;
use crate::configuration::MAX_SPORES;
use crate::configuration::SPEED_LIMIT;
use crate::configuration::UniverseConfig;
use crate::vector::Vector;

verus! {

/// One particle: position, velocity, type.
pub type SporeRecord = (Vector, Vector, u8);

/// The per-type force parameters: three parallel arrays indexed by the
/// particle type.
#[derive(Debug)]
pub struct SporeConfigs {
    pub repulsion_dists: Vec<i64>,
    pub force_factors: Vec<i64>,
    pub force_reaches: Vec<i64>,
}

impl SporeConfigs {
    /// The parameters of type `t` satisfy the configuration invariant:
    /// `0 < repulsion distance < force reach <= maximal reach`, and the
    /// force factor within the global amplitude.
    pub open spec fn type_ok(&self, cfg: UniverseConfig, t: int) -> bool {
        &&& 1 <= self.repulsion_dists@[t]
        &&& self.repulsion_dists@[t] < self.force_reaches@[t]
        &&& self.force_reaches@[t] <= cfg.max_force_reach
        &&& -cfg.max_force_amplitude <= self.force_factors@[t] <= cfg.max_force_amplitude
    }

    /// The table covers exactly the type enumeration of `cfg`, and every
    /// row is valid.
    pub open spec fn well_formed(&self, cfg: UniverseConfig) -> bool {
        &&& self.repulsion_dists@.len() == cfg.nr_of_spore_types
        &&& self.force_factors@.len() == cfg.nr_of_spore_types
        &&& self.force_reaches@.len() == cfg.nr_of_spore_types
        &&& forall|t: int| 0 <= t < cfg.nr_of_spore_types ==> #[trigger] self.type_ok(cfg, t)
    }
}

/// The whole population: for each bucket (indexed by its flat rank, see
/// `bucket::flat_index`) three parallel sequences of equal length; index `i`
/// in all three describes one particle.
pub struct SporesState {
    pub positions: Vec<Vec<Vector>>,
    pub speeds: Vec<Vec<Vector>>,
    pub spore_types: Vec<Vec<u8>>,
}

impl View for SporesState {
    type V = Seq<Seq<SporeRecord>>;

    open spec fn view(&self) -> Seq<Seq<SporeRecord>> {
        Seq::new(
            self.positions@.len(),
            |k: int|
                Seq::new(
                    self.positions@[k]@.len(),
                    |i: int|
                        (self.positions@[k]@[i], self.speeds@[k]@[i], self.spore_types@[k]@[i]),
                ),
        )
    }
}

/// One record is plausible on its own: the position wrapped into the
/// universe, the velocity within the saturation bound, the type a valid
/// index of the configuration table.
pub open spec fn record_ok(cfg: UniverseConfig, rec: SporeRecord) -> bool {
    &&& 0 <= rec.0.x < cfg.universe_width
    &&& 0 <= rec.0.y < cfg.universe_height
    &&& -SPEED_LIMIT <= rec.1.x <= SPEED_LIMIT
    &&& -SPEED_LIMIT <= rec.1.y <= SPEED_LIMIT
    &&& rec.2 < cfg.nr_of_spore_types
}

/// Total number of particles over all buckets.
pub open spec fn total_count(s: Seq<Seq<SporeRecord>>) -> int
    decreases s.len(),
{
    if s.len() == 0 {
        0
    } else {
        total_count(s.drop_last()) + s.last().len()
    }
}

/// Every record of the state, as one multiset: the identity-free contents
/// of the simulation.
pub open spec fn all_records(s: Seq<Seq<SporeRecord>>) -> Multiset<SporeRecord>
    decreases s.len(),
{
    if s.len() == 0 {
        Multiset::empty()
    } else {
        all_records(s.drop_last()).add(s.last().to_multiset())
    }
}

impl SporesState {
    /// The three parallel arrays agree bucket by bucket in length.
    pub open spec fn lens_match(&self) -> bool {
        &&& self.speeds@.len() == self.positions@.len()
        &&& self.spore_types@.len() == self.positions@.len()
        &&& forall|k: int|
            #![trigger self.speeds@[k]]
            0 <= k < self.positions@.len() ==> self.speeds@[k]@.len() == self.positions@[k]@.len()
        &&& forall|k: int|
            #![trigger self.spore_types@[k]]
            0 <= k < self.positions@.len() ==> self.spore_types@[k]@.len()
                == self.positions@[k]@.len()
    }

    /// Structure: one bucket per grid cell, parallel lengths, every record
    /// plausible.
    pub open spec fn rows_ok(&self, cfg: UniverseConfig) -> bool {
        &&& self.lens_match()
        &&& self.positions@.len() == cfg.spec_nr_buckets()
        &&& forall|k: int, i: int|
            0 <= k < self@.len() && 0 <= i < self@[k].len() ==> record_ok(
                cfg,
                #[trigger] self@[k][i],
            )
    }

    /// `rows_ok`, with the population also within the global cap.
    pub open spec fn records_ok(&self, cfg: UniverseConfig) -> bool {
        &&& self.rows_ok(cfg)
        &&& total_count(self@) <= MAX_SPORES
    }

    /// Bucket consistency: every particle is stored in the bucket its
    /// position maps to.
    pub open spec fn consistent(&self, cfg: UniverseConfig) -> bool {
        forall|k: int, i: int|
            0 <= k < self@.len() && 0 <= i < self@[k].len() ==> flat_bucket_of_pos(
                cfg,
                (#[trigger] self@[k][i]).0,
            ) == k
    }

    /// The full invariant of a state between ticks.
    pub open spec fn well_formed(&self, cfg: UniverseConfig) -> bool {
        &&& self.records_ok(cfg)
        &&& self.consistent(cfg)
    }
}

/// What `records_ok` gives of one bucket, restated over the parallel
/// arrays: matching lengths, wrapped positions, bounded speeds, valid
/// types, and a size within the population cap.
pub proof fn lemma_bucket_fields(state: &SporesState, cfg: UniverseConfig, k: int)
    requires
        state.records_ok(cfg),
        0 <= k < state.positions@.len(),
    ensures
        state.speeds@[k]@.len() == state.positions@[k]@.len(),
        state.spore_types@[k]@.len() == state.positions@[k]@.len(),
        state.positions@[k]@.len() <= MAX_SPORES,
        forall|j: int|
            0 <= j < state.positions@[k]@.len() ==> 0 <= (#[trigger] state.positions@[k]@[j]).x
                < cfg.universe_width && 0 <= state.positions@[k]@[j].y < cfg.universe_height,
        forall|j: int|
            0 <= j < state.spore_types@[k]@.len() ==> (#[trigger] state.spore_types@[k]@[j])
                < cfg.nr_of_spore_types,
        forall|j: int|
            0 <= j < state.speeds@[k]@.len() ==> -SPEED_LIMIT <= (
            #[trigger] state.speeds@[k]@[j]).x <= SPEED_LIMIT && -SPEED_LIMIT
                <= state.speeds@[k]@[j].y <= SPEED_LIMIT,
{
    assert(state.lens_match());
    assert(state.speeds@[k]@.len() == state.positions@[k]@.len());
    assert(state.spore_types@[k]@.len() == state.positions@[k]@.len());
    assert(0 <= k < state@.len());
    assert forall|j: int| 0 <= j < state.positions@[k]@.len() implies 0 <= (
    #[trigger] state.positions@[k]@[j]).x < cfg.universe_width && 0 <= state.positions@[k]@[j].y
        < cfg.universe_height by {
        assert(state@[k][j] == (state.positions@[k]@[j], state.speeds@[k]@[j], state.spore_types@[k]@[j]));
        assert(record_ok(cfg, state@[k][j]));
    }
    assert forall|j: int| 0 <= j < state.spore_types@[k]@.len() implies (
    #[trigger] state.spore_types@[k]@[j]) < cfg.nr_of_spore_types by {
        assert(state@[k][j] == (state.positions@[k]@[j], state.speeds@[k]@[j], state.spore_types@[k]@[j]));
        assert(record_ok(cfg, state@[k][j]));
    }
    assert forall|j: int| 0 <= j < state.speeds@[k]@.len() implies -SPEED_LIMIT <= (
    #[trigger] state.speeds@[k]@[j]).x <= SPEED_LIMIT && -SPEED_LIMIT <= state.speeds@[k]@[j].y
        <= SPEED_LIMIT by {
        assert(state@[k][j] == (state.positions@[k]@[j], state.speeds@[k]@[j], state.spore_types@[k]@[j]));
        assert(record_ok(cfg, state@[k][j]));
    }
    lemma_row_le_total(state@, k);
    assert(state@[k].len() == state.positions@[k]@.len());
}

/// `total_count` is never negative.
pub proof fn lemma_total_count_nonneg(s: Seq<Seq<SporeRecord>>)
    ensures
        total_count(s) >= 0,
    decreases s.len(),
{
    if s.len() > 0 {
        lemma_total_count_nonneg(s.drop_last());
    }
}

/// No single bucket holds more than the total.
pub proof fn lemma_row_le_total(s: Seq<Seq<SporeRecord>>, k: int)
    requires
        0 <= k < s.len(),
    ensures
        s[k].len() <= total_count(s),
    decreases s.len(),
{
    if k == s.len() - 1 {
        lemma_total_count_nonneg(s.drop_last());
    } else {
        lemma_row_le_total(s.drop_last(), k);
    }
}

/// Two states whose buckets agree in length have the same total.
pub proof fn lemma_total_count_same_lens(s: Seq<Seq<SporeRecord>>, t: Seq<Seq<SporeRecord>>)
    requires
        s.len() == t.len(),
        forall|k: int| 0 <= k < s.len() ==> (#[trigger] s[k]).len() == t[k].len(),
    ensures
        total_count(s) == total_count(t),
    decreases s.len(),
{
    if s.len() > 0 {
        assert(forall|k: int|
            0 <= k < s.drop_last().len() ==> (#[trigger] s.drop_last()[k]).len()
                == t.drop_last()[k].len());
        lemma_total_count_same_lens(s.drop_last(), t.drop_last());
    }
}

/// Replacing one bucket changes the total by the difference of the bucket
/// lengths.
pub proof fn lemma_total_count_update(s: Seq<Seq<SporeRecord>>, k: int, row: Seq<SporeRecord>)
    requires
        0 <= k < s.len(),
    ensures
        total_count(s.update(k, row)) == total_count(s) - s[k].len() + row.len(),
    decreases s.len(),
{
    let t = s.update(k, row);
    if k == s.len() - 1 {
        assert(t.drop_last() =~= s.drop_last());
    } else {
        assert(t.drop_last() =~= s.drop_last().update(k, row));
        assert(t.last() == s.last());
        lemma_total_count_update(s.drop_last(), k, row);
    }
}

/// Replacing one bucket exchanges exactly that bucket's records in the
/// multiset of all records.
pub proof fn lemma_all_records_update(s: Seq<Seq<SporeRecord>>, k: int, row: Seq<SporeRecord>)
    requires
        0 <= k < s.len(),
    ensures
        all_records(s.update(k, row)).add(s[k].to_multiset()) == all_records(s).add(
            row.to_multiset(),
        ),
    decreases s.len(),
{
    broadcast use vstd::multiset::group_multiset_axioms;

    let t = s.update(k, row);
    if k == s.len() - 1 {
        assert(t.drop_last() =~= s.drop_last());
        assert(t.last() == row);
        assert(all_records(t) == all_records(t.drop_last()).add(row.to_multiset()));
        assert(all_records(s) == all_records(s.drop_last()).add(s[k].to_multiset()));
        assert_multisets_equal!(
            all_records(t).add(s[k].to_multiset()),
            all_records(s).add(row.to_multiset())
        );
    } else {
        assert(t.drop_last() =~= s.drop_last().update(k, row));
        assert(t.last() == s.last());
        lemma_all_records_update(s.drop_last(), k, row);
        assert(s.drop_last()[k] == s[k]);
        assert(all_records(t) == all_records(t.drop_last()).add(s.last().to_multiset()));
        assert(all_records(s) == all_records(s.drop_last()).add(s.last().to_multiset()));
        assert_multisets_equal!(
            all_records(t).add(s[k].to_multiset()),
            all_records(s).add(row.to_multiset()),
            key => {
                assert(all_records(t.drop_last()).add(s.drop_last()[k].to_multiset()).count(key)
                    == all_records(s.drop_last()).add(row.to_multiset()).count(key));
            }
        );
    }
}

/// The multiset of all records has exactly `total_count` elements.
pub proof fn lemma_all_records_len(s: Seq<Seq<SporeRecord>>)
    ensures
        all_records(s).len() == total_count(s),
    decreases s.len(),
{
    broadcast use vstd::seq_lib::group_to_multiset_ensures;

    if s.len() > 0 {
        lemma_all_records_len(s.drop_last());
    }
}

} // verus!
