//! The simulation as one value: configuration, per-type force table and
//! particle state, with construction that refuses an invalid configuration
//! and a per-tick update.

use vstd::prelude::*;

use crate::configuration::UniverseConfig;
use crate::generators::generate_spore_configs;
use crate::generators::generate_spores;
use crate::movement_calculator::phase_a_view;
use crate::spore::all_records;
use crate::spore::total_count;
use crate::spore::SporeConfigs;
use crate::spore::SporesState;
use crate::spore_mover::move_spores;

verus! {

/// Why construction failed.
#[derive(Clone, Copy, PartialEq, Eq, Structural, Debug)]
pub enum SimulationError {
    /// The configuration breaks the construction-time invariant
    /// (`UniverseConfig::well_formed`).
    InvalidConfiguration,
}

/// The whole simulation: immutable configuration and force table, the
/// mutable bucketed population, a pause flag and a tick counter.
pub struct Simulation {
    pub config: UniverseConfig,
    pub nr_of_spores: u16,
    pub paused: bool,
    pub tick: u32,
    pub spore_configs: SporeConfigs,
    pub spores: SporesState,
}

impl Simulation {
    /// The invariant every simulation value keeps between ticks.
    pub open spec fn well_formed(&self) -> bool {
        &&& self.config.well_formed()
        &&& self.spore_configs.well_formed(self.config)
        &&& self.spores.well_formed(self.config)
    }

    /// A new simulation: the configuration is validated (construction is
    /// refused if it breaks the invariant), the force table freshly
    /// randomized, the population placed at random with zero velocity.
    pub fn new(config: UniverseConfig, nr_of_spores: u16) -> (r: Result<Simulation, SimulationError>)
        ensures
            r is Ok <==> config.well_formed(),
            r is Err ==> r->Err_0 == SimulationError::InvalidConfiguration,
            r is Ok ==> {
                let s = r->Ok_0;
                &&& s.well_formed()
                &&& s.config == config
                &&& s.nr_of_spores == nr_of_spores
                &&& !s.paused
                &&& s.tick == 0
                &&& total_count(s.spores@) == nr_of_spores
            },
    {
        if !config.is_valid() {
            return Err(SimulationError::InvalidConfiguration);
        }
        let spore_configs = generate_spore_configs(&config);
        let spores = generate_spores(&config, nr_of_spores);
        Ok(
            Simulation {
                config,
                nr_of_spores,
                paused: false,
                tick: 0,
                spore_configs,
                spores,
            },
        )
    }

    /// One discrete time step, unless paused: every particle's force from
    /// the pre-tick snapshot, friction, movement with wraparound, and
    /// migration between buckets.  The population count never changes.
    pub fn update(&mut self)
        requires
            old(self).well_formed(),
        ensures
            final(self).well_formed(),
            final(self).config == old(self).config,
            final(self).spore_configs == old(self).spore_configs,
            final(self).nr_of_spores == old(self).nr_of_spores,
            final(self).paused == old(self).paused,
            total_count(final(self).spores@) == total_count(old(self).spores@),
            old(self).paused ==> *final(self) == *old(self),
            !old(self).paused ==> final(self).tick == (old(self).tick + 1) % 0x1_0000_0000,
            !old(self).paused ==> all_records(final(self).spores@) == all_records(
                phase_a_view(old(self).config, old(self).spore_configs, &old(self).spores),
            ),
    {
        if !self.paused {
            move_spores(&self.config, &self.spore_configs, &mut self.spores);
            self.tick = self.tick.wrapping_add(1);
        }
    }

    /// Flip the pause flag; a paused simulation's `update` does nothing.
    pub fn toggle_pause(&mut self)
        ensures
            final(self).paused == !old(self).paused,
            final(self).config == old(self).config,
            final(self).spore_configs == old(self).spore_configs,
            final(self).spores == old(self).spores,
            final(self).tick == old(self).tick,
            final(self).nr_of_spores == old(self).nr_of_spores,
    {
        self.paused = !self.paused;
    }
}

} // verus!
