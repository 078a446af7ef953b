//! Unit tests of the grid arithmetic, the fixed-point building blocks, the
//! generators and the simulation wrapper.

use pycniospores::bucket::get_bucket;
use pycniospores::bucket::get_buckets;
use pycniospores::bucket::get_neighbors;
use pycniospores::bucket::mod_horz;
use pycniospores::bucket::mod_vert;
use pycniospores::configuration::UniverseConfig;
use pycniospores::fixed::div_fix;
use pycniospores::fixed::emod_fix;
use pycniospores::fixed::isqrt_fix;
use pycniospores::fixed::sat_fix;
use pycniospores::generators::generate_spore_configs;
use pycniospores::generators::generate_spores;
use pycniospores::generators::get_previous_configs;
use pycniospores::simulation::Simulation;
use pycniospores::simulation::SimulationError;

fn test_config() -> UniverseConfig {
    UniverseConfig {
        universe_width: 1_000_000,
        universe_height: 1_000_000,
        nr_horz_buckets: 5,
        nr_vert_buckets: 5,
        bucket_width: 200_000,
        bucket_height: 200_000,
        max_force_reach: 50_000,
        max_repulsion_dist: 10_000,
        max_force_amplitude: 1_000,
        repulsion_amplitude: -750,
        friction_num: 94,
        friction_den: 100,
        nr_of_spore_types: 3,
    }
}

#[test]
fn buckets_are_enumerated_row_by_row() {
    let cfg = test_config();
    let buckets = get_buckets(&cfg);
    assert_eq!(buckets.len(), 25);
    assert_eq!(buckets[0], (0, 0));
    assert_eq!(buckets[1], (1, 0));
    assert_eq!(buckets[5], (0, 1));
    assert_eq!(buckets[24], (4, 4));
    for (k, c) in buckets.iter().enumerate() {
        assert_eq!(*c, (k % 5, k / 5));
    }
}

#[test]
fn positions_map_to_their_cell() {
    let cfg = test_config();
    assert_eq!(get_bucket(&cfg, 0, 0), (0, 0));
    assert_eq!(get_bucket(&cfg, 199_999, 200_000), (0, 1));
    assert_eq!(get_bucket(&cfg, 999_999, 999_999), (4, 4));
    assert_eq!(get_bucket(&cfg, 600_000, 350_000), (3, 1));
}

#[test]
fn neighbors_wrap_around_the_grid() {
    let cfg = test_config();
    let n = get_neighbors(&cfg, 0, 0);
    assert_eq!(n, [
        (4, 1),
        (0, 1),
        (1, 1),
        (4, 0),
        (0, 0),
        (1, 0),
        (4, 4),
        (0, 4),
        (1, 4),
    ]);
    let m = get_neighbors(&cfg, 4, 4);
    assert_eq!(m[4], (4, 4));
    assert_eq!(m[0], (3, 0));
    assert_eq!(m[8], (0, 3));
}

#[test]
fn index_wrapping_is_modular() {
    let cfg = test_config();
    assert_eq!(mod_horz(&cfg, 5), 0);
    assert_eq!(mod_horz(&cfg, 7), 2);
    assert_eq!(mod_vert(&cfg, 4), 4);
    assert_eq!(mod_vert(&cfg, 14), 4);
}

#[test]
fn fixed_point_building_blocks() {
    assert_eq!(isqrt_fix(0), 0);
    assert_eq!(isqrt_fix(24), 4);
    assert_eq!(isqrt_fix(25), 5);
    assert_eq!(isqrt_fix(2_000_000_000_000_000_000), 1_414_213_562);
    assert_eq!(emod_fix(-3, 10), 7);
    assert_eq!(emod_fix(23, 10), 3);
    assert_eq!(emod_fix(-20, 10), 0);
    assert_eq!(div_fix(-7, 2), -3);
    assert_eq!(div_fix(7, 2), 3);
    assert_eq!(sat_fix(1_000, 100), 100);
    assert_eq!(sat_fix(-1_000, 100), -100);
    assert_eq!(sat_fix(42, 100), 42);
}

#[test]
fn generated_force_tables_keep_the_invariant() {
    let cfg = test_config();
    for _ in 0..20 {
        let c = generate_spore_configs(&cfg);
        assert_eq!(c.repulsion_dists.len(), 3);
        assert_eq!(c.force_factors.len(), 3);
        assert_eq!(c.force_reaches.len(), 3);
        for t in 0..3 {
            assert!(1 <= c.repulsion_dists[t]);
            assert!(c.repulsion_dists[t] < c.force_reaches[t]);
            assert!(c.force_reaches[t] <= cfg.max_force_reach);
            assert!(c.force_factors[t].abs() <= cfg.max_force_amplitude);
        }
    }
}

#[test]
fn the_baseline_table_is_fixed() {
    let c = get_previous_configs();
    assert_eq!(c.repulsion_dists, vec![9_820, 5_970, 9_160, 17_590, 17_570, 5_080]);
    assert_eq!(c.force_factors, vec![80, -40, 60, 70, 100, -80]);
    assert_eq!(c.force_reaches, vec![27_410, 58_380, 38_750, 36_550, 52_390, 65_820]);
}

#[test]
fn generated_populations_are_bucketed_and_at_rest() {
    let cfg = test_config();
    let s = generate_spores(&cfg, 200);
    let total: usize = s.positions.iter().map(|b| b.len()).sum();
    assert_eq!(total, 200);
    for k in 0..s.positions.len() {
        assert_eq!(s.positions[k].len(), s.speeds[k].len());
        assert_eq!(s.positions[k].len(), s.spore_types[k].len());
        for i in 0..s.positions[k].len() {
            let p = s.positions[k][i];
            assert!(0 <= p.x && p.x < cfg.universe_width);
            assert!(0 <= p.y && p.y < cfg.universe_height);
            let (h, v) = get_bucket(&cfg, p.x, p.y);
            assert_eq!(v * cfg.nr_horz_buckets + h, k);
            assert_eq!(s.speeds[k][i].x, 0);
            assert_eq!(s.speeds[k][i].y, 0);
            assert!(s.spore_types[k][i] < cfg.nr_of_spore_types);
        }
    }
}

#[test]
fn an_invalid_configuration_is_refused() {
    let mut cfg = test_config();
    cfg.bucket_width = 40_000;  // smaller than the maximal force reach
    cfg.universe_width = 200_000;
    match Simulation::new(cfg, 100) {
        Err(SimulationError::InvalidConfiguration) => {}
        Ok(_) => panic!("a configuration without the bucket-size guarantee must be refused"),
    }
    let mut flat = test_config();
    flat.nr_vert_buckets = 0;
    flat.universe_height = 0;
    assert!(Simulation::new(flat, 100).is_err());
}

#[test]
fn a_fresh_simulation_starts_at_tick_zero_and_keeps_its_population() {
    let cfg = test_config();
    let mut sim = Simulation::new(cfg, 150).expect("the configuration is valid");
    assert_eq!(sim.tick, 0);
    assert!(!sim.paused);
    assert_eq!(sim.nr_of_spores, 150);
    let total = |s: &Simulation| -> usize { s.spores.positions.iter().map(|b| b.len()).sum() };
    assert_eq!(total(&sim), 150);
    for t in 1..=5u32 {
        sim.update();
        assert_eq!(sim.tick, t);
        assert_eq!(total(&sim), 150);
    }
}

#[test]
fn a_paused_simulation_stands_still() {
    let cfg = test_config();
    let mut sim = Simulation::new(cfg, 40).expect("the configuration is valid");
    sim.update();
    sim.toggle_pause();
    assert!(sim.paused);
    let frozen: Vec<(i64, i64)> = sim
        .spores
        .positions
        .iter()
        .flat_map(|b| b.iter().map(|p| (p.x, p.y)))
        .collect();
    let tick = sim.tick;
    sim.update();
    let still: Vec<(i64, i64)> = sim
        .spores
        .positions
        .iter()
        .flat_map(|b| b.iter().map(|p| (p.x, p.y)))
        .collect();
    assert_eq!(frozen, still);
    assert_eq!(sim.tick, tick);
    sim.toggle_pause();
    assert!(!sim.paused);
}

#[test]
fn an_empty_population_advances_without_effect() {
    let cfg = test_config();
    let mut sim = Simulation::new(cfg, 0).expect("the configuration is valid");
    let total = |s: &Simulation| -> usize { s.spores.positions.iter().map(|b| b.len()).sum() };
    assert_eq!(total(&sim), 0);
    for _ in 0..3 {
        sim.update();
        assert_eq!(total(&sim), 0);
    }
    assert_eq!(sim.tick, 3);
}
