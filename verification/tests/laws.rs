//! Scenario tests for the stated properties of the engine: wraparound,
//! calibrated-distance symmetry, the force law's zeros, conservation of the
//! population, bucket consistency, and the two reference scenarios.

use pycniospores::bucket::get_bucket_from_pos;
use pycniospores::configuration::UniverseConfig;
use pycniospores::movement_calculator::calculate_force;
use pycniospores::movement_calculator::modulo_position;
use pycniospores::movement_calculator::to_calibrated_dist;
use pycniospores::movement_calculator::Dist;
use pycniospores::spore::SporeConfigs;
use pycniospores::spore::SporesState;
use pycniospores::spore_mover::move_spores;
use pycniospores::vector::Vector;

/// A 1000x1000-unit universe (fixed point: 1 unit = 1000 steps), 5x5
/// buckets of 200 units, reach up to 50 units, friction 0.94.
fn test_config() -> UniverseConfig {
    UniverseConfig {
        universe_width: 1_000_000,
        universe_height: 1_000_000,
        nr_horz_buckets: 5,
        nr_vert_buckets: 5,
        bucket_width: 200_000,
        bucket_height: 200_000,
        max_force_reach: 50_000,
        max_repulsion_dist: 10_000,
        max_force_amplitude: 1_000,
        repulsion_amplitude: -750,
        friction_num: 94,
        friction_den: 100,
        nr_of_spore_types: 1,
    }
}

/// One type: repulsion distance 10 units, reach 50 units, factor 0.1.
fn test_spore_configs() -> SporeConfigs {
    SporeConfigs {
        repulsion_dists: vec![10_000],
        force_factors: vec![100],
        force_reaches: vec![50_000],
    }
}

fn empty_state(cfg: &UniverseConfig) -> SporesState {
    let n = cfg.nr_horz_buckets * cfg.nr_vert_buckets;
    SporesState {
        positions: (0..n).map(|_| Vec::new()).collect(),
        speeds: (0..n).map(|_| Vec::new()).collect(),
        spore_types: (0..n).map(|_| Vec::new()).collect(),
    }
}

fn place(state: &mut SporesState, cfg: &UniverseConfig, pos: Vector, speed: Vector, t: u8) {
    let (h, v) = get_bucket_from_pos(cfg, pos);
    let k = v * cfg.nr_horz_buckets + h;
    state.positions[k].push(pos);
    state.speeds[k].push(speed);
    state.spore_types[k].push(t);
}

fn count(state: &SporesState) -> usize {
    state.positions.iter().map(|b| b.len()).sum()
}

#[test]
fn wrapped_position_lies_in_the_universe() {
    let cfg = test_config();
    let w = modulo_position(&cfg, Vector { x: -250, y: 2_000_250 });
    assert_eq!(w.x, 999_750);
    assert_eq!(w.y, 250);
    assert!(0 <= w.x && w.x < cfg.universe_width);
    assert!(0 <= w.y && w.y < cfg.universe_height);
}

#[test]
fn wrapping_is_periodic_in_the_extent() {
    let cfg = test_config();
    for p in [-1_700_000i64, -3, 0, 42, 999_999, 1_234_567] {
        let a = modulo_position(&cfg, Vector { x: p, y: p });
        let b = modulo_position(&cfg, Vector { x: p + cfg.universe_width, y: p + cfg.universe_height });
        assert_eq!(a.x, b.x);
        assert_eq!(a.y, b.y);
    }
}

#[test]
fn calibrated_distance_is_symmetric() {
    let cfg = test_config();
    let a = Vector { x: 5_000, y: 300_000 };
    let b = Vector { x: 995_000, y: 310_000 };
    let ab = to_calibrated_dist(&cfg, b, a);
    let ba = to_calibrated_dist(&cfg, a, b);
    // the displacement wraps across the seam: 10 units, not 990
    assert_eq!(ab.vector.x, -10_000);
    assert_eq!(ab.vector.y, 10_000);
    assert_eq!(ba.vector.x, -ab.vector.x);
    assert_eq!(ba.vector.y, -ab.vector.y);
    assert_eq!(ab.scalar, ba.scalar);
    assert_eq!(ab.scalar, 14_142);
}

#[test]
fn force_is_zero_at_the_particle_itself() {
    let cfg = test_config();
    let configs = test_spore_configs();
    let f = calculate_force(&cfg, &configs, 0, Dist {
        vector: Vector { x: 0, y: 0 },
        scalar: 0,
    });
    assert_eq!(f.x, 0);
    assert_eq!(f.y, 0);
}

#[test]
fn force_vanishes_at_the_reach_and_at_the_repulsion_boundary() {
    let cfg = test_config();
    let configs = test_spore_configs();
    // outer boundary: distance exactly the reach
    let at_reach = calculate_force(&cfg, &configs, 0, Dist {
        vector: Vector { x: 50_000, y: 0 },
        scalar: 50_000,
    });
    assert_eq!(at_reach.x, 0);
    assert_eq!(at_reach.y, 0);
    // inner boundary, approached from the repulsion side
    let near_rd = calculate_force(&cfg, &configs, 0, Dist {
        vector: Vector { x: 9_999, y: 0 },
        scalar: 9_999,
    });
    assert_eq!(near_rd.x, 0);
    assert_eq!(near_rd.y, 0);
}

#[test]
fn two_close_particles_repel_and_settle_near_the_repulsion_distance() {
    let cfg = test_config();
    let configs = test_spore_configs();
    let mut state = empty_state(&cfg);
    place(&mut state, &cfg, Vector { x: 100_000, y: 100_000 }, Vector { x: 0, y: 0 }, 0);
    place(&mut state, &cfg, Vector { x: 105_000, y: 100_000 }, Vector { x: 0, y: 0 }, 0);

    move_spores(&cfg, &configs, &mut state);
    // the repulsion formula: q = (10000-5000)*1000/10000 = 500,
    // f1 = 500*500/1000 = 250, f2 = 250*(-750)/1000 = -187,
    // force = 5000*(-187)/1000 = 935 steps, pushing the particles apart
    assert_eq!(state.positions[0][0], Vector { x: 99_065, y: 100_000 });
    assert_eq!(state.positions[0][1], Vector { x: 105_935, y: 100_000 });
    assert_eq!(state.speeds[0][0], Vector { x: -935, y: 0 });
    assert_eq!(state.speeds[0][1], Vector { x: 935, y: 0 });

    for _ in 0..499 {
        move_spores(&cfg, &configs, &mut state);
        assert_eq!(count(&state), 2);
    }
    let xs: Vec<i64> = state
        .positions
        .iter()
        .flat_map(|b| b.iter().map(|p| p.x))
        .collect();
    let sep = (xs[0] - xs[1]).abs();
    // the separation has grown from the initial 5 units and the pair has
    // come to rest close to the repulsion distance of 10 units
    assert!(sep > 5_000);
    assert_eq!(sep, 9_824);
    assert!((sep - 10_000).abs() < 1_000);
    let speeds: Vec<Vector> = state.speeds.iter().flat_map(|b| b.iter().cloned()).collect();
    assert!(speeds.iter().all(|v| v.x == 0 && v.y == 0));
}

#[test]
fn population_is_conserved_across_ticks() {
    let cfg = test_config();
    let configs = test_spore_configs();
    let mut state = empty_state(&cfg);
    // a particle close to a bucket edge, so that migration happens
    place(&mut state, &cfg, Vector { x: 199_900, y: 100_000 }, Vector { x: 900, y: 0 }, 0);
    place(&mut state, &cfg, Vector { x: 500_000, y: 500_000 }, Vector { x: 0, y: -800 }, 0);
    place(&mut state, &cfg, Vector { x: 999_950, y: 999_950 }, Vector { x: 600, y: 600 }, 0);
    assert_eq!(count(&state), 3);
    for _ in 0..50 {
        move_spores(&cfg, &configs, &mut state);
        assert_eq!(count(&state), 3);
    }
}

#[test]
fn every_particle_sits_in_the_bucket_of_its_position() {
    let cfg = test_config();
    let configs = test_spore_configs();
    let mut state = empty_state(&cfg);
    // the first particle crosses its bucket's edge on the first tick,
    // the third wraps around the universe seam
    place(&mut state, &cfg, Vector { x: 199_900, y: 100_000 }, Vector { x: 900, y: 0 }, 0);
    place(&mut state, &cfg, Vector { x: 400_050, y: 250_000 }, Vector { x: -600, y: 0 }, 0);
    place(&mut state, &cfg, Vector { x: 999_990, y: 10 }, Vector { x: 500, y: -500 }, 0);
    for _ in 0..20 {
        move_spores(&cfg, &configs, &mut state);
        for k in 0..state.positions.len() {
            for p in &state.positions[k] {
                let (h, v) = get_bucket_from_pos(&cfg, *p);
                assert_eq!(v * cfg.nr_horz_buckets + h, k);
            }
        }
    }
}

#[test]
fn a_lone_particle_feels_no_force_and_its_speed_decays() {
    let cfg = test_config();
    let configs = test_spore_configs();
    let mut state = empty_state(&cfg);
    place(&mut state, &cfg, Vector { x: 500_000, y: 500_000 }, Vector { x: 1_000, y: 0 }, 0);

    move_spores(&cfg, &configs, &mut state);
    // no neighbor within any reach: the only change is friction
    let speeds: Vec<Vector> = state.speeds.iter().flat_map(|b| b.iter().cloned()).collect();
    assert_eq!(speeds, vec![Vector { x: 940, y: 0 }]);

    for _ in 0..119 {
        move_spores(&cfg, &configs, &mut state);
    }
    let speeds: Vec<Vector> = state.speeds.iter().flat_map(|b| b.iter().cloned()).collect();
    assert_eq!(speeds, vec![Vector { x: 0, y: 0 }]);
    let frozen: Vec<Vector> = state.positions.iter().flat_map(|b| b.iter().cloned()).collect();
    move_spores(&cfg, &configs, &mut state);
    let still: Vec<Vector> = state.positions.iter().flat_map(|b| b.iter().cloned()).collect();
    assert_eq!(frozen, still);
}
