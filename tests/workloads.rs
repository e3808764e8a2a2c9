use weighted_index::config::{
    grow_target, shrink_target, ConfigError, Factor, FixedConfig, ResizeConfig,
};
use weighted_index::sampler::WEIGHT_LIMIT;
use weighted_index::workload::{Increment, Pattern, Workload, WorkloadError};

fn resize(nl: usize, nu: usize, num: u64, den: u64) -> ResizeConfig {
    ResizeConfig::new(nl, nu, num, den).unwrap()
}

fn fixed(n: usize, g: usize) -> FixedConfig {
    FixedConfig::new(n, g).unwrap()
}

#[test]
fn resize_config_errors() {
    assert_eq!(ResizeConfig::new(0, 8, 2, 1), Err(ConfigError::EmptyPopulation));
    assert_eq!(ResizeConfig::new(8, 8, 2, 1), Err(ConfigError::BoundsNotIncreasing));
    assert_eq!(ResizeConfig::new(4, 8, 1, 1), Err(ConfigError::FactorNotAboveOne));
    assert_eq!(ResizeConfig::new(4, 8, 2, 0), Err(ConfigError::FactorNotAboveOne));
    assert_eq!(ResizeConfig::new(4, 8, 11, 10), Err(ConfigError::GrowthStalls));
    assert_eq!(ResizeConfig::new(40000, 80000, 2, 1), Err(ConfigError::WeightBoundTooLarge));
    assert_eq!(ResizeConfig::new(4, 1 << 50, 2, 1), Err(ConfigError::PopulationTooLarge));
    assert!(ResizeConfig::new(1 << 15, (1 << 49) - 1, 2, 1).is_ok());
    assert_eq!(ResizeConfig::new(1 << 15, 1 << 49, 2, 1), Err(ConfigError::PopulationTooLarge));
    let c = resize(16, 64, 2, 1);
    assert_eq!(c.nl, 16);
    assert_eq!(c.nu, 64);
    assert_eq!(c.factor, Factor { num: 2, den: 1 });
}

#[test]
fn fixed_config_errors() {
    assert_eq!(FixedConfig::new(0, 1), Err(ConfigError::EmptyPopulation));
    assert_eq!(FixedConfig::new(32769, 1), Err(ConfigError::PopulationTooLarge));
    assert!(FixedConfig::new(32768, 1).is_ok());
    assert_eq!(FixedConfig::new(4, 0), Err(ConfigError::NoCheckpoints));
    assert_eq!(FixedConfig::new(4, 401), Err(ConfigError::TooManyCheckpoints));
    assert_eq!(FixedConfig::new(4, 400), Ok(FixedConfig { n: 4, g: 400 }));
}

#[test]
fn growth_and_shrink_targets() {
    let f = Factor { num: 5, den: 4 };
    assert_eq!(grow_target(100, f), 125);
    assert_eq!(grow_target(7, f), 8);
    assert_eq!(shrink_target(100, f), 80);
    assert_eq!(shrink_target(7, f), 5);
    assert_eq!(grow_target(usize::MAX, Factor { num: 2, den: 1 }), 2 * (usize::MAX as u128));
}

#[test]
fn erase_checkpoints_halving() {
    let mut w = Workload::erase(resize(16, 64, 2, 1), 7);
    let mut seen = Vec::new();
    while !w.is_done() {
        seen.push(w.checkpoint());
        w.measure(10).unwrap();
        w.mutate().unwrap();
    }
    assert_eq!(seen, vec![64, 32, 16]);
    assert_eq!(w.weights.len(), 16);
}

#[test]
fn erase_never_samples_removed_positions() {
    let mut w = Workload::erase(resize(16, 64, 2, 1), 11);
    w.mutate().unwrap();
    assert_eq!(w.weights.len(), 32);
    for _ in 0..2000 {
        let j = w.draw().unwrap();
        assert!(j < 32);
        assert!(w.weights[j] > 0);
    }
}

#[test]
fn insert_checkpoints_doubling() {
    let mut w = Workload::insert(resize(4, 20, 2, 1), 3);
    assert!(w.weights.iter().all(|&x| x < 4));
    let mut seen = Vec::new();
    while !w.is_done() {
        seen.push(w.checkpoint());
        w.mutate().unwrap();
    }
    assert_eq!(seen, vec![4, 8, 16]);
    assert_eq!(w.weights.len(), 16);
    assert!(w.weights.iter().all(|&x| x < 4));
    assert_eq!(w.total, w.weights.iter().sum::<u64>());
}

#[test]
fn unit_random_increase_adds_one_per_substep() {
    let mut w = Workload::fixed_from(
        Pattern::RandomIncrease,
        fixed(4, 4),
        Increment::Unit,
        vec![1, 1, 1, 1],
        42,
    )
    .unwrap();
    assert_eq!(w.substeps, 100);
    assert_eq!(w.checkpoint(), 0);
    w.measure(100).unwrap();
    w.mutate().unwrap();
    assert_eq!(w.total, 104);
    assert_eq!(w.weights.iter().sum::<u64>(), 104);
    assert!(w.weights.iter().all(|&x| x >= 1));
    assert!(w.weights.iter().any(|&x| x > 1));
    assert_eq!(w.checkpoint(), 100);
}

#[test]
fn random_increase_runs_to_step_bound() {
    let mut w = Workload::fixed(Pattern::RandomIncrease, fixed(10, 5), Increment::Drawn, 5).unwrap();
    assert!(w.weights.iter().all(|&x| x < 10));
    let mut seen = Vec::new();
    while !w.is_done() {
        seen.push(w.checkpoint());
        let before = w.weights.clone();
        let total = w.total;
        w.mutate().unwrap();
        assert!(w.weights.iter().zip(before.iter()).all(|(a, b)| a >= b));
        assert!(w.total >= total && w.total <= total + 200 * 9);
    }
    assert_eq!(seen, vec![0, 200, 400, 600, 800]);
}

#[test]
fn single_increase_only_touches_position_zero() {
    let mut w = Workload::fixed_from(
        Pattern::SingleIncrease,
        fixed(3, 2),
        Increment::Unit,
        vec![2, 5, 7],
        1,
    )
    .unwrap();
    w.mutate().unwrap();
    assert_eq!(w.weights, vec![152, 5, 7]);
    w.mutate().unwrap();
    assert_eq!(w.weights, vec![302, 5, 7]);
    assert!(w.is_done());
}

#[test]
fn single_increase_drawn_increments() {
    let mut w =
        Workload::fixed(Pattern::SingleIncrease, fixed(8, 4), Increment::Drawn, 9).unwrap();
    let rest: Vec<u64> = w.weights[1..].to_vec();
    let mut last = w.weights[0];
    while !w.is_done() {
        let total = w.total;
        w.mutate().unwrap();
        assert!(w.weights[0] >= last);
        assert_eq!(w.weights[0] - last, w.total - total);
        assert_eq!(w.weights[1..].to_vec(), rest);
        last = w.weights[0];
    }
}

#[test]
fn polya_urn_reinforces_only_sampled_positions() {
    let mut w =
        Workload::fixed_from(Pattern::PolyaUrn, fixed(4, 4), Increment::Unit, vec![0, 3, 0, 1], 2)
            .unwrap();
    w.mutate().unwrap();
    assert_eq!(w.weights[0], 0);
    assert_eq!(w.weights[2], 0);
    assert_eq!(w.total, 104);
}

#[test]
fn polya_urn_on_empty_index_fails() {
    let mut w =
        Workload::fixed_from(Pattern::PolyaUrn, fixed(3, 1), Increment::Unit, vec![0, 0, 0], 2)
            .unwrap();
    assert_eq!(w.mutate(), Err(WorkloadError::EmptyIndex));
    assert_eq!(w.measure(1), Err(WorkloadError::EmptyIndex));
    assert_eq!(w.measure(0), Ok(()));
    assert_eq!(w.draw(), None);
}

#[test]
fn zero_weight_is_never_sampled() {
    let mut w = Workload::fixed_from(
        Pattern::RandomIncrease,
        fixed(4, 1),
        Increment::Unit,
        vec![0, 5, 5, 5],
        8,
    )
    .unwrap();
    for _ in 0..5000 {
        let j = w.draw().unwrap();
        assert_ne!(j, 0);
    }
}

#[test]
fn sampling_follows_weights() {
    let mut w =
        Workload::fixed_from(Pattern::RandomIncrease, fixed(2, 1), Increment::Unit, vec![1, 3], 4)
            .unwrap();
    let draws = 40000;
    let mut ones = 0;
    for _ in 0..draws {
        if w.draw().unwrap() == 1 {
            ones += 1;
        }
    }
    let freq = ones as f64 / draws as f64;
    assert!((freq - 0.75).abs() < 0.02, "frequency {}", freq);
}

#[test]
fn initial_weights_overflow() {
    let r = Workload::fixed_from(
        Pattern::RandomIncrease,
        fixed(2, 1),
        Increment::Unit,
        vec![u64::MAX, 1],
        0,
    );
    assert!(matches!(r, Err(WorkloadError::WeightOverflow)));
    let r = Workload::fixed_from(
        Pattern::RandomIncrease,
        fixed(2, 1),
        Increment::Unit,
        vec![0, WEIGHT_LIMIT],
        0,
    );
    assert!(matches!(r, Err(WorkloadError::WeightOverflow)));
    let r = Workload::fixed_from(
        Pattern::RandomIncrease,
        fixed(2, 1),
        Increment::Unit,
        vec![0, WEIGHT_LIMIT - 1],
        0,
    );
    assert!(r.is_ok());
}

#[test]
fn reinforce_overflow_and_success() {
    assert_eq!(WEIGHT_LIMIT, 1 << 15);
    let mut w = Workload::fixed_from(
        Pattern::SingleIncrease,
        fixed(2, 1),
        Increment::Unit,
        vec![WEIGHT_LIMIT - 3, 0],
        0,
    )
    .unwrap();
    assert_eq!(w.reinforce(1, 2), Ok(()));
    assert_eq!(w.weights, vec![WEIGHT_LIMIT - 3, 2]);
    assert_eq!(w.reinforce(0, 3), Err(WorkloadError::WeightOverflow));
    assert_eq!(w.weights, vec![WEIGHT_LIMIT - 3, 2]);
    assert_eq!(w.reinforce(0, 2), Ok(()));
    assert_eq!(w.weights, vec![WEIGHT_LIMIT - 1, 2]);
    assert_eq!(w.total, WEIGHT_LIMIT + 1);
    assert_eq!(w.mutate(), Err(WorkloadError::WeightOverflow));
    assert_eq!(w.weights, vec![WEIGHT_LIMIT - 1, 2]);
}

#[test]
fn erase_stops_without_unmeasured_shrink() {
    let cfg = resize(16, 18, 2, 1);
    let mut w = Workload::erase(cfg, 5);
    let mut seen = Vec::new();
    while !w.is_done() {
        seen.push(w.checkpoint());
        w.mutate().unwrap();
    }
    assert_eq!(seen, vec![18, 9]);
    assert_eq!(w.weights.len(), 9);
    assert_eq!(w.total, w.weights.iter().sum::<u64>());
}

#[test]
fn erase_schedule_halving() {
    assert_eq!(resize(16, 64, 2, 1).erase_checkpoints(), vec![64, 32, 16]);
    assert_eq!(resize(16, 18, 2, 1).erase_checkpoints(), vec![18, 9]);
}

#[test]
fn insert_schedule_doubling() {
    assert_eq!(resize(4, 20, 2, 1).insert_checkpoints(), vec![4, 8, 16]);
    assert_eq!(resize(4, 32, 3, 2).insert_checkpoints(), vec![4, 6, 9, 13, 19, 28]);
}

#[test]
fn workloads_follow_their_schedules() {
    let cfg = resize(100, 1000, 5, 4);
    let mut w = Workload::insert(cfg, 13);
    let mut seen = Vec::new();
    while !w.is_done() {
        seen.push(w.checkpoint());
        w.mutate().unwrap();
    }
    assert_eq!(seen, cfg.insert_checkpoints());
    let last = *seen.last().unwrap();
    assert!(last < 1000 && grow_target(last, cfg.factor) >= 1000);

    let mut w = Workload::erase(cfg, 13);
    let mut seen = Vec::new();
    while !w.is_done() {
        seen.push(w.checkpoint());
        w.mutate().unwrap();
    }
    assert_eq!(seen, cfg.erase_checkpoints());
    assert_eq!(w.weights.len(), *seen.last().unwrap());
    assert!(w.weights.len() > 80 && shrink_target(w.weights.len(), cfg.factor) <= 80);
}

#[test]
fn harness_factor_schedule() {
    let den: u64 = 1 << 20;
    let num = (2f64.sqrt().sqrt() * den as f64).round() as u64;
    let cfg = resize(1 << 15, 1 << 26, num, den);
    let s = cfg.insert_checkpoints();
    assert_eq!(s[0], 1 << 15);
    assert!(s.windows(2).all(|p| p[0] < p[1]));
    assert!(*s.last().unwrap() < (1 << 26));
    assert_eq!(s.len(), 45);
}
