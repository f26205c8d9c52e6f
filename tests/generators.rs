use rand::rngs::SmallRng;
use rand::SeedableRng;
use ycsb::generator::{
    AcknowledgeError, AcknowledgedCounterGenerator, ConstantGenerator, CounterGenerator,
    DiscreteGenerator, UniformLongGenerator, WeightPair, WINDOW_SIZE,
};
use ycsb::workload::CoreOperation;

#[test]
fn constant_generator_repeats_its_value() {
    let g = ConstantGenerator::new(7);
    assert_eq!(g.next_value(), 7);
    assert_eq!(g.next_value(), 7);
}

#[test]
fn counter_hands_out_consecutive_values() {
    let mut g = CounterGenerator::new(5);
    let got: Vec<u64> = (0..4).map(|_| g.next_value()).collect();
    assert_eq!(got, vec![5, 6, 7, 8]);
    assert_eq!(g.last_value(), 9);
}

#[test]
fn counter_shared_by_callers_has_no_gap_or_duplicate() {
    // Four callers take turns under one lock, 250 calls each.
    let shared = std::sync::Mutex::new(CounterGenerator::new(100));
    let mut seen = Vec::new();
    for round in 0..250 {
        for caller in 0..4 {
            let _ = (round, caller);
            seen.push(shared.lock().unwrap().next_value());
        }
    }
    seen.sort();
    let expected: Vec<u64> = (100..1100).collect();
    assert_eq!(seen, expected);
}

#[test]
fn uniform_stays_in_bounds() {
    let mut rng = SmallRng::seed_from_u64(1);
    let g = UniformLongGenerator::new(3, 9);
    let mut hit_low = false;
    let mut hit_high = false;
    for _ in 0..10_000 {
        let v = g.next_value(&mut rng);
        assert!((3..=9).contains(&v));
        hit_low |= v == 3;
        hit_high |= v == 9;
    }
    assert!(hit_low && hit_high);
}

#[test]
fn discrete_value_for_uses_cumulative_weights() {
    let g = DiscreteGenerator::new(vec![
        WeightPair::new(2, 'a'),
        WeightPair::new(3, 'b'),
        WeightPair::new(1, 'c'),
    ]);
    assert_eq!(g.total, 6);
    let picks: Vec<char> = (0..6).map(|d| g.value_for(d)).collect();
    assert_eq!(picks, vec!['a', 'a', 'b', 'b', 'b', 'c']);
}

#[test]
fn discrete_without_weight_yields_nothing() {
    let mut rng = SmallRng::seed_from_u64(2);
    let g: DiscreteGenerator<u8> = DiscreteGenerator::new(vec![]);
    assert_eq!(g.next_value(&mut rng), None);
}

#[test]
fn discrete_even_mix_is_balanced() {
    let mut rng = SmallRng::seed_from_u64(3);
    let g = DiscreteGenerator::new(vec![
        WeightPair::new(500_000, CoreOperation::Read),
        WeightPair::new(500_000, CoreOperation::Update),
    ]);
    let n = 100_000;
    let mut reads = 0;
    for _ in 0..n {
        if g.next_value(&mut rng) == Some(CoreOperation::Read) {
            reads += 1;
        }
    }
    let share = reads as f64 / n as f64;
    assert!((share - 0.5).abs() <= 0.01, "read share {}", share);
}

#[test]
fn acknowledged_counter_advances_over_contiguous_prefix() {
    let mut g = AcknowledgedCounterGenerator::new(1);
    let a = g.next_value();
    let b = g.next_value();
    let c = g.next_value();
    assert_eq!((a, b, c), (1, 2, 3));
    assert_eq!(g.acknowledge(2), Ok(()));
    assert_eq!(g.watermark(), 1);
    assert_eq!(g.acknowledge(3), Ok(()));
    assert_eq!(g.watermark(), 1);
    assert_eq!(g.acknowledge(1), Ok(()));
    assert_eq!(g.watermark(), 4);
    // Acknowledging a value below the watermark changes nothing.
    assert_eq!(g.acknowledge(2), Ok(()));
    assert_eq!(g.watermark(), 4);
}

#[test]
fn acknowledged_counter_refuses_values_beyond_window() {
    let mut g = AcknowledgedCounterGenerator::new(0);
    assert_eq!(g.acknowledge(WINDOW_SIZE), Err(AcknowledgeError::OutsideWindow));
    assert_eq!(g.acknowledge(u64::MAX), Err(AcknowledgeError::OutsideWindow));
    assert_eq!(g.acknowledge(WINDOW_SIZE - 1), Ok(()));
    assert_eq!(g.watermark(), 0);
}

#[test]
fn discrete_draws_split_by_cumulative_weight() {
    let g = DiscreteGenerator::new(vec![
        WeightPair::new(500_000, CoreOperation::Read),
        WeightPair::new(500_000, CoreOperation::Update),
    ]);
    assert_eq!(g.value_for(0), CoreOperation::Read);
    assert_eq!(g.value_for(499_999), CoreOperation::Read);
    assert_eq!(g.value_for(500_000), CoreOperation::Update);
    assert_eq!(g.value_for(999_999), CoreOperation::Update);
}

#[test]
fn acknowledged_counter_reports_last_committed_value() {
    let mut g = AcknowledgedCounterGenerator::new(10);
    assert_eq!(g.last_acknowledged(), None);
    assert_eq!(g.acknowledge(11), Ok(()));
    assert_eq!(g.last_acknowledged(), None);
    assert_eq!(g.acknowledge(10), Ok(()));
    assert_eq!(g.last_acknowledged(), Some(11));
    assert_eq!(g.watermark(), 12);
}
