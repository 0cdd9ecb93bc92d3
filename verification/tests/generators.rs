use std::collections::HashSet;

use ycsb::errors::BenchError;
use ycsb::generator::{Counter, OpKind, Uniform, WeightedDiscrete};
use ycsb::zipfian::{ScrambledZipfian, Zipfian};

#[test]
fn counter_concurrent_partition_distinct_gapless() {
    // Four workers taking turns on the shared counter, 25 draws each:
    // exactly 100 distinct values, no duplicates, no gaps.
    let mut counter = Counter::new(0);
    let mut per_worker: Vec<Vec<u64>> = vec![Vec::new(), Vec::new(), Vec::new(), Vec::new()];
    for _round in 0..25 {
        for w in 0..4 {
            per_worker[w].push(counter.next());
        }
    }
    let mut all: Vec<u64> = Vec::new();
    for w in 0..4 {
        assert_eq!(per_worker[w].len(), 25);
        all.extend(per_worker[w].iter().copied());
    }
    assert_eq!(all.len(), 100);
    let distinct: HashSet<u64> = all.iter().copied().collect();
    assert_eq!(distinct.len(), 100);
    for v in 0..100u64 {
        assert!(distinct.contains(&v));
    }
}

#[test]
fn counter_starts_at_offset() {
    let mut counter = Counter::new(10);
    assert_eq!(counter.next(), 10);
    assert_eq!(counter.next(), 11);
    assert_eq!(counter.next(), 12);
}

#[test]
fn uniform_stays_within_bound() {
    let mut g = Uniform::new(10, 42).unwrap();
    let mut seen: HashSet<u64> = HashSet::new();
    for _ in 0..1000 {
        let v = g.next();
        assert!(v < 10);
        seen.insert(v);
    }
    assert!(seen.len() >= 8);
}

#[test]
fn uniform_rejects_empty_range() {
    let r = Uniform::new(0, 42);
    assert!(matches!(r, Err(BenchError::Generator { .. })));
}

#[test]
fn zipfian_rank_zero_most_frequent() {
    // Skew 0.99 over ten ranks: after many draws the empirical frequency
    // strictly decreases as rank increases.
    let mut g = Zipfian::new(10, 990, 7).unwrap();
    let mut counts = [0u64; 10];
    for _ in 0..200_000 {
        counts[g.next() as usize] += 1;
    }
    for r in 0..9 {
        assert!(
            counts[r] > counts[r + 1],
            "rank {} drawn {} times, rank {} drawn {} times",
            r,
            counts[r],
            r + 1,
            counts[r + 1]
        );
    }
}

#[test]
fn zipfian_rejects_invalid_parameters() {
    assert!(matches!(Zipfian::new(0, 990, 7), Err(BenchError::Generator { .. })));
    assert!(matches!(Zipfian::new(10, 16_001, 7), Err(BenchError::Generator { .. })));
    assert!(matches!(Zipfian::new(0x8000_0001, 990, 7), Err(BenchError::Generator { .. })));
}

#[test]
fn zipfian_handles_exponent_exactly_one() {
    // The incremental table needs no special case at skew exactly 1.0.
    let mut g = Zipfian::new(10, 1000, 13).unwrap();
    let mut counts = [0u64; 10];
    for _ in 0..50_000 {
        let v = g.next();
        assert!(v < 10);
        counts[v as usize] += 1;
    }
    assert!(counts[0] > counts[9]);
}

#[test]
fn scrambled_zipfian_covers_key_space() {
    // Every key of [0, 50) is reachable, and the skew survives in the
    // frequencies while the hot keys are scattered over the space.
    let mut g = ScrambledZipfian::new(50, 990, 11).unwrap();
    let mut counts = [0u64; 50];
    for _ in 0..100_000 {
        let key = g.next();
        assert!(key < 50);
        counts[key as usize] += 1;
    }
    let mut min = u64::MAX;
    let mut max = 0u64;
    for k in 0..50 {
        assert!(counts[k] > 0, "key {} never drawn", k);
        min = min.min(counts[k]);
        max = max.max(counts[k]);
    }
    assert!(max > 3 * min);
}

#[test]
fn weighted_discrete_converges_to_proportions() {
    // read 0.5, update 0.3, insert 0.2 over many draws.
    let entries = vec![
        (OpKind::Read, 500_000u64),
        (OpKind::Update, 300_000u64),
        (OpKind::Insert, 200_000u64),
    ];
    let mut g = WeightedDiscrete::new(&entries, 3).unwrap();
    let mut reads = 0u64;
    let mut updates = 0u64;
    let mut inserts = 0u64;
    for _ in 0..100_000 {
        match g.next() {
            OpKind::Read => reads += 1,
            OpKind::Update => updates += 1,
            OpKind::Insert => inserts += 1,
            OpKind::Scan => panic!("scan has no weight"),
        }
    }
    assert!(reads > 49_000 && reads < 51_000, "reads: {}", reads);
    assert!(updates > 29_000 && updates < 31_000, "updates: {}", updates);
    assert!(inserts > 19_000 && inserts < 21_000, "inserts: {}", inserts);
}

#[test]
fn weighted_discrete_never_draws_zero_weight() {
    let entries = vec![
        (OpKind::Read, 1_000_000u64),
        (OpKind::Update, 0u64),
        (OpKind::Insert, 0u64),
        (OpKind::Scan, 0u64),
    ];
    let mut g = WeightedDiscrete::new(&entries, 5).unwrap();
    for _ in 0..1000 {
        assert!(matches!(g.next(), OpKind::Read));
    }
}

#[test]
fn weighted_discrete_rejects_zero_total() {
    let entries = vec![(OpKind::Read, 0u64), (OpKind::Update, 0u64)];
    assert!(matches!(WeightedDiscrete::new(&entries, 5), Err(BenchError::Generator { .. })));
    let empty: Vec<(OpKind, u64)> = Vec::new();
    assert!(matches!(WeightedDiscrete::new(&empty, 5), Err(BenchError::Generator { .. })));
}
