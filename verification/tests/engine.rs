use std::collections::{HashMap, HashSet};

use ycsb::config::{KeyDistribution, Properties, WorkloadConfig};
use ycsb::errors::BenchError;
use ycsb::harness::{parse_phase, phase_result, plan_phase, plan_phases, PhaseKind};
use ycsb::rng::RandomStream;
use ycsb::text::{field_name, gen_value, key_name, str_eq, table_name, u64_to_dec_string};
use ycsb::workload::{CoreWorkload, TransactionOp};

fn props(read: u64, update: u64, insert: u64, scan: u64, dist: &str) -> Properties {
    Properties {
        operation_count: 100,
        record_count: 50,
        field_count: 3,
        field_length: 5,
        read_proportion_ppm: read,
        update_proportion_ppm: update,
        insert_proportion_ppm: insert,
        scan_proportion_ppm: scan,
        request_distribution: dist.to_string(),
        zipfian_theta_milli: 990,
    }
}

fn workload(p: &Properties, seed: u64) -> CoreWorkload {
    let config = WorkloadConfig::from_properties(p).unwrap();
    CoreWorkload::new(config, seed)
}

#[test]
fn load_phase_keys_unique() {
    // operation_count inserts, however partitioned, give exactly that many
    // distinct keys and backend insert calls.
    let p = props(500_000, 300_000, 200_000, 0, "zipfian");
    let mut wl = workload(&p, 99);
    let mut backend: HashMap<String, Vec<(String, String)>> = HashMap::new();
    let mut keys: HashSet<String> = HashSet::new();
    for _ in 0..100 {
        let op = wl.next_insert();
        assert_eq!(op.table.as_str(), "usertable");
        assert_eq!(op.fields.len(), 3);
        for (j, (name, value)) in op.fields.iter().enumerate() {
            assert_eq!(name.as_str(), format!("field{}", j).as_str());
            assert_eq!(value.len(), 5);
        }
        keys.insert(op.key.clone());
        backend.insert(op.key, op.fields);
    }
    assert_eq!(keys.len(), 100);
    assert_eq!(backend.len(), 100);
    for k in 0..100u64 {
        assert!(keys.contains(&format!("user{}", k)));
    }
}

#[test]
fn harness_two_phase_scenario() {
    // Phases ["load", "run"], operation_count 100, 4 workers: the load
    // phase performs exactly 100 inserts (25 per worker), the run phase
    // 100 transactions whose kinds approximate the configured mix, and
    // each phase reports throughput from the requested budget.
    let names = vec!["load".to_string(), "run".to_string()];
    let plans = plan_phases(&names, 100, 4).unwrap();
    assert_eq!(plans.len(), 2);
    assert!(matches!(plans[0].kind, PhaseKind::Load));
    assert!(matches!(plans[1].kind, PhaseKind::Run));
    for plan in &plans {
        assert_eq!(plan.workers, 4);
        assert_eq!(plan.ops_per_worker, 25);
        assert_eq!(plan.total_requested, 100);
    }

    let p = props(500_000, 300_000, 200_000, 0, "zipfian");
    let mut wl = workload(&p, 12345);
    let mut backend: HashMap<String, Vec<(String, String)>> = HashMap::new();

    let mut load_inserts = 0u64;
    for _worker in 0..plans[0].workers {
        for _ in 0..plans[0].ops_per_worker {
            let op = wl.next_insert();
            backend.insert(op.key, op.fields);
            load_inserts += 1;
        }
    }
    assert_eq!(load_inserts, 100);
    assert_eq!(backend.len(), 100);

    let mut reads = 0u64;
    let mut updates = 0u64;
    let mut inserts = 0u64;
    for _worker in 0..plans[1].workers {
        for _ in 0..plans[1].ops_per_worker {
            match wl.next_transaction() {
                TransactionOp::Read(r) => {
                    assert_eq!(r.table.as_str(), "usertable");
                    reads += 1;
                },
                TransactionOp::Update(ins) => {
                    backend.insert(ins.key, ins.fields);
                    updates += 1;
                },
                TransactionOp::Insert(ins) => {
                    backend.insert(ins.key, ins.fields);
                    inserts += 1;
                },
            }
        }
    }
    assert_eq!(reads + updates + inserts, 100);
    assert!(reads >= 30 && reads <= 70, "reads: {}", reads);
    assert!(updates >= 10 && updates <= 50, "updates: {}", updates);
    assert!(inserts >= 5 && inserts <= 40, "inserts: {}", inserts);

    let result = phase_result(&plans[0], 50);
    assert_eq!(result.workers, 4);
    assert_eq!(result.elapsed_millis, 50);
    assert_eq!(result.attempted_ops, 100);
    // 100 operations in 50 ms: 2000 operations per second.
    assert_eq!(result.throughput_milli_ops, 2_000_000);
}

#[test]
fn uneven_split_truncates_deterministically() {
    let plan = plan_phase("load", 10, 3).unwrap();
    assert_eq!(plan.ops_per_worker, 3);
    let result = phase_result(&plan, 2);
    assert_eq!(result.attempted_ops, 9);
    // Throughput still uses the requested 10 operations.
    assert_eq!(result.throughput_milli_ops, 5_000_000);
}

#[test]
fn config_rejects_proportions_not_summing_to_one() {
    // 0.5 + 0.3 + 0.1 = 0.9: rejected before any phase could start.
    let p = props(500_000, 300_000, 100_000, 0, "zipfian");
    let r = WorkloadConfig::from_properties(&p);
    assert!(matches!(r, Err(BenchError::Config { .. })));
}

#[test]
fn config_rejects_scan_proportion() {
    let p = props(500_000, 300_000, 100_000, 100_000, "zipfian");
    let r = WorkloadConfig::from_properties(&p);
    assert!(matches!(r, Err(BenchError::Config { .. })));
}

#[test]
fn config_rejects_unknown_distribution() {
    let p = props(500_000, 300_000, 200_000, 0, "latest");
    let r = WorkloadConfig::from_properties(&p);
    assert!(matches!(r, Err(BenchError::Config { .. })));
}

#[test]
fn config_rejects_oversized_record_space() {
    let mut p = props(500_000, 300_000, 200_000, 0, "zipfian");
    p.record_count = 0x8000_0001;
    let r = WorkloadConfig::from_properties(&p);
    assert!(matches!(r, Err(BenchError::Config { .. })));
}

#[test]
fn config_rejects_empty_record_space() {
    let mut p = props(500_000, 300_000, 200_000, 0, "uniform");
    p.record_count = 0;
    let r = WorkloadConfig::from_properties(&p);
    assert!(matches!(r, Err(BenchError::Config { .. })));
}

#[test]
fn config_accepts_valid_document() {
    let p = props(500_000, 300_000, 200_000, 0, "uniform");
    let c = WorkloadConfig::from_properties(&p).unwrap();
    assert_eq!(c.record_count, 50);
    assert_eq!(c.read_ppm, 500_000);
    assert!(matches!(c.distribution, KeyDistribution::Uniform));
}

#[test]
fn unknown_phase_rejected_before_workers() {
    let r = parse_phase("scan_only");
    assert!(matches!(r, Err(BenchError::UnknownPhase { .. })));
    let names = vec!["scan_only".to_string()];
    let r = plan_phases(&names, 100, 4);
    assert!(matches!(r, Err(BenchError::UnknownPhase { .. })));
}

#[test]
fn empty_phase_list_rejected() {
    let names: Vec<String> = Vec::new();
    let r = plan_phases(&names, 100, 4);
    assert!(matches!(r, Err(BenchError::Config { .. })));
}

#[test]
fn zero_workers_rejected() {
    let r = plan_phase("load", 100, 0);
    assert!(matches!(r, Err(BenchError::Config { .. })));
}

#[test]
fn uniform_distribution_keys_within_record_space() {
    let p = props(1_000_000, 0, 0, 0, "uniform");
    let mut wl = workload(&p, 4);
    for _ in 0..200 {
        match wl.next_transaction() {
            TransactionOp::Read(r) => {
                let n: u64 = r.key.as_str()[4..].parse().unwrap();
                assert!(n < 50);
            },
            _ => panic!("only reads are configured"),
        }
    }
}

#[test]
fn sequential_distribution_cycles_keys() {
    let mut p = props(1_000_000, 0, 0, 0, "sequential");
    p.record_count = 5;
    let mut wl = workload(&p, 4);
    for i in 0..12u64 {
        match wl.next_transaction() {
            TransactionOp::Read(r) => {
                assert_eq!(r.key.as_str(), format!("user{}", i % 5).as_str());
            },
            _ => panic!("only reads are configured"),
        }
    }
}

#[test]
fn names_format_exactly() {
    assert_eq!(u64_to_dec_string(0).as_str(), "0");
    assert_eq!(u64_to_dec_string(7).as_str(), "7");
    assert_eq!(u64_to_dec_string(907).as_str(), "907");
    assert_eq!(u64_to_dec_string(u64::MAX).as_str(), "18446744073709551615");
    assert_eq!(key_name(0).as_str(), "user0");
    assert_eq!(key_name(12345).as_str(), "user12345");
    assert_eq!(field_name(2).as_str(), "field2");
    assert_eq!(table_name().as_str(), "usertable");
}

#[test]
fn generated_values_deterministic_lowercase() {
    let mut a = RandomStream::new(21);
    let mut b = RandomStream::new(21);
    let va = gen_value(&mut a, 16);
    let vb = gen_value(&mut b, 16);
    assert_eq!(va.len(), 16);
    assert_eq!(va.as_str(), vb.as_str());
    for c in va.chars() {
        assert!(c.is_ascii_lowercase());
    }
}

#[test]
fn str_eq_agrees_with_equality() {
    assert!(str_eq("load", "load"));
    assert!(!str_eq("load", "run"));
    assert!(!str_eq("load", "loads"));
    assert!(!str_eq("", "a"));
    assert!(str_eq("", ""));
}

#[test]
fn equal_seeds_give_equal_operation_streams() {
    // The access pattern is a reproducible function of the configuration
    // and the seed alone: two engines in equal states issue identical
    // operation sequences — kinds, keys and field values.
    let p = props(500_000, 300_000, 200_000, 0, "zipfian");
    let mut a = workload(&p, 777);
    let mut b = workload(&p, 777);
    for _ in 0..20 {
        let ia = a.next_insert();
        let ib = b.next_insert();
        assert_eq!(ia.key, ib.key);
        assert_eq!(ia.fields, ib.fields);
    }
    for _ in 0..50 {
        match (a.next_transaction(), b.next_transaction()) {
            (TransactionOp::Read(ra), TransactionOp::Read(rb)) => {
                assert_eq!(ra.key, rb.key);
            },
            (TransactionOp::Update(ua), TransactionOp::Update(ub)) => {
                assert_eq!(ua.key, ub.key);
                assert_eq!(ua.fields, ub.fields);
            },
            (TransactionOp::Insert(na), TransactionOp::Insert(nb)) => {
                assert_eq!(na.key, nb.key);
                assert_eq!(na.fields, nb.fields);
            },
            _ => panic!("the two streams diverged in operation kind"),
        }
    }
}

#[test]
fn messages_are_exactly_as_specified() {
    let e = BenchError::UnknownPhase { name: "scan_only".to_string() };
    assert_eq!(e.message().as_str(), "unknown phase: scan_only");
    let e = BenchError::Backend {
        op: "read".to_string(),
        table: "usertable".to_string(),
        key: "user3".to_string(),
    };
    assert_eq!(e.message().as_str(), "backend error during read on table usertable key user3");
    let e = BenchError::Config { detail: "record_count must be positive".to_string() };
    assert_eq!(e.message().as_str(), "configuration error: record_count must be positive");
    let e = BenchError::Generator { detail: "uniform bound must be positive".to_string() };
    assert_eq!(
        e.message().as_str(),
        "generator construction error: uniform bound must be positive"
    );
}

#[test]
fn backend_error_names_operation_table_and_key() {
    let e = BenchError::Backend {
        op: "insert".to_string(),
        table: "usertable".to_string(),
        key: "user7".to_string(),
    };
    let m = e.message();
    assert!(m.contains("insert"));
    assert!(m.contains("usertable"));
    assert!(m.contains("user7"));
}

#[test]
fn error_messages_name_the_parameter() {
    let p = props(500_000, 300_000, 100_000, 0, "zipfian");
    match WorkloadConfig::from_properties(&p) {
        Err(e) => assert!(e.message().contains("proportions")),
        Ok(_) => panic!("invalid proportions accepted"),
    }
    match parse_phase("scan_only") {
        Err(e) => assert!(e.message().contains("scan_only")),
        Ok(_) => panic!("unknown phase accepted"),
    }
}
