//! The planning and accounting half of the execution harness.
//!
//! The harness proper — spawning workers, timing, joining — lives in the
//! surrounding binary. This module decides everything that can be decided
//! from plain values: which phases run and in what order, how the operation
//! budget splits across workers, and what each phase reports afterwards.
//! Unknown phase names are rejected here, before any worker is spawned; a
//! worker that meets a backend error aborts its phase and the run.

use vstd::prelude::*;
use crate::errors::BenchError;
use crate::generator::lemma_worker_split;
use crate::text::str_eq;

verus! {

/// The recognized phases.
#[derive(Clone, Copy, PartialEq, Eq, Structural, Debug)]
pub enum PhaseKind {
    /// Loads the dataset: every operation is one insert.
    Load,
    /// Replays the operation mix: every operation is one transaction.
    Run,
}

/// The work order of one phase: `workers` concurrent workers, each
/// performing `ops_per_worker` operations. The remainder of an uneven
/// split is deliberately truncated, not distributed.
pub struct PhasePlan {
    /// What each worker does.
    pub kind: PhaseKind,
    /// How many workers run concurrently.
    pub workers: u64,
    /// Operations per worker: the budget divided by the worker count,
    /// rounded down.
    pub ops_per_worker: u64,
    /// The requested budget, before truncation; throughput reports use it.
    pub total_requested: u64,
}

/// What one finished phase reports.
pub struct PhaseResult {
    /// How many workers ran.
    pub workers: u64,
    /// Wall-clock time of the phase, milliseconds.
    pub elapsed_millis: u64,
    /// Operations actually performed: `workers * ops_per_worker`.
    pub attempted_ops: u64,
    /// Throughput in thousandths of an operation per second, computed from
    /// the requested budget — an intentional choice that slightly
    /// under-reports when the budget does not divide evenly.
    pub throughput_milli_ops: u64,
}

/// Throughput in thousandths of an operation per second: the requested
/// budget over the elapsed seconds, saturating at the type's ceiling.
pub open spec fn throughput_milli_spec(ops: int, elapsed_millis: int) -> int {
    let t = ops * 1_000_000 / elapsed_millis;
    if t > u64::MAX {
        u64::MAX as int
    } else {
        t
    }
}

/// Recognizes a phase name; any other name is an unknown-phase error.
pub fn parse_phase(name: &str) -> (r: Result<PhaseKind, BenchError>)
    ensures
        match r {
            Ok(k) => {
                &&& (k == PhaseKind::Load <==> name@ == "load"@)
                &&& (k == PhaseKind::Run <==> name@ == "run"@)
            },
            Err(e) => e.is_unknown_phase() && name@ != "load"@ && name@ != "run"@,
        },
{
    proof {
        reveal_strlit("load");
        reveal_strlit("run");
        assert("load"@ != "run"@) by {
            assert("load"@.len() == 4 && "run"@.len() == 3);
        }
    }
    if str_eq(name, "load") {
        Ok(PhaseKind::Load)
    } else if str_eq(name, "run") {
        Ok(PhaseKind::Run)
    } else {
        Err(BenchError::UnknownPhase { name: name.to_owned() })
    }
}

/// Plans one phase: recognizes the name and splits the budget, truncating
/// the remainder of an uneven split.
pub fn plan_phase(name: &str, operation_count: u64, workers: u64) -> (r: Result<
    PhasePlan,
    BenchError,
>)
    ensures
        match r {
            Ok(p) => {
                &&& workers >= 1
                &&& (p.kind == PhaseKind::Load <==> name@ == "load"@)
                &&& (p.kind == PhaseKind::Run <==> name@ == "run"@)
                &&& p.workers == workers
                &&& p.total_requested == operation_count
                &&& p.ops_per_worker == operation_count / workers
            },
            Err(e) => {
                ||| e.is_config() && workers == 0
                ||| e.is_unknown_phase() && name@ != "load"@ && name@ != "run"@
            },
        },
{
    if workers == 0 {
        return Err(BenchError::Config { detail: "worker count must be positive".to_owned() });
    }
    let kind = match parse_phase(name) {
        Ok(k) => k,
        Err(e) => {
            return Err(e);
        },
    };
    Ok(PhasePlan { kind, workers, ops_per_worker: operation_count / workers, total_requested: operation_count })
}

/// Plans a whole run: one plan per phase name, in the given order. Fails
/// fast — before any worker is spawned — when no phase is named, the
/// worker count is zero, or any name is unrecognized.
pub fn plan_phases(names: &Vec<String>, operation_count: u64, workers: u64) -> (r: Result<
    Vec<PhasePlan>,
    BenchError,
>)
    ensures
        match r {
            Ok(plans) => {
                &&& names@.len() >= 1
                &&& workers >= 1
                &&& plans@.len() == names@.len()
                &&& forall|i: int|
                    0 <= i < names@.len() ==> ((#[trigger] plans@[i]).kind == PhaseKind::Load
                        <==> names@[i]@ == "load"@)
                &&& forall|i: int|
                    0 <= i < names@.len() ==> ((#[trigger] plans@[i]).kind == PhaseKind::Run
                        <==> names@[i]@ == "run"@)
                &&& forall|i: int|
                    0 <= i < names@.len() ==> (#[trigger] plans@[i]).workers == workers
                        && plans@[i].total_requested == operation_count && plans@[i].ops_per_worker
                        == operation_count / workers
            },
            Err(e) => {
                ||| e.is_config() && (names@.len() == 0 || workers == 0)
                ||| e.is_unknown_phase() && exists|i: int|
                    0 <= i < names@.len() && (#[trigger] names@[i])@ != "load"@ && names@[i]@
                        != "run"@
            },
        },
{
    if names.len() == 0 {
        return Err(BenchError::Config { detail: "no phase specified".to_owned() });
    }
    let mut plans: Vec<PhasePlan> = Vec::new();
    let mut i: usize = 0;
    while i < names.len()
        invariant
            0 <= i <= names@.len(),
            names@.len() >= 1,
            plans@.len() == i,
            workers >= 1 || i == 0,
            i > 0 ==> workers >= 1,
            forall|j: int|
                0 <= j < i ==> ((#[trigger] plans@[j]).kind == PhaseKind::Load <==> names@[j]@
                    == "load"@),
            forall|j: int|
                0 <= j < i ==> ((#[trigger] plans@[j]).kind == PhaseKind::Run <==> names@[j]@
                    == "run"@),
            forall|j: int|
                0 <= j < i ==> (#[trigger] plans@[j]).workers == workers && plans@[j].total_requested
                    == operation_count && plans@[j].ops_per_worker == operation_count / workers,
        decreases names@.len() - i,
    {
        let plan = match plan_phase(names[i].as_str(), operation_count, workers) {
            Ok(p) => p,
            Err(e) => {
                return Err(e);
            },
        };
        plans.push(plan);
        i = i + 1;
    }
    Ok(plans)
}

/// Accounts one finished phase: the operations actually performed under
/// the truncating split, and the throughput computed from the requested
/// budget and the measured elapsed time.
pub fn phase_result(plan: &PhasePlan, elapsed_millis: u64) -> (r: PhaseResult)
    requires
        elapsed_millis >= 1,
        plan.workers >= 1,
        plan.ops_per_worker == plan.total_requested / plan.workers,
    ensures
        r.workers == plan.workers,
        r.elapsed_millis == elapsed_millis,
        r.attempted_ops == plan.workers * plan.ops_per_worker,
        r.attempted_ops <= plan.total_requested,
        plan.total_requested % plan.workers == 0 ==> r.attempted_ops == plan.total_requested,
        r.throughput_milli_ops == throughput_milli_spec(
            plan.total_requested as int,
            elapsed_millis as int,
        ),
{
    proof {
        lemma_worker_split(plan.total_requested, plan.workers);
    }
    let attempted: u64 = plan.workers * plan.ops_per_worker;
    let t128: u128 = plan.total_requested as u128 * 1_000_000 / (elapsed_millis as u128);
    let throughput: u64 = if t128 > u64::MAX as u128 {
        u64::MAX
    } else {
        t128 as u64
    };
    PhaseResult {
        workers: plan.workers,
        elapsed_millis,
        attempted_ops: attempted,
        throughput_milli_ops: throughput,
    }
}

} // verus!
