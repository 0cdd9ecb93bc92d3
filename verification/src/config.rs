//! The workload configuration: the externally supplied properties document
//! and its validated form.
//!
//! Proportions are held in parts per million, so that "the proportions sum
//! to 1.0" is the exact integer statement "the parts sum to 1,000,000".
//! Validation is all-or-nothing: an invalid document is rejected with a
//! configuration error before any phase runs, never silently renormalized.

use vstd::prelude::*;
use crate::errors::BenchError;
use crate::text::{str_eq, u64_to_dec_string};
use crate::zipfian::{ZIPF_ITEMS_MAX, THETA_MILLI_MAX};
use vstd::string::StringExecFns;

verus! {

/// One whole of operation-mix proportion: 1.0 as parts per million.
pub const PROPORTION_SCALE: u64 = 1_000_000;

/// The recognized keys of the configuration document, as plain values. The
/// surrounding binary parses the document and converts each proportion to
/// parts per million; the skew exponent is its own default when the
/// document leaves it unset.
pub struct Properties {
    /// Total operations of the run phase.
    pub operation_count: u64,
    /// Records loaded by the load phase and addressed by transactions.
    pub record_count: u64,
    /// Fields per record.
    pub field_count: u64,
    /// Characters per field value.
    pub field_length: u64,
    /// Proportion of read operations, in parts per million.
    pub read_proportion_ppm: u64,
    /// Proportion of update operations, in parts per million.
    pub update_proportion_ppm: u64,
    /// Proportion of insert operations, in parts per million.
    pub insert_proportion_ppm: u64,
    /// Proportion of scan operations, in parts per million.
    pub scan_proportion_ppm: u64,
    /// Key-selection distribution name: `uniform`, `zipfian` or `sequential`.
    pub request_distribution: String,
    /// Zipfian skew exponent, in thousandths.
    pub zipfian_theta_milli: u64,
}

/// The key-selection distribution kinds.
#[derive(Clone, Copy, PartialEq, Eq, Structural, Debug)]
pub enum KeyDistribution {
    Uniform,
    Zipfian,
    Sequential,
}

impl Properties {
    /// Total of the four operation-mix proportions.
    pub open spec fn proportions_sum(&self) -> int {
        self.read_proportion_ppm + self.update_proportion_ppm + self.insert_proportion_ppm
            + self.scan_proportion_ppm
    }

    /// The distribution name is one of the recognized set.
    pub open spec fn distribution_recognized(&self) -> bool {
        ||| self.request_distribution@ == "uniform"@
        ||| self.request_distribution@ == "zipfian"@
        ||| self.request_distribution@ == "sequential"@
    }

    /// The document is accepted: proportions sum to exactly one, no scan
    /// proportion (the backend interface has no scan operation, so a scan
    /// share would silently go nowhere), a nonempty record space within the
    /// supported size, a supported skew exponent, and a recognized
    /// distribution name.
    pub open spec fn valid(&self) -> bool {
        &&& self.proportions_sum() == PROPORTION_SCALE
        &&& self.scan_proportion_ppm == 0
        &&& 1 <= self.record_count <= ZIPF_ITEMS_MAX
        &&& self.zipfian_theta_milli <= THETA_MILLI_MAX
        &&& self.distribution_recognized()
    }
}

/// A validated workload configuration; immutable once constructed and
/// shared read-only by every worker.
pub struct WorkloadConfig {
    /// Total operations of the run phase.
    pub operation_count: u64,
    /// Records loaded and addressed.
    pub record_count: u64,
    /// Fields per record.
    pub field_count: u64,
    /// Characters per field value.
    pub field_length: u64,
    /// Read share, parts per million.
    pub read_ppm: u64,
    /// Update share, parts per million.
    pub update_ppm: u64,
    /// Insert share, parts per million.
    pub insert_ppm: u64,
    /// Scan share, parts per million; always zero in a valid configuration.
    pub scan_ppm: u64,
    /// The key-selection distribution.
    pub distribution: KeyDistribution,
    /// Zipfian skew exponent, thousandths.
    pub theta_milli: u64,
}

impl WorkloadConfig {
    /// What validation established.
    pub open spec fn wf(&self) -> bool {
        &&& self.read_ppm + self.update_ppm + self.insert_ppm + self.scan_ppm == PROPORTION_SCALE
        &&& self.scan_ppm == 0
        &&& 1 <= self.record_count <= ZIPF_ITEMS_MAX
        &&& self.theta_milli <= THETA_MILLI_MAX
    }

    /// The configuration carries exactly the document's values.
    pub open spec fn corresponds(&self, p: &Properties) -> bool {
        &&& self.operation_count == p.operation_count
        &&& self.record_count == p.record_count
        &&& self.field_count == p.field_count
        &&& self.field_length == p.field_length
        &&& self.read_ppm == p.read_proportion_ppm
        &&& self.update_ppm == p.update_proportion_ppm
        &&& self.insert_ppm == p.insert_proportion_ppm
        &&& self.scan_ppm == p.scan_proportion_ppm
        &&& self.theta_milli == p.zipfian_theta_milli
        &&& (self.distribution == KeyDistribution::Uniform <==> p.request_distribution@
            == "uniform"@)
        &&& (self.distribution == KeyDistribution::Zipfian <==> p.request_distribution@
            == "zipfian"@)
        &&& (self.distribution == KeyDistribution::Sequential <==> p.request_distribution@
            == "sequential"@)
    }

    /// Validates the document: accepted exactly when it is valid, rejected
    /// with a configuration error naming the offending parameter otherwise.
    pub fn from_properties(p: &Properties) -> (r: Result<WorkloadConfig, BenchError>)
        ensures
            match r {
                Ok(c) => p.valid() && c.wf() && c.corresponds(p),
                Err(e) => e.is_config() && !p.valid(),
            },
    {
        proof {
            reveal_strlit("uniform");
            reveal_strlit("zipfian");
            reveal_strlit("sequential");
            assert("uniform"@ != "zipfian"@) by {
                assert("uniform"@[0] == 'u' && "zipfian"@[0] == 'z');
            }
            assert("uniform"@ != "sequential"@) by {
                assert("uniform"@[0] == 'u' && "sequential"@[0] == 's');
            }
            assert("zipfian"@ != "sequential"@) by {
                assert("zipfian"@[0] == 'z' && "sequential"@[0] == 's');
            }
        }
        let sum: u128 = p.read_proportion_ppm as u128 + p.update_proportion_ppm as u128
            + p.insert_proportion_ppm as u128 + p.scan_proportion_ppm as u128;
        if sum != PROPORTION_SCALE as u128 {
            return Err(BenchError::Config {
                detail: "operation-mix proportions must sum to exactly one".to_owned(),
            });
        }
        if p.scan_proportion_ppm != 0 {
            return Err(BenchError::Config {
                detail: "scan proportion must be zero: the backend interface has no scan"
                    .to_owned(),
            });
        }
        if p.record_count == 0 {
            return Err(BenchError::Config {
                detail: "record_count must be positive".to_owned(),
            });
        }
        if p.record_count > ZIPF_ITEMS_MAX {
            let mut detail = String::from_str("record_count beyond supported size: ");
            let value = u64_to_dec_string(p.record_count);
            detail.append(value.as_str());
            return Err(BenchError::Config { detail });
        }
        if p.zipfian_theta_milli > THETA_MILLI_MAX {
            let mut detail = String::from_str("zipfian exponent beyond supported range: ");
            let value = u64_to_dec_string(p.zipfian_theta_milli);
            detail.append(value.as_str());
            return Err(BenchError::Config { detail });
        }
        let distribution: KeyDistribution = if str_eq(p.request_distribution.as_str(), "uniform") {
            KeyDistribution::Uniform
        } else if str_eq(p.request_distribution.as_str(), "zipfian") {
            KeyDistribution::Zipfian
        } else if str_eq(p.request_distribution.as_str(), "sequential") {
            KeyDistribution::Sequential
        } else {
            let mut detail = String::from_str("unrecognized request_distribution: ");
            detail.append(p.request_distribution.as_str());
            return Err(BenchError::Config { detail });
        };
        Ok(WorkloadConfig {
            operation_count: p.operation_count,
            record_count: p.record_count,
            field_count: p.field_count,
            field_length: p.field_length,
            read_ppm: p.read_proportion_ppm,
            update_ppm: p.update_proportion_ppm,
            insert_ppm: p.insert_proportion_ppm,
            scan_ppm: p.scan_proportion_ppm,
            distribution,
            theta_milli: p.zipfian_theta_milli,
        })
    }
}

} // verus!
