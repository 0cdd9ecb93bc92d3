//! Error kinds of the benchmark core.
//!
//! Configuration and generator-construction failures are fatal before any
//! phase runs; a backend failure is fatal to the in-flight phase; an unknown
//! phase name is rejected before any worker is spawned.

use vstd::prelude::*;
use vstd::string::StringExecFns;

verus! {

/// One error kind for every way a run can fail.
#[derive(Debug)]
pub enum BenchError {
    /// An invalid or missing configuration value; fatal at startup.
    Config { detail: String },
    /// Invalid distribution parameters at generator construction; fatal at startup.
    Generator { detail: String },
    /// A failure reported by the backend during init, insert or read;
    /// fatal to the in-flight phase. Carries the originating operation,
    /// table and key.
    Backend { op: String, table: String, key: String },
    /// A requested phase name outside the recognized set; fatal at dispatch
    /// time, before workers are spawned.
    UnknownPhase { name: String },
}

impl BenchError {
    /// True of configuration errors.
    pub open spec fn is_config(&self) -> bool {
        self is Config
    }

    /// True of generator-construction errors.
    pub open spec fn is_generator(&self) -> bool {
        self is Generator
    }

    /// True of backend errors.
    pub open spec fn is_backend(&self) -> bool {
        self is Backend
    }

    /// True of unknown-phase errors.
    pub open spec fn is_unknown_phase(&self) -> bool {
        self is UnknownPhase
    }

    /// What the one-line description says, per kind: a fixed heading, then
    /// the offending detail — for a backend failure the originating
    /// operation, table and key.
    pub open spec fn message_chars(&self) -> Seq<char> {
        match self {
            BenchError::Config { detail } => "configuration error: "@ + detail@,
            BenchError::Generator { detail } => "generator construction error: "@ + detail@,
            BenchError::Backend { op, table, key } => "backend error during "@ + op@
                + " on table "@ + table@ + " key "@ + key@,
            BenchError::UnknownPhase { name } => "unknown phase: "@ + name@,
        }
    }

    /// A one-line description, naming the offending parameter or operation:
    /// exactly `message_chars`.
    pub fn message(&self) -> (m: String)
        ensures
            m@ == self.message_chars(),
    {
        let mut m = String::new();
        match self {
            BenchError::Config { detail } => {
                m.append("configuration error: ");
                m.append(detail.as_str());
                proof {
                    assert(m@ =~= self.message_chars());
                }
            },
            BenchError::Generator { detail } => {
                m.append("generator construction error: ");
                m.append(detail.as_str());
                proof {
                    assert(m@ =~= self.message_chars());
                }
            },
            BenchError::Backend { op, table, key } => {
                m.append("backend error during ");
                m.append(op.as_str());
                m.append(" on table ");
                m.append(table.as_str());
                m.append(" key ");
                m.append(key.as_str());
                proof {
                    assert(m@ =~= self.message_chars());
                }
            },
            BenchError::UnknownPhase { name } => {
                m.append("unknown phase: ");
                m.append(name.as_str());
                proof {
                    assert(m@ =~= self.message_chars());
                }
            },
        }
        m
    }
}

} // verus!
