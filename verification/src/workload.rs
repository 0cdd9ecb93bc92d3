//! The workload engine: turns the validated configuration into one concrete
//! backend operation per call.
//!
//! Each call synthesizes exactly one insert or one transaction as plain
//! values — the table, key and fields the backend is to receive — and the
//! surrounding binary performs the actual call, so a backend failure
//! propagates there, never here. Insert keys come from the shared counter
//! and are globally unique; transaction keys come from the configured
//! key-selection distribution, bounded to the record count.

use vstd::prelude::*;
use crate::config::{KeyDistribution, WorkloadConfig, PROPORTION_SCALE};
use crate::errors::BenchError;
use crate::generator::{Counter, OpKind, Uniform, WeightedDiscrete, selects, sum_weights};
use crate::rng::{stream_mix, stream_step, RandomStream};
use crate::text::{
    field_name, field_name_chars, gen_value, key_chars, key_name, lemma_stream_state_compose,
    stream_state_after, table_chars, table_name, value_chars,
};
use crate::zipfian::{identity_perm, shuffle_from, zipf_bracket, ScrambledZipfian};
use vstd::pervasive::unreached;

verus! {

/// One upsert-style insert call for the backend: replaces any existing
/// record under the same key.
pub struct BackendInsert {
    /// The table addressed.
    pub table: String,
    /// The record key.
    pub key: String,
    /// Field names and values of the record.
    pub fields: Vec<(String, String)>,
}

/// One read call for the backend, asking for all fields of the record.
pub struct BackendRead {
    /// The table addressed.
    pub table: String,
    /// The record key.
    pub key: String,
}

/// One sampled transaction. Updates re-synthesize field values and go to
/// the same upsert-style insert call as inserts; the distinct variant keeps
/// the sampled operation kind visible.
pub enum TransactionOp {
    Read(BackendRead),
    Insert(BackendInsert),
    Update(BackendInsert),
}

/// The fields of a synthesized record: `field_count` entries, the `j`-th
/// named `field<j>`, each value `field_length` characters long.
pub open spec fn record_wf(fields: Seq<(String, String)>, field_count: int, field_length: int) -> bool {
    &&& fields.len() == field_count
    &&& forall|j: int| 0 <= j < field_count ==> (#[trigger] fields[j].0)@ == field_name_chars(j)
    &&& forall|j: int| 0 <= j < field_count ==> (#[trigger] fields[j].1)@.len() == field_length
}

/// The record's values are exactly what the value stream at state `s`
/// synthesizes: the `j`-th value reads off the stream after `j` earlier
/// values' draws.
pub open spec fn record_values_from(
    fields: Seq<(String, String)>,
    s: u64,
    field_count: int,
    field_length: int,
) -> bool {
    forall|j: int|
        0 <= j < field_count ==> (#[trigger] fields[j].1)@ == value_chars(
            stream_state_after(s, (j * field_length) as nat),
            field_length as nat,
        )
}

/// A well-shaped insert under configuration `c`: the fixed table, a key of
/// the record space, and a full record of fields.
pub open spec fn insert_shape(ins: BackendInsert, c: WorkloadConfig) -> bool {
    &&& ins.table@ == table_chars()
    &&& exists|key: int| 0 <= key < c.record_count && ins.key@ == #[trigger] key_chars(key)
    &&& record_wf(ins.fields@, c.field_count as int, c.field_length as int)
}

/// Synthesizes one record's fields from the value stream.
fn build_record(rng: &mut RandomStream, field_count: u64, field_length: u64) -> (fields: Vec<
    (String, String),
>)
    ensures
        record_wf(fields@, field_count as int, field_length as int),
        record_values_from(fields@, old(rng).state, field_count as int, field_length as int),
        final(rng).state == stream_state_after(
            old(rng).state,
            (field_count * field_length) as nat,
        ),
{
    let mut fields: Vec<(String, String)> = Vec::new();
    let mut j: u64 = 0;
    while j < field_count
        invariant
            j <= field_count,
            fields@.len() == j,
            rng.state == stream_state_after(old(rng).state, (j * field_length) as nat),
            forall|t: int| 0 <= t < j ==> (#[trigger] fields@[t].0)@ == field_name_chars(t),
            forall|t: int| 0 <= t < j ==> (#[trigger] fields@[t].1)@.len() == field_length,
            record_values_from(fields@, old(rng).state, j as int, field_length as int),
        decreases field_count - j,
    {
        let name = field_name(j);
        proof {
            assert(j * field_length >= 0) by (nonlinear_arith)
                requires j >= 0, field_length >= 0;
        }
        let value = gen_value(rng, field_length);
        proof {
            lemma_stream_state_compose(
                old(rng).state,
                (j * field_length) as nat,
                field_length as nat,
            );
            assert((j + 1) * field_length == j * field_length + field_length) by (nonlinear_arith);
        }
        fields.push((name, value));
        j = j + 1;
    }
    fields
}

/// The key string a transaction addresses.
pub open spec fn transaction_key_chars(op: TransactionOp) -> Seq<char> {
    match op {
        TransactionOp::Read(r) => r.key@,
        TransactionOp::Insert(ins) => ins.key@,
        TransactionOp::Update(ins) => ins.key@,
    }
}

/// A transaction's synthesized record reads off the engine's value stream:
/// the values are exactly the stream's synthesis from its old state, and
/// the stream ends exactly one record later.
pub open spec fn transaction_record_pinned(
    ins: BackendInsert,
    pre: CoreWorkload,
    post: CoreWorkload,
) -> bool {
    &&& record_values_from(
        ins.fields@,
        pre.value_rng.state,
        pre.config.field_count as int,
        pre.config.field_length as int,
    )
    &&& post.value_rng.state == stream_state_after(
        pre.value_rng.state,
        (pre.config.field_count * pre.config.field_length) as nat,
    )
}

/// The configured key-selection distribution over the record space.
pub enum KeyChooser {
    Uniform(Uniform),
    Scrambled(ScrambledZipfian),
    Sequential(Counter),
}

impl KeyChooser {
    /// The chooser is well-formed over a record space of `record_count`.
    pub open spec fn wf(&self, record_count: u64) -> bool {
        match self {
            KeyChooser::Uniform(u) => u.wf() && u.bound == record_count,
            KeyChooser::Scrambled(z) => z.wf() && z.items() == record_count,
            KeyChooser::Sequential(c) => c.wf(),
        }
    }

    /// The chooser can draw once more.
    pub open spec fn can_draw(&self) -> bool {
        match self {
            KeyChooser::Sequential(c) => c.next_value < u64::MAX,
            _ => true,
        }
    }

    /// Draws the next target key, always within the record space; which
    /// key is a function of the chooser's state alone.
    pub fn next_key(&mut self, record_count: u64) -> (k: u64)
        requires
            old(self).wf(record_count),
            old(self).can_draw(),
            record_count >= 1,
        ensures
            final(self).wf(record_count),
            final(self).can_draw() || *final(self) is Sequential,
            (*final(self) is Uniform) == (*old(self) is Uniform),
            (*final(self) is Scrambled) == (*old(self) is Scrambled),
            (*final(self) is Sequential) == (*old(self) is Sequential),
            k < record_count,
            *old(self) is Uniform ==> {
                &&& final(self)->Uniform_0.rng.state == stream_step(
                    old(self)->Uniform_0.rng.state,
                )
                &&& k == stream_mix(final(self)->Uniform_0.rng.state) % record_count
            },
            *old(self) is Sequential ==> {
                &&& final(self)->Sequential_0.start == old(self)->Sequential_0.start
                &&& final(self)->Sequential_0.next_value == old(self)->Sequential_0.next_value
                    + 1
                &&& k == old(self)->Sequential_0.next_value % record_count
            },
            *old(self) is Scrambled ==> {
                &&& final(self)->Scrambled_0.perm@ == old(self)->Scrambled_0.perm@
                &&& final(self)->Scrambled_0.zipf.cum@ == old(self)->Scrambled_0.zipf.cum@
                &&& final(self)->Scrambled_0.zipf.rng.state == stream_step(
                    old(self)->Scrambled_0.zipf.rng.state,
                )
                &&& exists|r: int|
                    zipf_bracket(
                        old(self)->Scrambled_0.zipf.cum@,
                        old(self)->Scrambled_0.zipf.items as int,
                        stream_mix(final(self)->Scrambled_0.zipf.rng.state)
                            % old(self)->Scrambled_0.zipf.total(),
                        r,
                    ) && k == old(self)->Scrambled_0.perm@[r]
            },
    {
        match self {
            KeyChooser::Uniform(u) => u.next(),
            KeyChooser::Scrambled(z) => z.next(),
            KeyChooser::Sequential(c) => {
                let v = c.next();
                v % record_count
            },
        }
    }
}

/// The workload engine: owns the generators and the validated
/// configuration, and synthesizes one operation per call.
pub struct CoreWorkload {
    /// The validated configuration, never mutated.
    pub config: WorkloadConfig,
    /// Source of globally unique insert keys.
    pub key_counter: Counter,
    /// The configured key-selection distribution.
    pub key_chooser: KeyChooser,
    /// Chooses the kind of each transaction.
    pub op_chooser: WeightedDiscrete,
    /// Source of synthesized field values.
    pub value_rng: RandomStream,
}

impl CoreWorkload {
    /// The operation-mix chooser carries exactly the configured shares, in
    /// the fixed order read, update, insert, scan.
    pub open spec fn mix_wf(&self) -> bool {
        &&& self.op_chooser.wf()
        &&& self.op_chooser.kinds@ =~= seq![OpKind::Read, OpKind::Update, OpKind::Insert, OpKind::Scan]
        &&& self.op_chooser.cum@[0] == 0
        &&& self.op_chooser.cum@[1] == self.config.read_ppm
        &&& self.op_chooser.cum@[2] == self.config.read_ppm + self.config.update_ppm
        &&& self.op_chooser.cum@[3] == self.config.read_ppm + self.config.update_ppm
            + self.config.insert_ppm
        &&& self.op_chooser.cum@[4] == PROPORTION_SCALE
    }

    /// Construction established the configuration and every generator.
    pub open spec fn wf(&self) -> bool {
        &&& self.config.wf()
        &&& self.key_counter.wf()
        &&& self.key_counter.start == 0
        &&& self.key_chooser.wf(self.config.record_count)
        &&& match self.key_chooser {
            KeyChooser::Uniform(_) => self.config.distribution == KeyDistribution::Uniform,
            KeyChooser::Scrambled(_) => self.config.distribution == KeyDistribution::Zipfian,
            KeyChooser::Sequential(_) => self.config.distribution == KeyDistribution::Sequential,
        }
        &&& self.mix_wf()
    }

    /// The insert-key counter has room for one more key.
    pub open spec fn can_insert(&self) -> bool {
        self.key_counter.next_value < u64::MAX
    }

    /// The key chooser can draw one more target key.
    pub open spec fn can_transact(&self) -> bool {
        self.key_chooser.can_draw()
    }

    /// A workload over a validated configuration. Every generator's
    /// starting state is pinned to the seed, so equal seeds give equal
    /// operation streams.
    pub fn new(config: WorkloadConfig, seed: u64) -> (w: CoreWorkload)
        requires
            config.wf(),
        ensures
            w.wf(),
            w.config == config,
            w.key_counter.issued() == 0,
            w.key_counter.start == 0,
            w.key_counter.next_value == 0,
            w.can_insert(),
            w.can_transact(),
            w.value_rng.state == seed ^ 0x38ECCD4D,
            w.op_chooser.rng.state == seed ^ 0xB5026F5A,
            config.distribution == KeyDistribution::Uniform ==> {
                &&& w.key_chooser is Uniform
                &&& w.key_chooser->Uniform_0.rng.state == seed ^ 0x9D2C5680
            },
            config.distribution == KeyDistribution::Zipfian ==> {
                &&& w.key_chooser is Scrambled
                &&& w.key_chooser->Scrambled_0.zipf.rng.state == seed ^ 0xEFC60000
                &&& w.key_chooser->Scrambled_0.perm@ == shuffle_from(
                    identity_perm(config.record_count as nat),
                    (seed ^ 0xEFC60000) ^ 0x5DEECE66D,
                    (config.record_count - 1) as nat,
                )
            },
            config.distribution == KeyDistribution::Sequential ==> {
                &&& w.key_chooser is Sequential
                &&& w.key_chooser->Sequential_0.start == 0
                &&& w.key_chooser->Sequential_0.next_value == 0
            },
    {
        let key_chooser: KeyChooser = match config.distribution {
            KeyDistribution::Uniform => {
                match Uniform::new(config.record_count, seed ^ 0x9D2C5680) {
                    Ok(u) => KeyChooser::Uniform(u),
                    Err(_) => unreached(),
                }
            },
            KeyDistribution::Zipfian => {
                match ScrambledZipfian::new(config.record_count, config.theta_milli, seed
                    ^ 0xEFC60000) {
                    Ok(z) => KeyChooser::Scrambled(z),
                    Err(_) => unreached(),
                }
            },
            KeyDistribution::Sequential => KeyChooser::Sequential(Counter::new(0)),
        };
        let mut entries: Vec<(OpKind, u64)> = Vec::new();
        entries.push((OpKind::Read, config.read_ppm));
        entries.push((OpKind::Update, config.update_ppm));
        entries.push((OpKind::Insert, config.insert_ppm));
        entries.push((OpKind::Scan, config.scan_ppm));
        proof {
            let s = entries@;
            let s3 = s.drop_last();
            let s2 = s3.drop_last();
            let s1 = s2.drop_last();
            let s0 = s1.drop_last();
            assert(s0.len() == 0);
            assert(sum_weights(s0) == 0);
            assert(sum_weights(s1) == config.read_ppm);
            assert(sum_weights(s2) == config.read_ppm + config.update_ppm);
            assert(sum_weights(s3) == config.read_ppm + config.update_ppm + config.insert_ppm);
            assert(sum_weights(s) == PROPORTION_SCALE);
        }
        let op_chooser: WeightedDiscrete = match WeightedDiscrete::new(&entries, seed
            ^ 0xB5026F5A) {
            Ok(g) => g,
            Err(_) => unreached(),
        };
        CoreWorkload {
            config,
            key_counter: Counter::new(0),
            key_chooser,
            op_chooser,
            value_rng: RandomStream::new(seed ^ 0x38ECCD4D),
        }
    }

    /// Synthesizes the next load-phase insert: the key is the counter's
    /// next value — globally unique across all inserts — and the record is
    /// a fresh `field_count` by `field_length` synthesis.
    pub fn next_insert(&mut self) -> (op: BackendInsert)
        requires
            old(self).wf(),
            old(self).can_insert(),
        ensures
            final(self).wf(),
            final(self).config == old(self).config,
            final(self).key_counter.start == 0,
            final(self).key_counter.next_value == old(self).key_counter.next_value + 1,
            final(self).key_chooser == old(self).key_chooser,
            final(self).op_chooser == old(self).op_chooser,
            op.table@ == table_chars(),
            op.key@ == key_chars(old(self).key_counter.next_value as int),
            record_wf(op.fields@, old(self).config.field_count as int, old(self).config.field_length as int),
            record_values_from(
                op.fields@,
                old(self).value_rng.state,
                old(self).config.field_count as int,
                old(self).config.field_length as int,
            ),
            final(self).value_rng.state == stream_state_after(
                old(self).value_rng.state,
                (old(self).config.field_count * old(self).config.field_length) as nat,
            ),
    {
        let k = self.key_counter.next();
        let key = key_name(k);
        let table = table_name();
        let fields = build_record(&mut self.value_rng, self.config.field_count, self.config.field_length);
        BackendInsert { table, key, fields }
    }

    /// Samples the next run-phase transaction. The operation kind follows
    /// the configured mix exactly — the draw `u` falls in the kind's share
    /// of `[0, PROPORTION_SCALE)`, so a zero-share kind is never issued and
    /// scan, whose share a valid configuration keeps at zero, never appears.
    /// The target key, the synthesized record and the final generator
    /// states are all functions of the old state, so two engines in equal
    /// states issue equal operation sequences: the access pattern is
    /// reproducible.
    pub fn next_transaction(&mut self) -> (op: TransactionOp)
        requires
            old(self).wf(),
            old(self).can_transact(),
        ensures
            final(self).wf(),
            final(self).config == old(self).config,
            final(self).key_counter == old(self).key_counter,
            final(self).op_chooser.kinds@ == old(self).op_chooser.kinds@,
            final(self).op_chooser.cum@ == old(self).op_chooser.cum@,
            final(self).op_chooser.rng.state == stream_step(old(self).op_chooser.rng.state),
            ({
                let u = stream_mix(stream_step(old(self).op_chooser.rng.state)) % PROPORTION_SCALE;
                match op {
                    TransactionOp::Read(r) => {
                        &&& u < old(self).config.read_ppm
                        &&& r.table@ == table_chars()
                        &&& exists|key: int|
                            0 <= key < old(self).config.record_count && r.key@ == #[trigger] key_chars(key)
                        &&& final(self).value_rng == old(self).value_rng
                    },
                    TransactionOp::Update(ins) => {
                        &&& old(self).config.read_ppm <= u
                        &&& u < old(self).config.read_ppm + old(self).config.update_ppm
                        &&& insert_shape(ins, old(self).config)
                        &&& transaction_record_pinned(ins, *old(self), *final(self))
                    },
                    TransactionOp::Insert(ins) => {
                        &&& old(self).config.read_ppm + old(self).config.update_ppm <= u
                        &&& u < old(self).config.read_ppm + old(self).config.update_ppm
                            + old(self).config.insert_ppm
                        &&& insert_shape(ins, old(self).config)
                        &&& transaction_record_pinned(ins, *old(self), *final(self))
                    },
                }
            }),
            old(self).key_chooser is Uniform ==> {
                &&& final(self).key_chooser is Uniform
                &&& final(self).key_chooser->Uniform_0.bound == old(
                    self,
                ).key_chooser->Uniform_0.bound
                &&& final(self).key_chooser->Uniform_0.rng.state == stream_step(
                    old(self).key_chooser->Uniform_0.rng.state,
                )
                &&& transaction_key_chars(op) == key_chars(
                    (stream_mix(final(self).key_chooser->Uniform_0.rng.state) % old(
                        self,
                    ).config.record_count) as int,
                )
            },
            old(self).key_chooser is Sequential ==> {
                &&& final(self).key_chooser is Sequential
                &&& final(self).key_chooser->Sequential_0.start == old(
                    self,
                ).key_chooser->Sequential_0.start
                &&& final(self).key_chooser->Sequential_0.next_value == old(
                    self,
                ).key_chooser->Sequential_0.next_value + 1
                &&& transaction_key_chars(op) == key_chars(
                    (old(self).key_chooser->Sequential_0.next_value % old(
                        self,
                    ).config.record_count) as int,
                )
            },
            old(self).key_chooser is Scrambled ==> {
                &&& final(self).key_chooser is Scrambled
                &&& final(self).key_chooser->Scrambled_0.perm@ == old(
                    self,
                ).key_chooser->Scrambled_0.perm@
                &&& final(self).key_chooser->Scrambled_0.zipf.cum@ == old(
                    self,
                ).key_chooser->Scrambled_0.zipf.cum@
                &&& final(self).key_chooser->Scrambled_0.zipf.rng.state == stream_step(
                    old(self).key_chooser->Scrambled_0.zipf.rng.state,
                )
                &&& exists|r: int|
                    zipf_bracket(
                        old(self).key_chooser->Scrambled_0.zipf.cum@,
                        old(self).key_chooser->Scrambled_0.zipf.items as int,
                        stream_mix(final(self).key_chooser->Scrambled_0.zipf.rng.state) % old(
                            self,
                        ).key_chooser->Scrambled_0.zipf.total(),
                        r,
                    ) && transaction_key_chars(op) == key_chars(
                        old(self).key_chooser->Scrambled_0.perm@[r] as int,
                    )
            },
    {
        let kind = self.op_chooser.next();
        proof {
            let u = stream_mix(self.op_chooser.rng.state) % PROPORTION_SCALE;
            let k = choose|k: int|
                selects(old(self).op_chooser.cum@, 4, u, k) && kind == old(self).op_chooser.kinds@[k];
            assert(old(self).op_chooser.kinds@[0] == OpKind::Read);
            assert(old(self).op_chooser.kinds@[1] == OpKind::Update);
            assert(old(self).op_chooser.kinds@[2] == OpKind::Insert);
            assert(old(self).op_chooser.kinds@[3] == OpKind::Scan);
        }
        match kind {
            OpKind::Read => {
                let key = self.key_chooser.next_key(self.config.record_count);
                TransactionOp::Read(BackendRead { table: table_name(), key: key_name(key) })
            },
            OpKind::Update => {
                let key = self.key_chooser.next_key(self.config.record_count);
                let fields = build_record(
                    &mut self.value_rng,
                    self.config.field_count,
                    self.config.field_length,
                );
                TransactionOp::Update(
                    BackendInsert { table: table_name(), key: key_name(key), fields },
                )
            },
            OpKind::Insert => {
                let key = self.key_chooser.next_key(self.config.record_count);
                let fields = build_record(
                    &mut self.value_rng,
                    self.config.field_count,
                    self.config.field_length,
                );
                TransactionOp::Insert(
                    BackendInsert { table: table_name(), key: key_name(key), fields },
                )
            },
            OpKind::Scan => unreached(),
        }
    }
}

} // verus!
