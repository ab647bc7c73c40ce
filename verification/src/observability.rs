//! Execution traces: what each step consumed and produced, the chain of state
//! hashes, and replay checks over recorded traces.
use std::path::PathBuf;
use vstd::prelude::*;

use crate::clock::{clock_nanos_since_epoch, current_timestamp};
use crate::cve::{fnv1a, stable_hash64};
use crate::text::{hex_lower, push_hex, string_from};

verus! {

/// A filesystem path (`std::path::PathBuf`), carried without being looked into.
#[verifier::external_type_specification]
#[verifier::external_body]
pub struct ExPathBuf(PathBuf);

/// The record of one run of a simulation.
#[derive(Debug, Clone)]
pub struct ExecutionTrace {
    pub trace_id: String,
    pub simulation_id: String,
    pub solver_kind: String,
    pub started_at: u64,
    pub completed_at: Option<u64>,
    pub initial_state_hash: u64,
    pub final_state_hash: Option<u64>,
    pub lineage_merkle_root: Option<u64>,
    pub steps: Vec<StepRecord>,
}

/// The content of an `ExecutionTrace`.
pub struct ExecutionTraceView {
    pub trace_id: Seq<char>,
    pub simulation_id: Seq<char>,
    pub solver_kind: Seq<char>,
    pub started_at: u64,
    pub completed_at: Option<u64>,
    pub initial_state_hash: u64,
    pub final_state_hash: Option<u64>,
    pub lineage_merkle_root: Option<u64>,
    pub steps: Seq<StepRecord>,
}

impl View for ExecutionTrace {
    type V = ExecutionTraceView;

    open spec fn view(&self) -> ExecutionTraceView {
        ExecutionTraceView {
            trace_id: self.trace_id@,
            simulation_id: self.simulation_id@,
            solver_kind: self.solver_kind@,
            started_at: self.started_at,
            completed_at: self.completed_at,
            initial_state_hash: self.initial_state_hash,
            final_state_hash: self.final_state_hash,
            lineage_merkle_root: self.lineage_merkle_root,
            steps: self.steps@,
        }
    }
}

/// What one step consumed and produced.
#[derive(Debug, Clone, Copy)]
pub struct StepRecord {
    pub step_index: u64,
    pub input_state_hash: u64,
    pub output_state_hash: u64,
    pub transform_input_hash: Option<u64>,
    pub transform_output_hash: Option<u64>,
    pub scene_hash: Option<u64>,
    pub kernel_duration_ms: u64,
    pub transform_duration_ms: u64,
    pub timestamp: u64,
}

/// The chain of state hashes of a trace.
#[derive(Debug, Clone)]
pub struct StateLineage {
    pub simulation_id: String,
    pub initial_hash: u64,
    pub links: Vec<ChainLink>,
    pub final_hash: u64,
    pub merkle_root: u64,
}

/// One link of the chain: the hash a step started from and the one it produced.
#[derive(Debug, Clone, Copy)]
pub struct ChainLink {
    pub step: u64,
    pub prev_hash: u64,
    pub current_hash: u64,
}

/// What a logger keeps.
#[derive(Debug, Clone)]
pub struct TraceConfig {
    pub enabled: bool,
    pub save_steps: bool,
    pub save_scenes: bool,
    pub output_path: Option<PathBuf>,
}

impl Default for TraceConfig {
    fn default() -> (r: Self)
        ensures
            r.enabled && r.save_steps && !r.save_scenes && r.output_path is None,
    {
        TraceConfig { enabled: true, save_steps: true, save_scenes: false, output_path: None }
    }
}

/// A trace identifier: `trace-` followed by the lower-case hexadecimal of a clock reading.
pub open spec fn is_trace_id(s: Seq<char>) -> bool {
    exists|n: nat| s == "trace-"@ + #[trigger] hex_lower(n)
}

/// A fresh trace identifier from the system clock in nanoseconds (zero when
/// the clock reads earlier than the Unix epoch).
pub fn generate_trace_id() -> (id: String)
    ensures
        is_trace_id(id@),
{
    let nanos: u128 = match clock_nanos_since_epoch() {
        Some(n) => n,
        None => 0,
    };
    let mut id = string_from("trace-");
    push_hex(&mut id, nanos);
    assert(id@ == "trace-"@ + hex_lower(nanos as nat));
    id
}

/// The FNV-1a hash of an encoded frame or scene.
fn fnv_hash(data: &[u8]) -> (hash: u64)
    ensures
        hash == fnv1a(data@),
{
    stable_hash64(data)
}

/// The hash of a frame, from its encoded bytes.
pub fn compute_state_hash(state_bytes: &[u8]) -> (hash: u64)
    ensures
        hash == fnv1a(state_bytes@),
{
    fnv_hash(state_bytes)
}

/// The hash of a scene, from its encoded bytes.
pub fn compute_scene_hash(scene_bytes: &[u8]) -> (hash: u64)
    ensures
        hash == fnv1a(scene_bytes@),
{
    fnv_hash(scene_bytes)
}

// ---------------------------------------------------------------------------
// The merkle root of a trace.

/// Two hashes folded into one: `a * 31 + b`, wrapping at 64 bits.
pub open spec fn combine_hashes(a: u64, b: u64) -> u64 {
    ((((a as nat * 31) % 0x1_0000_0000_0000_0000) + b as nat) % 0x1_0000_0000_0000_0000) as u64
}

/// A level with an odd number of hashes gets its last hash repeated.
pub open spec fn pad_even(h: Seq<u64>) -> Seq<u64> {
    if h.len() % 2 != 0 {
        h.push(h.last())
    } else {
        h
    }
}

/// The next level up: consecutive pairs folded together.
pub open spec fn fold_pairs(h: Seq<u64>) -> Seq<u64> {
    Seq::new(h.len() / 2, |i: int| combine_hashes(h[2 * i], h[2 * i + 1]))
}

/// The root of the tree over `h`, level by level; zero for no hashes.
pub open spec fn merkle_reduce(h: Seq<u64>) -> u64
    decreases h.len(),
{
    if h.len() == 0 {
        0
    } else if h.len() == 1 {
        h[0]
    } else {
        merkle_reduce(fold_pairs(pad_even(h)))
    }
}

/// The output hash of every recorded step, in order.
pub open spec fn output_hashes(steps: Seq<StepRecord>) -> Seq<u64> {
    steps.map_values(|s: StepRecord| s.output_state_hash)
}

/// The merkle root of a trace: over the steps' output hashes, or the initial
/// hash when there are no steps.
pub open spec fn trace_merkle_root(t: ExecutionTraceView) -> u64 {
    if t.steps.len() == 0 {
        t.initial_state_hash
    } else {
        merkle_reduce(output_hashes(t.steps))
    }
}

fn fold_level(hashes: &Vec<u64>) -> (r: Vec<u64>)
    requires
        hashes@.len() % 2 == 0,
    ensures
        r@ == fold_pairs(hashes@),
{
    let mut next: Vec<u64> = Vec::new();
    let n = hashes.len() / 2;
    let mut j: usize = 0;
    while j < n
        invariant
            n == hashes@.len() / 2,
            hashes@.len() % 2 == 0,
            hashes@.len() <= usize::MAX,
            j <= n,
            next@ =~= fold_pairs(hashes@).take(j as int),
        decreases n - j,
    {
        assert(2 * j + 1 < hashes@.len());
        let left_index: usize = 2 * j;
        let left = hashes[left_index];
        let right = hashes[left_index + 1];
        let combined = left.wrapping_mul(31).wrapping_add(right);
        next.push(combined);
        j = j + 1;
        assert(next@ =~= fold_pairs(hashes@).take(j as int));
    }
    next
}

fn merkle_root_of(start: Vec<u64>) -> (r: u64)
    ensures
        r == merkle_reduce(start@),
{
    let mut hashes = start;
    while hashes.len() > 1
        invariant
            merkle_reduce(hashes@) == merkle_reduce(start@),
        decreases hashes@.len(),
    {
        if hashes.len() % 2 != 0 {
            let last = hashes[hashes.len() - 1];
            hashes.push(last);
        }
        let next = fold_level(&hashes);
        hashes = next;
    }
    if hashes.len() == 0 {
        0
    } else {
        hashes[0]
    }
}

// ---------------------------------------------------------------------------
// The logger.

/// Records one run: its steps as they happen, then its final hash and root.
pub struct TraceLogger {
    trace: ExecutionTrace,
    current_step_start: u64,
    config: TraceConfig,
}

impl View for TraceLogger {
    type V = ExecutionTraceView;

    /// The trace recorded so far.
    closed spec fn view(&self) -> ExecutionTraceView {
        self.trace@
    }
}

/// The trace a logger starts with.
pub open spec fn fresh_trace(t: ExecutionTraceView, simulation_id: Seq<char>, solver_kind: Seq<char>) -> bool {
    &&& is_trace_id(t.trace_id)
    &&& t.simulation_id == simulation_id
    &&& t.solver_kind == solver_kind
    &&& t.completed_at is None
    &&& t.initial_state_hash == 0
    &&& t.final_state_hash is None
    &&& t.lineage_merkle_root is None
    &&& t.steps.len() == 0
}

/// `after` is `before` with the steps replaced by `steps`.
pub open spec fn same_but_steps(after: ExecutionTraceView, before: ExecutionTraceView, steps: Seq<StepRecord>) -> bool {
    after == ExecutionTraceView { steps, ..before }
}

/// The first position at or after `from` of a step with index `step_index`.
pub open spec fn first_step_with(steps: Seq<StepRecord>, step_index: u64, from: int) -> Option<int>
    decreases steps.len() - from,
{
    if from < 0 || from >= steps.len() {
        None
    } else if steps[from].step_index == step_index {
        Some(from)
    } else {
        first_step_with(steps, step_index, from + 1)
    }
}

/// Sum of the kernel durations.
pub open spec fn kernel_time_sum(steps: Seq<StepRecord>) -> nat
    decreases steps.len(),
{
    if steps.len() == 0 {
        0
    } else {
        kernel_time_sum(steps.drop_last()) + steps.last().kernel_duration_ms as nat
    }
}

/// Sum of the transformation durations.
pub open spec fn transform_time_sum(steps: Seq<StepRecord>) -> nat
    decreases steps.len(),
{
    if steps.len() == 0 {
        0
    } else {
        transform_time_sum(steps.drop_last()) + steps.last().transform_duration_ms as nat
    }
}

/// A call that changes what a logger holds.
pub enum LoggerCall {
    SetInitialHash,
    RecordStep,
    RecordTransform,
    Finalize,
}

/// Steps a call adds: one for `record_step`, none for the others.
pub open spec fn steps_added(call: LoggerCall) -> nat {
    match call {
        LoggerCall::RecordStep => 1,
        _ => 0,
    }
}

/// What a call does to the number of steps a logger holds.
pub open spec fn logger_effect(before: ExecutionTraceView, call: LoggerCall, after: ExecutionTraceView) -> bool {
    after.steps.len() == before.steps.len() + steps_added(call)
}

/// Number of `record_step` calls among `calls`.
pub open spec fn record_step_calls(calls: Seq<LoggerCall>) -> nat
    decreases calls.len(),
{
    if calls.len() == 0 {
        0
    } else {
        record_step_calls(calls.drop_last()) + steps_added(calls.last())
    }
}

/// Position of the first step recorded with `step_index`.
pub fn find_step(steps: &Vec<StepRecord>, step_index: u64) -> (r: Option<usize>)
    ensures
        match r {
            Some(i) => first_step_with(steps@, step_index, 0) == Some(i as int) && i < steps@.len(),
            None => first_step_with(steps@, step_index, 0) is None,
        },
{
    let mut i: usize = 0;
    while i < steps.len()
        invariant
            i <= steps@.len(),
            first_step_with(steps@, step_index, 0) == first_step_with(steps@, step_index, i as int),
        decreases steps.len() - i,
    {
        if steps[i].step_index == step_index {
            return Some(i);
        }
        i = i + 1;
    }
    None
}

impl TraceLogger {
    /// What the logger keeps.
    pub closed spec fn spec_config(&self) -> TraceConfig {
        self.config
    }

    /// A logger with the default configuration.
    pub fn new(simulation_id: &str, solver_kind: &str) -> (r: Self)
        ensures
            fresh_trace(r@, simulation_id@, solver_kind@),
            r.spec_config().enabled && r.spec_config().save_steps && !r.spec_config().save_scenes
                && r.spec_config().output_path is None,
    {
        Self::with_config(TraceConfig::default(), simulation_id, solver_kind)
    }

    /// A logger with the given configuration.
    pub fn with_config(config: TraceConfig, simulation_id: &str, solver_kind: &str) -> (r: Self)
        ensures
            fresh_trace(r@, simulation_id@, solver_kind@),
            r.spec_config() == config,
    {
        TraceLogger {
            trace: ExecutionTrace {
                trace_id: generate_trace_id(),
                simulation_id: string_from(simulation_id),
                solver_kind: string_from(solver_kind),
                started_at: current_timestamp(),
                completed_at: None,
                initial_state_hash: 0,
                final_state_hash: None,
                lineage_merkle_root: None,
                steps: Vec::new(),
            },
            current_step_start: current_timestamp(),
            config,
        }
    }

    pub fn set_initial_hash(&mut self, hash: u64)
        ensures
            logger_effect(old(self)@, LoggerCall::SetInitialHash, final(self)@),
            final(self)@ == (ExecutionTraceView { initial_state_hash: hash, ..old(self)@ }),
            final(self).spec_config() == old(self).spec_config(),
    {
        self.trace.initial_state_hash = hash;
    }

    /// Appends a step; its time stamp comes from the system clock and its
    /// transformation fields start empty.
    pub fn record_step(
        &mut self,
        step_index: u64,
        input_state_hash: u64,
        output_state_hash: u64,
        kernel_duration_ms: u64,
    )
        ensures
            final(self)@.steps.len() == old(self)@.steps.len() + 1,
            logger_effect(old(self)@, LoggerCall::RecordStep, final(self)@),
            same_but_steps(final(self)@, old(self)@, old(self)@.steps.push(StepRecord {
                step_index,
                input_state_hash,
                output_state_hash,
                transform_input_hash: None,
                transform_output_hash: None,
                scene_hash: None,
                kernel_duration_ms,
                transform_duration_ms: 0,
                timestamp: final(self)@.steps.last().timestamp,
            })),
            final(self).spec_config() == old(self).spec_config(),
    {
        let timestamp = current_timestamp();
        self.trace.steps.push(StepRecord {
            step_index,
            input_state_hash,
            output_state_hash,
            transform_input_hash: None,
            transform_output_hash: None,
            scene_hash: None,
            kernel_duration_ms,
            transform_duration_ms: 0,
            timestamp,
        });
    }

    /// Fills in the transformation of the first step recorded with `step_index`;
    /// does nothing when there is none.
    pub fn record_transform(
        &mut self,
        step_index: u64,
        input_hash: u64,
        output_hash: u64,
        scene_hash: u64,
        duration_ms: u64,
    )
        ensures
            logger_effect(old(self)@, LoggerCall::RecordTransform, final(self)@),
            match first_step_with(old(self)@.steps, step_index, 0) {
                Some(i) => same_but_steps(final(self)@, old(self)@, old(self)@.steps.update(i, StepRecord {
                    transform_input_hash: Some(input_hash),
                    transform_output_hash: Some(output_hash),
                    scene_hash: Some(scene_hash),
                    transform_duration_ms: duration_ms,
                    ..old(self)@.steps[i]
                })),
                None => final(self)@ == old(self)@,
            },
            final(self).spec_config() == old(self).spec_config(),
    {
        match find_step(&self.trace.steps, step_index) {
            Some(i) => {
                let old_step = self.trace.steps[i];
                let updated = StepRecord {
                    transform_input_hash: Some(input_hash),
                    transform_output_hash: Some(output_hash),
                    scene_hash: Some(scene_hash),
                    transform_duration_ms: duration_ms,
                    ..old_step
                };
                self.trace.steps.set(i, updated);
            },
            None => {},
        }
    }

    /// Closes the trace: completion time from the system clock, the final hash,
    /// and the merkle root of the steps.
    pub fn finalize(&mut self, final_state_hash: u64)
        ensures
            logger_effect(old(self)@, LoggerCall::Finalize, final(self)@),
            final(self)@ == (ExecutionTraceView {
                completed_at: final(self)@.completed_at,
                final_state_hash: Some(final_state_hash),
                lineage_merkle_root: Some(trace_merkle_root(old(self)@)),
                ..old(self)@
            }),
            final(self)@.completed_at is Some,
            final(self).spec_config() == old(self).spec_config(),
    {
        let completed = current_timestamp();
        let root = self.compute_merkle_root();
        self.trace.completed_at = Some(completed);
        self.trace.final_state_hash = Some(final_state_hash);
        self.trace.lineage_merkle_root = Some(root);
    }

    /// The merkle root over the steps' output hashes; the initial hash when no
    /// step was recorded.
    pub fn compute_merkle_root(&self) -> (r: u64)
        ensures
            r == trace_merkle_root(self@),
    {
        if self.trace.steps.len() == 0 {
            return self.trace.initial_state_hash;
        }
        let mut hashes: Vec<u64> = Vec::new();
        let mut i: usize = 0;
        while i < self.trace.steps.len()
            invariant
                i <= self.trace.steps@.len(),
                hashes@ =~= output_hashes(self.trace.steps@).take(i as int),
            decreases self.trace.steps.len() - i,
        {
            hashes.push(self.trace.steps[i].output_state_hash);
            i = i + 1;
            assert(hashes@ =~= output_hashes(self.trace.steps@).take(i as int));
        }
        assert(hashes@ =~= output_hashes(self.trace.steps@));
        merkle_root_of(hashes)
    }

    pub fn get_trace(&self) -> (r: &ExecutionTrace)
        ensures
            r@ == self@,
    {
        &self.trace
    }

    /// The chain of hashes: one link per step, from the hash before it to the
    /// hash after it, starting at the initial hash.
    pub fn compute_lineage(&self) -> (r: StateLineage)
        ensures
            lineage_of(self@, r),
    {
        let mut links: Vec<ChainLink> = Vec::new();
        let mut prev_hash = self.trace.initial_state_hash;
        let mut i: usize = 0;
        while i < self.trace.steps.len()
            invariant
                i <= self.trace.steps@.len(),
                links@.len() == i,
                prev_hash == chain_hash_before(self.trace@, i as int),
                forall|k: int| 0 <= k < i ==> #[trigger] links@[k] == link_at(self.trace@, k),
            decreases self.trace.steps.len() - i,
        {
            let step = self.trace.steps[i];
            links.push(ChainLink { step: step.step_index, prev_hash, current_hash: step.output_state_hash });
            prev_hash = step.output_state_hash;
            i = i + 1;
        }
        let final_hash = match self.trace.final_state_hash {
            Some(h) => h,
            None => prev_hash,
        };
        StateLineage {
            simulation_id: self.trace.simulation_id.clone(),
            initial_hash: self.trace.initial_state_hash,
            links,
            final_hash,
            merkle_root: self.compute_merkle_root(),
        }
    }

    /// Sum of the kernel durations of the steps.
    pub fn total_kernel_time(&self) -> (r: u64)
        requires
            kernel_time_sum(self@.steps) <= u64::MAX,
        ensures
            r == kernel_time_sum(self@.steps),
    {
        sum_kernel_times(&self.trace.steps)
    }

    /// Sum of the transformation durations of the steps.
    pub fn total_transform_time(&self) -> (r: u64)
        requires
            transform_time_sum(self@.steps) <= u64::MAX,
        ensures
            r == transform_time_sum(self@.steps),
    {
        sum_transform_times(&self.trace.steps)
    }

    pub fn step_count(&self) -> (r: usize)
        ensures
            r == self@.steps.len(),
    {
        self.trace.steps.len()
    }
}

/// The hash the step at position `i` started from in the chain: the initial
/// hash for the first step, the previous step's output after that.
pub open spec fn chain_hash_before(t: ExecutionTraceView, i: int) -> u64 {
    if i <= 0 {
        t.initial_state_hash
    } else {
        t.steps[i - 1].output_state_hash
    }
}

/// The link of the step at position `i`.
pub open spec fn link_at(t: ExecutionTraceView, i: int) -> ChainLink {
    ChainLink {
        step: t.steps[i].step_index,
        prev_hash: chain_hash_before(t, i),
        current_hash: t.steps[i].output_state_hash,
    }
}

/// `l` is the lineage of `t`.
pub open spec fn lineage_of(t: ExecutionTraceView, l: StateLineage) -> bool {
    &&& l.simulation_id@ == t.simulation_id
    &&& l.initial_hash == t.initial_state_hash
    &&& l.links@.len() == t.steps.len()
    &&& forall|k: int| 0 <= k < t.steps.len() ==> #[trigger] l.links@[k] == link_at(t, k)
    &&& l.final_hash == match t.final_state_hash {
        Some(h) => h,
        None => chain_hash_before(t, t.steps.len() as int),
    }
    &&& l.merkle_root == trace_merkle_root(t)
}

fn sum_kernel_times(steps: &Vec<StepRecord>) -> (r: u64)
    requires
        kernel_time_sum(steps@) <= u64::MAX,
    ensures
        r == kernel_time_sum(steps@),
{
    let mut total: u64 = 0;
    let mut i: usize = 0;
    while i < steps.len()
        invariant
            i <= steps@.len(),
            kernel_time_sum(steps@) <= u64::MAX,
            total == kernel_time_sum(steps@.take(i as int)),
        decreases steps.len() - i,
    {
        assert(steps@.take(i + 1).drop_last() =~= steps@.take(i as int));
        proof { lemma_kernel_sum_prefix(steps@, i as int + 1); }
        total = total + steps[i].kernel_duration_ms;
        i = i + 1;
    }
    assert(steps@.take(steps@.len() as int) =~= steps@);
    total
}

fn sum_transform_times(steps: &Vec<StepRecord>) -> (r: u64)
    requires
        transform_time_sum(steps@) <= u64::MAX,
    ensures
        r == transform_time_sum(steps@),
{
    let mut total: u64 = 0;
    let mut i: usize = 0;
    while i < steps.len()
        invariant
            i <= steps@.len(),
            transform_time_sum(steps@) <= u64::MAX,
            total == transform_time_sum(steps@.take(i as int)),
        decreases steps.len() - i,
    {
        assert(steps@.take(i + 1).drop_last() =~= steps@.take(i as int));
        proof { lemma_transform_sum_prefix(steps@, i as int + 1); }
        total = total + steps[i].transform_duration_ms;
        i = i + 1;
    }
    assert(steps@.take(steps@.len() as int) =~= steps@);
    total
}

/// A prefix's kernel time never exceeds the whole.
proof fn lemma_kernel_sum_prefix(steps: Seq<StepRecord>, n: int)
    requires
        0 <= n <= steps.len(),
    ensures
        kernel_time_sum(steps.take(n)) <= kernel_time_sum(steps),
    decreases steps.len(),
{
    if n < steps.len() {
        assert(steps.drop_last().take(n) =~= steps.take(n));
        lemma_kernel_sum_prefix(steps.drop_last(), n);
    } else {
        assert(steps.take(n) =~= steps);
    }
}

/// A prefix's transformation time never exceeds the whole.
proof fn lemma_transform_sum_prefix(steps: Seq<StepRecord>, n: int)
    requires
        0 <= n <= steps.len(),
    ensures
        transform_time_sum(steps.take(n)) <= transform_time_sum(steps),
    decreases steps.len(),
{
    if n < steps.len() {
        assert(steps.drop_last().take(n) =~= steps.take(n));
        lemma_transform_sum_prefix(steps.drop_last(), n);
    } else {
        assert(steps.take(n) =~= steps);
    }
}

// ---------------------------------------------------------------------------
// Replay.

/// Every step starts from the hash the chain reached before it, and a recorded
/// final hash is the hash the chain ends at.
pub open spec fn lineage_valid(t: ExecutionTraceView) -> bool {
    &&& forall|i: int| 0 <= i < t.steps.len() ==> (#[trigger] t.steps[i]).input_state_hash
        == chain_hash_before(t, i)
    &&& match t.final_state_hash {
        Some(h) => t.steps.len() == 0 || h == chain_hash_before(t, t.steps.len() as int),
        None => true,
    }
}

/// Totals of one trace.
#[derive(Debug, Clone)]
pub struct TraceSummary {
    pub simulation_id: String,
    pub step_count: usize,
    pub total_kernel_ms: u64,
    pub total_transform_ms: u64,
    pub initial_hash: u64,
    pub final_hash: Option<u64>,
}

/// The position of the trace held under `id`, searching from `from`.
pub open spec fn trace_position(held: Seq<ExecutionTrace>, id: Seq<char>, from: int) -> Option<int>
    decreases held.len() - from,
{
    if from < 0 || from >= held.len() {
        None
    } else if held[from].trace_id@ == id {
        Some(from)
    } else {
        trace_position(held, id, from + 1)
    }
}

/// Recorded traces, each held once under its identifier.
pub struct ReplayManager {
    traces: Vec<ExecutionTrace>,
}

/// No identifier is held twice.
pub open spec fn ids_distinct(held: Seq<ExecutionTrace>) -> bool {
    forall|i: int, j: int|
        0 <= i < j < held.len() ==> #[trigger] held[i].trace_id@ != #[trigger] held[j].trace_id@
}

impl ReplayManager {
    /// The held traces, in the order they were first added.
    pub closed spec fn held(&self) -> Seq<ExecutionTrace> {
        self.traces@
    }

    /// The held trace with identifier `id`.
    pub open spec fn lookup(&self, id: Seq<char>) -> Option<ExecutionTraceView> {
        match trace_position(self.held(), id, 0) {
            Some(i) => Some(self.held()[i]@),
            None => None,
        }
    }

    pub fn new() -> (r: Self)
        ensures
            r.held().len() == 0,
            forall|id: Seq<char>| #[trigger] r.lookup(id) is None,
    {
        ReplayManager { traces: Vec::new() }
    }

    fn position(&self, id: &String) -> (r: Option<usize>)
        ensures
            match r {
                Some(i) => trace_position(self.held(), id@, 0) == Some(i as int) && i < self.held().len(),
                None => trace_position(self.held(), id@, 0) is None,
            },
    {
        let mut i: usize = 0;
        while i < self.traces.len()
            invariant
                i <= self.traces@.len(),
                trace_position(self.traces@, id@, 0) == trace_position(self.traces@, id@, i as int),
            decreases self.traces.len() - i,
        {
            let same: bool = self.traces[i].trace_id == *id;
            if same {
                return Some(i);
            }
            i = i + 1;
        }
        None
    }

    /// Adds a decoded trace under its identifier, replacing the trace held under
    /// that identifier; returns the identifier.
    pub fn insert_trace(&mut self, trace: ExecutionTrace) -> (id: String)
        ensures
            id@ == trace.trace_id@,
            final(self).lookup(id@) == Some(trace@),
            forall|other: Seq<char>| other != id@ ==> #[trigger] final(self).lookup(other) == old(self).lookup(other),
            ids_distinct(old(self).held()) ==> ids_distinct(final(self).held()),
    {
        let id = trace.trace_id.clone();
        let ghost before = self.traces@;
        match self.position(&id) {
            Some(i) => {
                self.traces.set(i, trace);
                proof {
                    let after = self.traces@;
                    lemma_position_found(before, id@, 0);
                    lemma_position_from(after, id@, 0, i as int);
                    assert forall|other: Seq<char>| other != id@ implies #[trigger] trace_position(after, other, 0)
                        == trace_position(before, other, 0) by {
                        lemma_position_agree(before, after, other, 0);
                    }
                    assert forall|other: Seq<char>| other != id@ implies #[trigger] self.lookup(other) == old(self).lookup(other) by {
                        lemma_position_agree(before, after, other, 0);
                        lemma_position_found(before, other, 0);
                    }
                    if ids_distinct(before) {
                        assert forall|a: int, b: int| 0 <= a < b < after.len() implies #[trigger] after[a].trace_id@
                            != #[trigger] after[b].trace_id@ by {
                            if a != i as int && b != i as int {
                                assert(before[a].trace_id@ != before[b].trace_id@);
                            } else if a == i as int {
                                assert(before[a].trace_id@ != before[b].trace_id@);
                            } else {
                                assert(before[a].trace_id@ != before[b].trace_id@);
                            }
                        }
                    }
                }
            },
            None => {
                self.traces.push(trace);
                proof {
                    let after = self.traces@;
                    lemma_position_found(before, id@, 0);
                    lemma_position_from(after, id@, 0, before.len() as int);
                    assert forall|other: Seq<char>| other != id@ implies #[trigger] self.lookup(other) == old(self).lookup(other) by {
                        lemma_position_agree(before, after, other, 0);
                        lemma_position_found(before, other, 0);
                    }
                    if ids_distinct(before) {
                        assert forall|a: int, b: int| 0 <= a < b < after.len() implies #[trigger] after[a].trace_id@
                            != #[trigger] after[b].trace_id@ by {
                            if b < before.len() {
                                assert(before[a].trace_id@ != before[b].trace_id@);
                            } else {
                                assert(before[a].trace_id@ != id@);
                            }
                        }
                    }
                }
            },
        }
        id
    }

    /// The held trace with identifier `trace_id`.
    pub fn get_trace(&self, trace_id: &str) -> (r: Option<&ExecutionTrace>)
        ensures
            match r {
                Some(t) => self.lookup(trace_id@) == Some(t@),
                None => self.lookup(trace_id@) is None,
            },
    {
        let id = string_from(trace_id);
        match self.position(&id) {
            Some(i) => Some(&self.traces[i]),
            None => None,
        }
    }

    /// Whether the held trace's hashes form an unbroken chain ending at its
    /// final hash; an error when no trace is held under `trace_id`.
    pub fn verify_lineage(&self, trace_id: &str) -> (r: Result<bool, String>)
        ensures
            match self.lookup(trace_id@) {
                Some(t) => r == Ok::<bool, String>(lineage_valid(t)),
                None => r is Err && r->Err_0@ == "trace not found"@,
            },
    {
        let trace = match self.get_trace(trace_id) {
            Some(t) => t,
            None => {
                return Err(string_from("trace not found"));
            },
        };
        if trace.steps.len() == 0 {
            return Ok(true);
        }
        let mut expected_prev = trace.initial_state_hash;
        let mut i: usize = 0;
        while i < trace.steps.len()
            invariant
                i <= trace.steps@.len(),
                self.lookup(trace_id@) == Some(trace@),
                expected_prev == chain_hash_before(trace@, i as int),
                forall|k: int| 0 <= k < i ==> (#[trigger] trace.steps@[k]).input_state_hash
                    == chain_hash_before(trace@, k),
            decreases trace.steps.len() - i,
        {
            if trace.steps[i].input_state_hash != expected_prev {
                assert(trace@.steps[i as int].input_state_hash != chain_hash_before(trace@, i as int));
                return Ok(false);
            }
            expected_prev = trace.steps[i].output_state_hash;
            i = i + 1;
        }
        match trace.final_state_hash {
            Some(final_hash) => Ok(expected_prev == final_hash),
            None => Ok(true),
        }
    }

    /// The first step recorded with index `step` in the held trace `trace_id`.
    pub fn get_step_info(&self, trace_id: &str, step: u64) -> (r: Option<StepRecord>)
        ensures
            r == match self.lookup(trace_id@) {
                Some(t) => match first_step_with(t.steps, step, 0) {
                    Some(i) => Some(t.steps[i]),
                    None => None,
                },
                None => None,
            },
    {
        match self.get_trace(trace_id) {
            Some(t) => match find_step(&t.steps, step) {
                Some(i) => Some(t.steps[i]),
                None => None,
            },
            None => None,
        }
    }

    /// The identifier and simulation of every held trace.
    pub fn list_traces(&self) -> (r: Vec<(String, String)>)
        ensures
            r@.len() == self.held().len(),
            forall|i: int| 0 <= i < r@.len() ==> (#[trigger] r@[i]).0@ == self.held()[i].trace_id@
                && r@[i].1@ == self.held()[i].simulation_id@,
    {
        let mut out: Vec<(String, String)> = Vec::new();
        let mut i: usize = 0;
        while i < self.traces.len()
            invariant
                i <= self.traces@.len(),
                out@.len() == i,
                forall|k: int| 0 <= k < i ==> (#[trigger] out@[k]).0@ == self.traces@[k].trace_id@
                    && out@[k].1@ == self.traces@[k].simulation_id@,
            decreases self.traces.len() - i,
        {
            out.push((self.traces[i].trace_id.clone(), self.traces[i].simulation_id.clone()));
            i = i + 1;
        }
        out
    }

    /// Totals of the held trace `trace_id`.
    pub fn get_summary(&self, trace_id: &str) -> (r: Option<TraceSummary>)
        requires
            match self.lookup(trace_id@) {
                Some(t) => kernel_time_sum(t.steps) <= u64::MAX && transform_time_sum(t.steps)
                    <= u64::MAX,
                None => true,
            },
        ensures
            match self.lookup(trace_id@) {
                Some(t) => r is Some && summary_of(t, r->0),
                None => r is None,
            },
    {
        let trace = match self.get_trace(trace_id) {
            Some(t) => t,
            None => {
                return None;
            },
        };
        Some(TraceSummary {
            simulation_id: trace.simulation_id.clone(),
            step_count: trace.steps.len(),
            total_kernel_ms: sum_kernel_times(&trace.steps),
            total_transform_ms: sum_transform_times(&trace.steps),
            initial_hash: trace.initial_state_hash,
            final_hash: trace.final_state_hash,
        })
    }
}

impl Default for ReplayManager {
    fn default() -> (r: Self)
        ensures
            r.held().len() == 0,
    {
        Self::new()
    }
}

/// `s` holds the totals of `t`.
pub open spec fn summary_of(t: ExecutionTraceView, s: TraceSummary) -> bool {
    &&& s.simulation_id@ == t.simulation_id
    &&& s.step_count == t.steps.len()
    &&& s.total_kernel_ms == kernel_time_sum(t.steps)
    &&& s.total_transform_ms == transform_time_sum(t.steps)
    &&& s.initial_hash == t.initial_state_hash
    &&& s.final_hash == t.final_state_hash
}

proof fn lemma_position_from(held: Seq<ExecutionTrace>, id: Seq<char>, from: int, i: int)
    requires
        0 <= from <= i < held.len(),
        held[i].trace_id@ == id,
        forall|k: int| from <= k < i ==> held[k].trace_id@ != id,
    ensures
        trace_position(held, id, from) == Some(i),
    decreases i - from,
{
    if from < i {
        lemma_position_from(held, id, from + 1, i);
    }
}

proof fn lemma_position_found(held: Seq<ExecutionTrace>, id: Seq<char>, from: int)
    requires
        0 <= from,
    ensures
        match trace_position(held, id, from) {
            Some(i) => from <= i < held.len() && held[i].trace_id@ == id && forall|k: int|
                from <= k < i ==> held[k].trace_id@ != id,
            None => forall|k: int| from <= k < held.len() ==> held[k].trace_id@ != id,
        },
    decreases held.len() - from,
{
    if from < held.len() {
        lemma_position_found(held, id, from + 1);
    }
}

/// Two lists that agree on which positions hold `x` (the longer one holding
/// no `x` past the shorter one's end) find `x` at the same place.
proof fn lemma_position_agree(a: Seq<ExecutionTrace>, b: Seq<ExecutionTrace>, x: Seq<char>, from: int)
    requires
        0 <= from,
        a.len() <= b.len(),
        forall|k: int| 0 <= k < a.len() ==> (#[trigger] a[k].trace_id@ == x) == (b[k].trace_id@ == x),
        forall|k: int| a.len() <= k < b.len() ==> #[trigger] b[k].trace_id@ != x,
    ensures
        trace_position(a, x, from) == trace_position(b, x, from),
    decreases b.len() - from,
{
    if from < a.len() {
        lemma_position_agree(a, b, x, from + 1);
    } else if from < b.len() {
        lemma_position_agree(a, b, x, from + 1);
    }
}

// ---------------------------------------------------------------------------
// Laws of traces.

/// The lineage of a trace is a chain: the first link starts at the initial
/// hash, every later link starts where the one before it ended, and without a
/// recorded final hash the lineage ends where the last link ends.
pub proof fn lemma_lineage_is_chain(t: ExecutionTraceView, l: StateLineage)
    requires
        lineage_of(t, l),
    ensures
        l.links@.len() > 0 ==> l.links@[0].prev_hash == l.initial_hash,
        forall|k: int| 1 <= k < l.links@.len() ==> (#[trigger] l.links@[k]).prev_hash == l.links@[k - 1].current_hash,
        t.final_state_hash is None ==> l.final_hash == if l.links@.len() == 0 {
            l.initial_hash
        } else {
            l.links@.last().current_hash
        },
{
    if l.links@.len() > 0 {
        assert(l.links@[0] == link_at(t, 0));
        assert(l.links@[l.links@.len() - 1] == link_at(t, l.links@.len() - 1));
    }
    assert forall|k: int| 1 <= k < l.links@.len() implies (#[trigger] l.links@[k]).prev_hash == l.links@[k - 1].current_hash by {
        assert(l.links@[k] == link_at(t, k));
        assert(l.links@[k - 1] == link_at(t, k - 1));
    }
}

/// When the trace's lineage is valid, each link of its lineage starts at the
/// hash its step recorded as input.
pub proof fn lemma_valid_lineage_links(t: ExecutionTraceView, l: StateLineage)
    requires
        lineage_of(t, l),
        lineage_valid(t),
    ensures
        forall|k: int| 0 <= k < l.links@.len() ==> (#[trigger] l.links@[k]).prev_hash == t.steps[k].input_state_hash,
{
    assert forall|k: int| 0 <= k < l.links@.len() implies (#[trigger] l.links@[k]).prev_hash == t.steps[k].input_state_hash by {
        assert(l.links@[k] == link_at(t, k));
        assert(t.steps[k].input_state_hash == chain_hash_before(t, k));
    }
}

/// The merkle root of a trace without steps is its initial hash, and that of a
/// trace of one step is the output hash of that step.
pub proof fn lemma_small_merkle_roots(t: ExecutionTraceView)
    ensures
        t.steps.len() == 0 ==> trace_merkle_root(t) == t.initial_state_hash,
        t.steps.len() == 1 ==> trace_merkle_root(t) == t.steps[0].output_state_hash,
{
    if t.steps.len() == 1 {
        assert(output_hashes(t.steps).len() == 1);
        assert(output_hashes(t.steps)[0] == t.steps[0].output_state_hash);
    }
}

/// Recording a transformation changes no state hash: the lineage, its validity
/// and the merkle root of the trace stay as they were.
pub proof fn lemma_transform_keeps_chain(
    before: ExecutionTraceView,
    after: ExecutionTraceView,
    i: int,
    input_hash: u64,
    output_hash: u64,
    scene_hash: u64,
    duration_ms: u64,
)
    requires
        0 <= i < before.steps.len(),
        same_but_steps(after, before, before.steps.update(i, StepRecord {
            transform_input_hash: Some(input_hash),
            transform_output_hash: Some(output_hash),
            scene_hash: Some(scene_hash),
            transform_duration_ms: duration_ms,
            ..before.steps[i]
        })),
    ensures
        trace_merkle_root(after) == trace_merkle_root(before),
        forall|k: int| 0 <= k < after.steps.len() ==> #[trigger] link_at(after, k) == link_at(before, k),
        lineage_valid(after) == lineage_valid(before),
{
    assert(output_hashes(after.steps) =~= output_hashes(before.steps));
    assert forall|k: int| 0 <= k < after.steps.len() implies #[trigger] link_at(after, k) == link_at(before, k) by {
        assert(chain_hash_before(after, k) == chain_hash_before(before, k));
    }
    assert forall|k: int| 0 <= k <= after.steps.len() implies #[trigger] chain_hash_before(after, k) == chain_hash_before(before, k) by {}
    if lineage_valid(before) {
        assert forall|k: int| 0 <= k < after.steps.len() implies (#[trigger] after.steps[k]).input_state_hash
            == chain_hash_before(after, k) by {
            assert(before.steps[k].input_state_hash == chain_hash_before(before, k));
        }
    }
    if lineage_valid(after) {
        assert forall|k: int| 0 <= k < before.steps.len() implies (#[trigger] before.steps[k]).input_state_hash
            == chain_hash_before(before, k) by {
            assert(after.steps[k].input_state_hash == chain_hash_before(after, k));
        }
    }
}

/// A trace whose steps each start from the output of the step before (the
/// first from the initial hash), closed with the output of its last step, has a
/// valid lineage.
pub proof fn lemma_chained_trace_is_valid(t: ExecutionTraceView)
    requires
        forall|k: int| 0 <= k < t.steps.len() ==> (#[trigger] t.steps[k]).input_state_hash == if k == 0 {
            t.initial_state_hash
        } else {
            t.steps[k - 1].output_state_hash
        },
        t.steps.len() > 0 ==> t.final_state_hash == Some(t.steps.last().output_state_hash),
    ensures
        lineage_valid(t),
{
}

/// Over any sequence of calls on a logger made by `new` or `with_config`, the
/// number of steps it holds, which `step_count` returns, is the number of
/// `record_step` calls made; `set_initial_hash`, `record_transform` and
/// `finalize` never change it.
pub proof fn lemma_step_count_counts_record_steps(calls: Seq<LoggerCall>, traces: Seq<ExecutionTraceView>)
    requires
        traces.len() == calls.len() + 1,
        traces[0].steps.len() == 0,
        forall|i: int| 0 <= i < calls.len() ==> #[trigger] logger_effect(traces[i], calls[i], traces[i + 1]),
    ensures
        traces.last().steps.len() == record_step_calls(calls),
    decreases calls.len(),
{
    if calls.len() > 0 {
        let n = calls.len() - 1;
        lemma_step_count_counts_record_steps(calls.drop_last(), traces.drop_last());
        assert(logger_effect(traces[n], calls[n], traces[n + 1]));
        assert(traces.drop_last().last() == traces[n]);
    }
}

// ---------------------------------------------------------------------------
// Every output counts in the merkle root.

/// `2^k`.
pub open spec fn two_to(k: nat) -> nat
    decreases k,
{
    if k == 0 {
        1
    } else {
        2 * two_to((k - 1) as nat)
    }
}

/// `32^k`.
pub open spec fn thirty_two_to(k: nat) -> nat
    decreases k,
{
    if k == 0 {
        1
    } else {
        32 * thirty_two_to((k - 1) as nat)
    }
}

/// Hashes below `bound` reduce without wrapping at any level: each level
/// multiplies the bound by 32, and it stays within 64 bits.
spec fn no_wrap(n: nat, bound: nat) -> bool
    decreases n,
{
    if n <= 1 {
        bound <= 0x1_0000_0000_0000_0000
    } else {
        32 * bound <= 0x1_0000_0000_0000_0000 && no_wrap(((n + 1) / 2) as nat, 32 * bound)
    }
}

proof fn lemma_no_wrap(n: nat, bound: nat, k: nat)
    requires
        n <= two_to(k),
        bound * thirty_two_to(k) <= 0x1_0000_0000_0000_0000,
    ensures
        no_wrap(n, bound),
    decreases k,
{
    if n > 1 {
        assert(k > 0);
        let k1 = (k - 1) as nat;
        assert(thirty_two_to(k) == 32 * thirty_two_to(k1));
        assert(two_to(k) == 2 * two_to(k1));
        assert(((n + 1) / 2) as nat <= two_to(k1));
        assert((32 * bound) * thirty_two_to(k1) == bound * thirty_two_to(k)) by (nonlinear_arith)
            requires
                thirty_two_to(k) == 32 * thirty_two_to(k1),
        ;
        lemma_thirty_two_to_positive(k1);
        assert(32 * bound <= (32 * bound) * thirty_two_to(k1)) by (nonlinear_arith)
            requires
                thirty_two_to(k1) >= 1,
        ;
        lemma_no_wrap(((n + 1) / 2) as nat, 32 * bound, k1);
    } else {
        lemma_thirty_two_to_positive(k);
        assert(bound <= bound * thirty_two_to(k)) by (nonlinear_arith)
            requires
                thirty_two_to(k) >= 1,
        ;
    }
}

proof fn lemma_thirty_two_to_positive(k: nat)
    ensures
        thirty_two_to(k) >= 1,
    decreases k,
{
    if k > 0 {
        lemma_thirty_two_to_positive((k - 1) as nat);
    }
}

/// Two hashes below `2^59` fold without wrapping.
proof fn lemma_combine_exact(a: u64, b: u64, bound: nat)
    requires
        a < bound,
        b < bound,
        32 * bound <= 0x1_0000_0000_0000_0000,
    ensures
        combine_hashes(a, b) == a * 31 + b,
        a * 31 + b < 32 * bound,
{
    assert(a * 31 + b < 32 * bound) by (nonlinear_arith)
        requires
            a < bound,
            b < bound,
    ;
    vstd::arithmetic::div_mod::lemma_small_mod((a as nat * 31) as nat, 0x1_0000_0000_0000_0000);
    vstd::arithmetic::div_mod::lemma_small_mod((a as nat * 31 + b as nat) as nat, 0x1_0000_0000_0000_0000);
}

/// One level up from hashes that rise pointwise, one strictly, rises the same way.
proof fn lemma_level_rises(h: Seq<u64>, g: Seq<u64>, bound: nat, j: int)
    requires
        h.len() == g.len(),
        h.len() >= 2,
        32 * bound <= 0x1_0000_0000_0000_0000,
        forall|i: int| 0 <= i < h.len() ==> #[trigger] h[i] <= g[i] && g[i] < bound,
        0 <= j < h.len(),
        h[j] < g[j],
    ensures
        fold_pairs(pad_even(h)).len() == fold_pairs(pad_even(g)).len(),
        fold_pairs(pad_even(h)).len() == (h.len() + 1) / 2,
        forall|i: int| 0 <= i < fold_pairs(pad_even(h)).len() ==> #[trigger] fold_pairs(pad_even(h))[i]
            <= fold_pairs(pad_even(g))[i] && fold_pairs(pad_even(g))[i] < 32 * bound,
        fold_pairs(pad_even(h))[j / 2] < fold_pairs(pad_even(g))[j / 2],
{
    let ph = pad_even(h);
    let pg = pad_even(g);
    assert(ph.len() == pg.len());
    assert forall|i: int| 0 <= i < ph.len() implies #[trigger] ph[i] <= pg[i] && pg[i] < bound by {
        if i >= h.len() {
            assert(ph[i] == h[h.len() - 1] && pg[i] == g[g.len() - 1]);
        }
    }
    let lh = fold_pairs(ph);
    let lg = fold_pairs(pg);
    assert forall|i: int| 0 <= i < lh.len() implies #[trigger] lh[i] <= lg[i] && lg[i] < 32 * bound by {
        assert(ph[2 * i] <= pg[2 * i] && ph[2 * i + 1] <= pg[2 * i + 1]);
        lemma_combine_exact(ph[2 * i], ph[2 * i + 1], bound);
        lemma_combine_exact(pg[2 * i], pg[2 * i + 1], bound);
        assert(ph[2 * i] * 31 <= pg[2 * i] * 31) by (nonlinear_arith)
            requires
                ph[2 * i] <= pg[2 * i],
        ;
    }
    let i = j / 2;
    assert(ph[j] == h[j] && pg[j] == g[j]);
    assert(ph[2 * i] <= pg[2 * i] && ph[2 * i + 1] <= pg[2 * i + 1]);
    lemma_combine_exact(ph[2 * i], ph[2 * i + 1], bound);
    lemma_combine_exact(pg[2 * i], pg[2 * i + 1], bound);
    if j % 2 == 0 {
        assert(j == 2 * i);
        assert(ph[2 * i] * 31 < pg[2 * i] * 31) by (nonlinear_arith)
            requires
                ph[2 * i] < pg[2 * i],
        ;
    } else {
        assert(j == 2 * i + 1);
        assert(ph[2 * i] * 31 <= pg[2 * i] * 31) by (nonlinear_arith)
            requires
                ph[2 * i] <= pg[2 * i],
        ;
    }
}

/// The reduction of hashes that rise pointwise, one strictly, rises.
proof fn lemma_reduce_rises(h: Seq<u64>, g: Seq<u64>, bound: nat, j: int)
    requires
        h.len() == g.len(),
        h.len() >= 1,
        no_wrap(h.len(), bound),
        forall|i: int| 0 <= i < h.len() ==> #[trigger] h[i] <= g[i] && g[i] < bound,
        0 <= j < h.len(),
        h[j] < g[j],
    ensures
        merkle_reduce(h) < merkle_reduce(g),
    decreases h.len(),
{
    if h.len() >= 2 {
        lemma_level_rises(h, g, bound, j);
        let lh = fold_pairs(pad_even(h));
        let lg = fold_pairs(pad_even(g));
        assert forall|i: int| 0 <= i < lh.len() implies #[trigger] lh[i] <= lg[i] && lg[i] < 32 * bound by {}
        lemma_reduce_rises(lh, lg, 32 * bound, j / 2);
    }
}

/// Every step counts in the merkle root, the last one included, whatever the
/// number of steps: on traces of up to 64 steps whose output hashes fit in 32
/// bits (so that no level of the tree wraps around), raising the output hash of
/// one step, and lowering none, raises the root.
pub proof fn lemma_merkle_root_counts_every_step(t: ExecutionTraceView, u: ExecutionTraceView, j: int)
    requires
        1 <= t.steps.len() <= 64,
        u.steps.len() == t.steps.len(),
        forall|i: int| 0 <= i < t.steps.len() ==> (#[trigger] t.steps[i]).output_state_hash
            <= u.steps[i].output_state_hash && u.steps[i].output_state_hash < 0x1_0000_0000,
        0 <= j < t.steps.len(),
        t.steps[j].output_state_hash < u.steps[j].output_state_hash,
    ensures
        trace_merkle_root(t) < trace_merkle_root(u),
{
    let h = output_hashes(t.steps);
    let g = output_hashes(u.steps);
    assert(two_to(6) == 64) by {
        reveal_with_fuel(two_to, 7);
    }
    assert(thirty_two_to(6) == 0x4000_0000) by {
        reveal_with_fuel(thirty_two_to, 7);
    }
    lemma_no_wrap(h.len(), 0x1_0000_0000, 6);
    assert forall|i: int| 0 <= i < h.len() implies #[trigger] h[i] <= g[i] && g[i] < 0x1_0000_0000 by {
        assert(t.steps[i].output_state_hash <= u.steps[i].output_state_hash);
    }
    lemma_reduce_rises(h, g, 0x1_0000_0000, j);
}

} // verus!
