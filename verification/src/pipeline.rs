//! The command-line pipeline's plan and reports.
use vstd::prelude::*;

use std::sync::Arc;

use crate::boundary::runtime::{
    is_valid_state, stepped, validation_error, BoundaryRuntime, ExecutionError, KernelFrame,
    KernelFrameView, ValidationError,
};
use crate::boundary::state::{SimulationState, SimulationStateView};
use crate::ieee754::{b32_at_most_zero, b32_is_finite, b64_below_zero, b64_is_finite};
use crate::observability::{
    chain_hash_before, first_step_with, lineage_valid, trace_merkle_root, ExecutionTraceView, StepRecord,
    TraceLogger,
};
use crate::simulation::{create_initial_state_with_id, initial_state_view, ONE_BINARY32};
use crate::text::{decimal, hex16, is_blank, push_decimal, push_hex16, push_text, string_from};

verus! {

/// What a finished pipeline run reports.
#[derive(Clone, Debug)]
pub struct PipelineResult {
    pub simulation_id: String,
    pub final_step: u64,
    pub state_hash: String,
    pub scene_hash: String,
    pub output_path: String,
}

/// The report text of a run.
pub open spec fn pipeline_report(r: PipelineResult) -> Seq<char> {
    "[SUCCESS] BloodOrchid MVES Pipeline Complete\n\n  Simulation ID: "@ + r.simulation_id@
        + "\n  Final Step:    "@ + decimal(r.final_step as nat) + "\n  State Hash:    "@
        + r.state_hash@ + "\n  Scene Hash:    "@ + r.scene_hash@ + "\n  Output:        "@
        + r.output_path@ + "\n\n\u{2713} Pipeline succeeded"@
}

impl PipelineResult {
    /// The text that `Display` shows.
    pub fn report(&self) -> (s: String)
        ensures
            s@ == pipeline_report(*self),
    {
        let mut s = string_from("[SUCCESS] BloodOrchid MVES Pipeline Complete\n\n  Simulation ID: ");
        push_text(&mut s, self.simulation_id.as_str());
        push_text(&mut s, "\n  Final Step:    ");
        push_decimal(&mut s, self.final_step);
        push_text(&mut s, "\n  State Hash:    ");
        push_text(&mut s, self.state_hash.as_str());
        push_text(&mut s, "\n  Scene Hash:    ");
        push_text(&mut s, self.scene_hash.as_str());
        push_text(&mut s, "\n  Output:        ");
        push_text(&mut s, self.output_path.as_str());
        push_text(&mut s, "\n\n\u{2713} Pipeline succeeded");
        s
    }
}

/// Why the pipeline stopped.
#[derive(Debug, Clone)]
pub enum CliError {
    ArgumentError(String),
    BoundaryError(String),
    TransformError(String),
    IoError(String),
}

impl CliError {
    /// The text that `Display` shows.
    pub fn message(&self) -> (s: String)
        ensures
            s@ == match self {
                CliError::ArgumentError(m) => "argument error: "@ + m@,
                CliError::BoundaryError(m) => "boundary error: "@ + m@,
                CliError::TransformError(m) => "transform error: "@ + m@,
                CliError::IoError(m) => "io error: "@ + m@,
            },
    {
        let (mut s, m) = match self {
            CliError::ArgumentError(m) => (string_from("argument error: "), m),
            CliError::BoundaryError(m) => (string_from("boundary error: "), m),
            CliError::TransformError(m) => (string_from("transform error: "), m),
            CliError::IoError(m) => (string_from("io error: "), m),
        };
        push_text(&mut s, m.as_str());
        s
    }
}

/// The starting frame of the pipeline's simulation, `mves-heat-2d`.
pub fn create_initial_state() -> (s: SimulationState)
    ensures
        s@ == initial_state_view("mves-heat-2d"@),
{
    create_initial_state_with_id("mves-heat-2d")
}

/// How many steps each round of the pipeline takes: a tenth of the run, and at
/// least one.
pub open spec fn chunk_size(steps: u64) -> u64 {
    if steps > 10 {
        (steps / 10) as u64
    } else {
        1
    }
}

/// The steps of each round, in order: rounds start every `chunk_size` steps
/// and the last round takes what remains.
pub open spec fn chunk_plan(steps: u64) -> Seq<u64> {
    let size = chunk_size(steps);
    Seq::new(
        ((steps + size - 1) / size as int) as nat,
        |i: int| if steps - i * size < size { (steps - i * size) as u64 } else { size },
    )
}

/// Round `k` starts inside the run exactly when `k` is below the number of rounds.
proof fn lemma_round_starts(steps: int, size: int, k: int)
    requires
        size >= 1,
        steps >= 0,
        k >= 0,
    ensures
        k < (steps + size - 1) / size <==> k * size < steps,
{
    assert(k < (steps + size - 1) / size <==> k * size < steps) by (nonlinear_arith)
        requires
            size >= 1,
            steps >= 0,
            k >= 0,
    ;
}

/// The rounds of a pipeline run of `steps` steps.
pub fn pipeline_chunks(steps: u64) -> (chunks: Vec<u64>)
    ensures
        chunks@ == chunk_plan(steps),
{
    let size: u64 = if steps > 10 { steps / 10 } else { 1 };
    let mut chunks: Vec<u64> = Vec::new();
    let mut start: u64 = 0;
    let ghost count: int = (steps + size - 1) / size as int;
    proof {
        lemma_round_starts(steps as int, size as int, 0);
    }
    while start < steps
        invariant
            size == chunk_size(steps),
            size >= 1,
            start <= steps,
            count == (steps + size - 1) / size as int,
            count == chunk_plan(steps).len(),
            chunks@.len() <= count,
            chunks@.len() < count ==> start as int == chunks@.len() * size,
            chunks@.len() < count ==> start < steps,
            chunks@.len() == count ==> start == steps,
            chunks@ == chunk_plan(steps).take(chunks@.len() as int),
        decreases steps - start,
    {
        let ghost i = chunks@.len() as int;
        let remaining = steps - start;
        let current = if remaining < size { remaining } else { size };
        chunks.push(current);
        proof {
            assert(chunk_plan(steps)[i] == current);
            assert(chunks@ =~= chunk_plan(steps).take(i + 1));
            lemma_round_starts(steps as int, size as int, i + 1);
            assert((i + 1) * size == i * size + size) by (nonlinear_arith);
        }
        if remaining <= size {
            start = steps;
        } else {
            start = start + size;
        }
    }
    assert(chunks@ =~= chunk_plan(steps));
    chunks
}

/// Sum of a list of step counts.
pub open spec fn total_steps(chunks: Seq<u64>) -> nat
    decreases chunks.len(),
{
    if chunks.len() == 0 {
        0
    } else {
        total_steps(chunks.drop_last()) + chunks.last() as nat
    }
}

proof fn lemma_plan_prefix(steps: u64, j: int)
    requires
        0 <= j,
        j + 1 <= chunk_plan(steps).len(),
    ensures
        total_steps(chunk_plan(steps).take(j)) == j * chunk_size(steps),
    decreases j,
{
    let plan = chunk_plan(steps);
    let size = chunk_size(steps) as int;
    if j > 0 {
        lemma_plan_prefix(steps, j - 1);
        assert(plan.take(j).drop_last() =~= plan.take(j - 1));
        lemma_round_starts(steps as int, size, j);
        assert((j - 1) * size + size == j * size) by (nonlinear_arith);
        assert(plan[j - 1] == size);
        assert(plan.take(j).last() == plan[j - 1]);
    } else {
        assert(plan.take(0).len() == 0);
        assert(0 * size == 0) by (nonlinear_arith);
    }
}

/// The rounds of a run take the steps asked for, all of them and no more:
/// every round takes at least one step and at most `chunk_size(steps)`, all but
/// the last take exactly that many, and together they take `steps`.
pub proof fn lemma_chunk_plan_covers(steps: u64)
    ensures
        total_steps(chunk_plan(steps)) == steps,
        forall|i: int| 0 <= i < chunk_plan(steps).len() ==> 1 <= #[trigger] chunk_plan(steps)[i] <= chunk_size(steps),
        forall|i: int| 0 <= i < chunk_plan(steps).len() - 1 ==> #[trigger] chunk_plan(steps)[i] == chunk_size(steps),
{
    let plan = chunk_plan(steps);
    let size = chunk_size(steps) as int;
    let count = plan.len() as int;
    assert forall|i: int| 0 <= i < count implies 1 <= #[trigger] plan[i] <= size by {
        lemma_round_starts(steps as int, size, i);
    }
    assert forall|i: int| 0 <= i < count - 1 implies #[trigger] plan[i] == size by {
        lemma_round_starts(steps as int, size, i + 1);
        assert((i + 1) * size == i * size + size) by (nonlinear_arith);
    }
    if count > 0 {
        lemma_plan_prefix(steps, count - 1);
        assert(plan.take(count) =~= plan);
        assert(plan.take(count).drop_last() =~= plan.take(count - 1));
        lemma_round_starts(steps as int, size, count);
        lemma_round_starts(steps as int, size, count - 1);
        assert(count * size == (count - 1) * size + size) by (nonlinear_arith);
    } else {
        lemma_round_starts(steps as int, size, 0);
    }
}

/// The hash text of the report: sixteen lower-case hexadecimal digits.
pub fn hash_label(hash: u64) -> (s: String)
    ensures
        s@ == hex16(hash as nat),
{
    let mut s = String::new();
    push_hex16(&mut s, hash);
    assert(s@ =~= hex16(hash as nat));
    s
}

// ---------------------------------------------------------------------------
// A run of the pipeline.

/// The starting frame of the pipeline passes validation.
proof fn lemma_initial_state_valid()
    ensures
        is_valid_state(initial_state_view("mves-heat-2d"@)),
{
    reveal_strlit("mves-heat-2d");
    reveal_strlit("heat_reference");
    let s = initial_state_view("mves-heat-2d"@);
    assert(s.simulation_id[0] == 'm');
    assert(!is_blank(s.simulation_id));
    assert(s.solver_kind[0] == 'h');
    assert(!is_blank(s.solver_kind));
    assert(b32_is_finite(ONE_BINARY32) && !b32_at_most_zero(ONE_BINARY32));
    let f = s.primary_field->0;
    assert(forall|i: int| 0 <= i < f.values.len() ==> b32_is_finite(#[trigger] f.values[i]));
    assert(b64_is_finite(0) && !b64_below_zero(0));
}

/// A prefix of a plan takes no more steps than the whole plan.
proof fn lemma_total_prefix(s: Seq<u64>, j: int)
    requires
        0 <= j <= s.len(),
    ensures
        total_steps(s.take(j)) <= total_steps(s),
    decreases s.len(),
{
    if j < s.len() {
        assert(s.drop_last().take(j) =~= s.take(j));
        lemma_total_prefix(s.drop_last(), j);
    } else {
        assert(s.take(j) =~= s);
    }
}

/// One more round takes the steps of that round.
proof fn lemma_total_next(s: Seq<u64>, j: int)
    requires
        0 <= j < s.len(),
    ensures
        total_steps(s.take(j + 1)) == total_steps(s.take(j)) + s[j],
{
    assert(s.take(j + 1).drop_last() =~= s.take(j));
}

/// With rounds of at least one step, later rounds end at later steps.
proof fn lemma_total_increasing(s: Seq<u64>, a: int, b: int)
    requires
        0 <= a < b <= s.len(),
        forall|i: int| 0 <= i < s.len() ==> #[trigger] s[i] >= 1,
    ensures
        total_steps(s.take(a)) < total_steps(s.take(b)),
    decreases b - a,
{
    lemma_total_next(s, b - 1);
    if a < b - 1 {
        lemma_total_increasing(s, a, b - 1);
    }
}

/// A step index held only by the last record is first found at the end.
proof fn lemma_first_step_is_last(steps: Seq<StepRecord>, x: u64, from: int)
    requires
        0 <= from < steps.len(),
        steps.last().step_index == x,
        forall|k: int| 0 <= k < steps.len() - 1 ==> (#[trigger] steps[k]).step_index != x,
    ensures
        first_step_with(steps, x, from) == Some(steps.len() - 1),
    decreases steps.len() - from,
{
    if from < steps.len() - 1 {
        lemma_first_step_is_last(steps, x, from + 1);
    }
}

/// The frame after a round: its step index is where the rounds done so far end.
pub open spec fn round_step(plan: Seq<u64>, rounds: int) -> u64 {
    total_steps(plan.take(rounds)) as u64
}

/// The trace record of round `k`, recorded at the step where that round ends.
pub open spec fn round_recorded(t: ExecutionTraceView, plan: Seq<u64>, k: int) -> bool {
    t.steps[k].step_index == round_step(plan, k + 1)
}

/// A run of the pipeline: the boundary that owns the frame, the trace of what
/// happened, the plan of rounds and how far it has come. Each round is two
/// calls: `advance` steps the frame with what the kernel produced, and
/// `record_round` then records the round with the hashes of the frames and of
/// the scene.
pub struct PipelineRun {
    boundary: BoundaryRuntime,
    trace: TraceLogger,
    chunks: Vec<u64>,
    steps: u64,
    done: usize,
    advanced: bool,
    /// What the kernel produced for each round advanced, with the new time.
    kernel_results: Ghost<Seq<(KernelFrameView, u64)>>,
    /// The frame and scene hashes reported for each round recorded.
    hashes: Ghost<Seq<(u64, u64)>>,
}

/// The frame after the rounds whose kernel results are `results`, from `start`.
pub open spec fn replay(start: SimulationStateView, plan: Seq<u64>, results: Seq<(KernelFrameView, u64)>) -> SimulationStateView
    decreases results.len(),
{
    if results.len() == 0 {
        start
    } else {
        let n = results.len() - 1;
        stepped(replay(start, plan, results.drop_last()), plan[n], results[n].0, results[n].1)
    }
}

impl PipelineRun {
    /// The run follows its plan: the frame stands at the step where the rounds
    /// advanced so far end, and the trace holds one record per recorded round.
    pub closed spec fn well_formed(&self) -> bool {
        let plan = self.chunks@;
        let done = self.done as int;
        &&& plan == chunk_plan(self.steps)
        &&& total_steps(plan) == self.steps
        &&& forall|i: int| 0 <= i < plan.len() ==> #[trigger] plan[i] >= 1
        &&& done <= plan.len()
        &&& self.advanced ==> done < plan.len()
        &&& self.boundary@.primary_field is Some
        &&& self.boundary@.step_index == round_step(plan, if self.advanced { done + 1 } else { done })
        &&& self.trace@.steps.len() == done
        &&& forall|k: int| 0 <= k < done ==> #[trigger] round_recorded(self.trace@, plan, k)
        &&& forall|k: int| 0 <= k < done ==> (#[trigger] self.trace@.steps[k]).input_state_hash
            == chain_hash_before(self.trace@, k)
        &&& self.kernel_results@.len() == if self.advanced { done + 1 } else { done }
        &&& self.boundary@ == replay(initial_state_view("mves-heat-2d"@), plan, self.kernel_results@)
        &&& self.hashes@.len() == done
        &&& forall|k: int| 0 <= k < done ==> {
            &&& (#[trigger] self.trace@.steps[k]).output_state_hash == self.hashes@[k].0
            &&& self.trace@.steps[k].transform_input_hash == Some(self.hashes@[k].0)
            &&& self.trace@.steps[k].transform_output_hash == Some(self.hashes@[k].1)
            &&& self.trace@.steps[k].scene_hash == Some(self.hashes@[k].1)
        }
    }

    /// What the kernel produced for each round advanced so far, with the new time.
    pub closed spec fn kernel_results(&self) -> Seq<(KernelFrameView, u64)> {
        self.kernel_results@
    }

    /// The frame and scene hashes reported for each round recorded so far.
    pub closed spec fn reported_hashes(&self) -> Seq<(u64, u64)> {
        self.hashes@
    }

    /// The frame the boundary holds.
    pub closed spec fn frame(&self) -> SimulationStateView {
        self.boundary@
    }

    /// The trace recorded so far.
    pub closed spec fn trace_view(&self) -> ExecutionTraceView {
        self.trace@
    }

    /// The steps of each round.
    pub closed spec fn plan(&self) -> Seq<u64> {
        self.chunks@
    }

    /// The steps the run was asked for.
    pub closed spec fn total(&self) -> u64 {
        self.steps
    }

    /// Rounds recorded so far.
    pub closed spec fn rounds_done(&self) -> nat {
        self.done as nat
    }

    /// Whether the frame has been advanced for a round not yet recorded.
    pub closed spec fn awaiting_record(&self) -> bool {
        self.advanced
    }

    /// Starts a run of `steps` steps from the pipeline's starting frame, whose
    /// encoded hash is `initial_hash`.
    pub fn start(steps: u64, initial_hash: u64) -> (r: Self)
        ensures
            r.well_formed(),
            r.frame() == initial_state_view("mves-heat-2d"@),
            r.plan() == chunk_plan(steps),
            r.total() == steps,
            r.rounds_done() == 0,
            !r.awaiting_record(),
            r.trace_view().simulation_id == "mves-heat-2d"@,
            r.trace_view().solver_kind == "heat_reference"@,
            r.trace_view().initial_state_hash == initial_hash,
            r.trace_view().steps.len() == 0,
            r.trace_view().final_state_hash is None,
            r.kernel_results().len() == 0,
            r.reported_hashes().len() == 0,
    {
        let initial = create_initial_state();
        let mut trace = TraceLogger::new(initial.simulation_id.as_str(), initial.solver_kind.as_str());
        trace.set_initial_hash(initial_hash);
        let chunks = pipeline_chunks(steps);
        proof {
            lemma_initial_state_valid();
            lemma_chunk_plan_covers(steps);
        }
        let boundary = match BoundaryRuntime::init(initial) {
            Ok(b) => b,
            Err(_) => {
                proof {
                    assert(false);
                }
                vstd::pervasive::unreached()
            },
        };
        proof {
            assert(chunks@.take(0) =~= Seq::<u64>::empty());
        }
        PipelineRun {
            boundary,
            trace,
            chunks,
            steps,
            done: 0,
            advanced: false,
            kernel_results: Ghost(Seq::empty()),
            hashes: Ghost(Seq::empty()),
        }
    }

    /// The steps of the next round, if any remain.
    pub fn next_round(&self) -> (r: Option<u64>)
        requires
            self.well_formed(),
        ensures
            r == if !self.awaiting_record() && self.rounds_done() < self.plan().len() {
                Some(self.plan()[self.rounds_done() as int])
            } else {
                None::<u64>
            },
    {
        if !self.advanced && self.done < self.chunks.len() {
            Some(self.chunks[self.done])
        } else {
            None
        }
    }

    /// A shared handle to the frame.
    pub fn snapshot(&self) -> (r: Arc<SimulationState>)
        ensures
            r@ == self.frame(),
    {
        self.boundary.get_snapshot()
    }

    /// Steps the frame by the next round: `advanced` is what the kernel
    /// produced for the frame's field, its grid and samples (`None` when it
    /// failed), and `simulation_time` the bit pattern of the new time. On an
    /// error the run is left as it was.
    pub fn advance(&mut self, advanced: Option<KernelFrame>, simulation_time: u64) -> (r: Result<Arc<SimulationState>, ExecutionError>)
        requires
            old(self).well_formed(),
            !old(self).awaiting_record(),
            old(self).rounds_done() < old(self).plan().len(),
            advanced is Some ==> advanced->0.width as int * advanced->0.height as int
                * old(self).frame().primary_field->0.channels as int <= usize::MAX,
        ensures
            final(self).well_formed(),
            final(self).plan() == old(self).plan(),
            final(self).total() == old(self).total(),
            final(self).rounds_done() == old(self).rounds_done(),
            final(self).trace_view() == old(self).trace_view(),
            final(self).reported_hashes() == old(self).reported_hashes(),
            match r {
                Ok(snapshot) => {
                    &&& advanced is Some
                    &&& final(self).frame() == stepped(
                        old(self).frame(),
                        old(self).plan()[old(self).rounds_done() as int],
                        advanced->0@,
                        simulation_time,
                    )
                    &&& final(self).frame().step_index == round_step(old(self).plan(), old(self).rounds_done() as int + 1)
                    &&& is_valid_state(final(self).frame())
                    &&& snapshot@ == final(self).frame()
                    &&& final(self).awaiting_record()
                    &&& final(self).kernel_results() == old(self).kernel_results().push((advanced->0@, simulation_time))
                },
                Err(e) => {
                    &&& final(self).frame() == old(self).frame()
                    &&& !final(self).awaiting_record()
                    &&& final(self).kernel_results() == old(self).kernel_results()
                    &&& match advanced {
                        None => e.reason@ == "kernel advance state failed"@,
                        Some(k) => validation_error(
                            stepped(
                                old(self).frame(),
                                old(self).plan()[old(self).rounds_done() as int],
                                k@,
                                simulation_time,
                            ),
                        ) == Some(e.reason@),
                    }
                },
            },
    {
        let count = self.chunks[self.done];
        proof {
            lemma_total_next(self.chunks@, self.done as int);
            lemma_total_prefix(self.chunks@, self.done + 1);
        }
        let ghost produced = advanced->0@;
        let result = self.boundary.step(count, advanced, simulation_time);
        match result {
            Ok(snapshot) => {
                self.advanced = true;
                proof {
                    let before = self.kernel_results@;
                    self.kernel_results@ = before.push((produced, simulation_time));
                    assert(self.kernel_results@.drop_last() =~= before);
                }
                Ok(snapshot)
            },
            Err(e) => Err(e),
        }
    }

    /// Records the round just advanced: the hash of the frame after it, the
    /// kernel's time, and the scene made from the new frame with its hash and
    /// the transformation's time. The round starts from the hash the chain has
    /// reached: the initial hash for the first round, the previous round's
    /// output after that.
    pub fn record_round(
        &mut self,
        after_hash: u64,
        kernel_ms: u64,
        scene_hash: u64,
        transform_ms: u64,
    )
        requires
            old(self).well_formed(),
            old(self).awaiting_record(),
        ensures
            final(self).well_formed(),
            final(self).plan() == old(self).plan(),
            final(self).total() == old(self).total(),
            final(self).frame() == old(self).frame(),
            final(self).rounds_done() == old(self).rounds_done() + 1,
            !final(self).awaiting_record(),
            final(self).kernel_results() == old(self).kernel_results(),
            final(self).reported_hashes() == old(self).reported_hashes().push((after_hash, scene_hash)),
            final(self).trace_view() == (ExecutionTraceView {
                steps: old(self).trace_view().steps.push(StepRecord {
                    step_index: old(self).frame().step_index,
                    input_state_hash: chain_hash_before(old(self).trace_view(), old(self).trace_view().steps.len() as int),
                    output_state_hash: after_hash,
                    transform_input_hash: Some(after_hash),
                    transform_output_hash: Some(scene_hash),
                    scene_hash: Some(scene_hash),
                    kernel_duration_ms: kernel_ms,
                    transform_duration_ms: transform_ms,
                    timestamp: final(self).trace_view().steps.last().timestamp,
                }),
                ..old(self).trace_view()
            }),
    {
        let step_index = self.boundary.get_snapshot().step_index;
        let before_hash = self.chain_end();
        let ghost before = self.trace@;
        let ghost plan = self.chunks@;
        let ghost done = self.done as int;
        self.trace.record_step(step_index, before_hash, after_hash, kernel_ms);
        proof {
            let steps = self.trace@.steps;
            assert forall|k: int| 0 <= k < done implies steps[k].step_index != step_index by {
                assert(round_recorded(before, plan, k));
                lemma_total_increasing(plan, k + 1, done + 1);
                lemma_total_prefix(plan, done + 1);
                lemma_total_prefix(plan, k + 1);
            }
            lemma_first_step_is_last(steps, step_index, 0);
        }
        let ghost recorded = self.trace@.steps;
        self.trace.record_transform(step_index, after_hash, scene_hash, scene_hash, transform_ms);
        proof {
            let last = recorded.len() - 1;
            assert(self.trace@.steps =~= before.steps.push(StepRecord {
                step_index,
                input_state_hash: before_hash,
                output_state_hash: after_hash,
                transform_input_hash: Some(after_hash),
                transform_output_hash: Some(scene_hash),
                scene_hash: Some(scene_hash),
                kernel_duration_ms: kernel_ms,
                transform_duration_ms: transform_ms,
                timestamp: recorded[last].timestamp,
            }));
        }
        let rounds = self.chunks.len();
        assert(self.done < rounds);
        self.done = self.done + 1;
        self.advanced = false;
        proof {
            let old_hashes = self.hashes@;
            self.hashes@ = old_hashes.push((after_hash, scene_hash));
            assert forall|k: int| 0 <= k < self.done implies {
                &&& (#[trigger] self.trace@.steps[k]).output_state_hash == self.hashes@[k].0
                &&& self.trace@.steps[k].transform_input_hash == Some(self.hashes@[k].0)
                &&& self.trace@.steps[k].transform_output_hash == Some(self.hashes@[k].1)
                &&& self.trace@.steps[k].scene_hash == Some(self.hashes@[k].1)
            } by {
                if k < done {
                    assert(before.steps[k].output_state_hash == old_hashes[k].0);
                }
            }
            assert forall|k: int| 0 <= k < self.done implies #[trigger] round_recorded(self.trace@, plan, k) by {
                if k < done {
                    assert(round_recorded(before, plan, k));
                }
            }
            assert forall|k: int| 0 <= k < self.done implies (#[trigger] self.trace@.steps[k]).input_state_hash
                == chain_hash_before(self.trace@, k) by {
                if k < done {
                    assert(before.steps[k].input_state_hash == chain_hash_before(before, k));
                }
            }
        }
    }

    /// The hash the chain of recorded rounds has reached.
    fn chain_end(&self) -> (h: u64)
        ensures
            h == chain_hash_before(self.trace_view(), self.trace_view().steps.len() as int),
    {
        let trace = self.trace.get_trace();
        let n = trace.steps.len();
        if n == 0 {
            trace.initial_state_hash
        } else {
            trace.steps[n - 1].output_state_hash
        }
    }

    /// Whether every round of the plan has been recorded.
    pub fn is_complete(&self) -> (b: bool)
        ensures
            b == (!self.awaiting_record() && self.rounds_done() == self.plan().len()),
    {
        !self.advanced && self.done == self.chunks.len()
    }

    /// Closes the trace of a completed run with the hash the chain ends at:
    /// the last round's output, or the initial hash when there were no rounds.
    /// A completed run has moved the frame by exactly the steps asked for; its
    /// trace holds one record per round, at the step where the round ended, in
    /// increasing order, each starting where the one before it ended, so that
    /// its lineage is valid.
    pub fn finish(&mut self)
        requires
            old(self).well_formed(),
            !old(self).awaiting_record(),
            old(self).rounds_done() == old(self).plan().len(),
        ensures
            final(self).frame() == old(self).frame(),
            final(self).frame().step_index == old(self).total(),
            final(self).trace_view().steps == old(self).trace_view().steps,
            final(self).trace_view().final_state_hash == Some(
                chain_hash_before(old(self).trace_view(), old(self).trace_view().steps.len() as int),
            ),
            final(self).trace_view().lineage_merkle_root == Some(trace_merkle_root(old(self).trace_view())),
            final(self).trace_view().initial_state_hash == old(self).trace_view().initial_state_hash,
            lineage_valid(final(self).trace_view()),
            final(self).trace_view().steps.len() == old(self).plan().len(),
            forall|k: int| 0 <= k < final(self).trace_view().steps.len() ==>
                (#[trigger] final(self).trace_view().steps[k]).step_index == round_step(old(self).plan(), k + 1),
            forall|a: int, b: int| 0 <= a < b < final(self).trace_view().steps.len() ==>
                (#[trigger] final(self).trace_view().steps[a]).step_index < (#[trigger] final(self).trace_view().steps[b]).step_index,
    {
        proof {
            assert(self.chunks@.take(self.chunks@.len() as int) =~= self.chunks@);
        }
        let ghost plan = self.chunks@;
        let ghost before = self.trace@;
        let final_hash = self.chain_end();
        self.trace.finalize(final_hash);
        proof {
            assert forall|k: int| 0 <= k < self.trace@.steps.len() implies (#[trigger] self.trace@.steps[k]).input_state_hash
                == chain_hash_before(self.trace@, k) by {
                assert(before.steps[k].input_state_hash == chain_hash_before(before, k));
            }
            assert forall|k: int| 0 <= k < self.trace@.steps.len() implies (#[trigger] self.trace@.steps[k]).step_index
                == round_step(plan, k + 1) by {
                assert(round_recorded(before, plan, k));
            }
            assert forall|a: int, b: int| 0 <= a < b < self.trace@.steps.len() implies
                (#[trigger] self.trace@.steps[a]).step_index < (#[trigger] self.trace@.steps[b]).step_index by {
                assert(round_recorded(self.trace@, plan, a));
                assert(round_recorded(self.trace@, plan, b));
                lemma_total_increasing(plan, a + 1, b + 1);
                lemma_total_prefix(plan, b + 1);
            }
        }
    }

    /// The trace recorded so far.
    pub fn logger(&self) -> (r: &TraceLogger)
        ensures
            r@ == self.trace_view(),
    {
        &self.trace
    }

    /// Ends the run: the final frame and the trace.
    pub fn into_parts(self) -> (r: (Arc<SimulationState>, TraceLogger))
        ensures
            r.0@ == self.frame(),
            r.1@ == self.trace_view(),
    {
        let snapshot = self.boundary.get_snapshot();
        (snapshot, self.trace)
    }
}

/// Runs are reproducible: two runs of the same number of steps, started from
/// the same initial hash, that were given the same kernel results and reported
/// the same frame and scene hashes hold the same frame and have recorded the
/// same rounds, alike in step, hashes and scene; only clock readings (times
/// and durations) may differ.
pub proof fn lemma_runs_reproducible(a: PipelineRun, b: PipelineRun)
    requires
        a.well_formed(),
        b.well_formed(),
        a.total() == b.total(),
        a.trace_view().initial_state_hash == b.trace_view().initial_state_hash,
        a.kernel_results() == b.kernel_results(),
        a.reported_hashes() == b.reported_hashes(),
    ensures
        a.frame() == b.frame(),
        a.trace_view().steps.len() == b.trace_view().steps.len(),
        forall|k: int| 0 <= k < a.trace_view().steps.len() ==> {
            let x = #[trigger] a.trace_view().steps[k];
            let y = b.trace_view().steps[k];
            &&& x.step_index == y.step_index
            &&& x.input_state_hash == y.input_state_hash
            &&& x.output_state_hash == y.output_state_hash
            &&& x.transform_input_hash == y.transform_input_hash
            &&& x.transform_output_hash == y.transform_output_hash
            &&& x.scene_hash == y.scene_hash
        },
{
    let ta = a.trace@;
    let tb = b.trace@;
    assert forall|k: int| 0 <= k < ta.steps.len() implies {
        let x = #[trigger] ta.steps[k];
        let y = tb.steps[k];
        &&& x.step_index == y.step_index
        &&& x.input_state_hash == y.input_state_hash
        &&& x.output_state_hash == y.output_state_hash
        &&& x.transform_input_hash == y.transform_input_hash
        &&& x.transform_output_hash == y.transform_output_hash
        &&& x.scene_hash == y.scene_hash
    } by {
        assert(round_recorded(ta, a.chunks@, k));
        assert(round_recorded(tb, b.chunks@, k));
        assert(ta.steps[k].input_state_hash == chain_hash_before(ta, k));
        assert(tb.steps[k].input_state_hash == chain_hash_before(tb, k));
        if k > 0 {
            assert(ta.steps[k - 1].output_state_hash == a.hashes@[k - 1].0);
            assert(tb.steps[k - 1].output_state_hash == b.hashes@[k - 1].0);
        }
        assert(ta.steps[k].output_state_hash == a.hashes@[k].0);
        assert(tb.steps[k].output_state_hash == b.hashes@[k].0);
    }
}

// ---------------------------------------------------------------------------
// Command-line arguments.

/// The value of an ASCII digit character.
pub open spec fn digit_value(c: char) -> int {
    c as int - '0' as int
}

/// All characters are ASCII digits.
pub open spec fn all_digits(s: Seq<char>) -> bool {
    forall|i: int| 0 <= i < s.len() ==> '0' <= #[trigger] s[i] <= '9'
}

/// The number the decimal digits of `s` spell.
pub open spec fn digits_value(s: Seq<char>) -> nat
    decreases s.len(),
{
    if s.len() == 0 {
        0
    } else {
        (digits_value(s.drop_last()) * 10 + digit_value(s.last())) as nat
    }
}

/// What `str::parse::<u64>` gives: an optional `+` followed by one or more
/// decimal digits whose value fits in 64 bits; `None` otherwise.
pub open spec fn u64_value(s: Seq<char>) -> Option<u64> {
    let digits = if s.len() > 0 && s[0] == '+' { s.drop_first() } else { s };
    if digits.len() > 0 && all_digits(digits) && digits_value(digits) <= u64::MAX {
        Some(digits_value(digits) as u64)
    } else {
        None
    }
}

/// Parses a decimal `u64` (`str::parse::<u64>`); on failure, the text of the
/// parse error, of which nothing is stated.
#[verifier::external_body]
fn parse_u64(s: &str) -> (r: Result<u64, String>)
    ensures
        match r {
            Ok(n) => u64_value(s@) == Some(n),
            Err(_) => u64_value(s@) is None,
        },
{
    s.parse::<u64>().map_err(|e| e.to_string())
}

/// The settings the command line asks for.
#[derive(Debug, Clone)]
pub struct CliArgs {
    pub steps: u64,
    pub output_path: String,
}

/// Why the command line was refused.
#[derive(Debug, Clone)]
pub enum CliArgsError {
    /// The flag came last, without its value.
    MissingValue(String),
    /// An argument that is no flag of the program.
    UnknownArgument(String),
    /// The value of `--steps` is no `u64`; the parse error's text.
    InvalidSteps(String),
}

/// What the command line comes to.
pub enum ArgsOutcome {
    Parsed(u64, Seq<char>),
    MissingValue(Seq<char>),
    UnknownArgument(Seq<char>),
    InvalidSteps,
}

/// Reads the arguments from position `i` on, with the settings so far: `--steps
/// N` and `--output PATH` set a setting, later ones winning; the first
/// argument that is neither flag, a flag without its value, or a step count
/// that does not parse stops the reading.
pub open spec fn args_outcome(args: Seq<Seq<char>>, i: int, steps: u64, output: Seq<char>) -> ArgsOutcome
    decreases args.len() - i,
{
    if i < 0 || i >= args.len() {
        ArgsOutcome::Parsed(steps, output)
    } else if args[i] == "--steps"@ {
        if i + 1 >= args.len() {
            ArgsOutcome::MissingValue("--steps"@)
        } else {
            match u64_value(args[i + 1]) {
                Some(n) => args_outcome(args, i + 2, n, output),
                None => ArgsOutcome::InvalidSteps,
            }
        }
    } else if args[i] == "--output"@ {
        if i + 1 >= args.len() {
            ArgsOutcome::MissingValue("--output"@)
        } else {
            args_outcome(args, i + 2, steps, args[i + 1])
        }
    } else {
        ArgsOutcome::UnknownArgument(args[i])
    }
}

/// The texts of the arguments.
pub open spec fn arg_texts(args: Seq<String>) -> Seq<Seq<char>> {
    args.map_values(|a: String| a@)
}

/// Reads the program's arguments (without the program name): one step and
/// `artifacts/scene.pb` unless `--steps` or `--output` say otherwise.
pub fn parse_cli_args(args: &Vec<String>) -> (r: Result<CliArgs, CliArgsError>)
    ensures
        match args_outcome(arg_texts(args@), 0, 1, "artifacts/scene.pb"@) {
            ArgsOutcome::Parsed(steps, output) => r is Ok && r->Ok_0.steps == steps && r->Ok_0.output_path@ == output,
            ArgsOutcome::MissingValue(flag) => r is Err && r->Err_0 is MissingValue && r->Err_0->MissingValue_0@ == flag,
            ArgsOutcome::UnknownArgument(a) => r is Err && r->Err_0 is UnknownArgument && r->Err_0->UnknownArgument_0@ == a,
            ArgsOutcome::InvalidSteps => r is Err && r->Err_0 is InvalidSteps,
        },
{
    let ghost texts = arg_texts(args@);
    let steps_flag = string_from("--steps");
    let output_flag = string_from("--output");
    let mut steps: u64 = 1;
    let mut output_path = string_from("artifacts/scene.pb");
    let mut i: usize = 0;
    proof {
        reveal_strlit("--steps");
        reveal_strlit("--output");
    }
    while i < args.len()
        invariant
            texts == arg_texts(args@),
            steps_flag@ == "--steps"@,
            output_flag@ == "--output"@,
            i <= args@.len(),
            args_outcome(texts, i as int, steps, output_path@) == args_outcome(
                texts,
                0,
                1,
                "artifacts/scene.pb"@,
            ),
        decreases args.len() - i,
    {
        assert(texts[i as int] == args@[i as int]@);
        if args[i] == steps_flag {
            if i + 1 >= args.len() {
                return Err(CliArgsError::MissingValue(steps_flag));
            }
            assert(texts[i + 1] == args@[i + 1]@);
            match parse_u64(args[i + 1].as_str()) {
                Ok(n) => {
                    steps = n;
                },
                Err(e) => {
                    return Err(CliArgsError::InvalidSteps(e));
                },
            }
            i = i + 2;
        } else if args[i] == output_flag {
            if i + 1 >= args.len() {
                return Err(CliArgsError::MissingValue(output_flag));
            }
            assert(texts[i + 1] == args@[i + 1]@);
            output_path = args[i + 1].clone();
            i = i + 2;
        } else {
            return Err(CliArgsError::UnknownArgument(args[i].clone()));
        }
    }
    Ok(CliArgs { steps, output_path })
}

} // verus!
