//! Architectural invariants checked over a record of what the pipeline did.
use vstd::prelude::*;

use crate::text::{
    contains_text, decimal, hex16, join, push_decimal, push_hex16, push_text, string_from,
    text_contains, join_strings,
};

verus! {

/// How serious a violation is.
#[derive(Debug, Clone, Copy, PartialEq, Eq, Structural)]
pub enum ViolationSeverity {
    Critical,
    Warning,
    Info,
}

/// A broken invariant and what broke it.
#[derive(Debug, Clone)]
pub struct InvariantViolation {
    pub invariant: String,
    pub details: String,
    pub severity: ViolationSeverity,
}

/// The content of an `InvariantViolation`.
pub struct ViolationView {
    pub invariant: Seq<char>,
    pub details: Seq<char>,
    pub severity: ViolationSeverity,
}

impl View for InvariantViolation {
    type V = ViolationView;

    open spec fn view(&self) -> ViolationView {
        ViolationView { invariant: self.invariant@, details: self.details@, severity: self.severity }
    }
}

/// The outcome of checking one invariant.
#[derive(Debug, Clone)]
pub enum InvariantResult {
    Passed,
    Failed(InvariantViolation),
    Unknown(String),
}

/// The content of an `InvariantResult`.
pub enum ResultView {
    Passed,
    Failed(ViolationView),
    Unknown(Seq<char>),
}

impl View for InvariantResult {
    type V = ResultView;

    open spec fn view(&self) -> ResultView {
        match self {
            InvariantResult::Passed => ResultView::Passed,
            InvariantResult::Failed(v) => ResultView::Failed(v@),
            InvariantResult::Unknown(m) => ResultView::Unknown(m@),
        }
    }
}

impl InvariantResult {
    pub fn is_passed(&self) -> (b: bool)
        ensures
            b == (self@ is Passed),
    {
        match self {
            InvariantResult::Passed => true,
            _ => false,
        }
    }
}

/// Who changed the simulation state.
#[derive(Debug, Clone, Copy, PartialEq, Eq, Structural)]
pub enum StateSource {
    Boundary,
    Kernel,
    External,
}

/// One recorded change of state.
#[derive(Debug, Clone, Copy)]
pub struct StateUpdate {
    pub source: StateSource,
    pub step_index: u64,
    pub state_hash: u64,
}

/// One recorded frame.
#[derive(Debug, Clone)]
pub struct StateSnapshot {
    pub step_index: u64,
    pub simulation_id: String,
    pub state_hash: u64,
    pub timestamp_ms: u64,
}

/// What a scan of the transformation layer's source found.
#[derive(Debug, Clone, Copy)]
pub struct CVEAnalysis {
    pub has_static_mut: bool,
    pub has_io_operations: bool,
    pub has_global_state: bool,
    pub has_non_determinism: bool,
}

/// A message schema of the contract layer.
#[derive(Debug, Clone)]
pub struct SchemaDef {
    pub name: String,
    pub fields: Vec<SchemaField>,
}

/// A field of a message schema.
#[derive(Debug, Clone)]
pub struct SchemaField {
    pub name: String,
    pub ty: String,
}

/// Everything the invariants are checked against. The schemas are kept by name
/// in the order they were added; `insert_schema` keeps each name once.
#[derive(Debug)]
pub struct VerificationContext {
    pub state_updates: Vec<StateUpdate>,
    pub state_history: Vec<StateSnapshot>,
    pub cve_analysis: Option<CVEAnalysis>,
    pub kernel_hash_runs: Vec<u64>,
    pub contract_schemas: Vec<(String, SchemaDef)>,
}

impl Default for VerificationContext {
    fn default() -> (r: Self)
        ensures
            r.state_updates@.len() == 0,
            r.state_history@.len() == 0,
            r.cve_analysis is None,
            r.kernel_hash_runs@.len() == 0,
            r.contract_schemas@.len() == 0,
    {
        VerificationContext {
            state_updates: Vec::new(),
            state_history: Vec::new(),
            cve_analysis: None,
            kernel_hash_runs: Vec::new(),
            contract_schemas: Vec::new(),
        }
    }
}

impl VerificationContext {
    /// Adds a schema under `name`, replacing the one held under that name
    /// (the first such entry) and keeping its place; a new name goes last.
    pub fn insert_schema(&mut self, name: String, schema: SchemaDef)
        ensures
            match first_schema_index(old(self).contract_schemas@, name@, 0) {
                Some(i) => final(self).contract_schemas@ == old(self).contract_schemas@.update(
                    i,
                    (name, schema),
                ),
                None => final(self).contract_schemas@ == old(self).contract_schemas@.push(
                    (name, schema),
                ),
            },
            final(self).state_updates == old(self).state_updates,
            final(self).state_history == old(self).state_history,
            final(self).cve_analysis == old(self).cve_analysis,
            final(self).kernel_hash_runs == old(self).kernel_hash_runs,
    {
        match find_schema(&self.contract_schemas, &name) {
            Some(i) => self.contract_schemas.set(i, (name, schema)),
            None => self.contract_schemas.push((name, schema)),
        }
    }
}

fn find_schema(schemas: &Vec<(String, SchemaDef)>, name: &String) -> (r: Option<usize>)
    ensures
        match r {
            Some(i) => first_schema_index(schemas@, name@, 0) == Some(i as int) && i < schemas@.len(),
            None => first_schema_index(schemas@, name@, 0) is None,
        },
{
    let mut i: usize = 0;
    while i < schemas.len()
        invariant
            i <= schemas@.len(),
            first_schema_index(schemas@, name@, 0) == first_schema_index(schemas@, name@, i as int),
        decreases schemas.len() - i,
    {
        let same: bool = schemas[i].0 == *name;
        if same {
            return Some(i);
        }
        i = i + 1;
    }
    None
}

/// The first position at or after `from` of an entry held under `name`.
pub open spec fn first_schema_index(schemas: Seq<(String, SchemaDef)>, name: Seq<char>, from: int) -> Option<int>
    decreases schemas.len() - from,
{
    if from < 0 || from >= schemas.len() {
        None
    } else if schemas[from].0@ == name {
        Some(from)
    } else {
        first_schema_index(schemas, name, from + 1)
    }
}

// ---------------------------------------------------------------------------
// What each invariant finds.

/// Number of updates made by a source other than the boundary or the kernel.
pub open spec fn foreign_update_count(updates: Seq<StateUpdate>) -> nat
    decreases updates.len(),
{
    if updates.len() == 0 {
        0
    } else {
        foreign_update_count(updates.drop_last()) + if updates.last().source == StateSource::External {
            1nat
        } else {
            0nat
        }
    }
}

pub open spec fn foreign_update_details(count: nat) -> Seq<char> {
    join(Seq::new(count, |_i: int| "State modified by External"@), "; "@)
}

/// What `BoundaryStateAuthorityInvariant` reports.
pub open spec fn authority_result(ctx: &VerificationContext) -> ResultView {
    let n = foreign_update_count(ctx.state_updates@);
    if n == 0 {
        ResultView::Passed
    } else {
        ResultView::Failed(ViolationView {
            invariant: "BoundaryStateAuthority"@,
            details: foreign_update_details(n),
            severity: ViolationSeverity::Critical,
        })
    }
}

/// The issues a purity scan reports, in order.
pub open spec fn purity_issues(a: CVEAnalysis) -> Seq<Seq<char>> {
    (if a.has_static_mut { seq!["CVE contains static mutability"@] } else { Seq::empty() })
        + (if a.has_io_operations { seq!["CVE contains IO operations"@] } else { Seq::empty() })
        + (if a.has_global_state { seq!["CVE contains global state"@] } else { Seq::empty() })
        + (if a.has_non_determinism { seq!["CVE may have non-deterministic behavior"@] } else { Seq::empty() })
}

/// What `CVEPurityInvariant` reports.
pub open spec fn purity_result(ctx: &VerificationContext) -> ResultView {
    match ctx.cve_analysis {
        None => ResultView::Unknown("No CVE analysis available"@),
        Some(a) => if purity_issues(a).len() == 0 {
            ResultView::Passed
        } else {
            ResultView::Failed(ViolationView {
                invariant: "CVEPurity"@,
                details: join(purity_issues(a), "; "@),
                severity: ViolationSeverity::Critical,
            })
        },
    }
}

/// The first position at or after `from` whose hash differs from the first run's.
pub open spec fn first_hash_mismatch(hashes: Seq<u64>, from: int) -> Option<int>
    decreases hashes.len() - from,
{
    if from < 1 || from >= hashes.len() {
        None
    } else if hashes[from] != hashes[0] {
        Some(from)
    } else {
        first_hash_mismatch(hashes, from + 1)
    }
}

/// What `KernelDeterminismInvariant` reports.
pub open spec fn determinism_result(ctx: &VerificationContext) -> ResultView {
    let h = ctx.kernel_hash_runs@;
    if h.len() < 2 {
        ResultView::Unknown("Insufficient kernel runs for verification"@)
    } else {
        match first_hash_mismatch(h, 1) {
            None => ResultView::Passed,
            Some(i) => ResultView::Failed(ViolationView {
                invariant: "KernelDeterminism"@,
                details: "Iteration "@ + decimal((i + 1) as nat) + " hash differs: "@ + hex16(
                    h[i] as nat,
                ) + " vs "@ + hex16(h[0] as nat),
                severity: ViolationSeverity::Critical,
            }),
        }
    }
}

/// The first position `i` at or after `from` where the next recorded step does not exceed step `i`.
pub open spec fn first_step_drop(history: Seq<StateSnapshot>, from: int) -> Option<int>
    decreases history.len() - from,
{
    if from < 0 || from + 1 >= history.len() {
        None
    } else if history[from + 1].step_index <= history[from].step_index {
        Some(from)
    } else {
        first_step_drop(history, from + 1)
    }
}

/// What `StepMonotonicityInvariant` reports.
pub open spec fn monotonicity_result(ctx: &VerificationContext) -> ResultView {
    let h = ctx.state_history@;
    match first_step_drop(h, 0) {
        None => ResultView::Passed,
        Some(i) => ResultView::Failed(ViolationView {
            invariant: "StepMonotonicity"@,
            details: "step_index decreased: "@ + decimal(h[i].step_index as nat) + " -> "@
                + decimal(h[i + 1].step_index as nat),
            severity: ViolationSeverity::Critical,
        }),
    }
}

/// One issue for each schema without fields, in the order the schemas are held.
pub open spec fn schema_issues(schemas: Seq<(String, SchemaDef)>) -> Seq<Seq<char>>
    decreases schemas.len(),
{
    if schemas.len() == 0 {
        Seq::empty()
    } else {
        schema_issues(schemas.drop_last()) + if schemas.last().1.fields@.len() == 0 {
            seq![schemas.last().0@ + ": empty schema"@]
        } else {
            Seq::empty()
        }
    }
}

/// What `ContractConsistencyInvariant` reports.
pub open spec fn consistency_result(ctx: &VerificationContext) -> ResultView {
    let s = ctx.contract_schemas@;
    if s.len() == 0 {
        ResultView::Unknown("No contract schemas loaded"@)
    } else if schema_issues(s).len() == 0 {
        ResultView::Passed
    } else {
        ResultView::Failed(ViolationView {
            invariant: "ContractConsistency"@,
            details: join(schema_issues(s), "; "@),
            severity: ViolationSeverity::Critical,
        })
    }
}

// ---------------------------------------------------------------------------
// The invariants.

/// A property checked over a `VerificationContext`.
pub trait Invariant {
    spec fn spec_name(&self) -> Seq<char>;

    spec fn spec_description(&self) -> Seq<char>;

    /// What the check reports on a context.
    spec fn spec_verify(&self, ctx: &VerificationContext) -> ResultView;

    fn name(&self) -> (r: &str)
        ensures
            r@ == self.spec_name(),
    ;

    fn description(&self) -> (r: &str)
        ensures
            r@ == self.spec_description(),
    ;

    fn verify(&self, context: &VerificationContext) -> (r: InvariantResult)
        ensures
            r@ == self.spec_verify(context),
    ;
}

/// Only the boundary runtime (and the kernel it drives) changes simulation state.
#[derive(Debug)]
pub struct BoundaryStateAuthorityInvariant;

impl Invariant for BoundaryStateAuthorityInvariant {
    open spec fn spec_name(&self) -> Seq<char> {
        "BoundaryStateAuthority"@
    }

    open spec fn spec_description(&self) -> Seq<char> {
        "Only BoundaryRuntime can modify simulation state"@
    }

    open spec fn spec_verify(&self, ctx: &VerificationContext) -> ResultView {
        authority_result(ctx)
    }

    fn name(&self) -> (r: &str) {
        "BoundaryStateAuthority"
    }

    fn description(&self) -> (r: &str) {
        "Only BoundaryRuntime can modify simulation state"
    }

    fn verify(&self, ctx: &VerificationContext) -> (r: InvariantResult) {
        let mut details: Vec<String> = Vec::new();
        let mut i: usize = 0;
        while i < ctx.state_updates.len()
            invariant
                i <= ctx.state_updates@.len(),
                details@.map_values(|s: String| s@) =~= Seq::new(
                    foreign_update_count(ctx.state_updates@.take(i as int)),
                    |_j: int| "State modified by External"@,
                ),
            decreases ctx.state_updates.len() - i,
        {
            let source = ctx.state_updates[i].source;
            let ghost before = details@.map_values(|s: String| s@);
            assert(ctx.state_updates@.take(i + 1).drop_last() =~= ctx.state_updates@.take(i as int));
            assert(ctx.state_updates@.take(i + 1).last() == ctx.state_updates@[i as int]);
            if source != StateSource::Boundary && source != StateSource::Kernel {
                details.push(string_from("State modified by External"));
                assert(details@.map_values(|s: String| s@) =~= before.push("State modified by External"@));
            } else {
                assert(details@.map_values(|s: String| s@) =~= before);
            }
            i = i + 1;
        }
        assert(ctx.state_updates@.take(ctx.state_updates@.len() as int) =~= ctx.state_updates@);
        if details.len() == 0 {
            InvariantResult::Passed
        } else {
            InvariantResult::Failed(InvariantViolation {
                invariant: string_from("BoundaryStateAuthority"),
                details: join_strings(&details, "; "),
                severity: ViolationSeverity::Critical,
            })
        }
    }
}

/// The transformation layer is a pure function with no side effects.
#[derive(Debug)]
pub struct CVEPurityInvariant;

impl Invariant for CVEPurityInvariant {
    open spec fn spec_name(&self) -> Seq<char> {
        "CVEPurity"@
    }

    open spec fn spec_description(&self) -> Seq<char> {
        "CVE must be a pure function with no side effects"@
    }

    open spec fn spec_verify(&self, ctx: &VerificationContext) -> ResultView {
        purity_result(ctx)
    }

    fn name(&self) -> (r: &str) {
        "CVEPurity"
    }

    fn description(&self) -> (r: &str) {
        "CVE must be a pure function with no side effects"
    }

    fn verify(&self, ctx: &VerificationContext) -> (r: InvariantResult) {
        match &ctx.cve_analysis {
            None => InvariantResult::Unknown(string_from("No CVE analysis available")),
            Some(analysis) => {
                let mut issues: Vec<String> = Vec::new();
                if analysis.has_static_mut {
                    issues.push(string_from("CVE contains static mutability"));
                }
                if analysis.has_io_operations {
                    issues.push(string_from("CVE contains IO operations"));
                }
                if analysis.has_global_state {
                    issues.push(string_from("CVE contains global state"));
                }
                if analysis.has_non_determinism {
                    issues.push(string_from("CVE may have non-deterministic behavior"));
                }
                assert(issues@.map_values(|s: String| s@) =~= purity_issues(*analysis));
                if issues.len() == 0 {
                    InvariantResult::Passed
                } else {
                    InvariantResult::Failed(InvariantViolation {
                        invariant: string_from("CVEPurity"),
                        details: join_strings(&issues, "; "),
                        severity: ViolationSeverity::Critical,
                    })
                }
            },
        }
    }
}

/// The kernel gives identical output for identical input.
#[derive(Debug)]
pub struct KernelDeterminismInvariant {
    pub iterations: u32,
}

impl KernelDeterminismInvariant {
    pub fn new(iterations: u32) -> (r: Self)
        ensures
            r.iterations == iterations,
    {
        KernelDeterminismInvariant { iterations }
    }
}

impl Invariant for KernelDeterminismInvariant {
    open spec fn spec_name(&self) -> Seq<char> {
        "KernelDeterminism"@
    }

    open spec fn spec_description(&self) -> Seq<char> {
        "Kernel must produce identical output for identical input"@
    }

    open spec fn spec_verify(&self, ctx: &VerificationContext) -> ResultView {
        determinism_result(ctx)
    }

    fn name(&self) -> (r: &str) {
        "KernelDeterminism"
    }

    fn description(&self) -> (r: &str) {
        "Kernel must produce identical output for identical input"
    }

    fn verify(&self, ctx: &VerificationContext) -> (r: InvariantResult) {
        let hashes = &ctx.kernel_hash_runs;
        if hashes.len() < 2 {
            return InvariantResult::Unknown(
                string_from("Insufficient kernel runs for verification"),
            );
        }
        let first = hashes[0];
        let mut i: usize = 1;
        while i < hashes.len()
            invariant
                1 <= i <= hashes@.len(),
                hashes@ == ctx.kernel_hash_runs@,
                first == hashes@[0],
                first_hash_mismatch(hashes@, 1) == first_hash_mismatch(hashes@, i as int),
            decreases hashes.len() - i,
        {
            if hashes[i] != first {
                assert(first_hash_mismatch(hashes@, i as int) == Some(i as int));
                let mut details = string_from("Iteration ");
                push_decimal(&mut details, (i + 1) as u64);
                push_text(&mut details, " hash differs: ");
                push_hex16(&mut details, hashes[i]);
                push_text(&mut details, " vs ");
                push_hex16(&mut details, first);
                assert(details@ =~= "Iteration "@ + decimal((i + 1) as nat) + " hash differs: "@
                    + hex16(hashes@[i as int] as nat) + " vs "@ + hex16(hashes@[0] as nat));
                return InvariantResult::Failed(InvariantViolation {
                    invariant: string_from("KernelDeterminism"),
                    details,
                    severity: ViolationSeverity::Critical,
                });
            }
            i = i + 1;
        }
        InvariantResult::Passed
    }
}

/// `step_index` increases strictly along the recorded history.
#[derive(Debug)]
pub struct StepMonotonicityInvariant;

impl Invariant for StepMonotonicityInvariant {
    open spec fn spec_name(&self) -> Seq<char> {
        "StepMonotonicity"@
    }

    open spec fn spec_description(&self) -> Seq<char> {
        "step_index must always increase monotonically"@
    }

    open spec fn spec_verify(&self, ctx: &VerificationContext) -> ResultView {
        monotonicity_result(ctx)
    }

    fn name(&self) -> (r: &str) {
        "StepMonotonicity"
    }

    fn description(&self) -> (r: &str) {
        "step_index must always increase monotonically"
    }

    fn verify(&self, ctx: &VerificationContext) -> (r: InvariantResult) {
        let history = &ctx.state_history;
        let mut i: usize = 0;
        while history.len() > 0 && i < history.len() - 1
            invariant
                i <= history@.len(),
                history@ == ctx.state_history@,
                first_step_drop(history@, 0) == first_step_drop(history@, i as int),
            decreases history.len() - i,
        {
            let current = history[i].step_index;
            let next = history[i + 1].step_index;
            if next <= current {
                assert(first_step_drop(history@, i as int) == Some(i as int));
                let mut details = string_from("step_index decreased: ");
                push_decimal(&mut details, current);
                push_text(&mut details, " -> ");
                push_decimal(&mut details, next);
                assert(details@ =~= "step_index decreased: "@ + decimal(current as nat) + " -> "@
                    + decimal(next as nat));
                return InvariantResult::Failed(InvariantViolation {
                    invariant: string_from("StepMonotonicity"),
                    details,
                    severity: ViolationSeverity::Critical,
                });
            }
            i = i + 1;
        }
        InvariantResult::Passed
    }
}

/// Every contract schema declares at least one field.
#[derive(Debug)]
pub struct ContractConsistencyInvariant;

impl Invariant for ContractConsistencyInvariant {
    open spec fn spec_name(&self) -> Seq<char> {
        "ContractConsistency"@
    }

    open spec fn spec_description(&self) -> Seq<char> {
        "Protobuf schemas must be consistent across all language bindings"@
    }

    open spec fn spec_verify(&self, ctx: &VerificationContext) -> ResultView {
        consistency_result(ctx)
    }

    fn name(&self) -> (r: &str) {
        "ContractConsistency"
    }

    fn description(&self) -> (r: &str) {
        "Protobuf schemas must be consistent across all language bindings"
    }

    fn verify(&self, ctx: &VerificationContext) -> (r: InvariantResult) {
        let schemas = &ctx.contract_schemas;
        if schemas.len() == 0 {
            return InvariantResult::Unknown(string_from("No contract schemas loaded"));
        }
        let mut issues: Vec<String> = Vec::new();
        let mut i: usize = 0;
        while i < schemas.len()
            invariant
                i <= schemas@.len(),
                schemas@ == ctx.contract_schemas@,
                issues@.map_values(|s: String| s@) =~= schema_issues(schemas@.take(i as int)),
            decreases schemas.len() - i,
        {
            assert(schemas@.take(i + 1).drop_last() =~= schemas@.take(i as int));
            if schemas[i].1.fields.len() == 0 {
                let mut issue = schemas[i].0.clone();
                push_text(&mut issue, ": empty schema");
                issues.push(issue);
            }
            i = i + 1;
        }
        assert(schemas@.take(schemas@.len() as int) =~= schemas@);
        if issues.len() == 0 {
            InvariantResult::Passed
        } else {
            InvariantResult::Failed(InvariantViolation {
                invariant: string_from("ContractConsistency"),
                details: join_strings(&issues, "; "),
                severity: ViolationSeverity::Critical,
            })
        }
    }
}

} // verus!

verus! {

/// The outcome of one invariant in a report.
#[derive(Debug, Clone)]
pub struct InvariantCheck {
    pub name: String,
    pub description: String,
    pub result: InvariantResult,
}

/// The outcome of checking every registered invariant.
#[derive(Debug)]
pub struct VerificationReport {
    /// Milliseconds since the Unix epoch when the report was made.
    pub timestamp: u64,
    pub checks: Vec<InvariantCheck>,
    pub passed: usize,
    pub failed: usize,
}

/// Number of checks that passed.
pub open spec fn passed_count(checks: Seq<InvariantCheck>) -> nat
    decreases checks.len(),
{
    if checks.len() == 0 {
        0
    } else {
        passed_count(checks.drop_last()) + if checks.last().result@ is Passed { 1nat } else { 0nat }
    }
}

/// Number of checks that failed.
pub open spec fn failed_count(checks: Seq<InvariantCheck>) -> nat
    decreases checks.len(),
{
    if checks.len() == 0 {
        0
    } else {
        failed_count(checks.drop_last()) + if checks.last().result@ is Failed { 1nat } else { 0nat }
    }
}

/// `checks` holds, in registration order, what each invariant reports on `ctx`.
pub open spec fn checks_match(invariants: Seq<Box<dyn Invariant>>, ctx: &VerificationContext, checks: Seq<InvariantCheck>) -> bool {
    &&& checks.len() == invariants.len()
    &&& forall|i: int|
        0 <= i < checks.len() ==> {
            &&& (#[trigger] checks[i]).name@ == invariants[i].spec_name()
            &&& checks[i].description@ == invariants[i].spec_description()
            &&& checks[i].result@ == invariants[i].spec_verify(ctx)
        }
}

/// Checks a context against a list of invariants.
pub struct VerificationEngine {
    invariants: Vec<Box<dyn Invariant>>,
}

impl VerificationEngine {
    /// The registered invariants, in registration order.
    pub closed spec fn registered(&self) -> Seq<Box<dyn Invariant>> {
        self.invariants@
    }

    /// An engine with no invariants.
    pub fn new() -> (r: Self)
        ensures
            r.registered().len() == 0,
    {
        VerificationEngine { invariants: Vec::new() }
    }

    /// An engine with the five architectural invariants: boundary state
    /// authority, transformation purity, kernel determinism, step monotonicity,
    /// contract consistency, in that order.
    pub fn with_default_invariants() -> (r: Self)
        ensures
            r.registered().len() == 5,
            r.registered()[0].spec_name() == "BoundaryStateAuthority"@,
            r.registered()[1].spec_name() == "CVEPurity"@,
            r.registered()[2].spec_name() == "KernelDeterminism"@,
            r.registered()[3].spec_name() == "StepMonotonicity"@,
            r.registered()[4].spec_name() == "ContractConsistency"@,
            r.registered()[0].spec_description() == "Only BoundaryRuntime can modify simulation state"@,
            r.registered()[1].spec_description() == "CVE must be a pure function with no side effects"@,
            r.registered()[2].spec_description() == "Kernel must produce identical output for identical input"@,
            r.registered()[3].spec_description() == "step_index must always increase monotonically"@,
            r.registered()[4].spec_description() == "Protobuf schemas must be consistent across all language bindings"@,
            forall|ctx: &VerificationContext| #[trigger] r.registered()[0].spec_verify(ctx) == authority_result(ctx),
            forall|ctx: &VerificationContext| #[trigger] r.registered()[1].spec_verify(ctx) == purity_result(ctx),
            forall|ctx: &VerificationContext| #[trigger] r.registered()[2].spec_verify(ctx) == determinism_result(ctx),
            forall|ctx: &VerificationContext| #[trigger] r.registered()[3].spec_verify(ctx) == monotonicity_result(ctx),
            forall|ctx: &VerificationContext| #[trigger] r.registered()[4].spec_verify(ctx) == consistency_result(ctx),
    {
        let invariants: Vec<Box<dyn Invariant>> = vec![
            Box::new(BoundaryStateAuthorityInvariant),
            Box::new(CVEPurityInvariant),
            Box::new(KernelDeterminismInvariant::new(10)),
            Box::new(StepMonotonicityInvariant),
            Box::new(ContractConsistencyInvariant),
        ];
        VerificationEngine { invariants }
    }

    /// Adds an invariant after those already registered.
    pub fn register(&mut self, entry: Box<dyn Invariant>)
        ensures
            final(self).registered() == old(self).registered().push(entry),
    {
        self.invariants.push(entry);
    }

    /// Checks every registered invariant against `context`, in registration
    /// order, and stamps the report with `timestamp`.
    pub fn verify_all_at(&self, context: &VerificationContext, timestamp: u64) -> (report: VerificationReport)
        ensures
            checks_match(self.registered(), context, report.checks@),
            report.passed == passed_count(report.checks@),
            report.failed == failed_count(report.checks@),
            report.timestamp == timestamp,
    {
        let mut checks: Vec<InvariantCheck> = Vec::new();
        let mut passed: usize = 0;
        let mut failed: usize = 0;
        let mut i: usize = 0;
        while i < self.invariants.len()
            invariant
                i <= self.invariants@.len(),
                checks_match(self.invariants@.take(i as int), context, checks@),
                passed == passed_count(checks@),
                failed == failed_count(checks@),
                passed <= i && failed <= i,
            decreases self.invariants.len() - i,
        {
            let entry = &self.invariants[i];
            let result = entry.verify(context);
            let is_pass = result.is_passed();
            let is_fail = match &result {
                InvariantResult::Failed(_) => true,
                _ => false,
            };
            let check = InvariantCheck {
                name: string_from(entry.name()),
                description: string_from(entry.description()),
                result,
            };
            let ghost before = checks@;
            checks.push(check);
            assert(checks@.drop_last() =~= before);
            if is_pass {
                passed = passed + 1;
            }
            if is_fail {
                failed = failed + 1;
            }
            assert(self.invariants@.take(i + 1).drop_last() =~= self.invariants@.take(i as int));
            i = i + 1;
        }
        assert(self.invariants@.take(self.invariants@.len() as int) =~= self.invariants@);
        VerificationReport { timestamp, checks, passed, failed }
    }

    /// Checks every registered invariant against `context`, in registration
    /// order. The report's timestamp is read from the system clock.
    pub fn verify_all(&self, context: &VerificationContext) -> (report: VerificationReport)
        ensures
            checks_match(self.registered(), context, report.checks@),
            report.passed == passed_count(report.checks@),
            report.failed == failed_count(report.checks@),
    {
        let timestamp = crate::clock::current_timestamp();
        self.verify_all_at(context, timestamp)
    }
}

impl Default for VerificationEngine {
    fn default() -> (r: Self)
        ensures
            r.registered().len() == 5,
    {
        Self::with_default_invariants()
    }
}

impl VerificationReport {
    pub fn is_all_passed(&self) -> (b: bool)
        ensures
            b == (self.failed == 0),
    {
        self.failed == 0
    }

    /// `VerificationReport: <passed>/<checks> passed, <failed> failed`.
    pub fn summary(&self) -> (s: String)
        ensures
            s@ == "VerificationReport: "@ + decimal(self.passed as nat) + "/"@ + decimal(
                self.checks@.len(),
            ) + " passed, "@ + decimal(self.failed as nat) + " failed"@,
    {
        let mut s = string_from("VerificationReport: ");
        push_decimal(&mut s, self.passed as u64);
        push_text(&mut s, "/");
        push_decimal(&mut s, self.checks.len() as u64);
        push_text(&mut s, " passed, ");
        push_decimal(&mut s, self.failed as u64);
        push_text(&mut s, " failed");
        s
    }
}

/// What a scan of source text finds.
pub open spec fn purity_scan(source: Seq<char>) -> CVEAnalysis {
    CVEAnalysis {
        has_static_mut: contains_text(source, "static mut"@),
        has_io_operations: contains_text(source, "std::fs"@) || contains_text(source, "std::net"@),
        has_global_state: contains_text(source, "lazy_static"@) || contains_text(source, "once_cell"@),
        has_non_determinism: false,
    }
}

/// Scans the transformation layer's source for mutable statics, file or network
/// access, and global state.
pub fn analyze_cve_purity(cve_source: &str) -> (a: CVEAnalysis)
    ensures
        a == purity_scan(cve_source@),
{
    CVEAnalysis {
        has_static_mut: text_contains(cve_source, "static mut"),
        has_io_operations: text_contains(cve_source, "std::fs") || text_contains(cve_source, "std::net"),
        has_global_state: text_contains(cve_source, "lazy_static") || text_contains(cve_source, "once_cell"),
        has_non_determinism: false,
    }
}

/// A report counts each check once at most: passed and failed checks together
/// are no more than the checks, and no check failed exactly when the failed
/// count is zero, which is when `is_all_passed` holds.
pub proof fn lemma_report_counts(checks: Seq<InvariantCheck>)
    ensures
        passed_count(checks) + failed_count(checks) <= checks.len(),
        failed_count(checks) == 0 <==> forall|i: int| 0 <= i < checks.len() ==> !((#[trigger] checks[i]).result@ is Failed),
        passed_count(checks) == checks.len() <==> forall|i: int| 0 <= i < checks.len() ==> (#[trigger] checks[i]).result@ is Passed,
    decreases checks.len(),
{
    if checks.len() > 0 {
        let prev = checks.drop_last();
        lemma_report_counts(prev);
        assert forall|i: int| 0 <= i < prev.len() implies #[trigger] prev[i] == checks[i] by {}
        if failed_count(checks) == 0 {
            assert forall|i: int| 0 <= i < checks.len() implies !((#[trigger] checks[i]).result@ is Failed) by {
                if i < prev.len() {
                    assert(prev[i] == checks[i]);
                }
            }
        }
        if forall|i: int| 0 <= i < checks.len() ==> !((#[trigger] checks[i]).result@ is Failed) {
            assert forall|i: int| 0 <= i < prev.len() implies !((#[trigger] prev[i]).result@ is Failed) by {
                assert(prev[i] == checks[i]);
            }
            assert(!(checks[checks.len() - 1].result@ is Failed));
        }
        if passed_count(checks) == checks.len() {
            assert forall|i: int| 0 <= i < checks.len() implies (#[trigger] checks[i]).result@ is Passed by {
                if i < prev.len() {
                    assert(prev[i] == checks[i]);
                }
            }
        }
        if forall|i: int| 0 <= i < checks.len() ==> (#[trigger] checks[i]).result@ is Passed {
            assert forall|i: int| 0 <= i < prev.len() implies (#[trigger] prev[i]).result@ is Passed by {
                assert(prev[i] == checks[i]);
            }
            assert(checks[checks.len() - 1].result@ is Passed);
        }
    }
}

proof fn lemma_no_drop_from(h: Seq<StateSnapshot>, from: int)
    requires
        0 <= from,
    ensures
        first_step_drop(h, from) is None <==> forall|i: int| from <= i && i + 1 < h.len() ==> #[trigger] h[i].step_index
            < h[i + 1].step_index,
    decreases h.len() - from,
{
    if from + 1 < h.len() {
        lemma_no_drop_from(h, from + 1);
        if first_step_drop(h, from) is None {
            assert forall|i: int| from <= i && i + 1 < h.len() implies #[trigger] h[i].step_index < h[i + 1].step_index by {
                if i > from {
                    assert(from + 1 <= i);
                }
            }
        }
    }
}

/// Step monotonicity passes exactly when every recorded step index is below
/// the next one, as the boundary's accepted updates make them.
pub proof fn lemma_monotonicity_passes_iff_increasing(ctx: &VerificationContext)
    ensures
        monotonicity_result(ctx) is Passed <==> forall|i: int|
            0 <= i && i + 1 < ctx.state_history@.len() ==> #[trigger] ctx.state_history@[i].step_index
                < ctx.state_history@[i + 1].step_index,
{
    lemma_no_drop_from(ctx.state_history@, 0);
}

proof fn lemma_no_mismatch_from(h: Seq<u64>, from: int)
    requires
        1 <= from,
    ensures
        first_hash_mismatch(h, from) is None <==> forall|i: int| from <= i < h.len() ==> #[trigger] h[i] == h[0],
    decreases h.len() - from,
{
    if from < h.len() {
        lemma_no_mismatch_from(h, from + 1);
    }
}

/// Kernel determinism passes exactly when at least two runs were recorded and
/// every run produced the hash of the first.
pub proof fn lemma_determinism_passes_iff_all_equal(ctx: &VerificationContext)
    ensures
        determinism_result(ctx) is Passed <==> ctx.kernel_hash_runs@.len() >= 2 && forall|i: int|
            0 <= i < ctx.kernel_hash_runs@.len() ==> #[trigger] ctx.kernel_hash_runs@[i] == ctx.kernel_hash_runs@[0],
{
    let h = ctx.kernel_hash_runs@;
    lemma_no_mismatch_from(h, 1);
    if h.len() >= 2 && (forall|i: int| 1 <= i < h.len() ==> #[trigger] h[i] == h[0]) {
        assert forall|i: int| 0 <= i < h.len() implies #[trigger] h[i] == h[0] by {
            if i >= 1 {
                assert(h[i] == h[0]);
            }
        }
    }
}

/// The purity scan reports what the transformation's source holds: a mutable
/// static where `static mut` occurs, file or network access where `std::fs` or
/// `std::net` occurs, global state where `lazy_static` or `once_cell` occurs,
/// and nothing else; the purity invariant passes on that analysis exactly when
/// none of these occurs, and fails as soon as one does.
pub proof fn lemma_purity_scan_reports_patterns(source: Seq<char>, ctx: &VerificationContext)
    requires
        ctx.cve_analysis == Some(purity_scan(source)),
    ensures
        forall|i: int| 0 <= i && i + 10 <= source.len() && #[trigger] source.subrange(i, i + 10) == "static mut"@ ==> {
            &&& purity_scan(source).has_static_mut
            &&& purity_result(ctx) is Failed
        },
        forall|i: int| 0 <= i && i + 7 <= source.len() && #[trigger] source.subrange(i, i + 7) == "std::fs"@ ==> {
            &&& purity_scan(source).has_io_operations
            &&& purity_result(ctx) is Failed
        },
        forall|i: int| 0 <= i && i + 8 <= source.len() && #[trigger] source.subrange(i, i + 8) == "std::net"@ ==> {
            &&& purity_scan(source).has_io_operations
            &&& purity_result(ctx) is Failed
        },
        forall|i: int| 0 <= i && i + 11 <= source.len() && #[trigger] source.subrange(i, i + 11) == "lazy_static"@ ==> {
            &&& purity_scan(source).has_global_state
            &&& purity_result(ctx) is Failed
        },
        forall|i: int| 0 <= i && i + 9 <= source.len() && #[trigger] source.subrange(i, i + 9) == "once_cell"@ ==> {
            &&& purity_scan(source).has_global_state
            &&& purity_result(ctx) is Failed
        },
        purity_scan(source).has_static_mut <==> (exists|i: int| 0 <= i && i + 10 <= source.len() && #[trigger] source.subrange(i, i + 10) == "static mut"@),
        purity_scan(source).has_io_operations <==> (exists|i: int| 0 <= i && i + 7 <= source.len() && #[trigger] source.subrange(i, i + 7) == "std::fs"@) || (exists|i: int| 0 <= i && i + 8 <= source.len() && #[trigger] source.subrange(i, i + 8) == "std::net"@),
        purity_scan(source).has_global_state <==> (exists|i: int| 0 <= i && i + 11 <= source.len() && #[trigger] source.subrange(i, i + 11) == "lazy_static"@) || (exists|i: int| 0 <= i && i + 9 <= source.len() && #[trigger] source.subrange(i, i + 9) == "once_cell"@),
        !purity_scan(source).has_non_determinism,
        purity_result(ctx) is Passed <==> !purity_scan(source).has_static_mut && !purity_scan(source).has_io_operations
            && !purity_scan(source).has_global_state,
{
    reveal_strlit("static mut");
    reveal_strlit("std::fs");
    reveal_strlit("std::net");
    reveal_strlit("lazy_static");
    reveal_strlit("once_cell");
    let a = purity_scan(source);
    assert forall|i: int| 0 <= i && i + 10 <= source.len() && #[trigger] source.subrange(i, i + 10) == "static mut"@ implies {
        &&& purity_scan(source).has_static_mut
        &&& purity_result(ctx) is Failed
    } by {
        assert("static mut"@.len() == 10);
        assert(source.subrange(i, i + "static mut"@.len()) == "static mut"@);
        assert(contains_text(source, "static mut"@));
    }
    assert forall|i: int| 0 <= i && i + 7 <= source.len() && #[trigger] source.subrange(i, i + 7) == "std::fs"@ implies {
        &&& purity_scan(source).has_io_operations
        &&& purity_result(ctx) is Failed
    } by {
        assert("std::fs"@.len() == 7);
        assert(source.subrange(i, i + "std::fs"@.len()) == "std::fs"@);
        assert(contains_text(source, "std::fs"@));
    }
    assert forall|i: int| 0 <= i && i + 8 <= source.len() && #[trigger] source.subrange(i, i + 8) == "std::net"@ implies {
        &&& purity_scan(source).has_io_operations
        &&& purity_result(ctx) is Failed
    } by {
        assert("std::net"@.len() == 8);
        assert(source.subrange(i, i + "std::net"@.len()) == "std::net"@);
        assert(contains_text(source, "std::net"@));
    }
    assert forall|i: int| 0 <= i && i + 11 <= source.len() && #[trigger] source.subrange(i, i + 11) == "lazy_static"@ implies {
        &&& purity_scan(source).has_global_state
        &&& purity_result(ctx) is Failed
    } by {
        assert("lazy_static"@.len() == 11);
        assert(source.subrange(i, i + "lazy_static"@.len()) == "lazy_static"@);
        assert(contains_text(source, "lazy_static"@));
    }
    assert forall|i: int| 0 <= i && i + 9 <= source.len() && #[trigger] source.subrange(i, i + 9) == "once_cell"@ implies {
        &&& purity_scan(source).has_global_state
        &&& purity_result(ctx) is Failed
    } by {
        assert("once_cell"@.len() == 9);
        assert(source.subrange(i, i + "once_cell"@.len()) == "once_cell"@);
        assert(contains_text(source, "once_cell"@));
    }
    assert(a.has_static_mut || a.has_io_operations || a.has_global_state ==> purity_issues(a).len() > 0);
    assert(!a.has_static_mut && !a.has_io_operations && !a.has_global_state ==> purity_issues(a).len() == 0);
}

} // verus!
