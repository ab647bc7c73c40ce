use bloodorchid::boundary::invariants::{
    analyze_cve_purity, BoundaryStateAuthorityInvariant, CVEPurityInvariant,
    ContractConsistencyInvariant, Invariant, InvariantResult, KernelDeterminismInvariant,
    SchemaDef, SchemaField, StateSnapshot, StateSource, StateUpdate, StepMonotonicityInvariant,
    VerificationContext, VerificationEngine, ViolationSeverity,
};

fn make_context_with_history(steps: Vec<u64>) -> VerificationContext {
    let history: Vec<StateSnapshot> = steps
        .iter()
        .enumerate()
        .map(|(i, &step)| StateSnapshot {
            step_index: step,
            simulation_id: "test".to_string(),
            state_hash: 0x1000 + i as u64,
            timestamp_ms: i as u64 * 100,
        })
        .collect();

    VerificationContext { state_history: history, ..Default::default() }
}

fn failure_details(result: InvariantResult) -> String {
    match result {
        InvariantResult::Failed(v) => {
            assert_eq!(v.severity, ViolationSeverity::Critical);
            v.details
        }
        other => panic!("expected a failure, got {:?}", other),
    }
}

#[test]
fn test_step_monotonicity_pass() {
    let invariant = StepMonotonicityInvariant;
    let ctx = make_context_with_history(vec![1, 2, 3, 4, 5]);
    let result = invariant.verify(&ctx);

    assert!(result.is_passed());
}

#[test]
fn test_step_monotonicity_fail() {
    let invariant = StepMonotonicityInvariant;
    let ctx = make_context_with_history(vec![1, 3, 2, 4, 5]);
    let result = invariant.verify(&ctx);

    assert!(!result.is_passed());
}

#[test]
fn test_kernel_determinism_pass() {
    let invariant = KernelDeterminismInvariant::new(5);
    let ctx = VerificationContext {
        kernel_hash_runs: vec![0xABC, 0xABC, 0xABC, 0xABC, 0xABC],
        ..Default::default()
    };
    let result = invariant.verify(&ctx);

    assert!(result.is_passed());
}

#[test]
fn test_kernel_determinism_fail() {
    let invariant = KernelDeterminismInvariant::new(3);
    let ctx = VerificationContext {
        kernel_hash_runs: vec![0xABC, 0xDEF, 0xABC],
        ..Default::default()
    };
    let result = invariant.verify(&ctx);

    assert!(!result.is_passed());
}

#[test]
fn test_cve_purity_pass() {
    let invariant = CVEPurityInvariant;
    let source = "fn transform(state: &SimulationState) -> Result<GeometryScene, String> { ... }";
    let analysis = analyze_cve_purity(source);
    let ctx = VerificationContext { cve_analysis: Some(analysis), ..Default::default() };
    let result = invariant.verify(&ctx);

    assert!(result.is_passed());
}

#[test]
fn test_cve_purity_fail() {
    let invariant = CVEPurityInvariant;
    let source = "static mut GLOBAL: u32 = 0; fn foo() { std::fs::read(...) }";
    let analysis = analyze_cve_purity(source);
    let ctx = VerificationContext { cve_analysis: Some(analysis), ..Default::default() };
    let result = invariant.verify(&ctx);

    assert!(!result.is_passed());
}

#[test]
fn test_verification_engine() {
    let engine = VerificationEngine::with_default_invariants();
    let ctx = make_context_with_history(vec![1, 2, 3]);
    let report = engine.verify_all(&ctx);

    assert_eq!(report.checks.len(), 5);
    println!("{}", report.summary());
}

#[test]
fn step_monotonicity_reports_the_first_drop() {
    let ctx = make_context_with_history(vec![1, 3, 3, 2]);
    let details = failure_details(StepMonotonicityInvariant.verify(&ctx));
    assert_eq!(details, "step_index decreased: 3 -> 3");
}

#[test]
fn kernel_determinism_reports_iteration_and_hashes() {
    let ctx = VerificationContext { kernel_hash_runs: vec![0xABC, 0xABC, 0xDEF], ..Default::default() };
    let details = failure_details(KernelDeterminismInvariant::new(3).verify(&ctx));
    assert_eq!(details, "Iteration 3 hash differs: 0000000000000def vs 0000000000000abc");
}

#[test]
fn kernel_determinism_needs_two_runs() {
    let ctx = VerificationContext { kernel_hash_runs: vec![0xABC], ..Default::default() };
    match KernelDeterminismInvariant::new(1).verify(&ctx) {
        InvariantResult::Unknown(m) => assert_eq!(m, "Insufficient kernel runs for verification"),
        other => panic!("unexpected {:?}", other),
    }
}

#[test]
fn purity_scan_finds_each_pattern() {
    let a = analyze_cve_purity("lazy_static! { } std::net::TcpStream once_cell");
    assert!(!a.has_static_mut);
    assert!(a.has_io_operations);
    assert!(a.has_global_state);
    assert!(!a.has_non_determinism);
    let ctx = VerificationContext { cve_analysis: Some(a), ..Default::default() };
    let details = failure_details(CVEPurityInvariant.verify(&ctx));
    assert_eq!(details, "CVE contains IO operations; CVE contains global state");
}

#[test]
fn purity_without_analysis_is_unknown() {
    let ctx = VerificationContext::default();
    match CVEPurityInvariant.verify(&ctx) {
        InvariantResult::Unknown(m) => assert_eq!(m, "No CVE analysis available"),
        other => panic!("unexpected {:?}", other),
    }
}

#[test]
fn boundary_authority_counts_external_updates() {
    let ctx = VerificationContext {
        state_updates: vec![
            StateUpdate { source: StateSource::Boundary, step_index: 1, state_hash: 1 },
            StateUpdate { source: StateSource::External, step_index: 2, state_hash: 2 },
            StateUpdate { source: StateSource::Kernel, step_index: 3, state_hash: 3 },
            StateUpdate { source: StateSource::External, step_index: 4, state_hash: 4 },
        ],
        ..Default::default()
    };
    let details = failure_details(BoundaryStateAuthorityInvariant.verify(&ctx));
    assert_eq!(details, "State modified by External; State modified by External");
    let clean = VerificationContext {
        state_updates: vec![StateUpdate { source: StateSource::Kernel, step_index: 1, state_hash: 1 }],
        ..Default::default()
    };
    assert!(BoundaryStateAuthorityInvariant.verify(&clean).is_passed());
}

#[test]
fn contract_consistency_flags_empty_schemas() {
    let mut ctx = VerificationContext::default();
    match ContractConsistencyInvariant.verify(&ctx) {
        InvariantResult::Unknown(m) => assert_eq!(m, "No contract schemas loaded"),
        other => panic!("unexpected {:?}", other),
    }
    ctx.insert_schema(
        "State".to_string(),
        SchemaDef {
            name: "State".to_string(),
            fields: vec![SchemaField { name: "id".to_string(), ty: "string".to_string() }],
        },
    );
    assert!(ContractConsistencyInvariant.verify(&ctx).is_passed());
    ctx.insert_schema("Empty".to_string(), SchemaDef { name: "Empty".to_string(), fields: vec![] });
    let details = failure_details(ContractConsistencyInvariant.verify(&ctx));
    assert_eq!(details, "Empty: empty schema");
    ctx.insert_schema("Empty".to_string(), SchemaDef { name: "Empty".to_string(), fields: vec![] });
    assert_eq!(ctx.contract_schemas.len(), 2);
}

#[test]
fn engine_reports_in_registration_order_with_counts() {
    let engine = VerificationEngine::with_default_invariants();
    let ctx = make_context_with_history(vec![1, 2, 3]);
    let report = engine.verify_all(&ctx);
    let names: Vec<&str> = report.checks.iter().map(|c| c.name.as_str()).collect();
    assert_eq!(
        names,
        vec!["BoundaryStateAuthority", "CVEPurity", "KernelDeterminism", "StepMonotonicity", "ContractConsistency"]
    );
    assert_eq!(report.passed, 2);
    assert_eq!(report.failed, 0);
    assert!(report.is_all_passed());
    assert_eq!(report.summary(), "VerificationReport: 2/5 passed, 0 failed");
}

#[test]
fn engine_counts_failures() {
    let mut engine = VerificationEngine::new();
    engine.register(Box::new(StepMonotonicityInvariant));
    engine.register(Box::new(KernelDeterminismInvariant::new(2)));
    let ctx = VerificationContext {
        kernel_hash_runs: vec![1, 1],
        ..make_context_with_history(vec![2, 1])
    };
    let report = engine.verify_all(&ctx);
    assert_eq!(report.checks.len(), 2);
    assert_eq!(report.passed, 1);
    assert_eq!(report.failed, 1);
    assert!(!report.is_all_passed());
    assert_eq!(report.summary(), "VerificationReport: 1/2 passed, 1 failed");
}

#[test]
fn invariant_names_and_descriptions() {
    assert_eq!(StepMonotonicityInvariant.name(), "StepMonotonicity");
    assert_eq!(StepMonotonicityInvariant.description(), "step_index must always increase monotonically");
    assert_eq!(CVEPurityInvariant.name(), "CVEPurity");
    assert_eq!(KernelDeterminismInvariant::new(1).name(), "KernelDeterminism");
}
