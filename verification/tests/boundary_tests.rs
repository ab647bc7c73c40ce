use std::sync::Arc;

use bloodorchid::boundary::payload::{
    evaluate_invariant_request, validate_simulation_state_payload, InvariantRequest,
    BOUNDARY_INVARIANTS_CONTRACT_PATH,
};
use bloodorchid::boundary::runtime::{validate, BoundaryRuntime, ExecutionError, KernelFrame, ValidationError};
use bloodorchid::boundary::state::{FieldTensor, SimulationState};

fn field(width: u32, height: u32, values: Vec<f32>) -> FieldTensor {
    FieldTensor {
        field_name: "temperature".to_string(),
        field_kind: "scalar".to_string(),
        width,
        height,
        channels: 1,
        cell_spacing: 1.0f32.to_bits(),
        values: values.iter().map(|v| v.to_bits()).collect(),
    }
}

fn make_valid_state(step_index: u64) -> SimulationState {
    SimulationState {
        simulation_id: "mves-heat-2d".to_string(),
        solver_kind: "heat_reference".to_string(),
        step_index,
        simulation_time: (step_index as f64 * 0.1).to_bits(),
        primary_field: Some(field(3, 3, vec![0.1_f32, 0.2, 0.3, 0.4, 0.5, 0.6, 0.7, 0.8, 0.9])),
    }
}

fn create_initial_state() -> SimulationState {
    SimulationState {
        simulation_id: "mves-heat-2d".to_string(),
        solver_kind: "heat_reference".to_string(),
        step_index: 0,
        simulation_time: 0.0f64.to_bits(),
        primary_field: Some(field(3, 3, vec![0.0_f32; 9])),
    }
}

fn reason_of(r: Result<(), ValidationError>) -> String {
    r.unwrap_err().reason
}

#[test]
fn test_boundary_enforcement() {
    let invalid_state = SimulationState {
        simulation_id: "".to_string(),
        solver_kind: "test".to_string(),
        step_index: 0,
        simulation_time: 0.0f64.to_bits(),
        primary_field: Some(FieldTensor {
            field_name: "test".to_string(),
            field_kind: "scalar".to_string(),
            width: 3,
            height: 3,
            channels: 1,
            cell_spacing: 1.0f32.to_bits(),
            values: vec![0.0f32.to_bits(); 9],
        }),
    };

    let result = BoundaryRuntime::init(invalid_state);
    assert!(result.is_err());
}

#[test]
fn test_boundary_initialization_validation() {
    let valid_state = make_valid_state(0);
    let result = BoundaryRuntime::init(valid_state);
    assert!(result.is_ok());

    let empty_id_state = SimulationState { simulation_id: "".to_string(), ..make_valid_state(0) };
    let result = BoundaryRuntime::init(empty_id_state);
    assert!(result.is_err());

    let missing_field_state = SimulationState { primary_field: None, ..make_valid_state(0) };
    let result = BoundaryRuntime::init(missing_field_state);
    assert!(result.is_err());
}

#[test]
fn test_boundary_update_monotonicity() {
    let mut runtime = BoundaryRuntime::init(make_valid_state(0)).unwrap();

    let same_step = make_valid_state(0);
    let result = runtime.update(same_step);
    assert!(result.is_err());
    assert!(result.unwrap_err().reason.contains("strictly increase"));

    let lower_step = make_valid_state(0);
    let result = runtime.update(lower_step);
    assert!(result.is_err());

    let valid_next = make_valid_state(5);
    let mut runtime = BoundaryRuntime::init(make_valid_state(0)).unwrap();
    let result = runtime.update(valid_next);
    assert!(result.is_ok());
}

#[test]
fn test_boundary_identity_protection() {
    let mut runtime = BoundaryRuntime::init(make_valid_state(0)).unwrap();

    let mut different_id = make_valid_state(1);
    different_id.simulation_id = "different-sim".to_string();
    let result = runtime.update(different_id);
    assert!(result.is_err());
    assert!(result.unwrap_err().reason.contains("simulation_id"));

    let mut different_solver = make_valid_state(1);
    different_solver.solver_kind = "different-solver".to_string();
    let result = runtime.update(different_solver);
    assert!(result.is_err());
    assert!(result.unwrap_err().reason.contains("solver_kind"));
}

#[test]
fn test_snapshot_immutability_guarantee() {
    let runtime = BoundaryRuntime::init(make_valid_state(0)).unwrap();
    let snapshot1 = runtime.get_snapshot();
    let snapshot2 = runtime.get_snapshot();

    assert!(Arc::ptr_eq(&snapshot1, &snapshot2));
}

#[test]
fn test_atomic_update_failure_recovery() {
    let mut runtime = BoundaryRuntime::init(make_valid_state(0)).unwrap();

    let invalid_next = SimulationState { step_index: 1, ..make_valid_state(0) };
    let update_result = runtime.update(invalid_next);
    assert!(update_result.is_err());

    let snapshot = runtime.get_snapshot();
    assert_eq!(snapshot.step_index, 0);
}

#[test]
fn boundary_validates_kernel_output() {
    let invalid_state = SimulationState {
        simulation_id: "mves-heat-2d".to_string(),
        solver_kind: "heat_reference".to_string(),
        step_index: 0,
        simulation_time: 0.0f64.to_bits(),
        primary_field: Some(FieldTensor {
            field_name: "temperature".to_string(),
            field_kind: "scalar".to_string(),
            width: 1,
            height: 1,
            channels: 1,
            cell_spacing: 1.0f32.to_bits(),
            values: vec![0.0f32.to_bits()],
        }),
    };

    let result = BoundaryRuntime::init(invalid_state);
    assert!(result.is_err(), "should reject < 2x2 grid");
}

#[test]
fn boundary_enforces_simulation_id_integrity() {
    let initial = create_initial_state();
    let mut boundary = BoundaryRuntime::init(initial).expect("boundary init should succeed");

    let mut bad_state = create_initial_state();
    bad_state.simulation_id = "different-sim".to_string();
    bad_state.step_index = 1;

    let result = boundary.update(bad_state);
    assert!(result.is_err(), "should reject simulation_id change");
}

#[test]
fn boundary_enforces_step_monotonicity() {
    let initial = create_initial_state();
    let mut boundary = BoundaryRuntime::init(initial).expect("boundary init should succeed");

    let mut same_step = create_initial_state();
    same_step.step_index = 0;

    let result = boundary.update(same_step);
    assert!(result.is_err(), "should reject same step_index");
}

#[test]
fn validation_reasons_follow_the_check_order() {
    let blank_id = SimulationState { simulation_id: " \t".to_string(), ..make_valid_state(0) };
    assert_eq!(reason_of(validate(&blank_id)), "simulation_id must not be empty");
    let blank_solver = SimulationState { solver_kind: "".to_string(), ..make_valid_state(0) };
    assert_eq!(reason_of(validate(&blank_solver)), "solver_kind must not be empty");
    let no_field = SimulationState { primary_field: None, ..make_valid_state(0) };
    assert_eq!(reason_of(validate(&no_field)), "primary_field is missing");
    let small = SimulationState { primary_field: Some(field(2, 1, vec![0.0, 0.0])), ..make_valid_state(0) };
    assert_eq!(reason_of(validate(&small)), "primary_field grid must be at least 2x2");
    let mut no_channels = field(2, 2, vec![0.0; 4]);
    no_channels.channels = 0;
    let s = SimulationState { primary_field: Some(no_channels), ..make_valid_state(0) };
    assert_eq!(reason_of(validate(&s)), "primary_field channels must be >= 1");
    let mut bad_spacing = field(2, 2, vec![0.0; 4]);
    bad_spacing.cell_spacing = 0.0f32.to_bits();
    let s = SimulationState { primary_field: Some(bad_spacing), ..make_valid_state(0) };
    assert_eq!(reason_of(validate(&s)), "primary_field cell_spacing must be finite and positive");
    let mut inf_spacing = field(2, 2, vec![0.0; 4]);
    inf_spacing.cell_spacing = f32::INFINITY.to_bits();
    let s = SimulationState { primary_field: Some(inf_spacing), ..make_valid_state(0) };
    assert_eq!(reason_of(validate(&s)), "primary_field cell_spacing must be finite and positive");
    let short = SimulationState { primary_field: Some(field(2, 2, vec![0.0; 3])), ..make_valid_state(0) };
    assert_eq!(reason_of(validate(&short)), "primary_field values length mismatch: expected 4, got 3");
    let nan = SimulationState { primary_field: Some(field(2, 2, vec![0.0, f32::NAN, 0.0, 0.0])), ..make_valid_state(0) };
    assert_eq!(reason_of(validate(&nan)), "primary_field contains non-finite values");
    let negative_time = SimulationState { simulation_time: (-0.5f64).to_bits(), ..make_valid_state(0) };
    assert_eq!(reason_of(validate(&negative_time)), "simulation_time must be finite and non-negative");
    let nan_time = SimulationState { simulation_time: f64::NAN.to_bits(), ..make_valid_state(0) };
    assert_eq!(reason_of(validate(&nan_time)), "simulation_time must be finite and non-negative");
    let negative_zero = SimulationState { simulation_time: (-0.0f64).to_bits(), ..make_valid_state(0) };
    assert!(validate(&negative_zero).is_ok());
}

#[test]
fn update_messages_name_both_values() {
    let mut runtime = BoundaryRuntime::init(make_valid_state(3)).unwrap();
    let err = runtime.update(make_valid_state(2)).unwrap_err();
    assert_eq!(err.reason, "step_index must strictly increase: current=3, proposed=2");
    let later_but_same_time = SimulationState { step_index: 4, ..make_valid_state(3) };
    let err = runtime.update(later_but_same_time).unwrap_err();
    assert_eq!(
        err.reason,
        format!(
            "simulation_time must increase: current=0x{:016x}, proposed=0x{:016x}",
            (3.0f64 * 0.1).to_bits(),
            (3.0f64 * 0.1).to_bits()
        )
    );
    assert_eq!(err.message(), format!("ValidationError: {}", err.reason));
    let id_change = SimulationState { simulation_id: "other".to_string(), ..make_valid_state(4) };
    assert_eq!(
        runtime.update(id_change).unwrap_err().reason,
        "simulation_id mismatch: cannot switch simulation context"
    );
    let solver_change = SimulationState { solver_kind: "other".to_string(), ..make_valid_state(4) };
    assert_eq!(
        runtime.update(solver_change).unwrap_err().reason,
        "solver_kind mismatch: cannot change solver mid-simulation"
    );
    assert_eq!(runtime.get_snapshot().step_index, 3);
    runtime.update(make_valid_state(4)).unwrap();
    assert_eq!(runtime.get_snapshot().step_index, 4);
}

#[test]
fn step_takes_the_kernel_result() {
    let mut runtime = BoundaryRuntime::init(make_valid_state(0)).unwrap();
    let advanced: Vec<u32> = vec![0.5f32.to_bits(); 9];
    let time = (4.0f64 * 0.1).to_bits();
    let snapshot = runtime.step(4, Some(KernelFrame { width: 3, height: 3, values: advanced.clone() }), time).unwrap();
    assert_eq!(snapshot.step_index, 4);
    assert_eq!(snapshot.simulation_time, time);
    assert_eq!(snapshot.simulation_id, "mves-heat-2d");
    let f = snapshot.primary_field.as_ref().unwrap();
    assert_eq!(f.values, advanced);
    assert_eq!(f.width, 3);
    assert_eq!(f.field_name, "temperature");
    assert_eq!(runtime.get_snapshot().step_index, 4);
}

#[test]
fn failed_kernel_leaves_the_frame() {
    let mut runtime = BoundaryRuntime::init(make_valid_state(2)).unwrap();
    let err: ExecutionError = runtime.step(1, None, 0).unwrap_err();
    assert_eq!(err.reason, "kernel advance state failed");
    assert_eq!(err.message(), "ExecutionError: kernel advance state failed");
    assert_eq!(runtime.get_snapshot().step_index, 2);
}

fn valid_state_bytes() -> Vec<u8> {
    br#"{"simulation_id":"fixture-sim","solver_kind":"heat_reference","step_index":8}"#.to_vec()
}

fn fixture_state() -> SimulationState {
    SimulationState {
        simulation_id: "fixture-sim".to_string(),
        solver_kind: "heat_reference".to_string(),
        step_index: 8,
        simulation_time: 0.8f64.to_bits(),
        primary_field: Some(field(2, 2, vec![0.0, 0.25, 0.5, 0.75])),
    }
}

fn decode_error(bytes: &[u8]) -> String {
    serde_json::from_slice::<serde_json::Value>(bytes).unwrap_err().to_string()
}

#[test]
fn accepts_valid_simulation_state_fixture() {
    let req = InvariantRequest { simulation_state: valid_state_bytes() };
    let resp = evaluate_invariant_request(&req, Ok(fixture_state()));
    assert!(resp.accepted);
    assert!(resp.violations.is_empty());
}

#[test]
fn rejects_malformed_simulation_state_fixture() {
    let req = InvariantRequest { simulation_state: vec![0xff, 0x01, 0x00] };
    let err = decode_error(&req.simulation_state);
    let resp = evaluate_invariant_request(&req, Err(err.clone()));
    assert!(!resp.accepted);
    assert!(!resp.violations.is_empty());
    assert_eq!(resp.violations, vec![format!("simulation_state decode failed: {}", err)]);
}

#[test]
fn payload_checks_emptiness_then_frame() {
    assert_eq!(
        validate_simulation_state_payload(&[], Ok(fixture_state())),
        Err("simulation_state is empty".to_string())
    );
    let blank = SimulationState { solver_kind: " ".to_string(), ..fixture_state() };
    assert_eq!(
        validate_simulation_state_payload(&valid_state_bytes(), Ok(blank)),
        Err("solver_kind must not be empty".to_string())
    );
    assert_eq!(validate_simulation_state_payload(&valid_state_bytes(), Ok(fixture_state())), Ok(()));
    assert_eq!(BOUNDARY_INVARIANTS_CONTRACT_PATH, "contracts/boundary_invariants/contracts.proto");
}

#[test]
fn step_refuses_invalid_kernel_output() {
    let mut runtime = BoundaryRuntime::init(make_valid_state(2)).unwrap();
    let err = runtime.step(1, Some(KernelFrame { width: 3, height: 3, values: vec![] }), (0.3f64).to_bits()).unwrap_err();
    assert_eq!(err.reason, "primary_field values length mismatch: expected 9, got 0");
    let err = runtime.step(1, Some(KernelFrame { width: 3, height: 3, values: vec![f32::INFINITY.to_bits(); 9] }), (0.3f64).to_bits()).unwrap_err();
    assert_eq!(err.reason, "primary_field contains non-finite values");
    let err = runtime.step(1, Some(KernelFrame { width: 3, height: 3, values: vec![0; 9] }), f64::NAN.to_bits()).unwrap_err();
    assert_eq!(err.reason, "simulation_time must be finite and non-negative");
    assert_eq!(runtime.get_snapshot().step_index, 2);
    assert!(validate(&runtime.get_snapshot()).is_ok());
}

#[test]
fn step_takes_the_kernel_grid() {
    let mut runtime = BoundaryRuntime::init(make_valid_state(0)).unwrap();
    let err = runtime
        .step(1, Some(KernelFrame { width: 1, height: 12, values: vec![0; 12] }), 0.1f64.to_bits())
        .unwrap_err();
    assert_eq!(err.reason, "primary_field grid must be at least 2x2");
    let snapshot = runtime
        .step(8, Some(KernelFrame { width: 12, height: 12, values: vec![0.5f32.to_bits(); 144] }), 0.8f64.to_bits())
        .unwrap();
    let f = snapshot.primary_field.as_ref().unwrap();
    assert_eq!((f.width, f.height, f.channels), (12, 12, 1));
    assert_eq!(f.values.len(), 144);
    assert_eq!(snapshot.step_index, 8);
    assert!(validate(&snapshot).is_ok());
}
