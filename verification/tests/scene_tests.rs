use std::sync::Arc;

use bloodorchid::boundary::runtime::BoundaryRuntime;
use bloodorchid::boundary::state::{FieldTensor, SimulationState};
use bloodorchid::cve::{
    map_state_to_scene, mesh_triangle_indices, scene_id_for, stable_hash64, vertex_coordinates,
    GeometryScene, StateCache,
};

fn coords(n: u32, spacing: f32) -> Vec<u32> {
    (0..n).map(|i| (i as f32 * spacing).to_bits()).collect()
}

fn extremes(values: &[u32]) -> (u32, u32) {
    let floats: Vec<f32> = values.iter().map(|b| f32::from_bits(*b)).collect();
    let min = floats.iter().cloned().fold(f32::INFINITY, f32::min);
    let max = floats.iter().cloned().fold(f32::NEG_INFINITY, f32::max);
    (min.to_bits(), max.to_bits())
}

fn scene_of(state: &SimulationState) -> Result<GeometryScene, String> {
    match &state.primary_field {
        None => map_state_to_scene(state, &Vec::new(), &Vec::new(), 0, 0),
        Some(f) => {
            let spacing = f32::from_bits(f.cell_spacing);
            let (min, max) = extremes(&f.values);
            map_state_to_scene(state, &coords(f.width, spacing), &coords(f.height, spacing), min, max)
        }
    }
}

fn positions_f32(scene: &GeometryScene) -> Vec<f32> {
    scene.positions.iter().map(|b| f32::from_bits(*b)).collect()
}

fn state(id: &str, step_index: u64, width: u32, height: u32, spacing: f32, values: Vec<f32>) -> SimulationState {
    SimulationState {
        simulation_id: id.to_string(),
        solver_kind: "heat".to_string(),
        step_index,
        simulation_time: (step_index as f64 * 0.1).to_bits(),
        primary_field: Some(FieldTensor {
            field_name: "temperature".to_string(),
            field_kind: "scalar".to_string(),
            width,
            height,
            channels: 1,
            cell_spacing: spacing.to_bits(),
            values: values.iter().map(|v| v.to_bits()).collect(),
        }),
    }
}

fn create_valid_state() -> SimulationState {
    SimulationState {
        simulation_id: "mves-heat-2d".to_string(),
        solver_kind: "heat_reference".to_string(),
        step_index: 5,
        simulation_time: 0.5f64.to_bits(),
        primary_field: Some(FieldTensor {
            field_name: "temperature".to_string(),
            field_kind: "scalar".to_string(),
            width: 3,
            height: 3,
            channels: 1,
            cell_spacing: 1.0f32.to_bits(),
            values: vec![0.1_f32, 0.2, 0.3, 0.4, 0.5, 0.6, 0.7, 0.8, 0.9]
                .iter()
                .map(|v| v.to_bits())
                .collect(),
        }),
    }
}

#[test]
fn mapping_builds_expected_mesh_sizes() {
    let state = state("sim", 5, 3, 3, 2.0, vec![0.0, 0.1, 0.2, 0.3, 0.4, 0.5, 0.6, 0.7, 0.8]);

    let scene = scene_of(&state).expect("mapping should succeed");

    assert_eq!(scene.positions.len(), 27);
    assert_eq!(scene.indices.len(), 24);
    assert_eq!(f32::from_bits(scene.value_min), 0.0);
    assert_eq!(f32::from_bits(scene.value_max), 0.8);
}

#[test]
fn mapping_uses_cve_core_functions() {
    let state = state("test", 1, 2, 2, 1.0, vec![1.0, 2.0, 3.0, 4.0]);

    let scene = scene_of(&state).expect("mapping should succeed");

    assert_eq!(scene.positions.len(), 12);
    assert_eq!(scene.indices.len(), 6);

    let positions = positions_f32(&scene);
    assert_eq!(positions[0], 0.0);
    assert_eq!(positions[1], 0.0);
    assert_eq!(positions[2], 1.0);

    assert_eq!(f32::from_bits(scene.value_min), 1.0);
    assert_eq!(f32::from_bits(scene.value_max), 4.0);
}

#[test]
fn bypass_cve_only_accepts_validated_state() {
    let valid_state = create_valid_state();
    let result = scene_of(&valid_state);
    assert!(result.is_ok(), "CVE should accept validated state");

    let boundary = BoundaryRuntime::init(valid_state).expect("valid state should init");
    let snapshot = boundary.get_snapshot();
    let result2 = scene_of(&snapshot);
    assert!(result2.is_ok(), "CVE should accept boundary-provided state");
}

#[test]
fn bypass_cve_validates_before_transform() {
    let invalid_state = SimulationState {
        simulation_id: "test".to_string(),
        solver_kind: "test".to_string(),
        step_index: 0,
        simulation_time: 0.0f64.to_bits(),
        primary_field: Some(FieldTensor {
            field_name: "test".to_string(),
            field_kind: "scalar".to_string(),
            width: 1,
            height: 1,
            channels: 1,
            cell_spacing: 1.0f32.to_bits(),
            values: vec![f32::NAN.to_bits()],
        }),
    };

    let result = scene_of(&invalid_state);
    assert!(result.is_err(), "CVE should reject non-finite values");
}

#[test]
fn pipeline_ordering_boundary_before_cve() {
    let initial = create_valid_state();
    let boundary = BoundaryRuntime::init(initial).expect("should init");

    let snapshot = boundary.get_snapshot();

    let result = scene_of(&snapshot);
    assert!(result.is_ok(), "CVE should only receive validated state");

    let scene = result.unwrap();
    assert!(scene.positions.len() > 0);
}

#[test]
fn scene_carries_identity_and_layout() {
    let s = state("sim-9", 12, 3, 2, 0.5, vec![1.0, 2.0, 3.0, 4.0, 5.0, 6.0]);
    let scene = scene_of(&s).unwrap();
    assert_eq!(scene.scene_id, "scene-sim-9-12");
    assert_eq!(scene.source_simulation_id, "sim-9");
    assert_eq!(scene.source_step_index, 12);
    let p = positions_f32(&scene);
    assert_eq!(p, vec![
        0.0, 0.0, 1.0, 0.5, 0.0, 2.0, 1.0, 0.0, 3.0,
        0.0, 0.5, 4.0, 0.5, 0.5, 5.0, 1.0, 0.5, 6.0,
    ]);
    assert_eq!(scene.indices, vec![0, 3, 1, 1, 3, 4, 1, 4, 2, 2, 4, 5]);
}

#[test]
fn scene_refuses_missing_field_and_invalid_frames() {
    let mut s = create_valid_state();
    s.primary_field = None;
    assert_eq!(scene_of(&s).unwrap_err(), "primary_field is missing");
    let mut blank = create_valid_state();
    blank.simulation_id = "".to_string();
    assert_eq!(scene_of(&blank).unwrap_err(), "simulation_id must not be empty");
}

#[test]
fn vertex_coordinates_cover_every_channel() {
    let mut f = FieldTensor {
        field_name: "v".to_string(),
        field_kind: "vector".to_string(),
        width: 2,
        height: 2,
        channels: 2,
        cell_spacing: 1.0f32.to_bits(),
        values: vec![1, 2, 3, 4, 5, 6, 7],
    };
    let positions = vertex_coordinates(&f, &vec![10, 11], &vec![20, 21]);
    assert_eq!(positions, vec![
        10, 20, 1, 11, 20, 2, 10, 21, 3, 11, 21, 4,
        10, 20, 5, 11, 20, 6, 10, 21, 7, 11, 21, 0,
    ]);
    f.channels = 0;
    assert!(vertex_coordinates(&f, &vec![10, 11], &vec![20, 21]).is_empty());
}

#[test]
fn mesh_of_degenerate_grids_is_empty() {
    assert!(mesh_triangle_indices(1, 5).is_empty());
    assert!(mesh_triangle_indices(5, 0).is_empty());
    assert_eq!(mesh_triangle_indices(4, 3).len(), 6 * 3 * 2);
    assert!(mesh_triangle_indices(4, 3).iter().all(|&i| i < 12));
}

#[test]
fn scene_id_format() {
    assert_eq!(scene_id_for("abc", 0), "scene-abc-0");
    assert_eq!(scene_id_for("", 18446744073709551615), "scene--18446744073709551615");
}

#[test]
fn stable_hash_known_values() {
    assert_eq!(stable_hash64(b""), 0xcbf29ce484222325);
    assert_eq!(stable_hash64(b"a"), 0xaf63dc4c8601ec8c);
    assert_eq!(stable_hash64(b"foobar"), 0x85944171f73967e8);
}

fn sample_state(step_index: u64) -> SimulationState {
    SimulationState {
        simulation_id: "mves-heat-2d".into(),
        solver_kind: "heat_reference".into(),
        step_index,
        simulation_time: (step_index as f64 * 0.1).to_bits(),
        primary_field: Some(FieldTensor {
            field_name: "temperature".into(),
            field_kind: "scalar".into(),
            width: 3,
            height: 2,
            channels: 1,
            cell_spacing: 1.0f32.to_bits(),
            values: vec![0.0_f32, 0.5, 1.0, 0.25, 0.75, 0.125].iter().map(|v| v.to_bits()).collect(),
        }),
    }
}

#[test]
fn state_cache_accepts_from_boundary() {
    let first = Arc::new(sample_state(2));
    let second = Arc::new(sample_state(3));

    let mut cache = StateCache::new();
    cache.accept(first);
    let first_snapshot = cache.get().expect("snapshot should exist");

    cache.accept(second);
    let second_snapshot = cache.get().expect("snapshot should exist");

    assert_eq!(first_snapshot.step_index, 2);
    assert_eq!(second_snapshot.step_index, 3);
}

#[test]
fn state_cache_is_empty_before_accept() {
    let cache = StateCache::new();
    assert!(cache.get().is_none());
}

#[test]
fn scene_is_deterministic() {
    let state = create_valid_state();
    let first = scene_of(&state).unwrap();
    let second = scene_of(&state).unwrap();
    assert_eq!(first.scene_id, second.scene_id);
    assert_eq!(first.positions, second.positions);
    assert_eq!(first.indices, second.indices);
    assert_eq!(first.value_min, second.value_min);
    assert_eq!(first.value_max, second.value_max);
    assert_eq!(first.scene_id, "scene-mves-heat-2d-5");
}

#[test]
fn bypass_cve_transform_is_stateless() {
    let state1 = create_valid_state();
    let state2 = create_valid_state();

    let result1 = scene_of(&state1).expect("first transform should work");
    let result2 = scene_of(&state2).expect("second transform should work");

    assert_eq!(result1.positions, result2.positions);
    assert_eq!(result1.indices, result2.indices);
}

#[test]
fn architecture_cve_produces_deterministic_output() {
    let state = create_valid_state();

    for _ in 0..5 {
        let result = scene_of(&state).expect("transform should work");
        assert_eq!(result.scene_id.contains("5"), true, "scene_id should contain step");
    }
}

#[test]
fn twelve_by_twelve_scene_sizes() {
    let state = state("mves-heat-2d", 8, 12, 12, 1.0, vec![0.5; 144]);
    let scene = scene_of(&state).unwrap();
    assert_eq!(scene.positions.len(), 432);
    assert_eq!(scene.indices.len(), 726);
}
