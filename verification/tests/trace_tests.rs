use bloodorchid::observability::{
    compute_scene_hash, compute_state_hash, generate_trace_id, ReplayManager, TraceConfig,
    TraceLogger,
};

#[test]
fn test_trace_creation() {
    let logger = TraceLogger::new("test-sim", "heat_reference");
    assert_eq!(logger.get_trace().steps.len(), 0);
}

#[test]
fn test_trace_step_recording() {
    let mut logger = TraceLogger::new("test-sim", "heat_reference");
    logger.set_initial_hash(0x123);

    logger.record_step(1, 0x123, 0x456, 10);
    logger.record_step(2, 0x456, 0x789, 12);

    assert_eq!(logger.get_trace().steps.len(), 2);
    assert_eq!(logger.get_trace().steps[0].step_index, 1);
}

#[test]
fn test_lineage_computation() {
    let mut logger = TraceLogger::new("test-sim", "heat_reference");
    logger.set_initial_hash(0x100);
    logger.record_step(1, 0x100, 0x200, 10);
    logger.record_step(2, 0x200, 0x300, 10);
    logger.finalize(0x300);

    let lineage = logger.compute_lineage();

    assert_eq!(lineage.initial_hash, 0x100);
    assert_eq!(lineage.final_hash, 0x300);
    assert_eq!(lineage.links.len(), 2);
}

#[test]
fn test_merkle_root_single_step() {
    let mut logger = TraceLogger::new("test", "heat");
    logger.set_initial_hash(0x100);
    logger.record_step(1, 0x100, 0x200, 10);
    logger.finalize(0x200);

    let root = logger.compute_merkle_root();
    assert_eq!(root, 0x200);
}

#[test]
fn new_trace_starts_empty_and_open() {
    let logger = TraceLogger::new("sim-a", "heat");
    let trace = logger.get_trace();
    assert!(trace.trace_id.starts_with("trace-"));
    assert_eq!(trace.simulation_id, "sim-a");
    assert_eq!(trace.solver_kind, "heat");
    assert_eq!(trace.initial_state_hash, 0);
    assert!(trace.completed_at.is_none());
    assert!(trace.final_state_hash.is_none());
    assert!(trace.lineage_merkle_root.is_none());
    assert_eq!(logger.step_count(), 0);
}

#[test]
fn trace_id_is_prefixed_hex() {
    let id = generate_trace_id();
    let digits = &id["trace-".len()..];
    assert!(id.starts_with("trace-"));
    assert!(!digits.is_empty());
    assert!(digits.chars().all(|c| c.is_ascii_digit() || ('a'..='f').contains(&c)));
}

#[test]
fn logger_keeps_its_configuration() {
    let config = TraceConfig { enabled: false, save_steps: false, save_scenes: true, output_path: None };
    let logger = TraceLogger::with_config(config, "sim", "heat");
    assert_eq!(logger.get_trace().simulation_id, "sim");
    let default = TraceConfig::default();
    assert!(default.enabled && default.save_steps && !default.save_scenes);
}

#[test]
fn merkle_root_of_empty_trace_is_initial_hash() {
    let mut logger = TraceLogger::new("sim", "heat");
    logger.set_initial_hash(0xabc);
    assert_eq!(logger.compute_merkle_root(), 0xabc);
}

#[test]
fn merkle_root_folds_pairs_and_repeats_the_odd_one() {
    let mut logger = TraceLogger::new("sim", "heat");
    logger.record_step(1, 0, 2, 0);
    logger.record_step(2, 2, 3, 0);
    assert_eq!(logger.compute_merkle_root(), 2 * 31 + 3);
    logger.record_step(3, 3, 5, 0);
    let left = 2u64 * 31 + 3;
    let right = 5u64 * 31 + 5;
    assert_eq!(logger.compute_merkle_root(), left.wrapping_mul(31).wrapping_add(right));
}

#[test]
fn merkle_root_wraps_at_64_bits() {
    let mut logger = TraceLogger::new("sim", "heat");
    logger.record_step(1, 0, u64::MAX, 0);
    logger.record_step(2, u64::MAX, 7, 0);
    assert_eq!(logger.compute_merkle_root(), u64::MAX.wrapping_mul(31).wrapping_add(7));
}

#[test]
fn finalize_records_hash_root_and_completion() {
    let mut logger = TraceLogger::new("sim", "heat");
    logger.set_initial_hash(1);
    logger.record_step(1, 1, 9, 4);
    logger.finalize(9);
    let trace = logger.get_trace();
    assert_eq!(trace.final_state_hash, Some(9));
    assert_eq!(trace.lineage_merkle_root, Some(9));
    assert!(trace.completed_at.is_some());
}

#[test]
fn lineage_links_form_a_chain() {
    let mut logger = TraceLogger::new("sim", "heat");
    logger.set_initial_hash(0x10);
    logger.record_step(3, 0x10, 0x20, 1);
    logger.record_step(7, 0x20, 0x30, 1);
    let lineage = logger.compute_lineage();
    assert_eq!(lineage.links[0].prev_hash, 0x10);
    assert_eq!(lineage.links[0].current_hash, 0x20);
    assert_eq!(lineage.links[0].step, 3);
    assert_eq!(lineage.links[1].prev_hash, lineage.links[0].current_hash);
    assert_eq!(lineage.links[1].step, 7);
    assert_eq!(lineage.final_hash, 0x30);
    assert_eq!(lineage.simulation_id, "sim");
}

#[test]
fn record_transform_fills_first_matching_step() {
    let mut logger = TraceLogger::new("sim", "heat");
    logger.record_step(1, 0, 1, 5);
    logger.record_step(1, 1, 2, 6);
    let root_before = logger.compute_merkle_root();
    logger.record_transform(1, 11, 12, 13, 14);
    let steps = &logger.get_trace().steps;
    assert_eq!(steps[0].transform_input_hash, Some(11));
    assert_eq!(steps[0].transform_output_hash, Some(12));
    assert_eq!(steps[0].scene_hash, Some(13));
    assert_eq!(steps[0].transform_duration_ms, 14);
    assert_eq!(steps[1].scene_hash, None);
    assert_eq!(logger.compute_merkle_root(), root_before);
}

#[test]
fn record_transform_without_matching_step_changes_nothing() {
    let mut logger = TraceLogger::new("sim", "heat");
    logger.record_step(1, 0, 1, 5);
    logger.record_transform(9, 11, 12, 13, 14);
    assert_eq!(logger.get_trace().steps[0].scene_hash, None);
    assert_eq!(logger.get_trace().steps[0].transform_duration_ms, 0);
}

#[test]
fn totals_add_durations() {
    let mut logger = TraceLogger::new("sim", "heat");
    logger.record_step(1, 0, 1, 5);
    logger.record_step(2, 1, 2, 7);
    logger.record_transform(2, 0, 0, 0, 3);
    assert_eq!(logger.total_kernel_time(), 12);
    assert_eq!(logger.total_transform_time(), 3);
}

#[test]
fn replay_manager_holds_inserted_traces() {
    let mut logger = TraceLogger::new("test-sim", "heat");
    logger.set_initial_hash(0x100);
    logger.record_step(1, 0x100, 0x200, 10);
    logger.finalize(0x200);

    let mut manager = ReplayManager::new();
    let trace_id = manager.insert_trace(logger.get_trace().clone());
    let trace = manager.get_trace(&trace_id).unwrap();
    assert_eq!(trace.simulation_id, "test-sim");
    assert!(manager.get_trace("missing").is_none());
    assert_eq!(manager.list_traces(), vec![(trace_id.clone(), "test-sim".to_string())]);
}

#[test]
fn replay_manager_verifies_chained_lineage() {
    let mut logger = TraceLogger::new("test-sim", "heat");
    logger.set_initial_hash(0x100);
    logger.record_step(1, 0x100, 0x200, 10);
    logger.record_step(2, 0x200, 0x300, 10);
    logger.finalize(0x300);

    let mut manager = ReplayManager::default();
    let trace_id = manager.insert_trace(logger.get_trace().clone());
    assert_eq!(manager.verify_lineage(&trace_id), Ok(true));
    assert_eq!(manager.verify_lineage("nope"), Err("trace not found".to_string()));
}

#[test]
fn replay_manager_detects_broken_chain_and_final_mismatch() {
    let mut broken = TraceLogger::new("sim", "heat");
    broken.set_initial_hash(0x100);
    broken.record_step(1, 0x100, 0x200, 1);
    broken.record_step(2, 0x999, 0x300, 1);
    let mut wrong_final = TraceLogger::new("sim", "heat");
    wrong_final.set_initial_hash(0x100);
    wrong_final.record_step(1, 0x100, 0x200, 1);
    wrong_final.finalize(0x201);
    let mut empty = TraceLogger::new("sim", "heat");
    empty.finalize(0x5);

    let mut manager = ReplayManager::new();
    let mut t1 = broken.get_trace().clone();
    t1.trace_id = "broken".to_string();
    let mut t2 = wrong_final.get_trace().clone();
    t2.trace_id = "final".to_string();
    let mut t3 = empty.get_trace().clone();
    t3.trace_id = "empty".to_string();
    manager.insert_trace(t1);
    manager.insert_trace(t2);
    manager.insert_trace(t3);
    assert_eq!(manager.verify_lineage("broken"), Ok(false));
    assert_eq!(manager.verify_lineage("final"), Ok(false));
    assert_eq!(manager.verify_lineage("empty"), Ok(true));
}

#[test]
fn replay_manager_replaces_trace_with_same_id() {
    let mut manager = ReplayManager::new();
    let mut a = TraceLogger::new("first", "heat").get_trace().clone();
    a.trace_id = "same".to_string();
    let mut b = TraceLogger::new("second", "heat").get_trace().clone();
    b.trace_id = "same".to_string();
    manager.insert_trace(a);
    manager.insert_trace(b);
    assert_eq!(manager.list_traces().len(), 1);
    assert_eq!(manager.get_trace("same").unwrap().simulation_id, "second");
}

#[test]
fn replay_manager_step_info_and_summary() {
    let mut logger = TraceLogger::new("sim", "heat");
    logger.set_initial_hash(1);
    logger.record_step(4, 1, 2, 10);
    logger.record_step(8, 2, 3, 20);
    logger.record_transform(8, 3, 4, 5, 6);
    logger.finalize(3);
    let mut manager = ReplayManager::new();
    let id = manager.insert_trace(logger.get_trace().clone());

    let info = manager.get_step_info(&id, 8).unwrap();
    assert_eq!(info.input_state_hash, 2);
    assert_eq!(info.scene_hash, Some(5));
    assert!(manager.get_step_info(&id, 5).is_none());
    assert!(manager.get_step_info("nope", 8).is_none());

    let summary = manager.get_summary(&id).unwrap();
    assert_eq!(summary.simulation_id, "sim");
    assert_eq!(summary.step_count, 2);
    assert_eq!(summary.total_kernel_ms, 30);
    assert_eq!(summary.total_transform_ms, 6);
    assert_eq!(summary.initial_hash, 1);
    assert_eq!(summary.final_hash, Some(3));
    assert!(manager.get_summary("nope").is_none());
}

#[test]
fn state_and_scene_hashes_are_fnv1a() {
    assert_eq!(compute_state_hash(b""), 0xcbf29ce484222325);
    assert_eq!(compute_state_hash(b"a"), 0xaf63dc4c8601ec8c);
    assert_eq!(compute_scene_hash(b"a"), 0xaf63dc4c8601ec8c);
    assert_ne!(compute_scene_hash(b"ab"), compute_scene_hash(b"ba"));
}

#[test]
fn step_count_counts_record_step_calls() {
    let mut logger = TraceLogger::new("sim", "heat");
    logger.set_initial_hash(1);
    logger.record_step(1, 1, 2, 0);
    logger.record_transform(1, 2, 3, 3, 0);
    logger.record_step(2, 2, 4, 0);
    logger.set_initial_hash(1);
    logger.record_transform(9, 0, 0, 0, 0);
    assert_eq!(logger.step_count(), 2);
    logger.finalize(4);
    assert_eq!(logger.step_count(), 2);
    assert_eq!(logger.step_count(), logger.get_trace().steps.len());
}
