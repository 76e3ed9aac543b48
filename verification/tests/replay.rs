use recording_analyzer::instruction::{BlockId, DecodeError, DecodeErrorKind, FunctionId, ModuleId};
use recording_analyzer::recording::{parse_recording, ReplayError, StackFrame};

fn frame(module: u32, function: u32, block: Option<u32>) -> StackFrame {
    StackFrame {
        module_id: ModuleId(module),
        function_id: FunctionId(function),
        block_id: block.map(BlockId),
    }
}

#[test]
fn get_len_counts_raw_bytes() {
    assert_eq!(parse_recording(vec![]).get_len(), 0);
    assert_eq!(parse_recording(vec![0x00, 0x41, 0xC0]).get_len(), 3);
}

#[test]
fn scenario_block_counts_toward_budget() {
    // SetModuleId(0) is free; CallFunction(5) and ReachedBlock(2) use up
    // a budget of two.
    let rec = parse_recording(vec![0x00, 0x45, 0x82]);
    let stack = rec.stack_at(2).unwrap();
    assert_eq!(stack.frames, vec![frame(0, 5, Some(2))]);
}

#[test]
fn scenario_return_unwinds_one_call() {
    let rec = parse_recording(vec![0x00, 0x41, 0x42, 0xC0]);
    let stack = rec.stack_at(4).unwrap();
    assert_eq!(stack.frames, vec![frame(0, 1, None)]);
}

#[test]
fn scenario_return_on_empty_stack_is_malformed() {
    let rec = parse_recording(vec![0xC0]);
    assert_eq!(rec.stack_at(1), Err(ReplayError::Malformed { index: 0 }));
}

#[test]
fn call_before_any_module_is_malformed() {
    let rec = parse_recording(vec![0x41]);
    assert_eq!(rec.stack_at(1), Err(ReplayError::Malformed { index: 0 }));
    // the index counts every instruction seen, free ones included
    let rec = parse_recording(vec![0x00, 0xC0]);
    assert_eq!(rec.stack_at(5), Err(ReplayError::Malformed { index: 1 }));
}

#[test]
fn zero_budget_replays_nothing() {
    let rec = parse_recording(vec![0x00, 0x41]);
    assert_eq!(rec.stack_at(0).unwrap().frames, vec![]);
}

#[test]
fn returning_restores_the_callers_block() {
    // SetModuleId(0), CallFunction(1), ReachedBlock(5), CallFunction(2),
    // ReturnFunction: the return restores block 5 in the outer frame.
    let rec = parse_recording(vec![0x00, 0x41, 0x85, 0x42, 0xC0]);
    let stack = rec.stack_at(4).unwrap();
    assert_eq!(stack.frames, vec![frame(0, 1, Some(5))]);
}

#[test]
fn snapshot_attributes_blocks_per_frame() {
    // Each open frame reports the block captured by the next deeper
    // call; the innermost frame reports the live block.
    let rec = parse_recording(vec![0x00, 0x41, 0x83, 0x42, 0x84]);
    let stack = rec.stack_at(4).unwrap();
    assert_eq!(stack.frames, vec![frame(0, 1, Some(3)), frame(0, 2, Some(4))]);
}

#[test]
fn calls_pick_up_the_module_set_before_them() {
    // Module 1 is active for the first call, module 2 for the second.
    let rec = parse_recording(vec![0x01, 0x41, 0x02, 0x42]);
    let stack = rec.stack_at(2).unwrap();
    assert_eq!(stack.frames, vec![frame(1, 1, None), frame(2, 2, None)]);
}

#[test]
fn balanced_trace_empties_the_stack() {
    let rec = parse_recording(vec![0x00, 0x41, 0x42, 0xC0, 0xC0]);
    assert_eq!(rec.stack_at(100).unwrap().frames, vec![]);
}

#[test]
fn budget_growth_is_prefix_stable() {
    // SetModuleId(0), Call(1), Block(7), Call(2), Return, Call(3)
    let rec = parse_recording(vec![0x00, 0x41, 0x87, 0x42, 0xC0, 0x43]);
    assert_eq!(rec.stack_at(0).unwrap().frames, vec![]);
    assert_eq!(rec.stack_at(1).unwrap().frames, vec![frame(0, 1, None)]);
    assert_eq!(rec.stack_at(2).unwrap().frames, vec![frame(0, 1, Some(7))]);
    assert_eq!(
        rec.stack_at(3).unwrap().frames,
        vec![frame(0, 1, Some(7)), frame(0, 2, None)]
    );
    assert_eq!(rec.stack_at(4).unwrap().frames, vec![frame(0, 1, Some(7))]);
    assert_eq!(
        rec.stack_at(5).unwrap().frames,
        vec![frame(0, 1, Some(7)), frame(0, 3, None)]
    );
    // the outer frame kept its module and function at every budget
}

#[test]
fn corrupt_byte_beyond_the_budget_is_never_reached() {
    let rec = parse_recording(vec![0x00, 0x41, 0xC2]);
    assert_eq!(rec.stack_at(1).unwrap().frames, vec![frame(0, 1, None)]);
    assert_eq!(
        rec.stack_at(2),
        Err(ReplayError::Decode {
            error: DecodeError { kind: DecodeErrorKind::InvalidOpcode, offset: 2 },
        })
    );
}

fn metadata_record(json: &str) -> Vec<u8> {
    let payload = json.as_bytes();
    let mut bytes = vec![0xC1];
    bytes.extend_from_slice(&(payload.len() as u32).to_be_bytes());
    bytes.extend_from_slice(payload);
    bytes
}

#[test]
fn scenario_metadata_lookup() {
    let mut bytes = vec![0x03];
    bytes.extend_from_slice(&metadata_record("{\"k\":1}"));
    let rec = parse_recording(bytes);
    assert_eq!(rec.get_module_info(3).unwrap(), Some("{\"k\":1}".to_string()));
    assert_eq!(rec.get_module_info(4).unwrap(), None);
}

#[test]
fn metadata_lookup_returns_the_first_match() {
    let mut bytes = vec![0x01];
    bytes.extend_from_slice(&metadata_record("first"));
    bytes.extend_from_slice(&metadata_record("second"));
    bytes.push(0x02);
    bytes.extend_from_slice(&metadata_record("other"));
    let rec = parse_recording(bytes);
    assert_eq!(rec.get_module_info(1).unwrap(), Some("first".to_string()));
    assert_eq!(rec.get_module_info(2).unwrap(), Some("other".to_string()));
}

#[test]
fn metadata_before_any_module_matches_nothing() {
    let rec = parse_recording(metadata_record("loose"));
    assert_eq!(rec.get_module_info(0).unwrap(), None);
}

#[test]
fn metadata_lookup_reports_corrupt_instructions() {
    let rec = parse_recording(vec![0x03, 0xC2]);
    assert_eq!(
        rec.get_module_info(3),
        Err(DecodeError { kind: DecodeErrorKind::InvalidOpcode, offset: 1 })
    );
    // a match found before the corrupt byte still wins
    let mut bytes = vec![0x03];
    bytes.extend_from_slice(&metadata_record("ok"));
    bytes.push(0xC2);
    let rec = parse_recording(bytes);
    assert_eq!(rec.get_module_info(3).unwrap(), Some("ok".to_string()));
}

#[test]
fn metadata_lookup_is_idempotent() {
    let mut bytes = vec![0x01];
    bytes.extend_from_slice(&metadata_record("meta"));
    let rec = parse_recording(bytes);
    assert_eq!(rec.get_module_info(1), rec.get_module_info(1));
    assert_eq!(rec.get_module_info(9), rec.get_module_info(9));
}
