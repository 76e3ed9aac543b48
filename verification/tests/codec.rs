use recording_analyzer::instruction::{
    create_instruction_iter, BlockId, DecodeError, DecodeErrorKind, FunctionId, Instruction,
    ModuleId,
};
use recording_analyzer::recording::parse_recording;

fn decode_all(bytes: Vec<u8>) -> Result<Vec<Instruction>, DecodeError> {
    parse_recording(bytes).decode()
}

fn round_trip(ins: Instruction) {
    let bytes = ins.encode().expect("value must be encodable");
    let decoded = decode_all(bytes).expect("encoding must decode");
    assert_eq!(decoded, vec![ins]);
}

#[test]
fn scenario_inline_values() {
    let decoded = decode_all(vec![0x00, 0x41]).unwrap();
    assert_eq!(
        decoded,
        vec![
            Instruction::SetModuleId { module_id: ModuleId(0) },
            Instruction::CallFunction { function_id: FunctionId(1) },
        ]
    );
}

#[test]
fn empty_buffer_decodes_to_nothing() {
    assert_eq!(decode_all(vec![]).unwrap(), vec![]);
}

#[test]
fn iterator_steps_and_stops() {
    let data = vec![0x00, 0x41, 0xC0];
    let mut iter = create_instruction_iter(&data);
    assert_eq!(
        iter.next().unwrap(),
        Some(Instruction::SetModuleId { module_id: ModuleId(0) })
    );
    assert_eq!(
        iter.next().unwrap(),
        Some(Instruction::CallFunction { function_id: FunctionId(1) })
    );
    assert_eq!(iter.next().unwrap(), Some(Instruction::ReturnFunction));
    assert_eq!(iter.next().unwrap(), None);
    assert_eq!(iter.next().unwrap(), None);
}

#[test]
fn round_trip_boundary_module_ids() {
    for id in [0u32, 60, 61, 62, 0xFFFF, 0xFFFFFF] {
        round_trip(Instruction::SetModuleId { module_id: ModuleId(id) });
    }
}

#[test]
fn round_trip_boundary_function_ids() {
    for id in [0u32, 60, 61, 62, 255, 256, 0xFFFF, 0x10000, 0xFFFFFF] {
        round_trip(Instruction::CallFunction { function_id: FunctionId(id) });
    }
}

#[test]
fn round_trip_boundary_block_ids() {
    for id in [0u32, 60, 61, 62, 0xFFFF, 0xFFFFFF] {
        round_trip(Instruction::ReachedBlock { block_id: id });
    }
}

#[test]
fn round_trip_return_and_metadata() {
    round_trip(Instruction::ReturnFunction);
    round_trip(Instruction::SetModuleInfo { module_info_json: String::new() });
    round_trip(Instruction::SetModuleInfo { module_info_json: "{\"k\":1}".to_string() });
    round_trip(Instruction::SetModuleInfo { module_info_json: "caf\u{e9} \u{1f600}".to_string() });
}

#[test]
fn identifiers_beyond_three_extra_bytes_are_rejected() {
    assert_eq!(Instruction::SetModuleId { module_id: ModuleId(0x1000000) }.encode(), None);
    assert_eq!(Instruction::CallFunction { function_id: FunctionId(u32::MAX) }.encode(), None);
    assert_eq!(Instruction::ReachedBlock { block_id: 0x1000000 }.encode(), None);
}

#[test]
fn escape_tiers_little_endian() {
    // one extra byte
    assert_eq!(
        decode_all(vec![0x3D, 61]).unwrap(),
        vec![Instruction::SetModuleId { module_id: ModuleId(61) }]
    );
    // two extra bytes, little-endian
    assert_eq!(
        decode_all(vec![0x7E, 0x01, 0x02]).unwrap(),
        vec![Instruction::CallFunction { function_id: FunctionId(0x0201) }]
    );
    // three extra bytes, little-endian
    assert_eq!(
        decode_all(vec![0xBF, 0x01, 0x02, 0x03]).unwrap(),
        vec![Instruction::ReachedBlock { block_id: 0x030201 }]
    );
    assert_eq!(
        decode_all(vec![0x3F, 0xFF, 0xFF, 0xFF]).unwrap(),
        vec![Instruction::SetModuleId { module_id: ModuleId(0xFFFFFF) }]
    );
}

#[test]
fn metadata_wire_format_is_big_endian_length() {
    let mut bytes = vec![0x03, 0xC1, 0x00, 0x00, 0x00, 0x07];
    bytes.extend_from_slice(b"{\"k\":1}");
    assert_eq!(
        decode_all(bytes).unwrap(),
        vec![
            Instruction::SetModuleId { module_id: ModuleId(3) },
            Instruction::SetModuleInfo { module_info_json: "{\"k\":1}".to_string() },
        ]
    );
}

#[test]
fn truncated_escape_reports_offset() {
    assert_eq!(
        decode_all(vec![0x3D]),
        Err(DecodeError { kind: DecodeErrorKind::TruncatedInput, offset: 0 })
    );
    assert_eq!(
        decode_all(vec![0x7E, 0x01]),
        Err(DecodeError { kind: DecodeErrorKind::TruncatedInput, offset: 0 })
    );
    assert_eq!(
        decode_all(vec![0x00, 0xBF, 0x01, 0x02]),
        Err(DecodeError { kind: DecodeErrorKind::TruncatedInput, offset: 1 })
    );
}

#[test]
fn invalid_opcode_reports_offset() {
    assert_eq!(
        decode_all(vec![0xC2]),
        Err(DecodeError { kind: DecodeErrorKind::InvalidOpcode, offset: 0 })
    );
    assert_eq!(
        decode_all(vec![0x00, 0xFF]),
        Err(DecodeError { kind: DecodeErrorKind::InvalidOpcode, offset: 1 })
    );
}

#[test]
fn truncated_metadata_reports_offset() {
    // length field itself cut short
    assert_eq!(
        decode_all(vec![0xC1, 0x00]),
        Err(DecodeError { kind: DecodeErrorKind::TruncatedInput, offset: 0 })
    );
    // payload shorter than the declared length
    assert_eq!(
        decode_all(vec![0xC1, 0x00, 0x00, 0x00, 0x05, 0x41]),
        Err(DecodeError { kind: DecodeErrorKind::TruncatedInput, offset: 0 })
    );
}

#[test]
fn invalid_utf8_reports_offset() {
    assert_eq!(
        decode_all(vec![0x00, 0xC1, 0x00, 0x00, 0x00, 0x01, 0xFF]),
        Err(DecodeError { kind: DecodeErrorKind::InvalidUtf8, offset: 1 })
    );
}

#[test]
fn decode_is_idempotent() {
    let rec = parse_recording(vec![0x00, 0x41, 0x82, 0xC0]);
    assert_eq!(rec.decode(), rec.decode());
    let bad = parse_recording(vec![0x00, 0xC2]);
    assert_eq!(bad.decode(), bad.decode());
}
