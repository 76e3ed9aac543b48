//! The wire format: a stream of tagged, variable-length instruction
//! records, decoded one at a time by a forward-only cursor.

use vstd::prelude::*;
use vstd::string::StrSliceExecFns;
use vstd::utf8::{decode_utf8, encode_utf8, valid_utf8};

verus! {

/// Identifier of a module; its own type so that module, function and
/// block identifier spaces cannot be mixed up.
#[derive(Debug, Clone, Copy, PartialEq, Eq, Structural)]
pub struct ModuleId(pub u32);

/// Identifier of a function within a module.
#[derive(Debug, Clone, Copy, PartialEq, Eq, Structural)]
pub struct FunctionId(pub u32);

/// Identifier of a control-flow block within a function.
#[derive(Debug, Clone, Copy, PartialEq, Eq, Structural)]
pub struct BlockId(pub u32);

/// One recorded event. The variant set is closed: any other tag byte in
/// the wire format is a decode error.
#[derive(Debug, Clone, PartialEq, Eq)]
pub enum Instruction {
    SetModuleId { module_id: ModuleId },
    CallFunction { function_id: FunctionId },
    ReachedBlock { block_id: u32 },
    ReturnFunction,
    SetModuleInfo { module_info_json: String },
}

/// The mathematical value of one instruction: identifiers as plain
/// integers, the metadata payload as a character sequence.
pub enum InstrModel {
    SetModuleId { module_id: u32 },
    CallFunction { function_id: u32 },
    ReachedBlock { block_id: u32 },
    ReturnFunction,
    SetModuleInfo { module_info_json: Seq<char> },
}

impl View for Instruction {
    type V = InstrModel;

    open spec fn view(&self) -> InstrModel {
        match self {
            Instruction::SetModuleId { module_id } => InstrModel::SetModuleId {
                module_id: module_id.0,
            },
            Instruction::CallFunction { function_id } => InstrModel::CallFunction {
                function_id: function_id.0,
            },
            Instruction::ReachedBlock { block_id } => InstrModel::ReachedBlock {
                block_id: *block_id,
            },
            Instruction::ReturnFunction => InstrModel::ReturnFunction,
            Instruction::SetModuleInfo { module_info_json } => InstrModel::SetModuleInfo {
                module_info_json: module_info_json@,
            },
        }
    }
}

/// Why decoding failed at some instruction.
#[derive(Debug, Clone, Copy, PartialEq, Eq, Structural)]
pub enum DecodeErrorKind {
    /// Fewer bytes remain than the instruction's payload requires.
    TruncatedInput,
    /// The first byte matches no instruction family or reserved value.
    InvalidOpcode,
    /// A metadata payload is not valid UTF-8.
    InvalidUtf8,
}

/// A decode failure, with the byte offset of the instruction at fault.
#[derive(Debug, Clone, Copy, PartialEq, Eq, Structural)]
pub struct DecodeError {
    pub kind: DecodeErrorKind,
    pub offset: usize,
}

/// The model of a decode failure, with the offset as a plain integer.
pub struct DecodeFailModel {
    pub kind: DecodeErrorKind,
    pub offset: int,
}

impl View for DecodeError {
    type V = DecodeFailModel;

    open spec fn view(&self) -> DecodeFailModel {
        DecodeFailModel { kind: self.kind, offset: self.offset as int }
    }
}

/// What decoding one instruction at a given position yields: the clean
/// end of the stream, one instruction with the position just after it,
/// or a failure carrying the offset of the instruction at fault.
pub enum DecodeStep {
    End,
    Instr(InstrModel, int),
    Fail(DecodeErrorKind, int),
}

/// How many extra little-endian bytes the low six bits of a tag byte
/// demand: 0 for the inline values 0 to 60, 1, 2 or 3 for the escape
/// values 61, 62 and 63.
pub open spec fn vl_extra_len(tag: u8) -> int {
    if tag == 61 {
        1
    } else if tag == 62 {
        2
    } else if tag == 63 {
        3
    } else {
        0
    }
}

/// The integer carried by a variable-length encoding whose low six tag
/// bits are `tag` and whose extra bytes are `extra`, little-endian.
pub open spec fn vl_value(tag: u8, extra: Seq<u8>) -> u32
    recommends
        extra.len() == vl_extra_len(tag),
{
    if tag == 61 {
        extra[0] as u32
    } else if tag == 62 {
        (extra[0] + extra[1] * 256) as u32
    } else if tag == 63 {
        (extra[0] + extra[1] * 256 + extra[2] * 65536) as u32
    } else {
        tag as u32
    }
}

/// Reading one variable-length value whose tag byte was `first_byte`
/// and whose extra bytes start at `pos`: the value and the position
/// just after it, or nothing when the buffer is too short.
pub open spec fn spec_read_vl(bytes: Seq<u8>, first_byte: u8, pos: int) -> Option<(u32, int)> {
    let tag = first_byte & 0x3f;
    let n = vl_extra_len(tag);
    if pos + n > bytes.len() {
        None
    } else {
        Some((vl_value(tag, bytes.subrange(pos, pos + n)), pos + n))
    }
}

/// The big-endian 32-bit integer held in four bytes.
pub open spec fn be_u32(b: Seq<u8>) -> u32
    recommends
        b.len() == 4,
{
    (b[0] * 16777216 + b[1] * 65536 + b[2] * 256 + b[3]) as u32
}

/// Decoding of the single instruction that starts at `pos`. The top two
/// bits of the first byte select the family; families 0, 1 and 2 carry
/// a variable-length identifier, the exact byte 0xC0 is a return, the
/// exact byte 0xC1 carries a big-endian length and that many UTF-8
/// payload bytes, and every other byte is an invalid opcode.
pub open spec fn spec_decode_one(bytes: Seq<u8>, pos: int) -> DecodeStep
    recommends
        0 <= pos <= bytes.len(),
{
    if pos >= bytes.len() {
        DecodeStep::End
    } else {
        let b = bytes[pos];
        if b < 0x40 {
            match spec_read_vl(bytes, b, pos + 1) {
                Some((v, p2)) => DecodeStep::Instr(InstrModel::SetModuleId { module_id: v }, p2),
                None => DecodeStep::Fail(DecodeErrorKind::TruncatedInput, pos),
            }
        } else if b < 0x80 {
            match spec_read_vl(bytes, b, pos + 1) {
                Some((v, p2)) => DecodeStep::Instr(InstrModel::CallFunction { function_id: v }, p2),
                None => DecodeStep::Fail(DecodeErrorKind::TruncatedInput, pos),
            }
        } else if b < 0xC0 {
            match spec_read_vl(bytes, b, pos + 1) {
                Some((v, p2)) => DecodeStep::Instr(InstrModel::ReachedBlock { block_id: v }, p2),
                None => DecodeStep::Fail(DecodeErrorKind::TruncatedInput, pos),
            }
        } else if b == 0xC0 {
            DecodeStep::Instr(InstrModel::ReturnFunction, pos + 1)
        } else if b == 0xC1 {
            if pos + 5 > bytes.len() {
                DecodeStep::Fail(DecodeErrorKind::TruncatedInput, pos)
            } else {
                let len = be_u32(bytes.subrange(pos + 1, pos + 5)) as int;
                if pos + 5 + len > bytes.len() {
                    DecodeStep::Fail(DecodeErrorKind::TruncatedInput, pos)
                } else {
                    let payload = bytes.subrange(pos + 5, pos + 5 + len);
                    if valid_utf8(payload) {
                        DecodeStep::Instr(
                            InstrModel::SetModuleInfo { module_info_json: decode_utf8(payload) },
                            pos + 5 + len,
                        )
                    } else {
                        DecodeStep::Fail(DecodeErrorKind::InvalidUtf8, pos)
                    }
                }
            }
        } else {
            DecodeStep::Fail(DecodeErrorKind::InvalidOpcode, pos)
        }
    }
}

/// Every decoded instruction occupies at least one byte and ends within
/// the buffer.
pub proof fn lemma_decode_one_advances(bytes: Seq<u8>, pos: int)
    requires
        0 <= pos <= bytes.len(),
    ensures
        spec_decode_one(bytes, pos) matches DecodeStep::Instr(i, p2) ==> pos < p2 <= bytes.len(),
{
}

/// All instructions from `pos` to the end of the buffer, in order, or
/// the first decode failure.
pub open spec fn spec_decode_all(bytes: Seq<u8>, pos: int) -> Result<Seq<InstrModel>, DecodeFailModel>
    recommends
        0 <= pos <= bytes.len(),
    decreases bytes.len() - pos,
    when 0 <= pos <= bytes.len()
{
    match spec_decode_one(bytes, pos) {
        DecodeStep::End => Ok(Seq::empty()),
        DecodeStep::Fail(k, off) => Err(DecodeFailModel { kind: k, offset: off }),
        DecodeStep::Instr(i, p2) => match spec_decode_all(bytes, p2) {
            Ok(rest) => Ok(seq![i] + rest),
            Err(e) => Err(e),
        },
    }
}

/// A lazy, forward-only cursor over the instructions held in a byte
/// buffer. A fresh cursor at position zero restarts the sequence.
pub struct InstructionIter<'a> {
    pub bytes: &'a Vec<u8>,
    pub pos: usize,
}

/// What one decoding step promises: the buffer is untouched, and the
/// result and the new position follow `spec_decode_one` at the old
/// position.
pub open spec fn step_post(
    pre: InstructionIter,
    post: InstructionIter,
    r: Result<Option<Instruction>, DecodeError>,
) -> bool {
    &&& post.bytes@ == pre.bytes@
    &&& post.wf()
    &&& match spec_decode_one(pre.bytes@, pre.pos as int) {
        DecodeStep::End => {
            &&& r == Ok::<Option<Instruction>, DecodeError>(None)
            &&& post.pos == pre.pos
        },
        DecodeStep::Instr(i, p2) => {
            &&& r matches Ok(Some(ins)) && ins@ == i
            &&& post.pos == p2
            &&& post.pos > pre.pos
        },
        DecodeStep::Fail(k, off) => {
            r matches Err(e) && e.kind == k && e.offset as int == off
        },
    }
}

impl<'a> InstructionIter<'a> {
    /// The cursor never points past the end of the buffer.
    pub open spec fn wf(&self) -> bool {
        self.pos <= self.bytes@.len()
    }

    /// Decode the next instruction, `Ok(None)` at the clean end of the
    /// buffer. A failure never looks like an end of stream.
    pub fn next(&mut self) -> (r: Result<Option<Instruction>, DecodeError>)
        requires
            old(self).wf(),
        ensures
            step_post(*old(self), *final(self), r),
    {
        Instruction::from_iter(self)
    }
}

/// A fresh instruction cursor at the start of the buffer.
pub fn create_instruction_iter<'a>(bytes: &'a Vec<u8>) -> (r: InstructionIter<'a>)
    ensures
        r.bytes@ == bytes@,
        r.pos == 0,
        r.wf(),
{
    InstructionIter { bytes, pos: 0 }
}

/// Read the four-byte big-endian integer at the cursor, as the length
/// prefix of a metadata payload demands. The cursor sits one byte past
/// the start of the instruction, which a truncation error reports.
fn read_u32<'a>(iter: &mut InstructionIter<'a>) -> (r: Result<u32, DecodeError>)
    requires
        old(iter).wf(),
        old(iter).pos >= 1,
    ensures
        final(iter).bytes@ == old(iter).bytes@,
        final(iter).wf(),
        old(iter).pos + 4 <= old(iter).bytes@.len() ==> {
            &&& r == Ok::<u32, DecodeError>(
                be_u32(old(iter).bytes@.subrange(old(iter).pos as int, old(iter).pos + 4)),
            )
            &&& final(iter).pos == old(iter).pos + 4
        },
        old(iter).pos + 4 > old(iter).bytes@.len() ==> r == Err::<u32, DecodeError>(
            DecodeError {
                kind: DecodeErrorKind::TruncatedInput,
                offset: (old(iter).pos - 1) as usize,
            },
        ),
{
    if iter.bytes.len() - iter.pos < 4 {
        return Err(
            DecodeError { kind: DecodeErrorKind::TruncatedInput, offset: iter.pos - 1 },
        );
    }
    let b0 = iter.bytes[iter.pos];
    let b1 = iter.bytes[iter.pos + 1];
    let b2 = iter.bytes[iter.pos + 2];
    let b3 = iter.bytes[iter.pos + 3];
    iter.pos = iter.pos + 4;
    Ok((b0 as u32) * 16777216 + (b1 as u32) * 65536 + (b2 as u32) * 256 + (b3 as u32))
}

/// Read the extra bytes of one variable-length value whose tag byte was
/// `first_byte`. The cursor sits one byte past the start of the
/// instruction, which a truncation error reports.
fn read_u32_vl<'a>(iter: &mut InstructionIter<'a>, first_byte: u8) -> (r: Result<u32, DecodeError>)
    requires
        old(iter).wf(),
        old(iter).pos >= 1,
    ensures
        final(iter).bytes@ == old(iter).bytes@,
        final(iter).wf(),
        match spec_read_vl(old(iter).bytes@, first_byte, old(iter).pos as int) {
            Some((v, p2)) => r == Ok::<u32, DecodeError>(v) && final(iter).pos == p2,
            None => r == Err::<u32, DecodeError>(
                DecodeError {
                    kind: DecodeErrorKind::TruncatedInput,
                    offset: (old(iter).pos - 1) as usize,
                },
            ),
        },
{
    let tag = first_byte & 0x3f;
    if tag == 61 {
        if iter.bytes.len() - iter.pos < 1 {
            return Err(
                DecodeError { kind: DecodeErrorKind::TruncatedInput, offset: iter.pos - 1 },
            );
        }
        let b0 = iter.bytes[iter.pos];
        iter.pos = iter.pos + 1;
        Ok(b0 as u32)
    } else if tag == 62 {
        if iter.bytes.len() - iter.pos < 2 {
            return Err(
                DecodeError { kind: DecodeErrorKind::TruncatedInput, offset: iter.pos - 1 },
            );
        }
        let b0 = iter.bytes[iter.pos];
        let b1 = iter.bytes[iter.pos + 1];
        iter.pos = iter.pos + 2;
        Ok((b0 as u32) + (b1 as u32) * 256)
    } else if tag == 63 {
        if iter.bytes.len() - iter.pos < 3 {
            return Err(
                DecodeError { kind: DecodeErrorKind::TruncatedInput, offset: iter.pos - 1 },
            );
        }
        let b0 = iter.bytes[iter.pos];
        let b1 = iter.bytes[iter.pos + 1];
        let b2 = iter.bytes[iter.pos + 2];
        iter.pos = iter.pos + 3;
        Ok((b0 as u32) + (b1 as u32) * 256 + (b2 as u32) * 65536)
    } else {
        Ok(tag as u32)
    }
}

/// Relies on `String::from_utf8`: it succeeds exactly on valid UTF-8
/// and yields the characters that the bytes encode.
#[verifier::external_body]
fn bytes_to_string(bytes: Vec<u8>) -> (r: Option<String>)
    ensures
        r matches Some(s) ==> valid_utf8(bytes@) && s@ == decode_utf8(bytes@),
        r is None ==> !valid_utf8(bytes@),
{
    String::from_utf8(bytes).ok()
}

/// The values the wire format can carry: identifiers need at most
/// three extra little-endian bytes, so they stop below 2^24, and a
/// metadata payload's byte length must fit the four-byte length field.
pub open spec fn spec_encodable(i: InstrModel) -> bool {
    match i {
        InstrModel::SetModuleId { module_id } => module_id < 0x1000000,
        InstrModel::CallFunction { function_id } => function_id < 0x1000000,
        InstrModel::ReachedBlock { block_id } => block_id < 0x1000000,
        InstrModel::ReturnFunction => true,
        InstrModel::SetModuleInfo { module_info_json } => encode_utf8(module_info_json).len()
            <= u32::MAX,
    }
}

/// The canonical variable-length encoding of a value below 2^24: the
/// low-six-bit tag first, then the extra little-endian bytes.
pub open spec fn spec_encode_vl(v: u32) -> Seq<u8>
    recommends
        v < 0x1000000,
{
    if v <= 60 {
        seq![v as u8]
    } else if v <= 0xFF {
        seq![61u8, v as u8]
    } else if v <= 0xFFFF {
        seq![62u8, (v % 256) as u8, (v / 256) as u8]
    } else {
        seq![63u8, (v % 256) as u8, ((v / 256) % 256) as u8, (v / 65536) as u8]
    }
}

/// The four big-endian bytes of a 32-bit integer.
pub open spec fn be_bytes(v: u32) -> Seq<u8> {
    seq![(v / 16777216) as u8, ((v / 65536) % 256) as u8, ((v / 256) % 256) as u8, (v % 256) as u8]
}

/// A variable-length encoding with the family bits folded into its
/// first byte.
pub open spec fn with_family(family: u8, enc: Seq<u8>) -> Seq<u8>
    recommends
        enc.len() >= 1,
        enc[0] < 64,
        family == 0 || family == 0x40 || family == 0x80,
{
    seq![(family + enc[0]) as u8] + enc.drop_first()
}

/// The encoding of one instruction in the wire format.
pub open spec fn spec_encode(i: InstrModel) -> Seq<u8>
    recommends
        spec_encodable(i),
{
    match i {
        InstrModel::SetModuleId { module_id } => with_family(0x00, spec_encode_vl(module_id)),
        InstrModel::CallFunction { function_id } => with_family(0x40, spec_encode_vl(function_id)),
        InstrModel::ReachedBlock { block_id } => with_family(0x80, spec_encode_vl(block_id)),
        InstrModel::ReturnFunction => seq![0xC0u8],
        InstrModel::SetModuleInfo { module_info_json } => {
            let payload = encode_utf8(module_info_json);
            seq![0xC1u8] + be_bytes(payload.len() as u32) + payload
        },
    }
}

/// Push the variable-length encoding of `v` with the given family bits
/// onto `out`.
fn push_vl(out: &mut Vec<u8>, family: u8, v: u32)
    requires
        family == 0 || family == 0x40 || family == 0x80,
        v < 0x1000000,
    ensures
        final(out)@ == old(out)@ + with_family(family, spec_encode_vl(v)),
{
    if v <= 60 {
        out.push(family + v as u8);
    } else if v <= 0xFF {
        out.push(family + 61);
        out.push(v as u8);
    } else if v <= 0xFFFF {
        out.push(family + 62);
        out.push((v % 256) as u8);
        out.push((v / 256) as u8);
    } else {
        out.push(family + 63);
        out.push((v % 256) as u8);
        out.push(((v / 256) % 256) as u8);
        out.push((v / 65536) as u8);
    }
    proof {
        assert(out@ =~= old(out)@ + with_family(family, spec_encode_vl(v)));
    }
}

impl Instruction {
    /// Encode this instruction in the wire format; `None` when the
    /// value lies outside what the format carries: an identifier of
    /// 2^24 or more, or a metadata payload longer than 2^32 - 1 bytes.
    pub fn encode(&self) -> (r: Option<Vec<u8>>)
        ensures
            r matches Some(b) ==> spec_encodable(self@) && b@ == spec_encode(self@),
            r is None ==> !spec_encodable(self@),
    {
        match self {
            Instruction::SetModuleId { module_id } => {
                if module_id.0 >= 0x1000000 {
                    return None;
                }
                let mut out: Vec<u8> = Vec::new();
                push_vl(&mut out, 0, module_id.0);
                proof {
                    assert(out@ =~= spec_encode(self@));
                }
                Some(out)
            },
            Instruction::CallFunction { function_id } => {
                if function_id.0 >= 0x1000000 {
                    return None;
                }
                let mut out: Vec<u8> = Vec::new();
                push_vl(&mut out, 0x40, function_id.0);
                proof {
                    assert(out@ =~= spec_encode(self@));
                }
                Some(out)
            },
            Instruction::ReachedBlock { block_id } => {
                if *block_id >= 0x1000000 {
                    return None;
                }
                let mut out: Vec<u8> = Vec::new();
                push_vl(&mut out, 0x80, *block_id);
                proof {
                    assert(out@ =~= spec_encode(self@));
                }
                Some(out)
            },
            Instruction::ReturnFunction => {
                let mut out: Vec<u8> = Vec::new();
                out.push(0xC0);
                proof {
                    assert(out@ =~= spec_encode(self@));
                }
                Some(out)
            },
            Instruction::SetModuleInfo { module_info_json } => {
                let mut payload = module_info_json.as_str().as_bytes_vec();
                if payload.len() > u32::MAX as usize {
                    return None;
                }
                let len = payload.len() as u32;
                let mut out: Vec<u8> = Vec::new();
                out.push(0xC1);
                out.push((len / 16777216) as u8);
                out.push(((len / 65536) % 256) as u8);
                out.push(((len / 256) % 256) as u8);
                out.push((len % 256) as u8);
                out.append(&mut payload);
                proof {
                    assert(out@ =~= spec_encode(self@));
                }
                Some(out)
            },
        }
    }

    /// Decode the single instruction at the cursor: `Ok(None)` at the
    /// clean end of the buffer, otherwise the instruction or the typed
    /// failure that `spec_decode_one` names at this position.
    pub fn from_iter<'a>(iter: &mut InstructionIter<'a>) -> (r: Result<
        Option<Instruction>,
        DecodeError,
    >)
        requires
            old(iter).wf(),
        ensures
            step_post(*old(iter), *final(iter), r),
    {
        if iter.pos >= iter.bytes.len() {
            return Ok(None);
        }
        let start = iter.pos;
        let b = iter.bytes[iter.pos];
        iter.pos = iter.pos + 1;
        if b < 0x40 {
            match read_u32_vl(iter, b) {
                Ok(v) => Ok(Some(Instruction::SetModuleId { module_id: ModuleId(v) })),
                Err(e) => Err(e),
            }
        } else if b < 0x80 {
            match read_u32_vl(iter, b) {
                Ok(v) => Ok(Some(Instruction::CallFunction { function_id: FunctionId(v) })),
                Err(e) => Err(e),
            }
        } else if b < 0xC0 {
            match read_u32_vl(iter, b) {
                Ok(v) => Ok(Some(Instruction::ReachedBlock { block_id: v })),
                Err(e) => Err(e),
            }
        } else if b == 0xC0 {
            Ok(Some(Instruction::ReturnFunction))
        } else if b == 0xC1 {
            let len = match read_u32(iter) {
                Ok(len) => len,
                Err(e) => {
                    return Err(e);
                },
            };
            if iter.bytes.len() - iter.pos < len as usize {
                return Err(
                    DecodeError { kind: DecodeErrorKind::TruncatedInput, offset: start },
                );
            }
            let payload_start = iter.pos;
            let end = iter.pos + len as usize;
            let mut payload: Vec<u8> = Vec::new();
            while iter.pos < end
                invariant
                    iter.bytes@ == old(iter).bytes@,
                    payload_start <= iter.pos <= end <= iter.bytes@.len(),
                    payload@ == iter.bytes@.subrange(payload_start as int, iter.pos as int),
                decreases end - iter.pos,
            {
                let byte = iter.bytes[iter.pos];
                payload.push(byte);
                iter.pos = iter.pos + 1;
                proof {
                    assert(payload@ =~= iter.bytes@.subrange(
                        payload_start as int,
                        iter.pos as int,
                    ));
                }
            }
            match bytes_to_string(payload) {
                Some(s) => Ok(Some(Instruction::SetModuleInfo { module_info_json: s })),
                None => Err(DecodeError { kind: DecodeErrorKind::InvalidUtf8, offset: start }),
            }
        } else {
            Err(DecodeError { kind: DecodeErrorKind::InvalidOpcode, offset: start })
        }
    }
}

} // verus!
