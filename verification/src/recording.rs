//! Queries over one recorded trace buffer: full decoding, call-stack
//! reconstruction after a budgeted number of events, and per-module
//! metadata lookup. Every query scans forward from the start of the
//! buffer with a fresh cursor and shares no state with other queries.

use vstd::prelude::*;
use crate::instruction::{
    create_instruction_iter, spec_decode_all, spec_decode_one, BlockId, DecodeError,
    DecodeFailModel, DecodeStep, FunctionId, InstrModel, Instruction, ModuleId,
};

verus! {

/// One still-open call during replay: the block that was active in the
/// caller at the instant this call was made, and the callee's module
/// and function.
pub struct FrameEntry {
    pub saved_block: Option<u32>,
    pub module_id: u32,
    pub function_id: u32,
}

/// The state carried while replaying a trace prefix: the most recently
/// set module, the block active in the currently executing frame, and
/// the stack of open calls, outermost first.
#[verifier::ext_equal]
pub struct ReplayState {
    pub cur_module: Option<u32>,
    pub cur_block: Option<u32>,
    pub frames: Seq<FrameEntry>,
}

/// The state before any instruction has been replayed.
pub open spec fn replay_init() -> ReplayState {
    ReplayState { cur_module: None, cur_block: None, frames: Seq::empty() }
}

/// Whether an instruction consumes replay budget: calls, blocks and
/// returns do; setting a module id or metadata is free.
pub open spec fn is_counted(i: InstrModel) -> bool {
    match i {
        InstrModel::CallFunction { .. } => true,
        InstrModel::ReachedBlock { .. } => true,
        InstrModel::ReturnFunction => true,
        InstrModel::SetModuleId { .. } => false,
        InstrModel::SetModuleInfo { .. } => false,
    }
}

/// The effect of one instruction on the replay state, or `None` when
/// the trace is malformed at this instruction: a call before any module
/// was set, or a return with no open call.
pub open spec fn replay_step(st: ReplayState, i: InstrModel) -> Option<ReplayState> {
    match i {
        InstrModel::SetModuleId { module_id } => Some(
            ReplayState {
                cur_module: Some(module_id),
                cur_block: st.cur_block,
                frames: st.frames,
            },
        ),
        InstrModel::CallFunction { function_id } => match st.cur_module {
            Some(m) => Some(
                ReplayState {
                    cur_module: st.cur_module,
                    cur_block: None,
                    frames: st.frames.push(
                        FrameEntry { saved_block: st.cur_block, module_id: m, function_id },
                    ),
                },
            ),
            None => None,
        },
        InstrModel::ReachedBlock { block_id } => Some(
            ReplayState {
                cur_module: st.cur_module,
                cur_block: Some(block_id),
                frames: st.frames,
            },
        ),
        InstrModel::ReturnFunction => if st.frames.len() == 0 {
            None
        } else {
            Some(
                ReplayState {
                    cur_module: st.cur_module,
                    cur_block: st.frames.last().saved_block,
                    frames: st.frames.drop_last(),
                },
            )
        },
        InstrModel::SetModuleInfo { .. } => Some(st),
    }
}

/// Why a stack reconstruction failed.
#[derive(Debug, Clone, Copy, PartialEq, Eq, Structural)]
pub enum ReplayError {
    /// The scan hit a corrupt instruction before the budget ran out.
    Decode { error: DecodeError },
    /// The trace is inconsistent at the instruction with this index.
    Malformed { index: usize },
}

/// The model of a replay failure, with the index as a plain integer.
pub enum ReplayFailModel {
    Decode { error: DecodeFailModel },
    Malformed { index: int },
}

impl View for ReplayError {
    type V = ReplayFailModel;

    open spec fn view(&self) -> ReplayFailModel {
        match self {
            ReplayError::Decode { error } => ReplayFailModel::Decode { error: error@ },
            ReplayError::Malformed { index } => ReplayFailModel::Malformed {
                index: *index as int,
            },
        }
    }
}

/// What a replay yields: the final state, or a failure.
pub enum ReplayResult {
    Done(ReplayState),
    Fail(ReplayFailModel),
}

/// Replay from `pos`, with `idx` instructions already consumed and
/// `budget` counted events still allowed, stopping as soon as the
/// budget is exhausted or the stream ends.
pub open spec fn spec_replay(
    bytes: Seq<u8>,
    pos: int,
    idx: int,
    budget: int,
    st: ReplayState,
) -> ReplayResult
    recommends
        0 <= pos <= bytes.len(),
    decreases bytes.len() - pos,
    when 0 <= pos <= bytes.len()
{
    if budget <= 0 {
        ReplayResult::Done(st)
    } else {
        match spec_decode_one(bytes, pos) {
            DecodeStep::End => ReplayResult::Done(st),
            DecodeStep::Fail(k, off) => ReplayResult::Fail(
                ReplayFailModel::Decode { error: DecodeFailModel { kind: k, offset: off } },
            ),
            DecodeStep::Instr(i, p2) => match replay_step(st, i) {
                None => ReplayResult::Fail(ReplayFailModel::Malformed { index: idx }),
                Some(st2) => spec_replay(
                    bytes,
                    p2,
                    idx + 1,
                    budget - if is_counted(i) {
                        1int
                    } else {
                        0int
                    },
                    st2,
                ),
            },
        }
    }
}

/// One reported activation record of the snapshot.
#[derive(Debug, Clone, Copy, PartialEq, Eq)]
pub struct StackFrame {
    pub module_id: ModuleId,
    pub function_id: FunctionId,
    /// The block active in this frame, if any.
    pub block_id: Option<BlockId>,
}

/// The model of one reported frame.
pub struct FrameModel {
    pub module_id: u32,
    pub function_id: u32,
    pub block_id: Option<u32>,
}

impl View for StackFrame {
    type V = FrameModel;

    open spec fn view(&self) -> FrameModel {
        FrameModel {
            module_id: self.module_id.0,
            function_id: self.function_id.0,
            block_id: match self.block_id {
                Some(b) => Some(b.0),
                None => None,
            },
        }
    }
}

/// A reconstructed call stack, outermost frame first.
#[derive(Debug, Clone, PartialEq, Eq)]
pub struct Stack {
    pub frames: Vec<StackFrame>,
}

impl View for Stack {
    type V = Seq<FrameModel>;

    open spec fn view(&self) -> Seq<FrameModel> {
        self.frames@.map_values(|f: StackFrame| f@)
    }
}

/// The snapshot reported for a final replay state: each frame's block
/// is the one recorded by the next deeper call at the instant it was
/// made; the innermost frame, which no deeper call has captured,
/// reports the live current block.
pub open spec fn snapshot_of(st: ReplayState) -> Seq<FrameModel> {
    Seq::new(
        st.frames.len(),
        |i: int|
            FrameModel {
                module_id: st.frames[i].module_id,
                function_id: st.frames[i].function_id,
                block_id: if i + 1 < st.frames.len() {
                    st.frames[i + 1].saved_block
                } else {
                    st.cur_block
                },
            },
    )
}

/// The first metadata registered while `target` is the active module,
/// scanning from `pos` with `cur` the module set so far; `Ok(None)`
/// when the stream ends without a match, `Err` on the first corrupt
/// instruction.
pub open spec fn spec_module_info(
    bytes: Seq<u8>,
    pos: int,
    cur: Option<u32>,
    target: u32,
) -> Result<Option<Seq<char>>, DecodeFailModel>
    recommends
        0 <= pos <= bytes.len(),
    decreases bytes.len() - pos,
    when 0 <= pos <= bytes.len()
{
    match spec_decode_one(bytes, pos) {
        DecodeStep::End => Ok(None),
        DecodeStep::Fail(k, off) => Err(DecodeFailModel { kind: k, offset: off }),
        DecodeStep::Instr(i, p2) => match i {
            InstrModel::SetModuleId { module_id } => spec_module_info(
                bytes,
                p2,
                Some(module_id),
                target,
            ),
            InstrModel::SetModuleInfo { module_info_json } => if cur == Some(target) {
                Ok(Some(module_info_json))
            } else {
                spec_module_info(bytes, p2, cur, target)
            },
            _ => spec_module_info(bytes, p2, cur, target),
        },
    }
}

/// The instruction models of a decoded vector, in order.
pub open spec fn insts_view(s: Seq<Instruction>) -> Seq<InstrModel> {
    s.map_values(|x: Instruction| x@)
}

/// A decoded result with `pre` prepended to its instructions.
pub open spec fn prepend_decoded(
    pre: Seq<InstrModel>,
    r: Result<Seq<InstrModel>, DecodeFailModel>,
) -> Result<Seq<InstrModel>, DecodeFailModel> {
    match r {
        Ok(rest) => Ok(pre + rest),
        Err(e) => Err(e),
    }
}

/// A decoding session over one immutable recorded byte buffer. The
/// buffer is owned by the session and never mutated; every query scans
/// it forward from the start.
pub struct Recording {
    data: Vec<u8>,
}

impl View for Recording {
    type V = Seq<u8>;

    closed spec fn view(&self) -> Seq<u8> {
        self.data@
    }
}

/// Wrap raw recorded bytes for querying.
pub fn parse_recording(data: Vec<u8>) -> (r: Recording)
    ensures
        r@ == data@,
{
    Recording { data }
}

/// The exec replay state seen as its model.
pub open spec fn state_view(
    cur_module: Option<ModuleId>,
    cur_block: Option<BlockId>,
    stack: Seq<(Option<BlockId>, ModuleId, FunctionId)>,
) -> ReplayState {
    ReplayState {
        cur_module: match cur_module {
            Some(m) => Some(m.0),
            None => None,
        },
        cur_block: match cur_block {
            Some(b) => Some(b.0),
            None => None,
        },
        frames: stack.map_values(
            |t: (Option<BlockId>, ModuleId, FunctionId)|
                FrameEntry {
                    saved_block: match t.0 {
                        Some(b) => Some(b.0),
                        None => None,
                    },
                    module_id: t.1.0,
                    function_id: t.2.0,
                },
        ),
    }
}

impl Recording {
    /// Raw byte count of the trace buffer.
    pub fn get_len(&self) -> (r: usize)
        ensures
            r == self@.len(),
    {
        self.data.len()
    }

    /// Decode the full stream into instructions, or report the first
    /// corrupt instruction; a failure is never passed off as an end of
    /// stream.
    pub fn decode(&self) -> (r: Result<Vec<Instruction>, DecodeError>)
        ensures
            match spec_decode_all(self@, 0) {
                Ok(instrs) => r matches Ok(v) && insts_view(v@) == instrs,
                Err(f) => r matches Err(e) && e@ == f,
            },
    {
        let mut iter = create_instruction_iter(&self.data);
        let mut out: Vec<Instruction> = Vec::new();
        loop
            invariant
                iter.wf(),
                iter.bytes@ == self@,
                spec_decode_all(self@, 0) == prepend_decoded(
                    insts_view(out@),
                    spec_decode_all(self@, iter.pos as int),
                ),
            decreases self@.len() - iter.pos,
        {
            let ghost prev = iter;
            match Instruction::from_iter(&mut iter) {
                Err(e) => {
                    return Err(e);
                },
                Ok(None) => {
                    proof {
                        assert(insts_view(out@) + Seq::<InstrModel>::empty() =~= insts_view(
                            out@,
                        ));
                    }
                    return Ok(out);
                },
                Ok(Some(ins)) => {
                    let ghost mid = spec_decode_all(self@, iter.pos as int);
                    let ghost out0 = out@;
                    out.push(ins);
                    proof {
                        assert(spec_decode_all(self@, prev.pos as int) == prepend_decoded(
                            seq![ins@],
                            mid,
                        ));
                        assert(insts_view(out@) =~= insts_view(out0) + seq![ins@]);
                        if mid is Ok {
                            let rest = mid->Ok_0;
                            assert((insts_view(out0) + seq![ins@]) + rest =~= insts_view(out0)
                                + (seq![ins@] + rest));
                        }
                    }
                },
            }
        }
    }

    /// Look up the metadata registered for `module_id`: the payload of
    /// the first metadata instruction recorded while that module was
    /// active, `Ok(None)` when the whole trace holds none, and the
    /// decode failure when the scan hits a corrupt instruction first.
    pub fn get_module_info(&self, module_id: u32) -> (r: Result<Option<String>, DecodeError>)
        ensures
            match spec_module_info(self@, 0, None, module_id) {
                Ok(Some(chars)) => r matches Ok(Some(s)) && s@ == chars,
                Ok(None) => r == Ok::<Option<String>, DecodeError>(None),
                Err(f) => r matches Err(e) && e@ == f,
            },
    {
        let mut iter = create_instruction_iter(&self.data);
        let mut current_module_id: Option<ModuleId> = None;
        loop
            invariant
                iter.wf(),
                iter.bytes@ == self@,
                spec_module_info(self@, 0, None, module_id) == spec_module_info(
                    self@,
                    iter.pos as int,
                    match current_module_id {
                        Some(m) => Some(m.0),
                        None => None,
                    },
                    module_id,
                ),
            decreases self@.len() - iter.pos,
        {
            match Instruction::from_iter(&mut iter) {
                Err(e) => {
                    return Err(e);
                },
                Ok(None) => {
                    return Ok(None);
                },
                Ok(Some(Instruction::SetModuleInfo { module_info_json })) => {
                    let matches_target = match &current_module_id {
                        Some(m) => m.0 == module_id,
                        None => false,
                    };
                    if matches_target {
                        return Ok(Some(module_info_json));
                    }
                },
                Ok(Some(Instruction::SetModuleId { module_id: id })) => {
                    current_module_id = Some(id);
                },
                Ok(Some(_)) => {},
            }
        }
    }

    /// Reconstruct the call stack after replaying up to
    /// `instruction_count` counted events from the start of the trace:
    /// the snapshot on success, the decode failure when a corrupt
    /// instruction is hit first, and the index of the offending
    /// instruction when the trace is inconsistent.
    pub fn stack_at(&self, instruction_count: usize) -> (r: Result<Stack, ReplayError>)
        ensures
            match spec_replay(self@, 0, 0, instruction_count as int, replay_init()) {
                ReplayResult::Done(st) => r matches Ok(s) && s@ == snapshot_of(st),
                ReplayResult::Fail(f) => r matches Err(e) && e@ == f,
            },
    {
        let mut iter = create_instruction_iter(&self.data);
        let mut cur_module_id: Option<ModuleId> = None;
        let mut cur_block_id: Option<BlockId> = None;
        let mut stack: Vec<(Option<BlockId>, ModuleId, FunctionId)> = Vec::new();
        let mut counted: usize = 0;
        let mut idx: usize = 0;
        proof {
            assert(state_view(cur_module_id, cur_block_id, stack@) =~= replay_init());
        }
        loop
            invariant
                iter.wf(),
                iter.bytes@ == self@,
                counted <= instruction_count,
                idx <= iter.pos,
                spec_replay(self@, 0, 0, instruction_count as int, replay_init())
                    == spec_replay(
                    self@,
                    iter.pos as int,
                    idx as int,
                    instruction_count - counted,
                    state_view(cur_module_id, cur_block_id, stack@),
                ),
            ensures
                spec_replay(self@, 0, 0, instruction_count as int, replay_init())
                    == ReplayResult::Done(state_view(cur_module_id, cur_block_id, stack@)),
            decreases self@.len() - iter.pos,
        {
            if counted >= instruction_count {
                break;
            }
            let ghost prev = iter;
            let ghost prev_counted = counted;
            let ghost prev_idx = idx;
            let ghost pre_state = state_view(cur_module_id, cur_block_id, stack@);
            match Instruction::from_iter(&mut iter) {
                Err(e) => {
                    return Err(ReplayError::Decode { error: e });
                },
                Ok(None) => {
                    break;
                },
                Ok(Some(ins)) => {
                    match ins {
                        Instruction::SetModuleId { module_id: id } => {
                            cur_module_id = Some(id);
                            proof {
                                assert(replay_step(pre_state, ins@) == Some(
                                    state_view(cur_module_id, cur_block_id, stack@),
                                ));
                            }
                        },
                        Instruction::CallFunction { function_id } => {
                            let m = match &cur_module_id {
                                Some(m) => *m,
                                None => {
                                    return Err(ReplayError::Malformed { index: idx });
                                },
                            };
                            let ghost entry = FrameEntry {
                                saved_block: pre_state.cur_block,
                                module_id: m.0,
                                function_id: function_id.0,
                            };
                            stack.push((cur_block_id, m, function_id));
                            cur_block_id = None;
                            counted = counted + 1;
                            proof {
                                assert(state_view(cur_module_id, cur_block_id, stack@)
                                    =~= (ReplayState {
                                    cur_module: pre_state.cur_module,
                                    cur_block: None,
                                    frames: pre_state.frames.push(entry),
                                }));
                                assert(replay_step(pre_state, ins@) == Some(
                                    state_view(cur_module_id, cur_block_id, stack@),
                                ));
                            }
                        },
                        Instruction::ReachedBlock { block_id: id } => {
                            cur_block_id = Some(BlockId(id));
                            counted = counted + 1;
                            proof {
                                assert(replay_step(pre_state, ins@) == Some(
                                    state_view(cur_module_id, cur_block_id, stack@),
                                ));
                            }
                        },
                        Instruction::ReturnFunction => {
                            let item = match stack.pop() {
                                Some(item) => item,
                                None => {
                                    proof {
                                        assert(pre_state.frames.len() == 0);
                                    }
                                    return Err(ReplayError::Malformed { index: idx });
                                },
                            };
                            cur_block_id = item.0;
                            counted = counted + 1;
                            proof {
                                assert(state_view(cur_module_id, cur_block_id, stack@)
                                    =~= (ReplayState {
                                    cur_module: pre_state.cur_module,
                                    cur_block: pre_state.frames.last().saved_block,
                                    frames: pre_state.frames.drop_last(),
                                }));
                                assert(replay_step(pre_state, ins@) == Some(
                                    state_view(cur_module_id, cur_block_id, stack@),
                                ));
                            }
                        },
                        Instruction::SetModuleInfo { .. } => {
                            proof {
                                assert(replay_step(pre_state, ins@) == Some(
                                    state_view(cur_module_id, cur_block_id, stack@),
                                ));
                            }
                        },
                    }
                    idx = idx + 1;
                    proof {
                        assert(spec_replay(
                            self@,
                            prev.pos as int,
                            prev_idx as int,
                            instruction_count - prev_counted,
                            pre_state,
                        ) == spec_replay(
                            self@,
                            iter.pos as int,
                            idx as int,
                            instruction_count - counted,
                            state_view(cur_module_id, cur_block_id, stack@),
                        ));
                    }
                },
            }
        }
        let ghost final_state = state_view(cur_module_id, cur_block_id, stack@);
        let n = stack.len();
        let mut frames: Vec<StackFrame> = Vec::new();
        let mut j: usize = 0;
        while j < n
            invariant
                n == stack@.len(),
                j <= n,
                final_state == state_view(cur_module_id, cur_block_id, stack@),
                frames@.len() == j,
                forall|k: int| 0 <= k < j ==> frames@[k]@ == snapshot_of(final_state)[k],
            decreases n - j,
        {
            let block = if j + 1 < n {
                stack[j + 1].0
            } else {
                cur_block_id
            };
            frames.push(StackFrame { module_id: stack[j].1, function_id: stack[j].2, block_id: block });
            j = j + 1;
        }
        let result = Stack { frames };
        proof {
            assert(result@ =~= snapshot_of(final_state));
        }
        Ok(result)
    }
}

} // verus!
