//! Laws of the codec and of replay, stated once over the specification
//! model and proved for every input: the encode/decode round trip,
//! determinism of the read-only queries, budget monotonicity of stack
//! reconstruction, and the balanced-trace property.

use vstd::prelude::*;
use vstd::utf8::{encode_utf8, encode_utf8_decode_utf8, encode_utf8_valid_utf8};
use crate::instruction::{
    be_u32, be_bytes, spec_decode_all, spec_decode_one, spec_encodable, spec_encode,
    spec_encode_vl, spec_read_vl, with_family, DecodeFailModel, DecodeStep, InstrModel,
};
use crate::recording::{
    is_counted, replay_init, replay_step, spec_module_info, spec_replay, FrameEntry, ReplayResult,
    ReplayState,
};

verus! {

/// Read-only queries are deterministic: any two metadata lookups on
/// the same buffer and module agree.
pub proof fn lemma_module_info_idempotent(
    bytes: Seq<u8>,
    target: u32,
    r1: Result<Option<Seq<char>>, DecodeFailModel>,
    r2: Result<Option<Seq<char>>, DecodeFailModel>,
)
    requires
        r1 == spec_module_info(bytes, 0, None, target),
        r2 == spec_module_info(bytes, 0, None, target),
    ensures
        r1 == r2,
{
}

/// Read-only queries are deterministic: any two full decodings of the
/// same buffer agree.
pub proof fn lemma_decode_all_idempotent(
    bytes: Seq<u8>,
    r1: Result<Seq<InstrModel>, DecodeFailModel>,
    r2: Result<Seq<InstrModel>, DecodeFailModel>,
)
    requires
        r1 == spec_decode_all(bytes, 0),
        r2 == spec_decode_all(bytes, 0),
    ensures
        r1 == r2,
{
}

/// Decoding a variable-length encoding with its family bits folded in
/// recovers the encoded value and consumes the whole encoding.
proof fn lemma_vl_decode(family: u8, v: u32)
    requires
        family == 0 || family == 0x40 || family == 0x80,
        v < 0x1000000,
    ensures
        ({
            let bytes = with_family(family, spec_encode_vl(v));
            &&& bytes.len() == spec_encode_vl(v).len()
            &&& 1 <= bytes.len() <= 4
            &&& bytes[0] == (family + spec_encode_vl(v)[0]) as u8
            &&& spec_read_vl(bytes, bytes[0], 1) == Some((v, bytes.len() as int))
        }),
{
    let enc = spec_encode_vl(v);
    let bytes = with_family(family, enc);
    let tag0 = enc[0];
    let b = (family + tag0) as u8;
    assert((family + tag0) as u8 & 0x3f == tag0) by (bit_vector)
        requires
            (family == 0 || family == 0x40 || family == 0x80) && tag0 < 64,
    ;
    if v <= 60 {
        assert(bytes =~= seq![b]);
    } else if v <= 0xFF {
        assert(bytes =~= seq![b, v as u8]);
        assert(bytes.subrange(1, 2) =~= seq![v as u8]);
    } else if v <= 0xFFFF {
        let b1 = (v % 256) as u8;
        let b2 = (v / 256) as u8;
        assert(bytes =~= seq![b, b1, b2]);
        assert(bytes.subrange(1, 3) =~= seq![b1, b2]);
        assert(v % 256 + (v / 256) * 256 == v) by (bit_vector)
            requires
                v <= 0xFFFFu32,
        ;
    } else {
        let b1 = (v % 256) as u8;
        let b2 = ((v / 256) % 256) as u8;
        let b3 = (v / 65536) as u8;
        assert(bytes =~= seq![b, b1, b2, b3]);
        assert(bytes.subrange(1, 4) =~= seq![b1, b2, b3]);
        assert(v % 256 + ((v / 256) % 256) * 256 + (v / 65536) * 65536 == v) by (bit_vector)
            requires
                v < 0x1000000u32,
        ;
    }
}

/// Reading back four big-endian bytes recovers the encoded integer.
proof fn lemma_be_round_trip(v: u32)
    ensures
        be_bytes(v).len() == 4,
        be_u32(be_bytes(v)) == v,
{
    assert((v / 16777216) * 16777216 + ((v / 65536) % 256) * 65536 + ((v / 256) % 256) * 256 + v
        % 256 == v) by (bit_vector);
}

/// Round trip of the codec: decoding the encoding of any encodable
/// instruction yields that instruction back and consumes exactly its
/// encoding.
pub proof fn lemma_encode_decode(i: InstrModel)
    requires
        spec_encodable(i),
    ensures
        spec_decode_one(spec_encode(i), 0) == DecodeStep::Instr(i, spec_encode(i).len() as int),
{
    let bytes = spec_encode(i);
    match i {
        InstrModel::SetModuleId { module_id } => {
            lemma_vl_decode(0, module_id);
        },
        InstrModel::CallFunction { function_id } => {
            lemma_vl_decode(0x40, function_id);
        },
        InstrModel::ReachedBlock { block_id } => {
            lemma_vl_decode(0x80, block_id);
        },
        InstrModel::ReturnFunction => {
            assert(bytes =~= seq![0xC0u8]);
        },
        InstrModel::SetModuleInfo { module_info_json } => {
            let payload = encode_utf8(module_info_json);
            let len = payload.len() as u32;
            lemma_be_round_trip(len);
            assert(bytes.len() == 5 + payload.len());
            assert(bytes.subrange(1, 5) =~= be_bytes(len));
            assert(bytes.subrange(5, 5 + payload.len() as int) =~= payload);
            encode_utf8_valid_utf8(module_info_json);
            encode_utf8_decode_utf8(module_info_json);
            assert(bytes[0] == 0xC1);
        },
    }
}

/// How the stack of open frames may move in one step of replay: it
/// stays as it is, loses its innermost frame, or gains one new
/// innermost frame on top of the old stack.
pub open spec fn frames_step(a: Seq<FrameEntry>, b: Seq<FrameEntry>) -> bool {
    ||| b == a
    ||| (a.len() > 0 && b == a.drop_last())
    ||| (b.len() == a.len() + 1 && b.drop_last() == a)
}

/// Granting one counted event to a replay moves the stack of open
/// frames by at most one step.
proof fn lemma_replay_one_more(bytes: Seq<u8>, pos: int, idx: int, st: ReplayState)
    requires
        0 <= pos <= bytes.len(),
    ensures
        spec_replay(bytes, pos, idx, 1, st) matches ReplayResult::Done(st1) ==> frames_step(
            st.frames,
            st1.frames,
        ),
    decreases bytes.len() - pos,
{
    crate::instruction::lemma_decode_one_advances(bytes, pos);
    match spec_decode_one(bytes, pos) {
        DecodeStep::End => {},
        DecodeStep::Fail(k, off) => {},
        DecodeStep::Instr(i, p2) => {
            match replay_step(st, i) {
                None => {},
                Some(st2) => {
                    if is_counted(i) {
                        assert(spec_replay(bytes, p2, idx + 1, 0, st2) == ReplayResult::Done(
                            st2,
                        ));
                        match i {
                            InstrModel::CallFunction { function_id } => {
                                assert(st2.frames.drop_last() =~= st.frames);
                            },
                            _ => {},
                        }
                    } else {
                        lemma_replay_one_more(bytes, p2, idx + 1, st2);
                    }
                },
            }
        },
    }
}

/// Growing the budget by one either leaves the final stack of open
/// frames unchanged or moves it by one step.
proof fn lemma_replay_succ(bytes: Seq<u8>, pos: int, idx: int, budget: int, st: ReplayState)
    requires
        0 <= pos <= bytes.len(),
        budget >= 0,
    ensures
        spec_replay(bytes, pos, idx, budget, st) matches ReplayResult::Done(a) ==> (spec_replay(
            bytes,
            pos,
            idx,
            budget + 1,
            st,
        ) matches ReplayResult::Done(b) ==> frames_step(a.frames, b.frames)),
    decreases bytes.len() - pos,
{
    crate::instruction::lemma_decode_one_advances(bytes, pos);
    if budget == 0 {
        lemma_replay_one_more(bytes, pos, idx, st);
    } else {
        match spec_decode_one(bytes, pos) {
            DecodeStep::End => {},
            DecodeStep::Fail(k, off) => {},
            DecodeStep::Instr(i, p2) => {
                match replay_step(st, i) {
                    None => {},
                    Some(st2) => {
                        let d: int = if is_counted(i) {
                            1
                        } else {
                            0
                        };
                        lemma_replay_succ(bytes, p2, idx + 1, budget - d, st2);
                    },
                }
            },
        }
    }
}

/// Budget monotonicity of stack reconstruction: when replays with
/// budgets `n` and `n + 1` both succeed, the larger budget leaves the
/// stack of open frames unchanged, pops the innermost frame, or pushes
/// one new innermost frame — the frames already open, with their
/// module and function, stay exactly as they were.
pub proof fn lemma_stack_at_budget_monotonic(bytes: Seq<u8>, n: int, a: ReplayState, b: ReplayState)
    requires
        0 <= n,
        spec_replay(bytes, 0, 0, n, replay_init()) == ReplayResult::Done(a),
        spec_replay(bytes, 0, 0, n + 1, replay_init()) == ReplayResult::Done(b),
    ensures
        frames_step(a.frames, b.frames),
{
    lemma_replay_succ(bytes, 0, 0, n, replay_init());
}

/// How many call events a sequence of instructions holds.
pub open spec fn count_calls(s: Seq<InstrModel>) -> int
    decreases s.len(),
{
    if s.len() == 0 {
        0
    } else {
        (if s[0] is CallFunction {
            1int
        } else {
            0int
        }) + count_calls(s.drop_first())
    }
}

/// How many return events a sequence of instructions holds.
pub open spec fn count_returns(s: Seq<InstrModel>) -> int
    decreases s.len(),
{
    if s.len() == 0 {
        0
    } else {
        (if s[0] is ReturnFunction {
            1int
        } else {
            0int
        }) + count_returns(s.drop_first())
    }
}

/// How many budget-counted events a sequence of instructions holds.
pub open spec fn count_counted(s: Seq<InstrModel>) -> int
    decreases s.len(),
{
    if s.len() == 0 {
        0
    } else {
        (if is_counted(s[0]) {
            1int
        } else {
            0int
        }) + count_counted(s.drop_first())
    }
}

proof fn lemma_count_counted_nonneg(s: Seq<InstrModel>)
    ensures
        count_counted(s) >= 0,
    decreases s.len(),
{
    if s.len() > 0 {
        lemma_count_counted_nonneg(s.drop_first());
    }
}

/// Replay of a whole instruction sequence, with no budget limit.
pub open spec fn replay_all(s: Seq<InstrModel>, st: ReplayState) -> Option<ReplayState>
    decreases s.len(),
{
    if s.len() == 0 {
        Some(st)
    } else {
        match replay_step(st, s[0]) {
            None => None,
            Some(st2) => replay_all(s.drop_first(), st2),
        }
    }
}

/// Instructions that consume no budget never touch the stack of open
/// frames or the live block, and never fail.
proof fn lemma_free_replay(s: Seq<InstrModel>, st: ReplayState)
    requires
        count_counted(s) == 0,
    ensures
        replay_all(s, st) matches Some(st2) && st2.frames == st.frames && st2.cur_block
            == st.cur_block,
    decreases s.len(),
{
    if s.len() > 0 {
        lemma_count_counted_nonneg(s.drop_first());
        let st2 = replay_step(st, s[0]).unwrap();
        lemma_free_replay(s.drop_first(), st2);
    }
}

/// A budgeted replay over the buffer agrees with the unbudgeted replay
/// of its decoded instructions whenever the budget covers every
/// counted event: the stacks of open frames come out equal, and a
/// malformed trace fails both ways.
proof fn lemma_replay_matches_decode(
    bytes: Seq<u8>,
    pos: int,
    idx: int,
    budget: int,
    st: ReplayState,
    instrs: Seq<InstrModel>,
)
    requires
        0 <= pos <= bytes.len(),
        spec_decode_all(bytes, pos) == Ok::<Seq<InstrModel>, DecodeFailModel>(instrs),
        budget >= count_counted(instrs),
    ensures
        replay_all(instrs, st) matches Some(st2) ==> (spec_replay(bytes, pos, idx, budget, st)
            matches ReplayResult::Done(st3) && st3.frames == st2.frames),
        replay_all(instrs, st) is None ==> spec_replay(bytes, pos, idx, budget, st)
            is Fail,
    decreases bytes.len() - pos,
{
    crate::instruction::lemma_decode_one_advances(bytes, pos);
    match spec_decode_one(bytes, pos) {
        DecodeStep::End => {},
        DecodeStep::Fail(k, off) => {},
        DecodeStep::Instr(i, p2) => {
            let rest = match spec_decode_all(bytes, p2) {
                Ok(rest) => rest,
                Err(e) => Seq::empty(),
            };
            assert(instrs == seq![i] + rest);
            assert(instrs[0] == i);
            assert(instrs.drop_first() =~= rest);
            assert(count_counted(instrs) == (if is_counted(i) {
                1int
            } else {
                0int
            }) + count_counted(rest));
            if budget <= 0 {
                lemma_count_counted_nonneg(rest);
                lemma_free_replay(instrs, st);
            } else {
                match replay_step(st, i) {
                    None => {},
                    Some(st2) => {
                        let d: int = if is_counted(i) {
                            1
                        } else {
                            0
                        };
                        lemma_replay_matches_decode(bytes, p2, idx + 1, budget - d, st2, rest);
                    },
                }
            }
        },
    }
}

/// Each step of replay moves the depth of the stack of open frames by
/// exactly its call count minus its return count.
proof fn lemma_replay_all_counts(s: Seq<InstrModel>, st: ReplayState)
    ensures
        replay_all(s, st) matches Some(st2) ==> st2.frames.len() == st.frames.len() + count_calls(
            s,
        ) - count_returns(s),
    decreases s.len(),
{
    if s.len() > 0 {
        match replay_step(st, s[0]) {
            None => {},
            Some(st2) => {
                lemma_replay_all_counts(s.drop_first(), st2);
            },
        }
    }
}

/// The balanced-trace property: a trace that decodes in full, holds as
/// many return events as call events, and is replayed with budget for
/// all of its counted events ends with an empty stack.
pub proof fn lemma_balanced_trace(
    bytes: Seq<u8>,
    budget: int,
    instrs: Seq<InstrModel>,
    st: ReplayState,
)
    requires
        spec_decode_all(bytes, 0) == Ok::<Seq<InstrModel>, DecodeFailModel>(instrs),
        budget >= count_counted(instrs),
        count_calls(instrs) == count_returns(instrs),
        spec_replay(bytes, 0, 0, budget, replay_init()) == ReplayResult::Done(st),
    ensures
        st.frames.len() == 0,
{
    lemma_replay_matches_decode(bytes, 0, 0, budget, replay_init(), instrs);
    lemma_replay_all_counts(instrs, replay_init());
}

} // verus!
