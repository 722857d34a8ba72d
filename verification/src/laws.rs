//! The library's cross-cutting guarantees, proved once and for all callers.
use vstd::prelude::*;

use crate::call::{
    spec_call_ops, spec_cgl, spec_consistent, spec_expected_cgl, spec_have_next,
    spec_resolved_warm,
};
use crate::gas::GAS_CALL_STIPEND;
use crate::mem::{ceil32, lemma_ceil32_ge, mem_extend};
use crate::operation::is_balance_transfer_op;
use crate::ret::{return_image, spec_copy_len};
use crate::state::{spec_parse_call, State};
use crate::trace::TraceStep;

verus! {

/// Call identifiers are strictly increasing from the root frame to the
/// current one, and therefore pairwise distinct, in every well-formed state.
pub proof fn lemma_call_ids_strictly_increasing(s: State)
    requires
        s.wf(),
    ensures
        forall|i: int, j: int|
            0 <= i < j < s.frames@.len() ==> #[trigger] s.frames@[i].call.call_id
                < #[trigger] s.frames@[j].call.call_id,
        forall|i: int, j: int|
            0 <= i < s.frames@.len() && 0 <= j < s.frames@.len() && i != j
                ==> #[trigger] s.frames@[i].call.call_id != #[trigger] s.frames@[j].call.call_id,
{
}

/// The identifier a CALL assigns to its callee frame is strictly greater
/// than that of every frame already on the stack: identifiers assigned
/// during a run are strictly increasing.
pub proof fn lemma_assigned_call_id_fresh(s: State, step: TraceStep)
    requires
        s.wf(),
        s.frames@.len() > 0,
    ensures
        forall|i: int|
            0 <= i < s.frames@.len() ==> #[trigger] s.frames@[i].call.call_id < spec_parse_call(
                s,
                step,
            ).call_id,
{
}

/// A CALL that transfers no value produces no balance-transfer operation.
pub proof fn lemma_zero_value_call_no_transfer(pre: State, s0: TraceStep, s1: TraceStep)
    requires
        pre.frames@.len() > 0,
        spec_parse_call(pre, s0).value.as_nat() == 0,
    ensures
        forall|i: int|
            0 <= i < spec_call_ops(pre, s0, s1).len() ==> !is_balance_transfer_op(
                #[trigger] spec_call_ops(pre, s0, s1)[i],
            ),
{
    let ops = spec_call_ops(pre, s0, s1);
    assert forall|i: int| 0 <= i < ops.len() implies !is_balance_transfer_op(ops[i]) by {
        assert(ops == spec_call_ops(pre, s0, s1));
    }
}

/// Whenever the trace enters the callee frame, the gas the calculator
/// forwards — under the warm status resolved by the one permitted retry —
/// equals the next step's gas less the value-call stipend.
pub proof fn lemma_consistent_callee_gas(pre: State, s0: TraceStep, s1: TraceStep)
    requires
        spec_consistent(pre, s0, s1),
        spec_have_next(s0, s1),
    ensures
        spec_cgl(pre, s0, spec_resolved_warm(pre, s0, s1)) == spec_expected_cgl(pre, s0, s1),
{
}

/// Extending a memory image never shrinks it and never changes a byte it
/// already holds.
pub proof fn lemma_mem_extend_monotone(m: Seq<u8>, minimal: int)
    requires
        0 <= minimal,
    ensures
        mem_extend(m, minimal).len() >= m.len(),
        mem_extend(m, minimal).len() >= ceil32(minimal),
        forall|i: int| 0 <= i < m.len() ==> #[trigger] mem_extend(m, minimal)[i] == m[i],
{
    lemma_ceil32_ge(minimal);
}

/// The caller memory a non-creation RETURN builds carries, inside the
/// reserved window, exactly the returned bytes, capped at the window's
/// length.
pub proof fn lemma_return_image_window(
    m: Seq<u8>,
    ro: int,
    rl: int,
    src: Seq<u8>,
    off: int,
    len: int,
)
    requires
        0 <= ro,
        0 <= rl,
        0 <= off,
        0 <= len,
        off + len <= src.len(),
    ensures
        forall|k: int|
            0 <= k < spec_copy_len(rl, len) ==> return_image(m, ro, rl, src, off, len)[ro + k]
                == #[trigger] src[off + k],
{
    lemma_ceil32_ge(ro + rl);
}

/// Rebuilding the caller memory for the same step twice, with no state
/// mutation in between, yields a byte-identical image: reconstruction is
/// idempotent.
pub proof fn lemma_return_image_idempotent(
    m: Seq<u8>,
    ro: int,
    rl: int,
    src: Seq<u8>,
    off: int,
    len: int,
)
    requires
        0 <= ro,
        0 <= rl,
        0 <= off,
        0 <= len,
        off + len <= src.len(),
    ensures
        return_image(return_image(m, ro, rl, src, off, len), ro, rl, src, off, len)
            == return_image(m, ro, rl, src, off, len),
{
    lemma_ceil32_ge(ro + rl);
    let img = return_image(m, ro, rl, src, off, len);
    assert(mem_extend(img, ro + rl) =~= img);
    assert(return_image(img, ro, rl, src, off, len) =~= img);
}

} // verus!
