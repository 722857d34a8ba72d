//! The CALL handler: call-frame bookkeeping, EIP-150 gas forwarding,
//! warm/cold access pricing, the consistency check against the reference
//! trace, and the three-way branch on the callee's nature.
use vstd::prelude::*;

use crate::gas::{
    call_gas_cost, eip150_gas, memory_expansion_gas_cost, spec_call_gas_cost, spec_eip150_gas,
    spec_memory_expansion_gas_cost, spec_next_word_size, GAS_CALL_STIPEND,
};
use crate::mem::{mem_extend, word_count, Memory};
use crate::operation::{
    access_list_write_op, account_read_op, balance_write_op, cc_read, cc_write, classify_error,
    spec_classify_error, stack_read_op, stack_write_op, AccountField, CallContextField, Error,
    ExecStep, Operation, Warning,
};
use crate::state::{
    al_contains, al_insert, is_precompiled, lookup_account, popped_state_rel, set_balance,
    spec_account_is_empty, spec_credit_balance, spec_credit_base, spec_debit_balance,
    spec_is_precompiled, spec_parse_call, spec_transfer_err, spec_transfer_ok, Account, Call,
    RevEntry, State,
};
use crate::trace::{spec_nth_last, TraceStep};
use crate::word::{empty_code_hash, word64, word_bool, word_zero, Word};

verus! {

/// 32-byte words the instruction's memory snapshot covers.
pub open spec fn spec_curr_words(s0: TraceStep) -> int {
    word_count(s0.memory@.len() as int)
}

/// Word count after the CALL touches its two memory windows.
pub open spec fn spec_next_words(pre: State, s0: TraceStep) -> int {
    let c = spec_parse_call(pre, s0);
    spec_next_word_size(
        spec_curr_words(s0),
        c.call_data_offset + c.call_data_length,
        c.return_data_offset + c.return_data_length,
    )
}

/// Memory-expansion gas this CALL is charged.
pub open spec fn spec_memexp(pre: State, s0: TraceStep) -> int {
    spec_memory_expansion_gas_cost(spec_curr_words(s0), spec_next_words(pre, s0))
}

/// Snapshot of the callee account.
pub open spec fn spec_callee_acct(pre: State, s0: TraceStep) -> Account {
    lookup_account(pre.sdb.accounts@, spec_parse_call(pre, s0).address)
}

/// Whether the CALL transfers a nonzero value.
pub open spec fn spec_has_value(pre: State, s0: TraceStep) -> bool {
    spec_parse_call(pre, s0).value.as_nat() != 0
}

/// Total gas the CALL is charged under the given warm assumption.
pub open spec fn spec_cost(pre: State, s0: TraceStep, warm: bool) -> int {
    spec_call_gas_cost(
        warm,
        spec_account_is_empty(spec_callee_acct(pre, s0)),
        spec_has_value(pre, s0),
        spec_memexp(pre, s0),
    )
}

/// Gas forwarded to the callee under the given warm assumption.
pub open spec fn spec_cgl(pre: State, s0: TraceStep, warm: bool) -> int {
    spec_eip150_gas((s0.gas - spec_cost(pre, s0, warm)) as u64, spec_nth_last(s0.stack@, 0))
}

/// Whether the next trace step entered the callee frame.
pub open spec fn spec_have_next(s0: TraceStep, s1: TraceStep) -> bool {
    s0.depth + 1 == s1.depth
}

/// Callee gas the trace reports: the next step's gas, less the stipend a
/// value-bearing call grants.
pub open spec fn spec_expected_cgl(pre: State, s0: TraceStep, s1: TraceStep) -> int {
    s1.gas - (if spec_has_value(pre, s0) {
        GAS_CALL_STIPEND as int
    } else {
        0
    })
}

/// Warm status the access list reports before any retry.
pub open spec fn spec_base_warm(pre: State, s0: TraceStep) -> bool {
    al_contains(pre.sdb.access_list@, pre.tx_id, spec_parse_call(pre, s0).address)
}

/// Warm status after the one permitted retry: flipped exactly when the
/// reported status disagrees with the trace and the flipped status agrees.
pub open spec fn spec_resolved_warm(pre: State, s0: TraceStep, s1: TraceStep) -> bool {
    let w0 = spec_base_warm(pre, s0);
    if spec_have_next(s0, s1) && spec_cgl(pre, s0, w0) != spec_expected_cgl(pre, s0, s1)
        && spec_cgl(pre, s0, !w0) == spec_expected_cgl(pre, s0, s1) {
        !w0
    } else {
        w0
    }
}

/// Whether the computed callee gas agrees with the trace, after the one
/// permitted retry, whenever a next step at the callee depth exists.
pub open spec fn spec_consistent(pre: State, s0: TraceStep, s1: TraceStep) -> bool {
    !spec_have_next(s0, s1) || spec_cgl(pre, s0, spec_resolved_warm(pre, s0, s1))
        == spec_expected_cgl(pre, s0, s1)
}

/// The six call-context reads against the current frame that open a CALL.
pub open spec fn ops_context_reads(tx_id: u64, cur: Call) -> Seq<Operation> {
    seq![
        cc_read(cur.call_id, CallContextField::TxId, word64(tx_id)),
        cc_read(cur.call_id, CallContextField::RwCounterEndOfReversion, word_zero()),
        cc_read(cur.call_id, CallContextField::IsPersistent, word_bool(cur.is_persistent)),
        cc_read(cur.call_id, CallContextField::CalleeAddress, cur.address),
        cc_read(cur.call_id, CallContextField::IsStatic, word_bool(cur.is_static)),
        cc_read(cur.call_id, CallContextField::Depth, word64(cur.depth)),
    ]
}

/// The seven operand reads and the result write against the current frame's
/// stack.
pub open spec fn ops_stack(cur: Call, stack: Seq<Word>, is_success: bool) -> Seq<Operation> {
    seq![
        stack_read_op(cur.call_id, (1024 - stack.len()) as u64, spec_nth_last(stack, 0)),
        stack_read_op(cur.call_id, (1024 - stack.len() + 1) as u64, spec_nth_last(stack, 1)),
        stack_read_op(cur.call_id, (1024 - stack.len() + 2) as u64, spec_nth_last(stack, 2)),
        stack_read_op(cur.call_id, (1024 - stack.len() + 3) as u64, spec_nth_last(stack, 3)),
        stack_read_op(cur.call_id, (1024 - stack.len() + 4) as u64, spec_nth_last(stack, 4)),
        stack_read_op(cur.call_id, (1024 - stack.len() + 5) as u64, spec_nth_last(stack, 5)),
        stack_read_op(cur.call_id, (1024 - stack.len() + 6) as u64, spec_nth_last(stack, 6)),
        stack_write_op(cur.call_id, (1024 - stack.len() + 6) as u64, word_bool(is_success)),
    ]
}

/// The two call-context reads against the new frame.
pub open spec fn ops_callee_reads(c: Call) -> Seq<Operation> {
    seq![
        cc_read(c.call_id, CallContextField::RwCounterEndOfReversion, word_zero()),
        cc_read(c.call_id, CallContextField::IsPersistent, word_bool(c.is_persistent)),
    ]
}

/// The two reversible balance writes of the value transfer; none when the
/// value is zero.
pub open spec fn ops_transfer(pre: State, s0: TraceStep) -> Seq<Operation> {
    let c = spec_parse_call(pre, s0);
    let acc = pre.sdb.accounts@;
    if c.value.as_nat() == 0 {
        Seq::<Operation>::empty()
    } else {
        seq![
            balance_write_op(
                c.call_id,
                c.caller_address,
                spec_debit_balance(acc, c.caller_address, c.value),
                lookup_account(acc, c.caller_address).balance,
            ),
            balance_write_op(
                c.call_id,
                c.address,
                spec_credit_balance(acc, c.caller_address, c.address, c.value),
                spec_credit_base(acc, c.caller_address, c.address, c.value),
            ),
        ]
    }
}

/// The two read-only account accesses of the callee.
pub open spec fn ops_account_reads(c: Call, acct: Account) -> Seq<Operation> {
    seq![
        account_read_op(c.call_id, c.address, AccountField::Nonce, acct.nonce),
        account_read_op(c.call_id, c.address, AccountField::CodeHash, acct.code_hash),
    ]
}

/// The caller's resumption snapshot and the new frame's full context reads,
/// written when execution continues into a callee with code: `pc1` is the
/// resumption program counter, `sp6` the restored stack pointer, `gas_left`
/// the caller's remaining gas, `mem_words` the caller's new memory word
/// count, and `rwc1` its advanced reversible-write counter.
pub open spec fn ops_nonempty_branch(
    cur: Call,
    c: Call,
    tx_id: u64,
    pc1: u64,
    sp6: u64,
    gas_left: u64,
    mem_words: u64,
    rwc1: u64,
) -> Seq<Operation> {
    seq![
        cc_write(cur.call_id, CallContextField::ProgramCounter, word64(pc1)),
        cc_write(cur.call_id, CallContextField::StackPointer, word64(sp6)),
        cc_write(cur.call_id, CallContextField::GasLeft, word64(gas_left)),
        cc_write(cur.call_id, CallContextField::MemorySize, word64(mem_words)),
        cc_write(cur.call_id, CallContextField::ReversibleWriteCounter, word64(rwc1)),
        cc_read(c.call_id, CallContextField::CallerId, word64(cur.call_id)),
        cc_read(c.call_id, CallContextField::TxId, word64(tx_id)),
        cc_read(c.call_id, CallContextField::Depth, word64(c.depth)),
        cc_read(c.call_id, CallContextField::CallerAddress, c.caller_address),
        cc_read(c.call_id, CallContextField::CalleeAddress, c.address),
        cc_read(c.call_id, CallContextField::CallDataOffset, word64(c.call_data_offset)),
        cc_read(c.call_id, CallContextField::CallDataLength, word64(c.call_data_length)),
        cc_read(c.call_id, CallContextField::ReturnDataOffset, word64(c.return_data_offset)),
        cc_read(c.call_id, CallContextField::ReturnDataLength, word64(c.return_data_length)),
        cc_read(c.call_id, CallContextField::Value, c.value),
        cc_read(c.call_id, CallContextField::IsSuccess, word_bool(c.is_success)),
        cc_read(c.call_id, CallContextField::IsStatic, word_bool(c.is_static)),
        cc_read(c.call_id, CallContextField::LastCalleeId, word_zero()),
        cc_read(c.call_id, CallContextField::LastCalleeReturnDataOffset, word_zero()),
        cc_read(c.call_id, CallContextField::LastCalleeReturnDataLength, word_zero()),
        cc_read(c.call_id, CallContextField::IsRoot, word_zero()),
        cc_read(c.call_id, CallContextField::IsCreate, word_zero()),
        cc_read(c.call_id, CallContextField::CodeHash, c.code_hash),
    ]
}

/// The caller's last-callee writes when the callee had empty code and the
/// call completes immediately.
pub open spec fn ops_empty_branch(cur: Call) -> Seq<Operation> {
    seq![
        cc_write(cur.call_id, CallContextField::LastCalleeId, word_zero()),
        cc_write(cur.call_id, CallContextField::LastCalleeReturnDataOffset, word_zero()),
        cc_write(cur.call_id, CallContextField::LastCalleeReturnDataLength, word_zero()),
    ]
}

/// The full ordered operation log of one successfully processed CALL:
/// context reads, stack accesses, the reversible warm-mark, the new frame's
/// reads, the transfer, the account reads, and the branch-specific writes.
pub open spec fn spec_call_ops(pre: State, s0: TraceStep, s1: TraceStep) -> Seq<Operation> {
    let cur = pre.frames@.last().call;
    let c = spec_parse_call(pre, s0);
    let acct = spec_callee_acct(pre, s0);
    let warm = spec_resolved_warm(pre, s0, s1);
    let common = ops_context_reads(pre.tx_id, cur) + ops_stack(cur, s0.stack@, c.is_success)
        + seq![access_list_write_op(cur.call_id, pre.tx_id, c.address, true, warm)]
        + ops_callee_reads(c) + ops_transfer(pre, s0) + ops_account_reads(c, acct);
    if spec_is_precompiled(c.address) {
        common
    } else if acct.code_hash == empty_code_hash() {
        common + ops_empty_branch(cur)
    } else {
        let gas_cost = spec_cost(pre, s0, warm);
        let cgl = spec_cgl(pre, s0, warm);
        common + ops_nonempty_branch(
            cur,
            c,
            pre.tx_id,
            (s0.pc + 1) as u64,
            (1024 - s0.stack@.len() + 6) as u64,
            (s0.gas - gas_cost - cgl) as u64,
            spec_next_words(pre, s0) as u64,
            (cur.reversible_write_counter + 1) as u64,
        )
    }
}

/// The account snapshots after the CALL's value transfer.
pub open spec fn spec_accounts_after_transfer(pre: State, s0: TraceStep) -> Seq<Account> {
    let c = spec_parse_call(pre, s0);
    let acc = pre.sdb.accounts@;
    if c.value.as_nat() == 0 {
        acc
    } else {
        set_balance(
            set_balance(acc, c.caller_address, spec_debit_balance(acc, c.caller_address, c.value)),
            c.address,
            spec_credit_balance(acc, c.caller_address, c.address, c.value),
        )
    }
}

/// The undo log after the CALL: the warm-mark restore entry, then the two
/// balance restore entries of a value-bearing transfer.
pub open spec fn spec_rev_log_after(pre: State, s0: TraceStep, s1: TraceStep) -> Seq<RevEntry> {
    let c = spec_parse_call(pre, s0);
    let acc = pre.sdb.accounts@;
    let l1 = pre.rev_log@.push(
        RevEntry::AccessList {
            tx_id: pre.tx_id,
            address: c.address,
            was_warm: spec_resolved_warm(pre, s0, s1),
        },
    );
    if c.value.as_nat() == 0 {
        l1
    } else {
        l1.push(
            RevEntry::Balance {
                address: c.caller_address,
                balance_prev: lookup_account(acc, c.caller_address).balance,
            },
        ).push(
            RevEntry::Balance {
                address: c.address,
                balance_prev: spec_credit_base(acc, c.caller_address, c.address, c.value),
            },
        )
    }
}

/// The arithmetic bounds the CALL handler needs from its trace step: window
/// operands that fit the gas formulas, enough gas to cover the worst-case
/// cost, a stipend-covering next step, and headroom on the counters it
/// advances.
pub open spec fn call_step_bounds(pre: State, s0: TraceStep, s1: TraceStep) -> bool {
    &&& s0.stack@.len() <= 1024
    &&& s0.pc < u64::MAX
    &&& s0.depth < u64::MAX
    &&& s0.memory@.len() <= 0xffff0000
    &&& pre.next_call_id < u64::MAX
    &&& (pre.frames@.len() > 0 ==> pre.frames@.last().call.depth < u64::MAX
        && pre.frames@.last().call.reversible_write_counter < u64::MAX - 4)
    &&& (s0.error is None && s0.stack@.len() >= 7 && pre.frames@.len() > 0 ==> {
        let c = spec_parse_call(pre, s0);
        &&& spec_nth_last(s0.stack@, 3).spec_fits_u64()
        &&& spec_nth_last(s0.stack@, 4).spec_fits_u64()
        &&& spec_nth_last(s0.stack@, 5).spec_fits_u64()
        &&& spec_nth_last(s0.stack@, 6).spec_fits_u64()
        &&& c.call_data_offset + c.call_data_length <= 0xffff0000
        &&& c.return_data_offset + c.return_data_length <= 0xffff0000
        &&& s0.gas >= spec_cost(pre, s0, false)
        &&& (spec_have_next(s0, s1) && spec_has_value(pre, s0) ==> s1.gas
            >= GAS_CALL_STIPEND)
    })
}

/// Appends the six opening call-context reads.
fn emit_context_reads(step: &mut ExecStep, tx_id: u64, cur: Call)
    ensures
        final(step).bus_ops@ == old(step).bus_ops@ + ops_context_reads(tx_id, cur),
        crate::operation::step_meta_eq(*final(step), *old(step)),
{
    step.push_op(Operation::new_cc_read(cur.call_id, CallContextField::TxId, Word::from_u64(tx_id)));
    step.push_op(
        Operation::new_cc_read(cur.call_id, CallContextField::RwCounterEndOfReversion, Word::zero()),
    );
    step.push_op(
        Operation::new_cc_read(
            cur.call_id,
            CallContextField::IsPersistent,
            Word::from_bool(cur.is_persistent),
        ),
    );
    step.push_op(Operation::new_cc_read(cur.call_id, CallContextField::CalleeAddress, cur.address));
    step.push_op(
        Operation::new_cc_read(cur.call_id, CallContextField::IsStatic, Word::from_bool(cur.is_static)),
    );
    step.push_op(
        Operation::new_cc_read(cur.call_id, CallContextField::Depth, Word::from_u64(cur.depth)),
    );
    proof {
        assert(step.bus_ops@ =~= old(step).bus_ops@ + ops_context_reads(tx_id, cur));
    }
}

/// Appends the seven operand reads and the success-flag write.
fn emit_stack_ops(step: &mut ExecStep, cur: Call, s0: &TraceStep, is_success: bool)
    requires
        7 <= s0.stack@.len() <= 1024,
    ensures
        final(step).bus_ops@ == old(step).bus_ops@ + ops_stack(cur, s0.stack@, is_success),
        crate::operation::step_meta_eq(*final(step), *old(step)),
{
    let n: usize = s0.stack.len();
    let sp: u64 = s0.stack_pointer();
    step.push_op(Operation::new_stack_read(cur.call_id, sp, s0.stack[n - 1]));
    step.push_op(Operation::new_stack_read(cur.call_id, sp + 1, s0.stack[n - 2]));
    step.push_op(Operation::new_stack_read(cur.call_id, sp + 2, s0.stack[n - 3]));
    step.push_op(Operation::new_stack_read(cur.call_id, sp + 3, s0.stack[n - 4]));
    step.push_op(Operation::new_stack_read(cur.call_id, sp + 4, s0.stack[n - 5]));
    step.push_op(Operation::new_stack_read(cur.call_id, sp + 5, s0.stack[n - 6]));
    step.push_op(Operation::new_stack_read(cur.call_id, sp + 6, s0.stack[n - 7]));
    step.push_op(Operation::new_stack_write(cur.call_id, sp + 6, Word::from_bool(is_success)));
    proof {
        assert(step.bus_ops@ =~= old(step).bus_ops@ + ops_stack(cur, s0.stack@, is_success));
    }
}

/// Appends the new frame's two opening reads.
fn emit_callee_reads(step: &mut ExecStep, c: Call)
    ensures
        final(step).bus_ops@ == old(step).bus_ops@ + ops_callee_reads(c),
        crate::operation::step_meta_eq(*final(step), *old(step)),
{
    step.push_op(
        Operation::new_cc_read(c.call_id, CallContextField::RwCounterEndOfReversion, Word::zero()),
    );
    step.push_op(
        Operation::new_cc_read(
            c.call_id,
            CallContextField::IsPersistent,
            Word::from_bool(c.is_persistent),
        ),
    );
    proof {
        assert(step.bus_ops@ =~= old(step).bus_ops@ + ops_callee_reads(c));
    }
}

/// Appends the callee's nonce and code-hash reads.
fn emit_account_reads(step: &mut ExecStep, c: Call, acct: Account)
    ensures
        final(step).bus_ops@ == old(step).bus_ops@ + ops_account_reads(c, acct),
        crate::operation::step_meta_eq(*final(step), *old(step)),
{
    step.push_op(
        Operation::new_account_read(c.call_id, c.address, AccountField::Nonce, acct.nonce),
    );
    step.push_op(
        Operation::new_account_read(c.call_id, c.address, AccountField::CodeHash, acct.code_hash),
    );
    proof {
        assert(step.bus_ops@ =~= old(step).bus_ops@ + ops_account_reads(c, acct));
    }
}

/// Appends the caller's last-callee writes of the empty-code branch.
fn emit_empty_branch(step: &mut ExecStep, cur: Call)
    ensures
        final(step).bus_ops@ == old(step).bus_ops@ + ops_empty_branch(cur),
        crate::operation::step_meta_eq(*final(step), *old(step)),
{
    step.push_op(Operation::new_cc_write(cur.call_id, CallContextField::LastCalleeId, Word::zero()));
    step.push_op(
        Operation::new_cc_write(cur.call_id, CallContextField::LastCalleeReturnDataOffset, Word::zero()),
    );
    step.push_op(
        Operation::new_cc_write(cur.call_id, CallContextField::LastCalleeReturnDataLength, Word::zero()),
    );
    proof {
        assert(step.bus_ops@ =~= old(step).bus_ops@ + ops_empty_branch(cur));
    }
}

/// Appends the caller's resumption snapshot and the new frame's full
/// context reads.
fn emit_nonempty_branch(
    step: &mut ExecStep,
    cur: Call,
    c: Call,
    tx_id: u64,
    pc1: u64,
    sp6: u64,
    gas_left: u64,
    mem_words: u64,
    rwc1: u64,
)
    ensures
        final(step).bus_ops@ == old(step).bus_ops@ + ops_nonempty_branch(
            cur,
            c,
            tx_id,
            pc1,
            sp6,
            gas_left,
            mem_words,
            rwc1,
        ),
        crate::operation::step_meta_eq(*final(step), *old(step)),
{
    step.push_op(
        Operation::new_cc_write(cur.call_id, CallContextField::ProgramCounter, Word::from_u64(pc1)),
    );
    step.push_op(
        Operation::new_cc_write(cur.call_id, CallContextField::StackPointer, Word::from_u64(sp6)),
    );
    step.push_op(
        Operation::new_cc_write(cur.call_id, CallContextField::GasLeft, Word::from_u64(gas_left)),
    );
    step.push_op(
        Operation::new_cc_write(cur.call_id, CallContextField::MemorySize, Word::from_u64(mem_words)),
    );
    step.push_op(
        Operation::new_cc_write(
            cur.call_id,
            CallContextField::ReversibleWriteCounter,
            Word::from_u64(rwc1),
        ),
    );
    step.push_op(
        Operation::new_cc_read(c.call_id, CallContextField::CallerId, Word::from_u64(cur.call_id)),
    );
    step.push_op(Operation::new_cc_read(c.call_id, CallContextField::TxId, Word::from_u64(tx_id)));
    step.push_op(
        Operation::new_cc_read(c.call_id, CallContextField::Depth, Word::from_u64(c.depth)),
    );
    step.push_op(
        Operation::new_cc_read(c.call_id, CallContextField::CallerAddress, c.caller_address),
    );
    step.push_op(Operation::new_cc_read(c.call_id, CallContextField::CalleeAddress, c.address));
    step.push_op(
        Operation::new_cc_read(
            c.call_id,
            CallContextField::CallDataOffset,
            Word::from_u64(c.call_data_offset),
        ),
    );
    step.push_op(
        Operation::new_cc_read(
            c.call_id,
            CallContextField::CallDataLength,
            Word::from_u64(c.call_data_length),
        ),
    );
    step.push_op(
        Operation::new_cc_read(
            c.call_id,
            CallContextField::ReturnDataOffset,
            Word::from_u64(c.return_data_offset),
        ),
    );
    step.push_op(
        Operation::new_cc_read(
            c.call_id,
            CallContextField::ReturnDataLength,
            Word::from_u64(c.return_data_length),
        ),
    );
    step.push_op(Operation::new_cc_read(c.call_id, CallContextField::Value, c.value));
    step.push_op(
        Operation::new_cc_read(c.call_id, CallContextField::IsSuccess, Word::from_bool(c.is_success)),
    );
    step.push_op(
        Operation::new_cc_read(c.call_id, CallContextField::IsStatic, Word::from_bool(c.is_static)),
    );
    step.push_op(Operation::new_cc_read(c.call_id, CallContextField::LastCalleeId, Word::zero()));
    step.push_op(
        Operation::new_cc_read(c.call_id, CallContextField::LastCalleeReturnDataOffset, Word::zero()),
    );
    step.push_op(
        Operation::new_cc_read(c.call_id, CallContextField::LastCalleeReturnDataLength, Word::zero()),
    );
    step.push_op(Operation::new_cc_read(c.call_id, CallContextField::IsRoot, Word::zero()));
    step.push_op(Operation::new_cc_read(c.call_id, CallContextField::IsCreate, Word::zero()));
    step.push_op(Operation::new_cc_read(c.call_id, CallContextField::CodeHash, c.code_hash));
    proof {
        assert(step.bus_ops@ =~= old(step).bus_ops@ + ops_nonempty_branch(
            cur,
            c,
            tx_id,
            pc1,
            sp6,
            gas_left,
            mem_words,
            rwc1,
        ));
    }
}

/// Resolves the warm/cold status and the call's gas numbers against the
/// trace: computes cost and forwarded gas from the reported warm status,
/// retries once with the flag flipped when the next step at the callee
/// depth disagrees, and reports the fatal inconsistency when it still
/// disagrees.
fn resolve_pricing(
    sdb: &crate::state::StateDB,
    Ghost(pre): Ghost<State>,
    tx_id: u64,
    s0: &TraceStep,
    s1: &TraceStep,
    c: Call,
    is_account_empty: bool,
    has_value: bool,
    memexp: u64,
    gas_specified: Word,
) -> (r: Result<(bool, u64, u64), Error>)
    requires
        sdb.access_list@ == pre.sdb.access_list@,
        tx_id == pre.tx_id,
        pre.frames@.len() > 0,
        c == spec_parse_call(pre, *s0),
        s0.stack@.len() >= 7,
        is_account_empty == spec_account_is_empty(spec_callee_acct(pre, *s0)),
        has_value == spec_has_value(pre, *s0),
        memexp == spec_memexp(pre, *s0),
        memexp <= 0x4000000000000000,
        gas_specified == spec_nth_last(s0.stack@, 0),
        s0.gas >= spec_cost(pre, *s0, false),
        s0.depth < u64::MAX,
        spec_have_next(*s0, *s1) && has_value ==> s1.gas >= GAS_CALL_STIPEND,
    ensures
        match r {
            Ok(p) => {
                &&& p.0 == spec_resolved_warm(pre, *s0, *s1)
                &&& p.1 == spec_cost(pre, *s0, p.0)
                &&& p.2 == spec_cgl(pre, *s0, p.0)
                &&& spec_consistent(pre, *s0, *s1)
            },
            Err(e) => e == Error::InternalInconsistency && !spec_consistent(pre, *s0, *s1),
        },
{
    let mut is_warm: bool = sdb.check_account_in_access_list(tx_id, &c.address);
    proof {
        assert(is_warm == spec_base_warm(pre, *s0));
        assert(spec_call_gas_cost(true, is_account_empty, has_value, memexp as int)
            <= spec_call_gas_cost(false, is_account_empty, has_value, memexp as int));
    }
    let mut gas_cost: u64 = call_gas_cost(is_warm, is_account_empty, has_value, memexp);
    let mut callee_gas_left: u64 = eip150_gas(s0.gas - gas_cost, &gas_specified);
    if s0.depth + 1 == s1.depth {
        let expected: u64 = s1.gas - (if has_value {
            GAS_CALL_STIPEND
        } else {
            0
        });
        if callee_gas_left != expected {
            let gas_cost_new: u64 = call_gas_cost(!is_warm, is_account_empty, has_value, memexp);
            let callee_gas_left_new: u64 = eip150_gas(s0.gas - gas_cost_new, &gas_specified);
            if callee_gas_left_new == expected {
                is_warm = !is_warm;
                gas_cost = gas_cost_new;
                callee_gas_left = callee_gas_left_new;
            }
        }
        if callee_gas_left != expected {
            return Err(Error::InternalInconsistency);
        }
    }
    Ok((is_warm, gas_cost, callee_gas_left))
}

/// The state after a CALL that keeps its callee frame on the stack (a
/// precompiled or code-bearing callee), relative to the state before the
/// instruction: counters advanced, the callee marked warm, the value moved,
/// the restore entries logged, the caller's reversible-write counter
/// advanced, and the callee frame on top with fresh buffers.
pub open spec fn call_mid_state(pre: State, mid: State, s0: TraceStep, s1: TraceStep) -> bool {
    let c = spec_parse_call(pre, s0);
    let cur = pre.frames@.last().call;
    let n0 = pre.frames@.len() as int;
    &&& mid.tx_id == pre.tx_id
    &&& mid.call_is_success == pre.call_is_success
    &&& mid.code_db == pre.code_db
    &&& mid.calls_made == pre.calls_made + 1
    &&& mid.next_call_id == pre.next_call_id + 1
    &&& mid.sdb.accounts@ == spec_accounts_after_transfer(pre, s0)
    &&& mid.sdb.access_list@ == al_insert(pre.sdb.access_list@, pre.tx_id, c.address)
    &&& mid.rev_log@ == spec_rev_log_after(pre, s0, s1)
    &&& mid.frames@.len() == n0 + 1
    &&& (forall|i: int| 0 <= i < n0 - 1 ==> mid.frames@[i] == pre.frames@[i])
    &&& mid.frames@[n0 - 1].call == (Call {
        reversible_write_counter: (cur.reversible_write_counter + 1) as u64,
        ..cur
    })
    &&& mid.frames@[n0 - 1].memory == pre.frames@[n0 - 1].memory
    &&& mid.frames@[n0 - 1].return_data == pre.frames@[n0 - 1].return_data
    &&& mid.frames@[n0].call == (Call {
        reversible_write_counter: (if c.value.as_nat() == 0 {
            0int
        } else {
            2int
        }) as u64,
        rev_log_start: (pre.rev_log@.len() + 1) as usize,
        ..c
    })
    &&& mid.frames@[n0].memory@ == Seq::<u8>::empty()
    &&& mid.frames@[n0].return_data@ == Seq::<u8>::empty()
}

/// The state after a CALL to an empty-code callee, which completes
/// immediately: the callee frame pushed and popped again, its transfer
/// undone when the call failed, the warm mark kept.
pub open spec fn call_empty_final(pre: State, post: State, s0: TraceStep, s1: TraceStep) -> bool {
    let c = spec_parse_call(pre, s0);
    let cur = pre.frames@.last().call;
    let warm = spec_resolved_warm(pre, s0, s1);
    let n0 = pre.frames@.len() as int;
    &&& post.tx_id == pre.tx_id
    &&& post.call_is_success == pre.call_is_success
    &&& post.code_db == pre.code_db
    &&& post.calls_made == pre.calls_made + 1
    &&& post.next_call_id == pre.next_call_id + 1
    &&& post.sdb.access_list@ == al_insert(pre.sdb.access_list@, pre.tx_id, c.address)
    &&& post.frames@.len() == n0
    &&& (forall|i: int| 0 <= i < n0 - 1 ==> post.frames@[i] == pre.frames@[i])
    &&& post.frames@[n0 - 1].call == (Call {
        reversible_write_counter: (cur.reversible_write_counter + 1) as u64,
        ..cur
    })
    &&& post.frames@[n0 - 1].memory == pre.frames@[n0 - 1].memory
    &&& post.frames@[n0 - 1].return_data == pre.frames@[n0 - 1].return_data
    &&& (if c.is_success {
        &&& post.sdb.accounts@ == spec_accounts_after_transfer(pre, s0)
        &&& post.rev_log@ == spec_rev_log_after(pre, s0, s1)
    } else {
        &&& post.rev_log@ == pre.rev_log@.push(
            RevEntry::AccessList { tx_id: pre.tx_id, address: c.address, was_warm: warm },
        )
        &&& (if c.value.as_nat() == 0 {
            post.sdb.accounts@ == pre.sdb.accounts@
        } else {
            post.sdb.accounts@ == set_balance(
                set_balance(
                    spec_accounts_after_transfer(pre, s0),
                    c.address,
                    spec_credit_base(pre.sdb.accounts@, c.caller_address, c.address, c.value),
                ),
                c.caller_address,
                lookup_account(pre.sdb.accounts@, c.caller_address).balance,
            )
        })
    })
}

/// Completes a CALL to an empty-code callee: records the gap warning and
/// unwinds the freshly pushed callee frame, undoing its transfer when the
/// call failed.
fn finish_empty_code_call(
    state: &mut State,
    Ghost(pre): Ghost<State>,
    Ghost(s0): Ghost<TraceStep>,
    Ghost(s1): Ghost<TraceStep>,
    c: Call,
    has_value: bool,
    is_warm: bool,
)
    requires
        old(state).wf(),
        pre.frames@.len() > 0,
        call_mid_state(pre, *old(state), s0, s1),
        old(state).warnings@ == pre.warnings@,
        c == spec_parse_call(pre, s0),
        has_value == (c.value.as_nat() != 0),
        is_warm == spec_resolved_warm(pre, s0, s1),
    ensures
        call_empty_final(pre, *final(state), s0, s1),
        final(state).warnings@ == pre.warnings@.push(Warning::EmptyCodeCallPartial),
        final(state).wf(),
{
    state.warn(Warning::EmptyCodeCallPartial);
    let loglen: usize = state.rev_log.len();
    let ghost mid = *state;
    state.handle_return();
    proof {
        let n0 = pre.frames@.len() as int;
        assert(mid.rev_log@.len() == loglen);
        assert(pre.rev_log@.len() + 1 <= usize::MAX);
        assert(mid.frames@.last() == mid.frames@[n0 as int]);
        assert(mid.frames@[n0 as int].call.rev_log_start as int == pre.rev_log@.len() as int
            + 1);
        assert forall|i: int| 0 <= i < n0 - 1 implies state.frames@[i] == pre.frames@[i] by {
            assert(state.frames@[i] == mid.frames@.drop_last()[i]);
        }
        assert(state.frames@[n0 - 1] == mid.frames@.drop_last()[n0 - 1]);
        let acc = pre.sdb.accounts@;
        let after = spec_accounts_after_transfer(pre, s0);
        let log_after = spec_rev_log_after(pre, s0, s1);
        let start = pre.rev_log@.len() as int + 1;
        let suffix = log_after.skip(start);
        let al1 = al_insert(pre.sdb.access_list@, pre.tx_id, c.address);
        if !c.is_success {
            if has_value {
                reveal_with_fuel(crate::state::undo_accounts, 4);
                reveal_with_fuel(crate::state::undo_al, 4);
                let d = RevEntry::Balance {
                    address: c.caller_address,
                    balance_prev: lookup_account(acc, c.caller_address).balance,
                };
                let cr = RevEntry::Balance {
                    address: c.address,
                    balance_prev: spec_credit_base(acc, c.caller_address, c.address, c.value),
                };
                assert(suffix =~= seq![d, cr]);
                assert(suffix.drop_first() =~= seq![cr]);
                assert(seq![cr].drop_first() =~= Seq::<RevEntry>::empty());
                assert(crate::state::undo_accounts(after, seq![cr]) == set_balance(
                    after,
                    c.address,
                    spec_credit_base(acc, c.caller_address, c.address, c.value),
                ));
                assert(crate::state::undo_accounts(after, suffix) == set_balance(
                    set_balance(
                        after,
                        c.address,
                        spec_credit_base(acc, c.caller_address, c.address, c.value),
                    ),
                    c.caller_address,
                    lookup_account(acc, c.caller_address).balance,
                ));
                assert(crate::state::undo_al(al1, seq![cr]) == al1);
                assert(crate::state::undo_al(al1, suffix) == al1);
            } else {
                reveal_with_fuel(crate::state::undo_accounts, 2);
                reveal_with_fuel(crate::state::undo_al, 2);
                assert(suffix =~= Seq::<RevEntry>::empty());
                assert(crate::state::undo_accounts(after, suffix) == after);
                assert(crate::state::undo_al(al1, suffix) == al1);
                assert(after == pre.sdb.accounts@);
            }
            assert(log_after.take(start) =~= pre.rev_log@.push(
                RevEntry::AccessList { tx_id: pre.tx_id, address: c.address, was_warm: is_warm },
            ));
        }
        assert(state.tx_id == pre.tx_id);
        assert(state.call_is_success == pre.call_is_success);
        assert(state.code_db == pre.code_db);
        assert(state.calls_made == pre.calls_made + 1);
        assert(state.next_call_id == pre.next_call_id + 1);
        assert(state.sdb.access_list@ == al1);
        assert(state.frames@.len() == n0);
        assert(state.frames@[n0 - 1].call == (Call {
            reversible_write_counter: (pre.frames@.last().call.reversible_write_counter
                + 1) as u64,
            ..pre.frames@.last().call
        }));
        assert(state.frames@[n0 - 1].memory == pre.frames@[n0 - 1].memory);
        assert(state.frames@[n0 - 1].return_data == pre.frames@[n0 - 1].return_data);
        if c.is_success {
            assert(state.sdb.accounts@ == spec_accounts_after_transfer(pre, s0));
            assert(state.rev_log@ == spec_rev_log_after(pre, s0, s1));
        } else {
            assert(state.rev_log@ == pre.rev_log@.push(
                RevEntry::AccessList { tx_id: pre.tx_id, address: c.address, was_warm: is_warm },
            ));
        }
        assert(call_empty_final(pre, *state, s0, s1));
    }
}

/// Applies a CALL's state effects once pricing is resolved: records the
/// reversible warm-mark, pushes the callee frame, moves the value, and
/// appends the new frame's reads and the callee account reads. On a failed
/// transfer the warm-mark and the pushed frame remain, as the run aborts.
fn apply_call_effects(
    state: &mut State,
    exec_step: &mut ExecStep,
    Ghost(pre): Ghost<State>,
    Ghost(s0): Ghost<TraceStep>,
    Ghost(s1): Ghost<TraceStep>,
    tx_id: u64,
    cur: Call,
    c: Call,
    acct: Account,
    is_warm: bool,
) -> (r: Result<(), Error>)
    requires
        old(state).wf(),
        pre.frames@.len() > 0,
        tx_id == pre.tx_id,
        old(state).tx_id == pre.tx_id,
        old(state).call_is_success == pre.call_is_success,
        old(state).code_db == pre.code_db,
        old(state).calls_made == pre.calls_made + 1,
        old(state).next_call_id == pre.next_call_id + 1,
        old(state).frames == pre.frames,
        old(state).sdb == pre.sdb,
        old(state).rev_log == pre.rev_log,
        old(state).warnings == pre.warnings,
        pre.wf(),
        cur == pre.frames@.last().call,
        c == spec_parse_call(pre, s0),
        acct == spec_callee_acct(pre, s0),
        is_warm == spec_resolved_warm(pre, s0, s1),
        cur.reversible_write_counter < u64::MAX - 4,
    ensures
        crate::operation::step_meta_eq(*final(exec_step), *old(exec_step)),
        final(state).wf(),
        match r {
            Ok(_) => {
                &&& spec_transfer_ok(pre.sdb.accounts@, c.caller_address, c.address, c.value)
                &&& call_mid_state(pre, *final(state), s0, s1)
                &&& final(state).warnings@ == pre.warnings@
                &&& final(exec_step).bus_ops@ == old(exec_step).bus_ops@ + (seq![
                    access_list_write_op(cur.call_id, pre.tx_id, c.address, true, is_warm),
                ] + ops_callee_reads(c) + ops_transfer(pre, s0) + ops_account_reads(c, acct))
            },
            Err(e) => {
                &&& e == spec_transfer_err(pre.sdb.accounts@, c.caller_address, c.address, c.value)
                &&& !spec_transfer_ok(pre.sdb.accounts@, c.caller_address, c.address, c.value)
                &&& c.value.as_nat() != 0
                &&& final(state).calls_made == pre.calls_made + 1
                &&& final(state).next_call_id == pre.next_call_id + 1
                &&& final(state).tx_id == pre.tx_id
                &&& final(state).call_is_success == pre.call_is_success
                &&& final(state).code_db == pre.code_db
                &&& final(state).sdb.accounts@ == pre.sdb.accounts@
                &&& final(state).sdb.access_list@ == al_insert(
                    pre.sdb.access_list@,
                    pre.tx_id,
                    c.address,
                )
                &&& final(state).rev_log@ == pre.rev_log@.push(
                    RevEntry::AccessList {
                        tx_id: pre.tx_id,
                        address: c.address,
                        was_warm: is_warm,
                    },
                )
                &&& final(state).warnings@ == pre.warnings@
            },
        },
{
    state.push_op_reversible(
        exec_step,
        Operation::new_access_list_write(cur.call_id, tx_id, c.address, true, is_warm),
    );
    let ghost f1 = state.frames@;
    proof {
        assert(c.call_id == pre.next_call_id);
    }
    state.push_call(c);
    let ghost f2 = state.frames@;
    emit_callee_reads(exec_step, c);
    state.transfer(exec_step, c.caller_address, c.address, c.value)?;
    emit_account_reads(exec_step, c, acct);
    proof {
        assert forall|i: int| 0 <= i < pre.frames@.len() - 1 implies state.frames@[i]
            == pre.frames@[i] by {
            assert(f1.drop_last()[i] == pre.frames@.drop_last()[i]);
            assert(f2[i] == f1[i]);
            assert(state.frames@.drop_last()[i] == f2.drop_last()[i]);
        }
        assert(call_mid_state(pre, *state, s0, s1));
    }
    Ok(())
}

/// The memory image a CALL leaves: the instruction's own image, extended so
/// that both the call-data window and the (still unpopulated) return-data
/// window are covered; a zero-length window demands nothing.
pub open spec fn spec_call_reconstruct_minimal(s0: TraceStep) -> int {
    let ao = spec_nth_last(s0.stack@, 3).as_nat() as int;
    let al = spec_nth_last(s0.stack@, 4).as_nat() as int;
    let ro = spec_nth_last(s0.stack@, 5).as_nat() as int;
    let rl = spec_nth_last(s0.stack@, 6).as_nat() as int;
    let am = if al != 0 {
        ao + al
    } else {
        0
    };
    let rm = if rl != 0 {
        ro + rl
    } else {
        0
    };
    if am >= rm {
        am
    } else {
        rm
    }
}

/// Rebuilds the memory image after a CALL: the instruction's own image,
/// extended to cover the call-data and return-data windows.
pub fn call_reconstruct_memory(step: &TraceStep) -> (r: Result<Memory, Error>)
    requires
        step.stack@.len() >= 7 ==> spec_nth_last(step.stack@, 3).spec_fits_u64()
            && spec_nth_last(step.stack@, 4).spec_fits_u64() && spec_nth_last(
            step.stack@,
            5,
        ).spec_fits_u64() && spec_nth_last(step.stack@, 6).spec_fits_u64() && spec_nth_last(
            step.stack@,
            3,
        ).as_nat() + spec_nth_last(step.stack@, 4).as_nat() <= 0xffff0000 && spec_nth_last(
            step.stack@,
            5,
        ).as_nat() + spec_nth_last(step.stack@, 6).as_nat() <= 0xffff0000,
    ensures
        match r {
            Ok(m) => {
                &&& step.stack@.len() >= 7
                &&& m@ == (if spec_call_reconstruct_minimal(*step) != 0 {
                    mem_extend(step.memory@, spec_call_reconstruct_minimal(*step))
                } else {
                    step.memory@
                })
            },
            Err(e) => step.stack@.len() < 7 && e == Error::StackUnderflow,
        },
{
    if step.stack.len() < 7 {
        return Err(Error::StackUnderflow);
    }
    let args_offset: usize = step.nth_last(3).unwrap().to_u64() as usize;
    let args_length: usize = step.nth_last(4).unwrap().to_u64() as usize;
    let ret_offset: usize = step.nth_last(5).unwrap().to_u64() as usize;
    let ret_length: usize = step.nth_last(6).unwrap().to_u64() as usize;
    let mut memory: Memory = step.memory.clone();
    let args_minimal: usize = if args_length != 0 {
        args_offset + args_length
    } else {
        0
    };
    let ret_minimal: usize = if ret_length != 0 {
        ret_offset + ret_length
    } else {
        0
    };
    if args_minimal != 0 || ret_minimal != 0 {
        let minimal: usize = if args_minimal >= ret_minimal {
            args_minimal
        } else {
            ret_minimal
        };
        memory.extend_at_least(minimal);
    }
    Ok(memory)
}

impl State {
    /// Processes one CALL instruction.
    ///
    /// A reported error classifies onto the single emitted step and unwinds
    /// the frame. Otherwise the handler records the context reads, the stack
    /// operands and the success-flag write, prices the call — retrying once
    /// with the warm/cold flag flipped when the trace disagrees, and failing
    /// loudly when it still disagrees — marks the callee warm reversibly,
    /// pushes the callee frame, moves the value, reads the callee account,
    /// and branches: a precompiled callee is a documented gap; an empty-code
    /// callee completes immediately and unwinds; a callee with code receives
    /// control, the caller keeping a resumption snapshot.
    #[verifier::rlimit(100)]
    #[verifier::spinoff_prover]
    pub fn call_gen_associated_ops(&mut self, steps: &Vec<TraceStep>) -> (r: Result<
        Vec<ExecStep>,
        Error,
    >)
        requires
            old(self).wf(),
            steps@.len() >= 2,
            call_step_bounds(*old(self), steps@[0], steps@[1]),
        ensures
            final(self).tx_id == old(self).tx_id,
            final(self).call_is_success == old(self).call_is_success,
            final(self).code_db == old(self).code_db,
            final(self).wf(),
            ({
                let pre = *old(self);
                let s0 = steps@[0];
                let s1 = steps@[1];
                let cur = pre.frames@.last().call;
                let c = spec_parse_call(pre, s0);
                let acct = spec_callee_acct(pre, s0);
                let warm = spec_resolved_warm(pre, s0, s1);
                let n0 = pre.frames@.len() as int;
                match r {
                    Ok(v) => {
                        &&& pre.frames@.len() > 0
                        &&& v@.len() == 1
                        &&& v@[0].pc == s0.pc && v@[0].op == s0.op && v@[0].gas == s0.gas
                            && v@[0].depth == s0.depth
                        &&& v@[0].reversible_write_counter == cur.reversible_write_counter
                        &&& (match s0.error {
                            Some(re) => {
                                &&& v@[0].error == Some(spec_classify_error(s0.op, re))
                                &&& v@[0].bus_ops@.len() == 0
                                &&& popped_state_rel(pre, *final(self))
                            },
                            None => {
                                &&& s0.stack@.len() >= 7
                                &&& pre.calls_made < pre.call_is_success@.len()
                                &&& spec_consistent(pre, s0, s1)
                                &&& spec_transfer_ok(
                                    pre.sdb.accounts@,
                                    c.caller_address,
                                    c.address,
                                    c.value,
                                )
                                &&& v@[0].error is None
                                &&& v@[0].bus_ops@ == spec_call_ops(pre, s0, s1)
                                &&& (if spec_is_precompiled(c.address) {
                                    &&& call_mid_state(pre, *final(self), s0, s1)
                                    &&& final(self).warnings@ == pre.warnings@.push(
                                        Warning::PrecompileCallUnimplemented,
                                    )
                                } else if acct.code_hash == empty_code_hash() {
                                    &&& call_empty_final(pre, *final(self), s0, s1)
                                    &&& final(self).warnings@ == pre.warnings@.push(
                                        Warning::EmptyCodeCallPartial,
                                    )
                                } else {
                                    &&& call_mid_state(pre, *final(self), s0, s1)
                                    &&& final(self).warnings@ == pre.warnings@
                                })
                            },
                        })
                    },
                    Err(e) => {
                        &&& (if pre.frames@.len() == 0 {
                            e == Error::EmptyCallStack && *final(self) == pre
                        } else if s0.error is None && s0.stack@.len() < 7 {
                            e == Error::StackUnderflow && *final(self) == pre
                        } else if s0.error is None && pre.calls_made
                            >= pre.call_is_success@.len() {
                            e == Error::MissingCallOutcome && *final(self) == pre
                        } else if s0.error is None && !spec_consistent(pre, s0, s1) {
                            &&& e == Error::InternalInconsistency
                            &&& final(self).calls_made == pre.calls_made + 1
                            &&& final(self).next_call_id == pre.next_call_id + 1
                            &&& final(self).frames == pre.frames
                            &&& final(self).sdb == pre.sdb
                            &&& final(self).rev_log == pre.rev_log
                            &&& final(self).warnings == pre.warnings
                        } else {
                            &&& s0.error is None
                            &&& e == spec_transfer_err(
                                pre.sdb.accounts@,
                                c.caller_address,
                                c.address,
                                c.value,
                            )
                            &&& !spec_transfer_ok(
                                pre.sdb.accounts@,
                                c.caller_address,
                                c.address,
                                c.value,
                            )
                            &&& c.value.as_nat() != 0
                            &&& final(self).calls_made == pre.calls_made + 1
                            &&& final(self).next_call_id == pre.next_call_id + 1
                            &&& final(self).sdb.accounts@ == pre.sdb.accounts@
                            &&& final(self).sdb.access_list@ == al_insert(
                                pre.sdb.access_list@,
                                pre.tx_id,
                                c.address,
                            )
                            &&& final(self).rev_log@ == pre.rev_log@.push(
                                RevEntry::AccessList {
                                    tx_id: pre.tx_id,
                                    address: c.address,
                                    was_warm: warm,
                                },
                            )
                            &&& final(self).warnings@ == pre.warnings@
                        })
                    },
                }
            }),
    {
        let step0 = &steps[0];
        let cur: Call = self.call()?;
        let mut exec_step: ExecStep = match self.new_step(step0) {
            Ok(s) => s,
            Err(_) => {
                proof {
                    assert(false);
                }
                return Err(Error::EmptyCallStack);
            },
        };
        match step0.error {
            Some(re) => {
                exec_step.error = Some(classify_error(step0.op, re));
                self.handle_return();
                let mut res: Vec<ExecStep> = Vec::new();
                res.push(exec_step);
                return Ok(res);
            },
            None => {},
        }
        let tx_id: u64 = self.tx_id;
        let c: Call = self.parse_call(step0)?;
        let ghost pre = *old(self);

        emit_context_reads(&mut exec_step, tx_id, cur);
        emit_stack_ops(&mut exec_step, cur, step0, c.is_success);

        let has_value: bool = !c.value.is_zero();
        let curr_words: u64 = step0.memory.word_size();
        let cd_end: u64 = c.call_data_offset + c.call_data_length;
        let rd_end: u64 = c.return_data_offset + c.return_data_length;
        let cd_words: u64 = (cd_end + 31) / 32;
        let rd_words: u64 = (rd_end + 31) / 32;
        let next_words: u64 = if curr_words >= cd_words && curr_words >= rd_words {
            curr_words
        } else if cd_words >= rd_words {
            cd_words
        } else {
            rd_words
        };
        proof {
            assert(next_words == spec_next_words(pre, steps@[0]));
        }
        let memexp: u64 = memory_expansion_gas_cost(curr_words, next_words);
        let n: usize = step0.stack.len();
        let sp: u64 = step0.stack_pointer();
        let gas_specified: Word = step0.stack[n - 1];
        let (_, acct) = self.sdb.get_account(&c.address);
        let is_account_empty: bool = acct.is_empty();

        let step1 = &steps[1];
        let (is_warm, gas_cost, callee_gas_left) = resolve_pricing(
            &self.sdb,
            Ghost(pre),
            tx_id,
            step0,
            step1,
            c,
            is_account_empty,
            has_value,
            memexp,
            gas_specified,
        )?;

        apply_call_effects(
            self,
            &mut exec_step,
            Ghost(pre),
            Ghost(steps@[0]),
            Ghost(steps@[1]),
            tx_id,
            cur,
            c,
            acct,
            is_warm,
        )?;
        let empty_hash: Word = crate::word::make_empty_code_hash();
        if is_precompiled(&c.address) {
            self.warn(Warning::PrecompileCallUnimplemented);
            proof {
                assert(exec_step.bus_ops@ =~= spec_call_ops(pre, steps@[0], steps@[1]));
                assert(call_mid_state(pre, *self, steps@[0], steps@[1]));
            }
            let mut res: Vec<ExecStep> = Vec::new();
            res.push(exec_step);
            Ok(res)
        } else if acct.code_hash == empty_hash {
            emit_empty_branch(&mut exec_step, cur);
            finish_empty_code_call(
                self,
                Ghost(pre),
                Ghost(steps@[0]),
                Ghost(steps@[1]),
                c,
                has_value,
                is_warm,
            );
            proof {
                assert(exec_step.bus_ops@ =~= spec_call_ops(pre, steps@[0], steps@[1]));
            }
            let mut res: Vec<ExecStep> = Vec::new();
            res.push(exec_step);
            Ok(res)
        } else {
            let rwc1: u64 = exec_step.reversible_write_counter + 1;
            emit_nonempty_branch(
                &mut exec_step,
                cur,
                c,
                tx_id,
                step0.pc + 1,
                sp + 6,
                step0.gas - gas_cost - callee_gas_left,
                next_words,
                rwc1,
            );
            proof {
                assert(exec_step.bus_ops@ =~= spec_call_ops(pre, steps@[0], steps@[1]));
                assert(call_mid_state(pre, *self, steps@[0], steps@[1]));
            }
            let mut res: Vec<ExecStep> = Vec::new();
            res.push(exec_step);
            Ok(res)
        }
    }
}

} // verus!
