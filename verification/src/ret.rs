//! RETURN/REVERT: frame unwinding and the cross-frame memory propagation
//! protocol that hands return data back to the caller.
use vstd::prelude::*;

use crate::mem::{lemma_ceil32_ge, mem_extend, mem_overwrite, bytes_slice, Memory};
use crate::operation::{classify_error, spec_classify_error, Error, ExecStep};
use crate::state::{popped_state_rel, Call, CallContext, State, find_code, code_lookup};
use crate::trace::{spec_nth_last, TraceStep};
use crate::word::{addr_of, Word};

verus! {

/// Bytes copied into the caller's reserved window: the window's length or
/// the returned length, whichever is smaller.
pub open spec fn spec_copy_len(return_data_length: int, length: int) -> int {
    if return_data_length < length {
        return_data_length
    } else {
        length
    }
}

/// The caller's memory image after a non-creation RETURN/REVERT: extended to
/// cover the window the caller reserved, then overwritten at the window's
/// start with the returned bytes, capped at the window's length.
pub open spec fn return_image(
    caller_mem: Seq<u8>,
    return_data_offset: int,
    return_data_length: int,
    src: Seq<u8>,
    offset: int,
    length: int,
) -> Seq<u8> {
    let extended = mem_extend(caller_mem, return_data_offset + return_data_length);
    let cl = spec_copy_len(return_data_length, length);
    mem_overwrite(extended, return_data_offset, src.subrange(offset, offset + cl))
}

impl State {
    /// Processes one RETURN or REVERT instruction: classifies a reported
    /// error onto the step, unwinds the current frame, and emits exactly one
    /// step with no operations (the circuit-level operations of this opcode
    /// are a documented gap).
    pub fn return_gen_associated_ops(&mut self, steps: &Vec<TraceStep>) -> (r: Result<
        Vec<ExecStep>,
        Error,
    >)
        requires
            old(self).wf(),
            steps@.len() >= 1,
        ensures
            match r {
                Ok(v) => {
                    let s0 = steps@[0];
                    &&& old(self).frames@.len() > 0
                    &&& v@.len() == 1
                    &&& v@[0].pc == s0.pc && v@[0].op == s0.op && v@[0].gas == s0.gas
                        && v@[0].depth == s0.depth
                    &&& v@[0].error == (match s0.error {
                        Some(e) => Some(spec_classify_error(s0.op, e)),
                        None => None,
                    })
                    &&& v@[0].reversible_write_counter == old(self).frames@.last().call.reversible_write_counter
                    &&& v@[0].bus_ops@.len() == 0
                    &&& popped_state_rel(*old(self), *final(self))
                },
                Err(e) => {
                    &&& *final(self) == *old(self)
                    &&& e == Error::EmptyCallStack
                    &&& old(self).frames@.len() == 0
                },
            },
            final(self).wf(),
    {
        let step0 = &steps[0];
        let mut exec_step: ExecStep = self.new_step(step0)?;
        match step0.error {
            Some(e) => {
                exec_step.error = Some(classify_error(step0.op, e));
            },
            None => {},
        }
        self.handle_return();
        let mut res: Vec<ExecStep> = Vec::new();
        res.push(exec_step);
        Ok(res)
    }

    /// Rebuilds the memory image after a RETURN or REVERT, propagating data
    /// across the frame boundary.
    ///
    /// From the root frame the instruction's own memory image is final and
    /// nothing propagates. From a non-creation frame the caller's memory is
    /// extended to the window it reserved and receives the returned bytes,
    /// capped at the window's length; the caller's RETURNDATA buffer becomes
    /// exactly the `length` returned bytes, and the caller records the
    /// completed frame as its last callee. From a creation frame the
    /// returned bytes are registered as the deployed code of the address the
    /// next trace step exposes. The image returned is the caller's (the
    /// instruction's own at the root).
    pub fn return_reconstruct_memory(&mut self, steps: &Vec<TraceStep>) -> (r: Result<
        Memory,
        Error,
    >)
        requires
            old(self).wf(),
            steps@.len() >= 1,
            steps@[0].stack@.len() >= 2 ==> spec_nth_last(steps@[0].stack@, 0).spec_fits_u64()
                && spec_nth_last(steps@[0].stack@, 1).spec_fits_u64() && spec_nth_last(
                steps@[0].stack@,
                0,
            ).as_nat() + spec_nth_last(steps@[0].stack@, 1).as_nat() <= 0xffff0000,
            old(self).frames@.len() > 0 && !old(self).frames@.last().call.is_root
                && steps@[0].stack@.len() >= 2 ==> spec_nth_last(steps@[0].stack@, 0).as_nat()
                + spec_nth_last(steps@[0].stack@, 1).as_nat() <= steps@[0].memory@.len(),
            old(self).frames@.len() > 0 ==> old(self).frames@.last().call.return_data_offset + old(self).frames@.last().call.return_data_length <= 0xffff0000,
            old(self).frames@.len() > 0 && old(self).frames@.last().call.is_create && !old(self).frames@.last().call.is_root ==> steps@.len() >= 2,
        ensures
            final(self).tx_id == old(self).tx_id,
            final(self).next_call_id == old(self).next_call_id,
            final(self).calls_made == old(self).calls_made,
            final(self).call_is_success == old(self).call_is_success,
            final(self).sdb == old(self).sdb,
            final(self).rev_log == old(self).rev_log,
            final(self).warnings == old(self).warnings,
            final(self).wf(),
            match r {
                Ok(m) => {
                    let s0 = steps@[0];
                    let cur = old(self).frames@.last().call;
                    let offset = spec_nth_last(s0.stack@, 0).as_nat() as int;
                    let length = spec_nth_last(s0.stack@, 1).as_nat() as int;
                    let n = old(self).frames@.len() as int;
                    &&& old(self).frames@.len() > 0
                    &&& s0.stack@.len() >= 2
                    &&& (if cur.is_root {
                        &&& m@ == s0.memory@
                        &&& *final(self) == *old(self)
                    } else if !cur.is_create {
                        let caller0 = old(self).frames@[n - 2];
                        let image = return_image(
                            caller0.memory@,
                            cur.return_data_offset as int,
                            cur.return_data_length as int,
                            s0.memory@,
                            offset,
                            length,
                        );
                        let cl = spec_copy_len(cur.return_data_length as int, length);
                        &&& n >= 2
                        &&& m@ == image
                        &&& final(self).code_db == old(self).code_db
                        &&& final(self).frames@.len() == n
                        &&& (forall|i: int|
                            0 <= i < n - 2 ==> final(self).frames@[i] == old(self).frames@[i])
                        &&& final(self).frames@[n - 1] == old(self).frames@[n - 1]
                        &&& final(self).frames@[n - 2].memory@ == image
                        &&& final(self).frames@[n - 2].memory@.len() >= caller0.memory@.len()
                        &&& final(self).frames@[n - 2].return_data@ == s0.memory@.subrange(
                            offset,
                            offset + length,
                        )
                        &&& final(self).frames@[n - 2].return_data@.len() == length
                        &&& final(self).frames@[n - 2].call == (Call {
                            last_callee_id: cur.call_id,
                            last_callee_return_data_offset: offset as u64,
                            last_callee_return_data_length: length as u64,
                            ..caller0.call
                        })
                    } else {
                        let s1 = steps@[1];
                        let contract = addr_of(spec_nth_last(s1.stack@, 0));
                        let code = s0.memory@.subrange(offset, offset + length);
                        &&& n >= 2
                        &&& steps@.len() >= 2
                        &&& s1.stack@.len() >= 1
                        &&& m@ == old(self).frames@[n - 2].memory@
                        &&& final(self).frames == old(self).frames
                        &&& code_lookup(final(self).code_db.entries@, contract) == Some(code)
                        &&& ({
                            let f = find_code(old(self).code_db.entries@, contract);
                            if f >= 0 {
                                &&& final(self).code_db.entries@.len() == old(self).code_db.entries@.len()
                                &&& final(self).code_db.entries@[f].address == contract
                                &&& final(self).code_db.entries@[f].code@ == code
                                &&& (forall|j: int|
                                    0 <= j < old(self).code_db.entries@.len() && j != f ==> final(self).code_db.entries@[j] == old(self).code_db.entries@[j])
                            } else {
                                &&& final(self).code_db.entries@.len() == old(self).code_db.entries@.len() + 1
                                &&& final(self).code_db.entries@.last().address == contract
                                &&& final(self).code_db.entries@.last().code@ == code
                                &&& final(self).code_db.entries@.drop_last() == old(self).code_db.entries@
                            }
                        })
                    })
                },
                Err(e) => {
                    &&& *final(self) == *old(self)
                    &&& (if old(self).frames@.len() == 0 {
                        e == Error::EmptyCallStack
                    } else if steps@[0].stack@.len() < 2 {
                        e == Error::StackUnderflow
                    } else if !old(self).frames@.last().call.is_root && old(self).frames@.len()
                        < 2 {
                        e == Error::NoCallerFrame
                    } else {
                        &&& e == Error::StackUnderflow
                        &&& old(self).frames@.last().call.is_create
                        &&& !old(self).frames@.last().call.is_root
                        &&& steps@[1].stack@.len() < 1
                    })
                },
            },
    {
        let cur: Call = self.call()?;
        let step0 = &steps[0];
        let offset_w: Word = step0.nth_last(0)?;
        let length_w: Word = step0.nth_last(1)?;
        let offset: usize = offset_w.to_u64() as usize;
        let length: usize = length_w.to_u64() as usize;
        let memory: Memory = step0.memory.clone();
        if !cur.is_root {
            let _caller: Call = self.caller()?;
            if !cur.is_create {
                let cur_opt = self.frames.pop();
                let cur_frame: CallContext = cur_opt.unwrap();
                let caller_opt = self.frames.pop();
                let mut caller_frame: CallContext = caller_opt.unwrap();
                let ret_off: usize = cur.return_data_offset as usize;
                let ret_len: usize = cur.return_data_length as usize;
                proof {
                    lemma_ceil32_ge(ret_off + ret_len);
                }
                caller_frame.memory.extend_at_least(ret_off + ret_len);
                let copy_len: usize = if ret_len < length {
                    ret_len
                } else {
                    length
                };
                caller_frame.memory.write_range(ret_off, &memory.bytes, offset, copy_len);
                caller_frame.return_data = bytes_slice(&memory.bytes, offset, length);
                caller_frame.call =
                Call {
                    last_callee_id: cur.call_id,
                    last_callee_return_data_offset: offset as u64,
                    last_callee_return_data_length: length as u64,
                    ..caller_frame.call
                };
                let result: Memory = caller_frame.memory.clone();
                self.frames.push(caller_frame);
                self.frames.push(cur_frame);
                proof {
                    assert(self.frames@ =~= old(self).frames@.update(
                        old(self).frames@.len() - 2,
                        self.frames@[old(self).frames@.len() - 2],
                    ));
                }
                Ok(result)
            } else {
                let step1 = &steps[1];
                let addr_w: Word = step1.nth_last(0)?;
                let contract_addr: Word = addr_w.to_address();
                let code: Vec<u8> = bytes_slice(&memory.bytes, offset, length);
                self.code_db.insert(contract_addr, code);
                let ci: usize = self.frames.len() - 2;
                let result: Memory = self.frames[ci].memory.clone();
                Ok(result)
            }
        } else {
            Ok(memory)
        }
    }
}

} // verus!
