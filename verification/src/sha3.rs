//! SHA3: a reduced handler that models only the stack effect of the hash
//! instruction; the memory reads that should accompany it are a documented,
//! intentional gap.
use vstd::prelude::*;

use crate::mem::{mem_extend, Memory};
use crate::operation::{stack_read_op, stack_write_op, Error, ExecStep, Operation, Warning};
use crate::state::{Call, State};
use crate::trace::{spec_nth_last, TraceStep};
use crate::word::Word;

verus! {

impl State {
    /// Processes one SHA3 instruction: reads the two operands (offset and
    /// length), writes the hashed result the next trace step exposes into
    /// the vacated slot, and records the gap warning. The memory reads of
    /// the hashed range are omitted.
    pub fn sha3_gen_associated_ops(&mut self, steps: &Vec<TraceStep>) -> (r: Result<
        Vec<ExecStep>,
        Error,
    >)
        requires
            old(self).wf(),
            steps@.len() >= 2,
            steps@[0].stack@.len() <= 1024,
            steps@[1].stack@.len() <= 1024,
        ensures
            final(self).tx_id == old(self).tx_id,
            final(self).next_call_id == old(self).next_call_id,
            final(self).calls_made == old(self).calls_made,
            final(self).call_is_success == old(self).call_is_success,
            final(self).frames == old(self).frames,
            final(self).sdb == old(self).sdb,
            final(self).code_db == old(self).code_db,
            final(self).rev_log == old(self).rev_log,
            final(self).wf(),
            match r {
                Ok(v) => {
                    let s0 = steps@[0];
                    let s1 = steps@[1];
                    let cur = old(self).frames@.last().call;
                    &&& old(self).frames@.len() > 0
                    &&& s0.stack@.len() >= 2
                    &&& s1.stack@.len() >= 1
                    &&& v@.len() == 1
                    &&& v@[0].pc == s0.pc && v@[0].op == s0.op && v@[0].gas == s0.gas
                        && v@[0].depth == s0.depth
                    &&& v@[0].error is None
                    &&& v@[0].reversible_write_counter == cur.reversible_write_counter
                    &&& v@[0].bus_ops@ == seq![
                        stack_read_op(
                            cur.call_id,
                            (1024 - s0.stack@.len()) as u64,
                            spec_nth_last(s0.stack@, 0),
                        ),
                        stack_read_op(
                            cur.call_id,
                            (1024 - s0.stack@.len() + 1) as u64,
                            spec_nth_last(s0.stack@, 1),
                        ),
                        stack_write_op(
                            cur.call_id,
                            (1024 - s1.stack@.len()) as u64,
                            spec_nth_last(s1.stack@, 0),
                        ),
                    ]
                    &&& final(self).warnings@ == old(self).warnings@.push(
                        Warning::HashMemoryReadsOmitted,
                    )
                },
                Err(e) => {
                    &&& *final(self) == *old(self)
                    &&& (if old(self).frames@.len() == 0 {
                        e == Error::EmptyCallStack
                    } else {
                        e == Error::StackUnderflow && (steps@[0].stack@.len() < 2
                            || steps@[1].stack@.len() < 1)
                    })
                },
            },
    {
        let step0 = &steps[0];
        let cur: Call = self.call()?;
        let mut exec_step: ExecStep = match self.new_step(step0) {
            Ok(s) => s,
            Err(_) => {
                proof {
                    assert(false);
                }
                return Err(Error::EmptyCallStack);
            },
        };
        let v0: Word = step0.nth_last(0)?;
        let v1: Word = step0.nth_last(1)?;
        let sp: u64 = step0.stack_pointer();
        let step1 = &steps[1];
        let r0: Word = step1.nth_last(0)?;
        let sp1: u64 = step1.stack_pointer();
        exec_step.push_op(Operation::new_stack_read(cur.call_id, sp, v0));
        exec_step.push_op(Operation::new_stack_read(cur.call_id, sp + 1, v1));
        exec_step.push_op(Operation::new_stack_write(cur.call_id, sp1, r0));
        self.warn(Warning::HashMemoryReadsOmitted);
        proof {
            assert(exec_step.bus_ops@ =~= seq![
                stack_read_op(
                    cur.call_id,
                    (1024 - steps@[0].stack@.len()) as u64,
                    spec_nth_last(steps@[0].stack@, 0),
                ),
                stack_read_op(
                    cur.call_id,
                    (1024 - steps@[0].stack@.len() + 1) as u64,
                    spec_nth_last(steps@[0].stack@, 1),
                ),
                stack_write_op(
                    cur.call_id,
                    (1024 - steps@[1].stack@.len()) as u64,
                    spec_nth_last(steps@[1].stack@, 0),
                ),
            ]);
        }
        let mut res: Vec<ExecStep> = Vec::new();
        res.push(exec_step);
        Ok(res)
    }
}

/// Rebuilds the memory image after a SHA3: the instruction's own image,
/// extended to cover the hashed range `[offset, offset + length)`.
pub fn sha3_reconstruct_memory(step: &TraceStep) -> (r: Result<Memory, Error>)
    requires
        step.stack@.len() >= 2 ==> spec_nth_last(step.stack@, 0).spec_fits_u64() && spec_nth_last(
            step.stack@,
            1,
        ).spec_fits_u64() && spec_nth_last(step.stack@, 0).as_nat() + spec_nth_last(
            step.stack@,
            1,
        ).as_nat() <= 0xffff0000,
    ensures
        match r {
            Ok(m) => {
                &&& step.stack@.len() >= 2
                &&& m@ == mem_extend(
                    step.memory@,
                    spec_nth_last(step.stack@, 0).as_nat() + spec_nth_last(
                        step.stack@,
                        1,
                    ).as_nat() as int,
                )
            },
            Err(e) => step.stack@.len() < 2 && e == Error::StackUnderflow,
        },
{
    let offset_w: Word = step.nth_last(0)?;
    let length_w: Word = step.nth_last(1)?;
    let offset: usize = offset_w.to_u64() as usize;
    let length: usize = length_w.to_u64() as usize;
    let mut memory: Memory = step.memory.clone();
    memory.extend_at_least(offset + length);
    Ok(memory)
}

} // verus!
