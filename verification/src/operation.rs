//! The canonical record of state accesses: one `Operation` per read or write,
//! one `ExecStep` per executed instruction, and the error taxonomy.
use vstd::prelude::*;

use crate::word::Word;

verus! {

/// Direction of a state access.
#[derive(Clone, Copy, PartialEq, Eq, Structural, Debug)]
pub enum RW {
    Read,
    Write,
}

/// Call-context fields a handler reads or writes for the circuit.
#[derive(Clone, Copy, PartialEq, Eq, Structural, Debug)]
pub enum CallContextField {
    TxId,
    RwCounterEndOfReversion,
    IsPersistent,
    CallerId,
    CallerAddress,
    CalleeAddress,
    CallDataOffset,
    CallDataLength,
    ReturnDataOffset,
    ReturnDataLength,
    Value,
    IsSuccess,
    IsStatic,
    Depth,
    LastCalleeId,
    LastCalleeReturnDataOffset,
    LastCalleeReturnDataLength,
    IsRoot,
    IsCreate,
    CodeHash,
    ProgramCounter,
    StackPointer,
    GasLeft,
    MemorySize,
    ReversibleWriteCounter,
}

/// Account fields a handler reads or writes.
#[derive(Clone, Copy, PartialEq, Eq, Structural, Debug)]
pub enum AccountField {
    Nonce,
    Balance,
    CodeHash,
}

/// What a single operation touches, with its old and new values where the
/// access is a write of state that reversion must restore.
#[derive(Clone, Copy, PartialEq, Eq, Structural, Debug)]
pub enum OpKind {
    /// A call-context field of the frame named by the operation's `call_id`.
    CallContext { field: CallContextField, value: Word },
    /// One stack slot; `stack_pointer` is the slot's absolute position,
    /// 1024 minus the stack depth plus the operand index.
    Stack { stack_pointer: u64, value: Word },
    /// An account field; `value_prev` carries the value to restore on unwind.
    Account { address: Word, field: AccountField, value: Word, value_prev: Word },
    /// Warm-status of `(tx_id, address)`; `is_warm_prev` is restored on unwind.
    TxAccessListAccount { tx_id: u64, address: Word, is_warm: bool, is_warm_prev: bool },
}

/// One state access of one executed instruction.
#[derive(Clone, Copy, PartialEq, Eq, Structural, Debug)]
pub struct Operation {
    /// Read or write.
    pub rw: RW,
    /// Whether the write must be undone if the enclosing frame reverts.
    pub reversible: bool,
    /// The call frame the access is executed in.
    pub call_id: u64,
    /// The touched target and values.
    pub kind: OpKind,
}

/// Error reported by the reference execution engine for one instruction.
#[derive(Clone, Copy, PartialEq, Eq, Structural, Debug)]
pub enum ReportedError {
    OutOfGas,
    StackOverflow,
    StackUnderflow,
    WriteProtection,
    Depth,
    InsufficientBalance,
    ContractAddressCollision,
}

/// Canonical classification of a reported execution error.
#[derive(Clone, Copy, PartialEq, Eq, Structural, Debug)]
pub enum ExecError {
    /// Out of gas while pricing a CALL-family instruction.
    OutOfGasCall,
    /// Out of gas in any other instruction.
    OutOfGasConstant,
    StackOverflow,
    StackUnderflow,
    WriteProtection,
    Depth,
    InsufficientBalance,
    ContractAddressCollision,
}

/// One executed instruction: its trace coordinates and the ordered state
/// accesses it performed.
#[derive(Debug, PartialEq, Eq)]
pub struct ExecStep {
    /// Program counter of the instruction.
    pub pc: u64,
    /// Raw opcode byte.
    pub op: u8,
    /// Gas remaining before the instruction.
    pub gas: u64,
    /// Call depth of the instruction.
    pub depth: u64,
    /// Canonical classification when the reference engine reported a failure.
    pub error: Option<ExecError>,
    /// Reversible writes recorded in the current frame's revertible region
    /// before this step.
    pub reversible_write_counter: u64,
    /// The state accesses, in the fixed order the circuit binds to.
    pub bus_ops: Vec<Operation>,
}

/// A documented, intentional gap: the handler emitted a structurally valid
/// but semantically partial step. Never fatal, never silent.
#[derive(Clone, Copy, PartialEq, Eq, Structural, Debug)]
pub enum Warning {
    /// CALL to a precompiled contract: semantics not implemented.
    PrecompileCallUnimplemented,
    /// CALL to an account with empty code: modelled as an immediately
    /// completed zero-length execution.
    EmptyCodeCallPartial,
    /// SHA3 models only the stack effect; its memory reads are omitted.
    HashMemoryReadsOmitted,
}

/// Failures of the builder itself.
#[derive(Clone, Copy, PartialEq, Eq, Structural, Debug)]
pub enum Error {
    /// A handler ran with no active call frame.
    EmptyCallStack,
    /// A non-root frame had no caller frame below it.
    NoCallerFrame,
    /// The trace's stack snapshot is shorter than the instruction's operands.
    StackUnderflow,
    /// No recorded outcome is left for the next call of the transaction.
    MissingCallOutcome,
    /// A balance movement named an account the state database does not hold.
    AccountNotFound,
    /// The sending account cannot cover the transferred value.
    InsufficientBalance,
    /// Crediting the transferred value would overflow the receiving balance.
    BalanceOverflow,
    /// The computed callee gas disagrees with the trace even after the one
    /// permitted warm/cold retry: the state database and the trace have
    /// desynchronized. Fatal to the whole run.
    InternalInconsistency,
}

/// Raw opcode byte of SHA3.
pub const OPCODE_SHA3: u8 = 0x20;

/// Raw opcode byte of CREATE.
pub const OPCODE_CREATE: u8 = 0xf0;

/// Raw opcode byte of CALL.
pub const OPCODE_CALL: u8 = 0xf1;

/// Raw opcode byte of RETURN.
pub const OPCODE_RETURN: u8 = 0xf3;

/// Raw opcode byte of REVERT.
pub const OPCODE_REVERT: u8 = 0xfd;

/// Whether the opcode belongs to the CALL family, whose out-of-gas failures
/// are classified separately.
pub open spec fn spec_is_call_family(op: u8) -> bool {
    op == 0xf1 || op == 0xf2 || op == 0xf4 || op == 0xfa
}

/// The canonical error kind for an error string the reference engine
/// reported on an instruction.
pub open spec fn spec_classify_error(op: u8, e: ReportedError) -> ExecError {
    match e {
        ReportedError::OutOfGas => if spec_is_call_family(op) {
            ExecError::OutOfGasCall
        } else {
            ExecError::OutOfGasConstant
        },
        ReportedError::StackOverflow => ExecError::StackOverflow,
        ReportedError::StackUnderflow => ExecError::StackUnderflow,
        ReportedError::WriteProtection => ExecError::WriteProtection,
        ReportedError::Depth => ExecError::Depth,
        ReportedError::InsufficientBalance => ExecError::InsufficientBalance,
        ReportedError::ContractAddressCollision => ExecError::ContractAddressCollision,
    }
}

/// Maps a reported engine error to its canonical kind.
pub fn classify_error(op: u8, e: ReportedError) -> (r: ExecError)
    ensures
        r == spec_classify_error(op, e),
{
    match e {
        ReportedError::OutOfGas => {
            if op == 0xf1 || op == 0xf2 || op == 0xf4 || op == 0xfa {
                ExecError::OutOfGasCall
            } else {
                ExecError::OutOfGasConstant
            }
        },
        ReportedError::StackOverflow => ExecError::StackOverflow,
        ReportedError::StackUnderflow => ExecError::StackUnderflow,
        ReportedError::WriteProtection => ExecError::WriteProtection,
        ReportedError::Depth => ExecError::Depth,
        ReportedError::InsufficientBalance => ExecError::InsufficientBalance,
        ReportedError::ContractAddressCollision => ExecError::ContractAddressCollision,
    }
}

/// A call-context read against frame `call_id`.
pub open spec fn cc_read(call_id: u64, field: CallContextField, value: Word) -> Operation {
    Operation {
        rw: RW::Read,
        reversible: false,
        call_id,
        kind: OpKind::CallContext { field, value },
    }
}

/// A call-context write against frame `call_id`.
pub open spec fn cc_write(call_id: u64, field: CallContextField, value: Word) -> Operation {
    Operation {
        rw: RW::Write,
        reversible: false,
        call_id,
        kind: OpKind::CallContext { field, value },
    }
}

/// A stack read at absolute slot `stack_pointer` in frame `call_id`.
pub open spec fn stack_read_op(call_id: u64, stack_pointer: u64, value: Word) -> Operation {
    Operation {
        rw: RW::Read,
        reversible: false,
        call_id,
        kind: OpKind::Stack { stack_pointer, value },
    }
}

/// A stack write at absolute slot `stack_pointer` in frame `call_id`.
pub open spec fn stack_write_op(call_id: u64, stack_pointer: u64, value: Word) -> Operation {
    Operation {
        rw: RW::Write,
        reversible: false,
        call_id,
        kind: OpKind::Stack { stack_pointer, value },
    }
}

/// A read-only account access.
pub open spec fn account_read_op(
    call_id: u64,
    address: Word,
    field: AccountField,
    value: Word,
) -> Operation {
    Operation {
        rw: RW::Read,
        reversible: false,
        call_id,
        kind: OpKind::Account { address, field, value, value_prev: value },
    }
}

/// A reversible account-balance write.
pub open spec fn balance_write_op(
    call_id: u64,
    address: Word,
    value: Word,
    value_prev: Word,
) -> Operation {
    Operation {
        rw: RW::Write,
        reversible: true,
        call_id,
        kind: OpKind::Account { address, field: AccountField::Balance, value, value_prev },
    }
}

/// A reversible access-list write marking `(tx_id, address)` warm.
pub open spec fn access_list_write_op(
    call_id: u64,
    tx_id: u64,
    address: Word,
    is_warm: bool,
    is_warm_prev: bool,
) -> Operation {
    Operation {
        rw: RW::Write,
        reversible: true,
        call_id,
        kind: OpKind::TxAccessListAccount { tx_id, address, is_warm, is_warm_prev },
    }
}

/// The two steps agree on everything but their operation log.
pub open spec fn step_meta_eq(a: ExecStep, b: ExecStep) -> bool {
    a.pc == b.pc && a.op == b.op && a.gas == b.gas && a.depth == b.depth && a.error == b.error
        && a.reversible_write_counter == b.reversible_write_counter
}

impl ExecStep {
    /// Appends one operation to the step's ordered access log.
    pub fn push_op(&mut self, op: Operation)
        ensures
            final(self).bus_ops@ == old(self).bus_ops@.push(op),
            step_meta_eq(*final(self), *old(self)),
    {
        self.bus_ops.push(op);
    }
}

impl Operation {
    /// Builds a call-context read.
    pub fn new_cc_read(call_id: u64, field: CallContextField, value: Word) -> (r: Operation)
        ensures
            r == cc_read(call_id, field, value),
    {
        Operation {
            rw: RW::Read,
            reversible: false,
            call_id,
            kind: OpKind::CallContext { field, value },
        }
    }

    /// Builds a call-context write.
    pub fn new_cc_write(call_id: u64, field: CallContextField, value: Word) -> (r: Operation)
        ensures
            r == cc_write(call_id, field, value),
    {
        Operation {
            rw: RW::Write,
            reversible: false,
            call_id,
            kind: OpKind::CallContext { field, value },
        }
    }

    /// Builds a stack read.
    pub fn new_stack_read(call_id: u64, stack_pointer: u64, value: Word) -> (r: Operation)
        ensures
            r == stack_read_op(call_id, stack_pointer, value),
    {
        Operation {
            rw: RW::Read,
            reversible: false,
            call_id,
            kind: OpKind::Stack { stack_pointer, value },
        }
    }

    /// Builds a stack write.
    pub fn new_stack_write(call_id: u64, stack_pointer: u64, value: Word) -> (r: Operation)
        ensures
            r == stack_write_op(call_id, stack_pointer, value),
    {
        Operation {
            rw: RW::Write,
            reversible: false,
            call_id,
            kind: OpKind::Stack { stack_pointer, value },
        }
    }

    /// Builds a read-only account access.
    pub fn new_account_read(call_id: u64, address: Word, field: AccountField, value: Word) -> (r:
        Operation)
        ensures
            r == account_read_op(call_id, address, field, value),
    {
        Operation {
            rw: RW::Read,
            reversible: false,
            call_id,
            kind: OpKind::Account { address, field, value, value_prev: value },
        }
    }

    /// Builds a reversible balance write.
    pub fn new_balance_write(call_id: u64, address: Word, value: Word, value_prev: Word) -> (r:
        Operation)
        ensures
            r == balance_write_op(call_id, address, value, value_prev),
    {
        Operation {
            rw: RW::Write,
            reversible: true,
            call_id,
            kind: OpKind::Account { address, field: AccountField::Balance, value, value_prev },
        }
    }

    /// Builds a reversible access-list write.
    pub fn new_access_list_write(
        call_id: u64,
        tx_id: u64,
        address: Word,
        is_warm: bool,
        is_warm_prev: bool,
    ) -> (r: Operation)
        ensures
            r == access_list_write_op(call_id, tx_id, address, is_warm, is_warm_prev),
    {
        Operation {
            rw: RW::Write,
            reversible: true,
            call_id,
            kind: OpKind::TxAccessListAccount { tx_id, address, is_warm, is_warm_prev },
        }
    }
}

/// Whether an operation moves an account balance: the shape of the two
/// operations a value transfer records.
pub open spec fn is_balance_transfer_op(op: Operation) -> bool {
    match op.kind {
        OpKind::Account { field, .. } => op.rw == RW::Write && field == AccountField::Balance,
        _ => false,
    }
}

} // verus!
