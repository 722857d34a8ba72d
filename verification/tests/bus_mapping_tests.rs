use bus_mapping::gas::{call_gas_cost, eip150_gas, memory_expansion_gas_cost, GAS_CALL_STIPEND};
use bus_mapping::mem::Memory;
use bus_mapping::operation::{
    classify_error, AccountField, CallContextField, Error, ExecError, OpKind, ReportedError,
    Warning, RW,
};
use bus_mapping::state::{Account, Call, State};
use bus_mapping::trace::TraceStep;
use bus_mapping::word::Word;
use bus_mapping::sha3::sha3_reconstruct_memory;

fn w(x: u64) -> Word {
    Word::from_u64(x)
}

fn root_call(call_id: u64, address: Word) -> Call {
    Call {
        call_id,
        caller_id: 0,
        caller_address: Word::zero(),
        address,
        value: Word::zero(),
        call_data_offset: 0,
        call_data_length: 0,
        return_data_offset: 0,
        return_data_length: 0,
        depth: 1,
        is_static: false,
        is_root: true,
        is_create: false,
        is_persistent: true,
        is_success: true,
        code_hash: w(0x1234),
        rw_counter_end_of_reversion: 0,
        reversible_write_counter: 0,
        rev_log_start: 0,
        last_callee_id: 0,
        last_callee_return_data_offset: 0,
        last_callee_return_data_length: 0,
    }
}

/// Stack for a CALL: operands given top-first.
fn call_stack(gas: u64, addr: Word, value: u64, cd_off: u64, cd_len: u64, rd_off: u64, rd_len: u64) -> Vec<Word> {
    vec![w(rd_len), w(rd_off), w(cd_len), w(cd_off), w(value), addr, w(gas)]
}

fn call_step(pc: u64, gas: u64, depth: u64, stack: Vec<Word>, memory: Vec<u8>) -> TraceStep {
    TraceStep { pc, op: 0xf1, gas, depth, error: None, stack, memory: Memory::from_bytes(memory) }
}

fn plain_step(op: u8, gas: u64, depth: u64, stack: Vec<Word>) -> TraceStep {
    TraceStep { pc: 0, op, gas, depth, error: None, stack, memory: Memory::from_bytes(Vec::new()) }
}

#[test]
fn memory_expansion_cost_values() {
    assert_eq!(memory_expansion_gas_cost(0, 0), 0);
    assert_eq!(memory_expansion_gas_cost(3, 3), 0);
    assert_eq!(memory_expansion_gas_cost(0, 1), 3);
    // 32 words: 3*32 + 1024/512 = 98
    assert_eq!(memory_expansion_gas_cost(0, 32), 98);
    // growth from 10 to 32 words: 98 - (30 + 100/512 = 0)
    assert_eq!(memory_expansion_gas_cost(10, 32), 98 - 30);
}

#[test]
fn eip150_cap() {
    // capped at 63/64 of available gas
    assert_eq!(eip150_gas(6400, &w(1_000_000)), 6400 - 100);
    // specified below the cap passes through
    assert_eq!(eip150_gas(6400, &w(500)), 500);
    // a specification wider than 64 bits is capped
    let huge = Word { hi: 1, lo: 0 };
    assert_eq!(eip150_gas(6400, &huge), 6300);
}

#[test]
fn call_gas_cost_components() {
    assert_eq!(call_gas_cost(true, false, false, 0), 100);
    assert_eq!(call_gas_cost(false, false, false, 0), 2600);
    assert_eq!(call_gas_cost(false, false, true, 0), 2600 + 9000);
    assert_eq!(call_gas_cost(false, true, true, 0), 2600 + 9000 + 25000);
    // the new-account surcharge applies only to value-bearing calls
    assert_eq!(call_gas_cost(false, true, false, 7), 2607);
}

#[test]
fn word_arithmetic() {
    assert!(w(0).is_zero());
    assert!(!w(1).is_zero());
    let a = Word { hi: 0, lo: u128::MAX };
    let one = w(1);
    let sum = a.checked_add(&one).unwrap();
    assert_eq!(sum, Word { hi: 1, lo: 0 });
    assert_eq!(sum.sub(&one), a);
    assert!(sum.ge(&a));
    assert!(!a.ge(&sum));
    let top = Word { hi: u128::MAX, lo: u128::MAX };
    assert!(top.checked_add(&one).is_none());
    // address truncation keeps the low 160 bits
    let addr = Word { hi: 0xffff_ffff_ffff_ffff_ffff_ffff_1234_5678, lo: 99 };
    assert_eq!(addr.to_address(), Word { hi: 0x1234_5678, lo: 99 });
}

#[test]
fn memory_extension_is_word_granular_and_monotone() {
    let mut m = Memory::from_bytes(vec![7u8; 40]);
    // the demanded length is rounded up to a whole word
    m.extend_at_least(33);
    assert_eq!(m.len(), 64);
    assert_eq!(m.get(39), 7);
    assert_eq!(m.get(40), 0);
    // a smaller demand never shrinks the image
    m.extend_at_least(10);
    assert_eq!(m.len(), 64);
    let mut small = Memory::from_bytes(vec![9u8; 40]);
    small.extend_at_least(20);
    assert_eq!(small.len(), 40);
}

#[test]
fn classify_error_kinds() {
    assert_eq!(classify_error(0xf1, ReportedError::OutOfGas), ExecError::OutOfGasCall);
    assert_eq!(classify_error(0x01, ReportedError::OutOfGas), ExecError::OutOfGasConstant);
    assert_eq!(classify_error(0xf1, ReportedError::StackOverflow), ExecError::StackOverflow);
    assert_eq!(classify_error(0xf1, ReportedError::StackUnderflow), ExecError::StackUnderflow);
    assert_eq!(classify_error(0xf1, ReportedError::WriteProtection), ExecError::WriteProtection);
    assert_eq!(classify_error(0xf1, ReportedError::Depth), ExecError::Depth);
    assert_eq!(
        classify_error(0xf1, ReportedError::InsufficientBalance),
        ExecError::InsufficientBalance
    );
    assert_eq!(
        classify_error(0xf0, ReportedError::ContractAddressCollision),
        ExecError::ContractAddressCollision
    );
}

#[test]
fn transfer_errors_and_effects() {
    let mut s = State::new(1, vec![]);
    let root = root_call(s.assign_call_id(), w(0xaaaa));
    s.push_call(root);
    let a = w(0xaaaa);
    let b = w(0xbbbb);
    s.sdb.set_account(Account { address: a, nonce: w(0), balance: w(100), code_hash: w(0) });
    let mut step = s.new_step(&plain_step(0xf1, 0, 1, vec![])).unwrap();
    // receiver missing
    assert_eq!(s.transfer(&mut step, a, b, w(5)), Err(Error::AccountNotFound));
    s.sdb.set_account(Account { address: b, nonce: w(0), balance: w(1), code_hash: w(0) });
    // sender cannot cover the value
    assert_eq!(s.transfer(&mut step, a, b, w(200)), Err(Error::InsufficientBalance));
    // zero value moves nothing and records nothing
    assert_eq!(s.transfer(&mut step, a, b, w(0)), Ok(()));
    assert_eq!(step.bus_ops.len(), 0);
    assert_eq!(s.rev_log.len(), 0);
    // a real transfer records two reversible writes, debit first
    assert_eq!(s.transfer(&mut step, a, b, w(30)), Ok(()));
    assert_eq!(s.sdb.get_account(&a).1.balance, w(70));
    assert_eq!(s.sdb.get_account(&b).1.balance, w(31));
    assert_eq!(step.bus_ops.len(), 2);
    match step.bus_ops[0].kind {
        OpKind::Account { address, field, value, value_prev } => {
            assert_eq!(address, a);
            assert_eq!(field, AccountField::Balance);
            assert_eq!(value, w(70));
            assert_eq!(value_prev, w(100));
        }
        _ => panic!("expected a balance write"),
    }
    assert!(step.bus_ops.iter().all(|op| op.rw == RW::Write && op.reversible));
    assert_eq!(s.rev_log.len(), 2);
}

#[test]
fn failed_frame_undoes_its_reversible_writes() {
    let mut s = State::new(1, vec![]);
    let root = root_call(s.assign_call_id(), w(0xaaaa));
    s.push_call(root);
    let a = w(0xaaaa);
    let b = w(0xbbbb);
    s.sdb.set_account(Account { address: a, nonce: w(0), balance: w(100), code_hash: w(0) });
    s.sdb.set_account(Account { address: b, nonce: w(0), balance: w(0), code_hash: w(0) });
    // a failing child frame moves value, then unwinds
    let id = s.assign_call_id();
    let mut child = root_call(id, b);
    child.is_root = false;
    child.is_success = false;
    s.push_call(child);
    let mut step = s.new_step(&plain_step(0xf1, 0, 2, vec![])).unwrap();
    s.transfer(&mut step, a, b, w(40)).unwrap();
    assert_eq!(s.sdb.get_account(&a).1.balance, w(60));
    s.handle_return();
    // the undo restored both balances and dropped the log entries
    assert_eq!(s.sdb.get_account(&a).1.balance, w(100));
    assert_eq!(s.sdb.get_account(&b).1.balance, w(0));
    assert_eq!(s.rev_log.len(), 0);
    assert_eq!(s.frames.len(), 1);
}

/// CALL to an address with empty code and zero value: one step, no
/// transfer, the caller's last-callee fields written as zero, and the frame
/// stack unchanged after the push-then-pop.
#[test]
fn call_empty_code_zero_value() {
    let mut s = State::new(1, vec![true]);
    let root = root_call(s.assign_call_id(), w(0xaaaa));
    s.push_call(root);
    let callee = w(0xdead);
    let empty_hash = bus_mapping::word::make_empty_code_hash();
    s.sdb.set_account(Account {
        address: callee,
        nonce: w(0),
        balance: w(0),
        code_hash: empty_hash,
    });
    let step0 = call_step(10, 10_000, 1, call_stack(300, callee, 0, 0, 0, 0, 0), vec![]);
    let step1 = plain_step(0x00, 7_000, 1, vec![]);
    let steps = vec![step0, step1];
    let res = s.call_gen_associated_ops(&steps).unwrap();
    assert_eq!(res.len(), 1);
    let ops = &res[0].bus_ops;
    assert_eq!(ops.len(), 22);
    assert!(ops.iter().all(|op| !matches!(
        op.kind,
        OpKind::Account { field: AccountField::Balance, .. }
    ) || op.rw == RW::Read));
    // the last three operations write the caller's last-callee fields as 0
    for (i, f) in [
        CallContextField::LastCalleeId,
        CallContextField::LastCalleeReturnDataOffset,
        CallContextField::LastCalleeReturnDataLength,
    ]
    .iter()
    .enumerate()
    {
        match ops[19 + i].kind {
            OpKind::CallContext { field, value } => {
                assert_eq!(field, *f);
                assert_eq!(value, w(0));
            }
            _ => panic!("expected a call-context write"),
        }
        assert_eq!(ops[19 + i].rw, RW::Write);
    }
    assert_eq!(s.frames.len(), 1);
    assert_eq!(s.warnings, vec![Warning::EmptyCodeCallPartial]);
    // the callee is warm now
    assert!(s.sdb.check_account_in_access_list(1, &callee));
}

/// CALL to a cold, non-empty-code address with nonzero value: the access
/// list write flips cold to warm, the cost carries the cold and value
/// surcharges but no new-account surcharge, and the caller keeps a
/// resumption snapshot under the new frame.
#[test]
fn call_cold_nonzero_value() {
    let mut s = State::new(1, vec![true]);
    let caller = w(0xaaaa);
    let root = root_call(s.assign_call_id(), caller);
    s.push_call(root);
    let callee = w(0xbeef);
    s.sdb.set_account(Account { address: caller, nonce: w(1), balance: w(100), code_hash: w(0x77) });
    s.sdb.set_account(Account { address: callee, nonce: w(1), balance: w(0), code_hash: w(0x99) });
    // cold + value: 2600 + 9000; forwarded gas is the operand
    let step0 = call_step(10, 100_000, 1, call_stack(500, callee, 5, 0, 0, 0, 0), vec![]);
    let step1 = plain_step(0x60, 500 + GAS_CALL_STIPEND, 2, vec![]);
    let steps = vec![step0, step1];
    let res = s.call_gen_associated_ops(&steps).unwrap();
    let ops = &res[0].bus_ops;
    assert_eq!(ops.len(), 44);
    match ops[14].kind {
        OpKind::TxAccessListAccount { tx_id, address, is_warm, is_warm_prev } => {
            assert_eq!(tx_id, 1);
            assert_eq!(address, callee);
            assert!(is_warm);
            assert!(!is_warm_prev);
        }
        _ => panic!("expected the access-list write"),
    }
    // value moved
    assert_eq!(s.sdb.get_account(&caller).1.balance, w(95));
    assert_eq!(s.sdb.get_account(&callee).1.balance, w(5));
    // caller resumption snapshot: gas left = 100000 - 11600 - 500
    match ops[23].kind {
        OpKind::CallContext { field, value } => {
            assert_eq!(field, CallContextField::GasLeft);
            assert_eq!(value, w(100_000 - 11_600 - 500));
        }
        _ => panic!("expected the gas-left write"),
    }
    assert_eq!(s.frames.len(), 2);
    assert_eq!(s.frames[1].call.call_id, 2);
    assert_eq!(s.frames[1].call.depth, 2);
    assert!(s.warnings.is_empty());
}

/// The one permitted retry: a stale warm mark is flipped when the cold
/// numbers match the trace, and the operation records the corrected
/// previous state.
#[test]
fn call_warm_cold_retry_flips() {
    let mut s = State::new(1, vec![true]);
    let caller = w(0xaaaa);
    let root = root_call(s.assign_call_id(), caller);
    s.push_call(root);
    let callee = w(0xbeef);
    s.sdb.set_account(Account { address: caller, nonce: w(1), balance: w(100), code_hash: w(0x77) });
    s.sdb.set_account(Account { address: callee, nonce: w(1), balance: w(0), code_hash: w(0x99) });
    // stale warm mark
    s.sdb.add_account_to_access_list(1, &callee);
    // a gas operand wider than 64 bits forces the 63/64 cap, so warm and
    // cold forward different amounts: cold forwards 87019 of 100000
    let huge = Word { hi: 1, lo: 0 };
    let mut stack = call_stack(0, callee, 5, 0, 0, 0, 0);
    let top = stack.len() - 1;
    stack[top] = huge;
    let step0 = call_step(10, 100_000, 1, stack, vec![]);
    let step1 = plain_step(0x60, 87_019 + GAS_CALL_STIPEND, 2, vec![]);
    let steps = vec![step0, step1];
    let res = s.call_gen_associated_ops(&steps).unwrap();
    match res[0].bus_ops[14].kind {
        OpKind::TxAccessListAccount { is_warm, is_warm_prev, .. } => {
            assert!(is_warm);
            assert!(!is_warm_prev);
        }
        _ => panic!("expected the access-list write"),
    }
}

/// When the trace disagrees with both warm and cold numbers, the run fails
/// loudly.
#[test]
fn call_inconsistent_gas_is_fatal() {
    let mut s = State::new(1, vec![true]);
    let caller = w(0xaaaa);
    let root = root_call(s.assign_call_id(), caller);
    s.push_call(root);
    let callee = w(0xbeef);
    s.sdb.set_account(Account { address: caller, nonce: w(1), balance: w(100), code_hash: w(0x77) });
    s.sdb.set_account(Account { address: callee, nonce: w(1), balance: w(0), code_hash: w(0x99) });
    let step0 = call_step(10, 100_000, 1, call_stack(500, callee, 5, 0, 0, 0, 0), vec![]);
    let step1 = plain_step(0x60, 123, 2, vec![]);
    let steps = vec![step0, step1];
    assert_eq!(s.call_gen_associated_ops(&steps), Err(Error::InternalInconsistency));
}

/// A reported engine error classifies onto the single step and unwinds the
/// frame.
#[test]
fn call_reported_error_unwinds() {
    let mut s = State::new(1, vec![]);
    let root = root_call(s.assign_call_id(), w(0xaaaa));
    s.push_call(root);
    let mut step0 = call_step(10, 0, 1, vec![], vec![]);
    step0.error = Some(ReportedError::OutOfGas);
    let step1 = plain_step(0x00, 0, 1, vec![]);
    let steps = vec![step0, step1];
    let res = s.call_gen_associated_ops(&steps).unwrap();
    assert_eq!(res.len(), 1);
    assert_eq!(res[0].error, Some(ExecError::OutOfGasCall));
    assert_eq!(res[0].bus_ops.len(), 0);
    assert_eq!(s.frames.len(), 0);
}

/// RETURN from a non-creation, non-root frame copies the returned bytes
/// into the caller's reserved window and exposes the full RETURNDATA
/// buffer.
#[test]
fn return_propagates_to_caller() {
    let mut s = State::new(1, vec![]);
    let root = root_call(s.assign_call_id(), w(0xaaaa));
    s.push_call(root);
    let id = s.assign_call_id();
    let mut child = root_call(id, w(0xbbbb));
    child.is_root = false;
    child.return_data_offset = 0x20;
    child.return_data_length = 0x10;
    s.push_call(child);
    // the frame returns 0x20 bytes from offset 0; the caller reserved 0x10
    let src: Vec<u8> = (0u8..0x20).collect();
    let step0 = TraceStep {
        pc: 0,
        op: 0xf3,
        gas: 0,
        depth: 2,
        error: None,
        stack: vec![w(0x20), w(0)],
        memory: Memory::from_bytes(src.clone()),
    };
    let steps = vec![step0];
    let m = s.return_reconstruct_memory(&steps).unwrap();
    // caller memory: window [0x20, 0x30) carries the first 0x10 bytes
    assert_eq!(m.len(), 0x40);
    for k in 0..0x10usize {
        assert_eq!(m.get(0x20 + k), src[k]);
    }
    for k in 0..0x20usize {
        assert_eq!(m.get(k), 0);
    }
    let caller_frame = &s.frames[0];
    assert_eq!(caller_frame.memory.len(), 0x40);
    // RETURNDATA holds all 0x20 returned bytes
    assert_eq!(caller_frame.return_data, src);
    assert_eq!(caller_frame.call.last_callee_id, 2);
    assert_eq!(caller_frame.call.last_callee_return_data_offset, 0);
    assert_eq!(caller_frame.call.last_callee_return_data_length, 0x20);
    // both frames still on the stack: unwinding is the handler's job
    assert_eq!(s.frames.len(), 2);
}

/// Reconstructing the same step twice without intervening mutation yields a
/// byte-identical image.
#[test]
fn return_reconstruction_is_idempotent() {
    let mut s = State::new(1, vec![]);
    let root = root_call(s.assign_call_id(), w(0xaaaa));
    s.push_call(root);
    let id = s.assign_call_id();
    let mut child = root_call(id, w(0xbbbb));
    child.is_root = false;
    child.return_data_offset = 8;
    child.return_data_length = 64;
    s.push_call(child);
    let src: Vec<u8> = (0u8..0x40).map(|x| x.wrapping_mul(3)).collect();
    let step0 = TraceStep {
        pc: 0,
        op: 0xf3,
        gas: 0,
        depth: 2,
        error: None,
        stack: vec![w(0x40), w(0)],
        memory: Memory::from_bytes(src),
    };
    let steps = vec![step0];
    let m1 = s.return_reconstruct_memory(&steps).unwrap();
    let m2 = s.return_reconstruct_memory(&steps).unwrap();
    assert_eq!(m1.bytes, m2.bytes);
}

/// RETURN from a creation frame registers the returned bytes as the code of
/// the address the next step exposes.
#[test]
fn return_from_creation_registers_code() {
    let mut s = State::new(1, vec![]);
    let root = root_call(s.assign_call_id(), w(0xaaaa));
    s.push_call(root);
    let id = s.assign_call_id();
    let mut child = root_call(id, w(0xbbbb));
    child.is_root = false;
    child.is_create = true;
    s.push_call(child);
    let src: Vec<u8> = (0u8..0x20).collect();
    let step0 = TraceStep {
        pc: 0,
        op: 0xf3,
        gas: 0,
        depth: 2,
        error: None,
        stack: vec![w(12), w(4)],
        memory: Memory::from_bytes(src.clone()),
    };
    let created = w(0xcccc);
    let step1 = plain_step(0x60, 0, 1, vec![created]);
    let steps = vec![step0, step1];
    let m = s.return_reconstruct_memory(&steps).unwrap();
    // the caller memory is untouched by a creation return
    assert_eq!(m.len(), 0);
    let code = s.code_db.get_code(&created).expect("code registered");
    assert_eq!(code, &src[4..16].to_vec());
}

/// Nested CREATE, then CALL into the created contract, then RETURN of 0x20
/// bytes: the caller memory window and the RETURNDATA buffer both carry
/// exactly those bytes.
#[test]
fn create_then_call_then_return() {
    let mut s = State::new(1, vec![true]);
    let caller = w(0xaaaa);
    let root = root_call(s.assign_call_id(), caller);
    s.push_call(root);
    s.sdb.set_account(Account { address: caller, nonce: w(1), balance: w(50), code_hash: w(0x77) });

    // CREATE: a creation frame returns 12 bytes of deployed code
    let id = s.assign_call_id();
    let mut creation = root_call(id, w(0xdddd));
    creation.is_root = false;
    creation.is_create = true;
    s.push_call(creation);
    let deployed: Vec<u8> = (0u8..12).collect();
    let ret0 = TraceStep {
        pc: 0,
        op: 0xf3,
        gas: 0,
        depth: 2,
        error: None,
        stack: vec![w(12), w(0)],
        memory: Memory::from_bytes(deployed.clone()),
    };
    let created = w(0xcafe);
    let after_create = plain_step(0x60, 0, 1, vec![created]);
    let create_steps = vec![ret0, after_create];
    s.return_reconstruct_memory(&create_steps).unwrap();
    s.handle_return();
    assert_eq!(s.code_db.get_code(&created).unwrap(), &deployed);
    s.sdb.set_account(Account { address: created, nonce: w(1), balance: w(0), code_hash: w(0x55) });

    // CALL into the created contract, reserving a 0x20-byte window at 0x20
    let step0 = call_step(10, 100_000, 1, call_stack(500, created, 0, 0, 0, 0x20, 0x20), vec![]);
    let step1 = plain_step(0x60, 500, 2, vec![]);
    let call_steps = vec![step0, step1];
    s.call_gen_associated_ops(&call_steps).unwrap();
    assert_eq!(s.frames.len(), 2);

    // the callee RETURNs 0x20 bytes from offset 0
    let payload: Vec<u8> = (0u8..0x20).map(|x| x.wrapping_add(0x40)).collect();
    let ret1 = TraceStep {
        pc: 0,
        op: 0xf3,
        gas: 0,
        depth: 2,
        error: None,
        stack: vec![w(0x20), w(0)],
        memory: Memory::from_bytes(payload.clone()),
    };
    let ret_steps = vec![ret1];
    let m = s.return_reconstruct_memory(&ret_steps).unwrap();
    for k in 0..0x20usize {
        assert_eq!(m.get(0x20 + k), payload[k]);
    }
    assert_eq!(s.frames[0].return_data, payload);
    let res = s.return_gen_associated_ops(&ret_steps).unwrap();
    assert_eq!(res.len(), 1);
    assert_eq!(res[0].error, None);
    assert_eq!(s.frames.len(), 1);
}

#[test]
fn sha3_models_stack_effect_only() {
    let mut s = State::new(1, vec![]);
    let root = root_call(s.assign_call_id(), w(0xaaaa));
    s.push_call(root);
    let step0 = plain_step(0x20, 1000, 1, vec![w(0x40), w(0)]);
    let digest = Word { hi: 0x1111, lo: 0x2222 };
    let step1 = plain_step(0x60, 964, 1, vec![digest]);
    let steps = vec![step0, step1];
    let res = s.sha3_gen_associated_ops(&steps).unwrap();
    let ops = &res[0].bus_ops;
    assert_eq!(ops.len(), 3);
    assert_eq!(ops[0].rw, RW::Read);
    assert_eq!(ops[1].rw, RW::Read);
    match ops[2].kind {
        OpKind::Stack { stack_pointer, value } => {
            assert_eq!(stack_pointer, 1023);
            assert_eq!(value, digest);
        }
        _ => panic!("expected the result write"),
    }
    assert_eq!(s.warnings, vec![Warning::HashMemoryReadsOmitted]);
    // reconstruction extends the image over the hashed range
    let m = sha3_reconstruct_memory(&steps[0]).unwrap();
    assert_eq!(m.len(), 0x40);
}

#[test]
fn call_reconstruct_covers_both_windows() {
    let step = call_step(
        0,
        0,
        1,
        call_stack(500, w(0xbeef), 0, 0x10, 0x20, 0x40, 0x11),
        vec![1, 2, 3],
    );
    let m = bus_mapping::call::call_reconstruct_memory(&step).unwrap();
    // max(0x10 + 0x20, 0x40 + 0x11) = 0x51, rounded up to a word multiple
    assert_eq!(m.len(), 0x60);
    assert_eq!(m.get(0), 1);
    assert_eq!(m.get(2), 3);
    assert_eq!(m.get(3), 0);
    // a call with no windows leaves the image alone
    let bare = call_step(0, 0, 1, call_stack(500, w(0xbeef), 0, 9, 0, 9, 0), vec![5]);
    let m2 = bus_mapping::call::call_reconstruct_memory(&bare).unwrap();
    assert_eq!(m2.len(), 1);
}
