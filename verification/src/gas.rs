//! Gas pricing for the CALL family: warm/cold surcharge, value and
//! new-account surcharge, memory-expansion cost, and the EIP-150 63/64 rule.
use vstd::prelude::*;

use crate::mem::word_count;
use crate::word::Word;

verus! {

/// Gas charged for touching an address already warm in this transaction.
pub const GAS_WARM_ACCESS: u64 = 100;

/// Gas charged for touching a cold address.
pub const GAS_COLD_ACCOUNT_ACCESS: u64 = 2600;

/// Surcharge of a CALL that transfers a nonzero value.
pub const GAS_CALL_WITH_VALUE: u64 = 9000;

/// Surcharge of a value transfer to an empty account.
pub const GAS_NEW_ACCOUNT: u64 = 25000;

/// Gas stipend granted to the callee of a value-bearing CALL.
pub const GAS_CALL_STIPEND: u64 = 2300;

/// Quadratic memory cost: `3 * words + words^2 / 512`.
pub open spec fn quad_memory_cost(words: int) -> int {
    3 * words + (words * words) / 512
}

/// Gas for growing the memory from `curr` to `next` 32-byte words:
/// the difference of the quadratic cost at the two sizes.
pub open spec fn spec_memory_expansion_gas_cost(curr: int, next: int) -> int {
    if next == curr {
        0
    } else {
        3 * (next - curr) + (next * next) / 512 - (curr * curr) / 512
    }
}

/// The EIP-150 rule: the callee receives the operand-specified gas, capped at
/// 63/64 of `gas_left`.
pub open spec fn spec_eip150_gas(gas_left: u64, gas_specified: Word) -> int {
    let capped = gas_left - gas_left / 64;
    if gas_specified.as_nat() <= u64::MAX && gas_specified.as_nat() < capped {
        gas_specified.as_nat() as int
    } else {
        capped
    }
}

/// Total gas charged by a CALL before forwarding: access surcharge, value
/// surcharge, and memory expansion.
pub open spec fn spec_call_gas_cost(
    is_warm: bool,
    is_account_empty: bool,
    has_value: bool,
    memory_expansion_gas_cost: int,
) -> int {
    (if is_warm {
        GAS_WARM_ACCESS as int
    } else {
        GAS_COLD_ACCOUNT_ACCESS as int
    }) + (if has_value {
        GAS_CALL_WITH_VALUE as int + (if is_account_empty {
            GAS_NEW_ACCOUNT as int
        } else {
            0
        })
    } else {
        0
    }) + memory_expansion_gas_cost
}

/// Word count after a CALL touches its call-data and return-data windows:
/// the current count or the count each window demands, whichever is largest.
pub open spec fn spec_next_word_size(curr_words: int, cd_end: int, rd_end: int) -> int {
    let a = word_count(cd_end);
    let b = word_count(rd_end);
    if curr_words >= a && curr_words >= b {
        curr_words
    } else if a >= b {
        a
    } else {
        b
    }
}

/// Gas for growing the memory from `curr` to `next` words.
pub fn memory_expansion_gas_cost(curr: u64, next: u64) -> (r: u64)
    requires
        curr <= next,
        next <= 0x80000000,
    ensures
        r == spec_memory_expansion_gas_cost(curr as int, next as int),
        r <= 0x40000000000000,
{
    if next == curr {
        0
    } else {
        proof {
            assert(curr as int * curr as int <= next as int * next as int) by (nonlinear_arith)
                requires
                    0 <= curr <= next,
            ;
            assert(next as int * next as int <= 0x4000000000000000) by (nonlinear_arith)
                requires
                    0 <= next <= 0x80000000,
            ;
            vstd::arithmetic::div_mod::lemma_div_is_ordered(
                curr as int * curr as int,
                next as int * next as int,
                512,
            );
            vstd::arithmetic::div_mod::lemma_div_is_ordered(
                next as int * next as int,
                0x4000000000000000,
                512,
            );
        }
        3 * (next - curr) + (next * next) / 512 - (curr * curr) / 512
    }
}

/// Applies the EIP-150 63/64 rule to `gas_left` and the operand-specified gas.
pub fn eip150_gas(gas_left: u64, gas_specified: &Word) -> (r: u64)
    ensures
        r == spec_eip150_gas(gas_left, *gas_specified),
        r <= gas_left,
{
    let capped: u64 = gas_left - gas_left / 64;
    if gas_specified.fits_u64() {
        let g: u64 = gas_specified.to_u64();
        if g < capped {
            return g;
        }
    }
    capped
}

/// Total CALL gas cost for the given pricing flags and memory-expansion cost.
pub fn call_gas_cost(
    is_warm: bool,
    is_account_empty: bool,
    has_value: bool,
    memory_expansion_gas_cost: u64,
) -> (r: u64)
    requires
        memory_expansion_gas_cost <= 0x4000000000000000,
    ensures
        r == spec_call_gas_cost(
            is_warm,
            is_account_empty,
            has_value,
            memory_expansion_gas_cost as int,
        ),
{
    (if is_warm {
        GAS_WARM_ACCESS
    } else {
        GAS_COLD_ACCOUNT_ACCESS
    }) + (if has_value {
        GAS_CALL_WITH_VALUE + (if is_account_empty {
            GAS_NEW_ACCOUNT
        } else {
            0
        })
    } else {
        0
    }) + memory_expansion_gas_cost
}

} // verus!
