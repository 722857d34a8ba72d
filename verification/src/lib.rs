//! Core of a bus-mapping builder for a zk-EVM proving stack: it turns a raw,
//! per-instruction EVM execution trace into the ordered log of state-access
//! operations that the arithmetic circuit consumes as its witness.
//!
//! The crate covers the call-frame and gas-accounting logic of the CALL
//! opcode, the RETURN/REVERT cross-frame memory propagation, the reduced SHA3
//! handler, and the shared gas-cost and reversible-write machinery they rely
//! on.

pub mod call;
pub mod gas;
pub mod laws;
pub mod mem;
pub mod operation;
pub mod ret;
pub mod sha3;
pub mod state;
pub mod trace;
pub mod word;
