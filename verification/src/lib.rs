//! Execution core of a bytecode-driven virtual machine: a bounded operand
//! stack, a byte-addressable expandable memory, persistent storage with
//! warm/cold access tracking, and arithmetic opcode handlers that mutate a
//! shared execution state under a gas-metering discipline.

pub mod errors;
pub mod memory;
pub mod opcodes;
pub mod storage;
pub mod stack;
pub mod state;
pub mod word;
