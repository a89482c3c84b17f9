use vstd::prelude::*;

use crate::memory::Memory;
use crate::stack::Stack;
use crate::storage::Storage;
use crate::word::Word;

verus! {

/// Saturating debit of `cost` from a gas counter: `gas - cost`, clamped into
/// the `i128` range. Gas may go negative; the core never halts on exhausted
/// gas — a driver enforces that externally.
pub open spec fn gas_debit(gas: i128, cost: int) -> i128 {
    if gas - cost < i128::MIN {
        i128::MIN
    } else if gas - cost > i128::MAX {
        i128::MAX
    } else {
        (gas - cost) as i128
    }
}

/// The aggregated execution state: the operand stack, linear memory and
/// persistent storage it exclusively owns, the program counter, the gas
/// counter, the two terminal flags, the return-data and log buffers, and the
/// opaque context a run is seeded with (sender, program, call value and
/// data — carried, never interpreted, by this core).
pub struct EvmState {
    pub pc: i32,
    pub stack: Stack,
    pub memory: Memory,
    pub storage: Storage,
    pub sender: String,
    pub program: String,
    pub gas: i128,
    pub value: Word,
    pub calldata: Word,
    pub stop_flag: bool,
    pub revert_flag: bool,
    pub return_data: Vec<Word>,
    pub logs: Vec<String>,
}

/// The fields no arithmetic opcode handler ever touches, held fixed between a
/// pre-state and a post-state.
pub open spec fn untouched_context(pre: EvmState, post: EvmState) -> bool {
    &&& post.memory == pre.memory
    &&& post.storage == pre.storage
    &&& post.sender == pre.sender
    &&& post.program == pre.program
    &&& post.value == pre.value
    &&& post.calldata == pre.calldata
    &&& post.return_data == pre.return_data
    &&& post.logs == pre.logs
}

/// `post` is `pre` with only the revert flag raised: the whole effect of a
/// handler whose pops failed.
pub open spec fn reverted_only(pre: EvmState, post: EvmState) -> bool {
    &&& untouched_context(pre, post)
    &&& post.stack@ == pre.stack@
    &&& post.pc == pre.pc
    &&& post.gas == pre.gas
    &&& post.stop_flag == pre.stop_flag
    &&& post.revert_flag
}

/// `post` is `pre` with only the stop flag raised.
pub open spec fn stopped_only(pre: EvmState, post: EvmState) -> bool {
    &&& untouched_context(pre, post)
    &&& post.stack@ == pre.stack@
    &&& post.pc == pre.pc
    &&& post.gas == pre.gas
    &&& post.revert_flag == pre.revert_flag
    &&& post.stop_flag
}

impl EvmState {
    /// The owned components are well formed.
    pub open spec fn wf(&self) -> bool {
        self.stack.wf() && self.memory.wf()
    }

    /// Execution has reached a terminal flag. Both flags start false and are
    /// terminal once set: a halted state is never mutated further by any
    /// handler.
    pub open spec fn halted(&self) -> bool {
        self.stop_flag || self.revert_flag
    }

    /// A fresh execution state: empty stack, memory and storage, program
    /// counter at zero, both flags down, empty buffers, seeded with the given
    /// context and initial gas budget.
    pub fn new(sender: String, program: String, gas: i128, value: Word, calldata: Word) -> (s:
        EvmState)
        ensures
            s.wf(),
            s.pc == 0,
            s.stack@ == Seq::<Word>::empty(),
            s.memory@ == Seq::<u8>::empty(),
            s.storage.slots() == Map::<u8, u8>::empty(),
            forall|k: u8| !s.storage.is_warm(k),
            s.sender == sender,
            s.program == program,
            s.gas == gas,
            s.value == value,
            s.calldata == calldata,
            !s.stop_flag,
            !s.revert_flag,
            s.return_data@ == Seq::<Word>::empty(),
            s.logs@ == Seq::<String>::empty(),
    {
        EvmState {
            pc: 0,
            stack: Stack::new(),
            memory: Memory::new(),
            storage: Storage::new(),
            sender,
            program,
            gas,
            value,
            calldata,
            stop_flag: false,
            revert_flag: false,
            return_data: Vec::new(),
            logs: Vec::new(),
        }
    }

    /// Debits `value` from the gas counter, saturating at the ends of the
    /// `i128` range. Nothing else changes.
    pub fn gas_dec(&mut self, value: i128)
        ensures
            final(self).gas == gas_debit(old(self).gas, value as int),
            untouched_context(*old(self), *final(self)),
            final(self).stack == old(self).stack,
            final(self).pc == old(self).pc,
            final(self).stop_flag == old(self).stop_flag,
            final(self).revert_flag == old(self).revert_flag,
    {
        let g = self.gas;
        if value >= 0 {
            if g >= i128::MIN + value {
                self.gas = g - value;
            } else {
                self.gas = i128::MIN;
            }
        } else {
            if g <= i128::MAX + value {
                self.gas = g - value;
            } else {
                self.gas = i128::MAX;
            }
        }
    }
}

} // verus!
