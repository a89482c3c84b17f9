use vstd::prelude::*;

use crate::errors::VmError;
use crate::word::Word;

verus! {

/// Greatest number of words an operand stack can hold.
pub const MAXIMUM_STACK_SIZE: usize = 1024;

/// Bounded last-in-first-out stack of machine words.
///
/// The sequence view lists the values bottom first: the last element of
/// `self@` is the top of the stack.
pub struct Stack {
    items: Vec<Word>,
}

impl View for Stack {
    type V = Seq<Word>;

    closed spec fn view(&self) -> Seq<Word> {
        self.items@
    }
}

impl Stack {
    /// The depth never exceeds the bound.
    pub open spec fn wf(&self) -> bool {
        self@.len() <= MAXIMUM_STACK_SIZE
    }

    /// A new stack is empty.
    pub fn new() -> (s: Stack)
        ensures
            s@ == Seq::<Word>::empty(),
            s.wf(),
    {
        Stack { items: Vec::new() }
    }

    /// Appends `value` on top. At the maximum depth the push fails with
    /// `StackOverflow` and the stack is unchanged.
    pub fn push(&mut self, value: Word) -> (r: Result<(), VmError>)
        ensures
            r is Ok <==> old(self)@.len() < MAXIMUM_STACK_SIZE,
            r is Ok ==> final(self)@ == old(self)@.push(value),
            r is Err ==> r == Err::<(), VmError>(VmError::StackOverflow) && final(self)@ == old(
                self,
            )@,
            old(self).wf() ==> final(self).wf(),
    {
        if self.items.len() >= MAXIMUM_STACK_SIZE {
            Err(VmError::StackOverflow)
        } else {
            self.items.push(value);
            Ok(())
        }
    }

    /// Removes and returns the top word. On an empty stack the pop fails with
    /// `StackUnderflow` and the stack is unchanged.
    pub fn pop(&mut self) -> (r: Result<Word, VmError>)
        ensures
            r is Ok <==> old(self)@.len() > 0,
            r is Ok ==> r == Ok::<Word, VmError>(old(self)@.last()) && final(self)@ == old(
                self,
            )@.drop_last(),
            r is Err ==> r == Err::<Word, VmError>(VmError::StackUnderflow) && final(self)@ == old(
                self,
            )@,
            old(self).wf() ==> final(self).wf(),
    {
        if self.items.len() == 0 {
            Err(VmError::StackUnderflow)
        } else {
            match self.items.pop() {
                Some(v) => Ok(v),
                None => Err(VmError::StackUnderflow),
            }
        }
    }
}

} // verus!
