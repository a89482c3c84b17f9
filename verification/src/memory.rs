use vstd::prelude::*;
use vstd::arithmetic::div_mod::{
    lemma_fundamental_div_mod, lemma_fundamental_div_mod_converse, lemma_mod_division_less_than_divisor,
    lemma_mod_multiples_basic,
};
use vstd::pervasive::VecAdditionalExecFns;

use crate::errors::VmError;

verus! {

/// `n` rounded up to the next multiple of 32.
pub open spec fn round_up_to_word(n: int) -> int {
    ((n + 31) / 32) * 32
}

/// The largest byte range end that memory can be grown to cover on this
/// machine: rounding up to a 32-byte boundary must still fit in a `usize`.
pub open spec fn max_memory_len() -> int {
    usize::MAX - 31
}

/// Length of the memory after it has been grown to cover `[0, end)`, starting
/// from length `old_len`.
///
/// A memory that does not already hold more than `end` bytes is first
/// initialized to exactly 32 zero bytes if it is empty, then, if still too
/// short, grown to `end` rounded up to a 32-byte boundary, so that the length
/// stays a multiple of 32.
pub open spec fn grown_len(old_len: int, end: int) -> int {
    if old_len > end {
        old_len
    } else {
        let base = if old_len == 0 {
            32int
        } else {
            old_len
        };
        if base < end {
            round_up_to_word(end)
        } else {
            base
        }
    }
}

/// The byte at index `i` after `vals` has been written at `offset` over a
/// memory whose bytes were `old_mem`: newly materialized bytes are zero.
pub open spec fn byte_after_store(old_mem: Seq<u8>, offset: int, vals: Seq<u8>, i: int) -> u8 {
    if offset <= i < offset + vals.len() {
        vals[i - offset]
    } else if i < old_mem.len() {
        old_mem[i]
    } else {
        0
    }
}

/// The byte at index `i` after the memory has been grown without writing:
/// old bytes are kept, newly materialized ones are zero.
pub open spec fn byte_after_growth(old_mem: Seq<u8>, i: int) -> u8 {
    if i < old_mem.len() {
        old_mem[i]
    } else {
        0
    }
}

/// Length of the memory after a read touching `[0, end)`: a range the grown
/// region already covers changes nothing; one beyond it grows the memory as
/// `grown_len` says.
pub open spec fn read_len(old_len: int, end: int) -> int {
    if end <= old_len {
        old_len
    } else {
        grown_len(old_len, end)
    }
}

/// Expansion cost of growing from `old_len` to cover `[0, end)`: quadratic in
/// the number of 32-byte words added.
pub open spec fn expansion_cost(old_len: int, end: int) -> int {
    let words = (grown_len(old_len, end) - old_len) / 32;
    words * words
}

/// A well-formed memory length never exceeds the largest multiple of 32 that
/// fits in a `usize`: on either machine width, `usize::MAX` sits 31 above
/// such a multiple, so a covered range is always within the machine limit.
proof fn lemma_wf_len_within_limit(len: int)
    requires
        len % 32 == 0,
        0 <= len <= usize::MAX,
    ensures
        len <= max_memory_len(),
{
    lemma_fundamental_div_mod(len, 32);
    assert(usize::MAX as int == 0xffff_ffff || usize::MAX as int == 0xffff_ffff_ffff_ffff);
}

/// Byte-addressable linear memory, initially empty, growable only in
/// multiples of 32 bytes. Growth is monotonic and newly materialized bytes
/// are zero-filled. Reads adopt the pre-grow policy: a load or access beyond
/// the grown region first grows the memory to cover the range it touches.
pub struct Memory {
    memory: Vec<u8>,
}

impl View for Memory {
    type V = Seq<u8>;

    closed spec fn view(&self) -> Seq<u8> {
        self.memory@
    }
}

impl Memory {
    /// The length is always a multiple of 32.
    pub open spec fn wf(&self) -> bool {
        self@.len() % 32 == 0
    }

    /// A new memory is empty.
    pub fn new() -> (m: Memory)
        ensures
            m@ == Seq::<u8>::empty(),
            m.wf(),
    {
        Memory { memory: Vec::new() }
    }

    /// Grows the memory with zero bytes until it covers `[0, end)`, per
    /// `grown_len`. Private: `store`, `load` and `access` share this policy.
    fn grow_to_cover(&mut self, end: usize)
        requires
            old(self).wf(),
            end <= max_memory_len(),
        ensures
            final(self).wf(),
            final(self)@.len() == grown_len(old(self)@.len() as int, end as int),
            forall|i: int| 0 <= i < final(self)@.len() ==> final(self)@[i] == byte_after_growth(old(self)@, i),
            final(self)@.len() >= end,
            final(self)@.len() >= old(self)@.len(),
            final(self)@.len() <= usize::MAX,
    {
        if self.memory.len() <= end {
            if self.memory.len() == 0 {
                while self.memory.len() < 32
                    invariant
                        self@.len() <= 32,
                        forall|i: int| 0 <= i < self@.len() ==> self@[i] == 0u8,
                    decreases 32 - self@.len(),
                {
                    self.memory.push(0u8);
                }
            }
            if self.memory.len() < end {
                let q: usize = (end - 1) / 32;
                proof {
                    lemma_fundamental_div_mod(end - 1, 32);
                    lemma_mod_division_less_than_divisor(end - 1, 32);
                    lemma_fundamental_div_mod_converse(end + 31, 32, q + 1, (end - 1) % 32);
                    lemma_mod_multiples_basic(q + 1, 32);
                }
                let target: usize = q * 32 + 32;
                while self.memory.len() < target
                    invariant
                        self@.len() <= target,
                        old(self)@.len() <= self@.len(),
                        forall|i: int|
                            0 <= i < self@.len() ==> self@[i] == byte_after_growth(old(self)@, i),
                    decreases target - self@.len(),
                {
                    self.memory.push(0u8);
                }
            }
        }
    }

    /// Writes `values` starting at `offset`, growing the memory first when the
    /// range `[offset, offset + values.len())` is not yet covered. Returns the
    /// expansion cost, quadratic in the number of 32-byte words added, to be
    /// billed against gas by the caller. Fails with `MemoryOutOfRange` only
    /// when the range cannot exist on this machine; the memory is then
    /// unchanged.
    pub fn store(&mut self, offset: usize, values: Vec<u8>) -> (r: Result<u128, VmError>)
        requires
            old(self).wf(),
        ensures
            final(self).wf(),
            r is Ok <==> offset + values@.len() <= max_memory_len(),
            r is Err ==> r == Err::<u128, VmError>(VmError::MemoryOutOfRange) && final(self)@ == old(
                self,
            )@,
            r is Ok ==> {
                &&& final(self)@.len() == grown_len(old(self)@.len() as int, offset + values@.len())
                &&& forall|i: int|
                    0 <= i < final(self)@.len() ==> final(self)@[i] == byte_after_store(
                        old(self)@,
                        offset as int,
                        values@,
                        i,
                    )
                &&& r == Ok::<u128, VmError>(
                    expansion_cost(old(self)@.len() as int, offset + values@.len()) as u128,
                )
            },
    {
        if offset > usize::MAX - 31 || values.len() > (usize::MAX - 31) - offset {
            return Err(VmError::MemoryOutOfRange);
        }
        let end: usize = offset + values.len();
        let old_len: usize = self.memory.len();
        self.grow_to_cover(end);
        let added_words: usize = (self.memory.len() - old_len) / 32;
        proof {
            lemma_fundamental_div_mod_converse(
                self@.len() - old_len,
                32,
                (self@.len() - old_len) / 32,
                0,
            );
            assert(added_words * added_words <= 0xffff_ffff_ffff_ffff * 0xffff_ffff_ffff_ffff)
                by (nonlinear_arith)
                requires
                    0 <= added_words <= 0xffff_ffff_ffff_ffff,
            ;
        }
        let cost: u128 = (added_words as u128) * (added_words as u128);
        let mut i: usize = 0;
        while i < values.len()
            invariant
                i <= values@.len(),
                offset + values@.len() <= self@.len(),
                self@.len() <= usize::MAX,
                self@.len() == grown_len(old_len as int, offset + values@.len() as int),
                self@.len() % 32 == 0,
                old_len == old(self)@.len(),
                forall|j: int|
                    0 <= j < self@.len() ==> self@[j] == (if offset <= j < offset + i {
                        values@[j - offset]
                    } else {
                        byte_after_growth(old(self)@, j)
                    }),
            decreases values@.len() - i,
        {
            self.memory.set(offset + i, values[i]);
            i = i + 1;
        }
        Ok(cost)
    }

    /// Returns the `size` bytes beginning at `offset`. A range the grown
    /// region already covers is read in place and the memory is unchanged; a
    /// range beyond it first grows the memory to cover it, with the same
    /// growth policy as `store`: bytes never stored read as zero. Fails with
    /// `MemoryOutOfRange` only when the range cannot exist on this machine;
    /// the memory is then unchanged.
    pub fn access(&mut self, offset: usize, size: usize) -> (r: Result<Vec<u8>, VmError>)
        requires
            old(self).wf(),
        ensures
            final(self).wf(),
            r is Ok <==> offset + size <= max_memory_len(),
            offset + size <= old(self)@.len() ==> final(self)@ == old(self)@,
            r is Err ==> r == Err::<Vec<u8>, VmError>(VmError::MemoryOutOfRange) && final(self)@ == old(
                self,
            )@,
            r is Ok ==> {
                &&& final(self)@.len() == read_len(old(self)@.len() as int, offset + size)
                &&& forall|i: int|
                    0 <= i < final(self)@.len() ==> final(self)@[i] == byte_after_growth(old(self)@, i)
                &&& match r {
                    Ok(bytes) => bytes@.len() == size && forall|i: int|
                        0 <= i < size ==> bytes@[i] == byte_after_growth(old(self)@, offset + i),
                    Err(_) => false,
                }
            },
    {
        let len = self.memory.len();
        if size <= len && offset <= len - size {
            proof {
                lemma_wf_len_within_limit(len as int);
            }
        } else {
            if offset > usize::MAX - 31 || size > (usize::MAX - 31) - offset {
                return Err(VmError::MemoryOutOfRange);
            }
            let end: usize = offset + size;
            self.grow_to_cover(end);
        }
        let mut out: Vec<u8> = Vec::new();
        let mut i: usize = 0;
        while i < size
            invariant
                i <= size,
                offset + size <= self@.len(),
                self@.len() <= usize::MAX,
                self@.len() == read_len(old(self)@.len() as int, offset + size),
                self@.len() % 32 == 0,
                forall|j: int|
                    0 <= j < self@.len() ==> self@[j] == byte_after_growth(old(self)@, j),
                out@.len() == i,
                forall|j: int| 0 <= j < i ==> out@[j] == byte_after_growth(old(self)@, offset + j),
            decreases size - i,
        {
            out.push(self.memory[offset + i]);
            i = i + 1;
        }
        Ok(out)
    }

    /// Returns the 32 bytes beginning at `offset`, reading in place or
    /// growing first, as `access` does.
    pub fn load(&mut self, offset: usize) -> (r: Result<Vec<u8>, VmError>)
        requires
            old(self).wf(),
        ensures
            final(self).wf(),
            r is Ok <==> offset + 32 <= max_memory_len(),
            offset + 32 <= old(self)@.len() ==> final(self)@ == old(self)@,
            r is Err ==> r == Err::<Vec<u8>, VmError>(VmError::MemoryOutOfRange) && final(self)@ == old(
                self,
            )@,
            r is Ok ==> {
                &&& final(self)@.len() == read_len(old(self)@.len() as int, offset + 32)
                &&& forall|i: int|
                    0 <= i < final(self)@.len() ==> final(self)@[i] == byte_after_growth(old(self)@, i)
                &&& match r {
                    Ok(bytes) => bytes@.len() == 32 && forall|i: int|
                        0 <= i < 32 ==> bytes@[i] == byte_after_growth(old(self)@, offset + i),
                    Err(_) => false,
                }
            },
    {
        self.access(offset, 32)
    }
}

} // verus!
