use vstd::prelude::*;

use vstd::arithmetic::power::pow;

use crate::stack::MAXIMUM_STACK_SIZE;
use crate::state::{gas_debit, reverted_only, stopped_only, untouched_context, EvmState};
use crate::word::{
    int_abs, lemma_wrap_in_range, lemma_wrap_mul_left, lemma_wrapping_add_is_wrap,
    lemma_wrapping_sub_is_wrap, product_sign, trunc_div, trunc_rem, wrap_word, Word, WORD_BYTES,
};

verus! {

/// The word popped first by a handler: the top of the stack.
pub open spec fn first_popped(s: EvmState) -> Word {
    s.stack@[s.stack@.len() - 1]
}

/// The word popped second.
pub open spec fn second_popped(s: EvmState) -> Word {
    s.stack@[s.stack@.len() - 2]
}

/// The word popped third.
pub open spec fn third_popped(s: EvmState) -> Word {
    s.stack@[s.stack@.len() - 3]
}

/// The whole effect of a handler that popped two operands and succeeded:
/// the operands are replaced by `result`, the program counter advances by
/// one, `cost` gas is debited, and nothing else changes.
pub open spec fn binary_step(pre: EvmState, post: EvmState, result: Word, cost: int) -> bool {
    &&& post.stack@ == pre.stack@.take(pre.stack@.len() - 2).push(result)
    &&& post.pc == pre.pc + 1
    &&& post.gas == gas_debit(pre.gas, cost)
    &&& post.stop_flag == pre.stop_flag
    &&& post.revert_flag == pre.revert_flag
    &&& untouched_context(pre, post)
}

/// The whole effect of a handler that popped three operands and succeeded.
pub open spec fn ternary_step(pre: EvmState, post: EvmState, result: Word, cost: int) -> bool {
    &&& post.stack@ == pre.stack@.take(pre.stack@.len() - 3).push(result)
    &&& post.pc == pre.pc + 1
    &&& post.gas == gas_debit(pre.gas, cost)
    &&& post.stop_flag == pre.stop_flag
    &&& post.revert_flag == pre.revert_flag
    &&& untouched_context(pre, post)
}

/// Pops the two operands of a binary handler. When fewer than two words are
/// on the stack, the handler cannot complete: the stack is left as it was and
/// the state transitions to reverted.
fn pop_two(evm: &mut EvmState) -> (r: Option<(Word, Word)>)
    requires
        old(evm).wf(),
        !old(evm).halted(),
    ensures
        final(evm).wf(),
        match r {
            Some(ab) => {
                &&& old(evm).stack@.len() >= 2
                &&& ab.0 == first_popped(*old(evm))
                &&& ab.1 == second_popped(*old(evm))
                &&& final(evm).stack@ == old(evm).stack@.take(old(evm).stack@.len() - 2)
                &&& final(evm).pc == old(evm).pc
                &&& final(evm).gas == old(evm).gas
                &&& final(evm).stop_flag == old(evm).stop_flag
                &&& final(evm).revert_flag == old(evm).revert_flag
                &&& untouched_context(*old(evm), *final(evm))
            },
            None => old(evm).stack@.len() < 2 && reverted_only(*old(evm), *final(evm)),
        },
{
    let a = match evm.stack.pop() {
        Ok(v) => v,
        Err(_) => {
            evm.revert_flag = true;
            return None;
        },
    };
    let b = match evm.stack.pop() {
        Ok(v) => v,
        Err(_) => {
            let _restore = evm.stack.push(a);
            proof {
                assert(evm.stack@ =~= old(evm).stack@);
            }
            evm.revert_flag = true;
            return None;
        },
    };
    proof {
        assert(evm.stack@ =~= old(evm).stack@.take(old(evm).stack@.len() - 2));
    }
    Some((a, b))
}

/// Pops the three operands of a ternary handler, with the same failure
/// behaviour as `pop_two`.
fn pop_three(evm: &mut EvmState) -> (r: Option<(Word, Word, Word)>)
    requires
        old(evm).wf(),
        !old(evm).halted(),
    ensures
        final(evm).wf(),
        match r {
            Some(abn) => {
                &&& old(evm).stack@.len() >= 3
                &&& abn.0 == first_popped(*old(evm))
                &&& abn.1 == second_popped(*old(evm))
                &&& abn.2 == third_popped(*old(evm))
                &&& final(evm).stack@ == old(evm).stack@.take(old(evm).stack@.len() - 3)
                &&& final(evm).pc == old(evm).pc
                &&& final(evm).gas == old(evm).gas
                &&& final(evm).stop_flag == old(evm).stop_flag
                &&& final(evm).revert_flag == old(evm).revert_flag
                &&& untouched_context(*old(evm), *final(evm))
            },
            None => old(evm).stack@.len() < 3 && reverted_only(*old(evm), *final(evm)),
        },
{
    let a = match evm.stack.pop() {
        Ok(v) => v,
        Err(_) => {
            evm.revert_flag = true;
            return None;
        },
    };
    let b = match evm.stack.pop() {
        Ok(v) => v,
        Err(_) => {
            let _restore = evm.stack.push(a);
            proof {
                assert(evm.stack@ =~= old(evm).stack@);
            }
            evm.revert_flag = true;
            return None;
        },
    };
    let n = match evm.stack.pop() {
        Ok(v) => v,
        Err(_) => {
            let _restore_b = evm.stack.push(b);
            let _restore_a = evm.stack.push(a);
            proof {
                assert(evm.stack@ =~= old(evm).stack@);
            }
            evm.revert_flag = true;
            return None;
        },
    };
    proof {
        assert(evm.stack@ =~= old(evm).stack@.take(old(evm).stack@.len() - 3));
    }
    Some((a, b, n))
}

/// Pushes the result of a successful handler, advances the program counter
/// and debits the gas cost.
fn finish_op(evm: &mut EvmState, result: Word, cost: i128)
    requires
        old(evm).wf(),
        old(evm).stack@.len() < MAXIMUM_STACK_SIZE,
        old(evm).pc < i32::MAX,
    ensures
        final(evm).wf(),
        final(evm).stack@ == old(evm).stack@.push(result),
        final(evm).pc == old(evm).pc + 1,
        final(evm).gas == gas_debit(old(evm).gas, cost as int),
        final(evm).stop_flag == old(evm).stop_flag,
        final(evm).revert_flag == old(evm).revert_flag,
        untouched_context(*old(evm), *final(evm)),
{
    let _pushed = evm.stack.push(result);
    evm.pc = evm.pc + 1;
    evm.gas_dec(cost);
}

/// `STOP`: raises the stop flag. No program-counter advance, no gas.
pub fn stop(evm: &mut EvmState)
    ensures
        old(evm).halted() ==> *final(evm) == *old(evm),
        !old(evm).halted() ==> stopped_only(*old(evm), *final(evm)),
{
    if evm.stop_flag || evm.revert_flag {
        return ;
    }
    evm.stop_flag = true;
}

/// What `ADD` pushes: the wrapped sum of the two popped operands.
pub open spec fn add_result(a: Word, b: Word) -> Word {
    wrap_word(a + b)
}

/// What `SUB` pushes: the wrapped difference, first popped minus second.
pub open spec fn sub_result(a: Word, b: Word) -> Word {
    wrap_word(a - b)
}

/// What `MUL` pushes: the wrapped product.
pub open spec fn mul_result(a: Word, b: Word) -> Word {
    wrap_word(a * b)
}

/// `ADD`: pops `a` then `b`, pushes the wrapped sum `a + b`, advances the
/// program counter by one and debits 3 gas. On a halted state it does
/// nothing; on underflow it only raises the revert flag.
pub fn add(evm: &mut EvmState)
    requires
        old(evm).wf(),
        old(evm).pc < i32::MAX,
    ensures
        final(evm).wf(),
        old(evm).halted() ==> *final(evm) == *old(evm),
        !old(evm).halted() && old(evm).stack@.len() < 2 ==> reverted_only(
            *old(evm),
            *final(evm),
        ),
        !old(evm).halted() && old(evm).stack@.len() >= 2 ==> binary_step(
            *old(evm),
            *final(evm),
            add_result(first_popped(*old(evm)), second_popped(*old(evm))),
            3,
        ),
{
    if evm.stop_flag || evm.revert_flag {
        return ;
    }
    let (a, b) = match pop_two(evm) {
        Some(ab) => ab,
        None => {
            return ;
        },
    };
    let result = a.wrapping_add(b);
    proof {
        lemma_wrapping_add_is_wrap(a, b);
    }
    finish_op(evm, result, 3);
}

/// `SUB`: pops `a` then `b`, pushes the wrapped difference `a - b`, advances
/// the program counter by one and debits 3 gas.
pub fn sub(evm: &mut EvmState)
    requires
        old(evm).wf(),
        old(evm).pc < i32::MAX,
    ensures
        final(evm).wf(),
        old(evm).halted() ==> *final(evm) == *old(evm),
        !old(evm).halted() && old(evm).stack@.len() < 2 ==> reverted_only(
            *old(evm),
            *final(evm),
        ),
        !old(evm).halted() && old(evm).stack@.len() >= 2 ==> binary_step(
            *old(evm),
            *final(evm),
            sub_result(first_popped(*old(evm)), second_popped(*old(evm))),
            3,
        ),
{
    if evm.stop_flag || evm.revert_flag {
        return ;
    }
    let (a, b) = match pop_two(evm) {
        Some(ab) => ab,
        None => {
            return ;
        },
    };
    let result = a.wrapping_sub(b);
    proof {
        lemma_wrapping_sub_is_wrap(a, b);
    }
    finish_op(evm, result, 3);
}

/// `MUL`: pops `a` then `b`, pushes the wrapped product `a * b`, advances the
/// program counter by one and debits 5 gas.
pub fn mul(evm: &mut EvmState)
    requires
        old(evm).wf(),
        old(evm).pc < i32::MAX,
    ensures
        final(evm).wf(),
        old(evm).halted() ==> *final(evm) == *old(evm),
        !old(evm).halted() && old(evm).stack@.len() < 2 ==> reverted_only(
            *old(evm),
            *final(evm),
        ),
        !old(evm).halted() && old(evm).stack@.len() >= 2 ==> binary_step(
            *old(evm),
            *final(evm),
            mul_result(first_popped(*old(evm)), second_popped(*old(evm))),
            5,
        ),
{
    if evm.stop_flag || evm.revert_flag {
        return ;
    }
    let (a, b) = match pop_two(evm) {
        Some(ab) => ab,
        None => {
            return ;
        },
    };
    let result = a.wrapping_mul(b);
    finish_op(evm, result, 5);
}

/// Division truncated toward zero on wide intermediates. Private: the
/// quotient of any two words fits an `i64` exactly.
fn trunc_div_i64(x: i64, d: i64) -> (r: i64)
    requires
        d != 0,
        x != i64::MIN,
    ensures
        r == trunc_div(x as int, d as int),
        int_abs(r as int) <= int_abs(x as int),
{
    proof {
        let xi = x as int;
        let di = d as int;
        vstd::arithmetic::div_mod::lemma_div_nonincreasing(int_abs(xi), int_abs(di));
        vstd::arithmetic::div_mod::lemma_div_pos_is_pos(int_abs(xi), int_abs(di));
        if xi < 0 {
            assert(int_abs(xi) == xi * -1);
        }
        if di < 0 {
            assert(int_abs(di) == di * -1);
        }
        if xi < 0 && di > 0 {
            assert(product_sign(xi, di) == -1);
            assert(trunc_div(xi, di) == -1 * (int_abs(xi) / int_abs(di)));
            assert(int_abs(xi) / int_abs(di) == (xi * -1) / di);
            assert(-1 * ((xi * -1) / di) == ((xi * -1) / di) * -1);
        } else if xi > 0 && di < 0 {
            assert(product_sign(xi, di) == -1);
            assert(trunc_div(xi, di) == -1 * (int_abs(xi) / int_abs(di)));
            assert(int_abs(xi) / int_abs(di) == xi / (di * -1));
            assert(-1 * (xi / (di * -1)) == (xi / (di * -1)) * -1);
        }
    }
    match x.checked_div(d) {
        Some(v) => v,
        None => 0,
    }
}

/// Remainder truncated toward zero on wide intermediates. Private: the
/// remainder of any two words fits an `i64` exactly.
fn trunc_rem_i64(x: i64, d: i64) -> (r: i64)
    requires
        d != 0,
        x != i64::MIN,
    ensures
        r == trunc_rem(x as int, d as int),
        int_abs(r as int) < int_abs(d as int),
{
    proof {
        let xi = x as int;
        let di = d as int;
        vstd::arithmetic::div_mod::lemma_mod_division_less_than_divisor(int_abs(xi), int_abs(di));
        if xi == 0 {
            vstd::arithmetic::div_mod::lemma_small_mod(0nat, int_abs(di) as nat);
        }
        if xi < 0 {
            assert(int_abs(xi) == xi * -1);
        }
        if di < 0 {
            assert(int_abs(di) == di * -1);
        }
    }
    match x.checked_rem(d) {
        Some(v) => v,
        None => 0,
    }
}

/// Wraps a quotient or remainder that is within one word of the range back
/// into a word. Private: only `i32::MIN / -1` ever lands outside.
fn crop_to_word(v: i64) -> (r: Word)
    requires
        -0x8000_0000i64 <= v <= 0x8000_0000i64,
    ensures
        r == wrap_word(v as int),
{
    if v > 0x7fff_ffffi64 {
        proof {
            vstd::arithmetic::div_mod::lemma_small_mod(0x8000_0000nat, 0x1_0000_0000nat);
        }
        i32::MIN
    } else {
        proof {
            lemma_wrap_in_range(v as int);
        }
        v as i32
    }
}

/// What `DIV` pushes: the truncated quotient, or zero on a zero divisor — no
/// trap. The one quotient outside the word range (`i32::MIN / -1`) wraps.
pub open spec fn div_result(a: Word, b: Word) -> Word {
    if b == 0 {
        0
    } else {
        wrap_word(trunc_div(a as int, b as int))
    }
}

/// What `SDIV` pushes: signed division by magnitude, `sign(a * b)` times
/// `|a| / |b|`, or zero on a zero divisor. On words this is the truncated
/// quotient, wrapped like `DIV`.
pub open spec fn sdiv_result(a: Word, b: Word) -> Word {
    if b == 0 {
        0
    } else {
        wrap_word(product_sign(a as int, b as int) * (int_abs(a as int) / int_abs(b as int)))
    }
}

/// What `MOD` pushes: the truncated remainder, whose sign follows the
/// dividend, or zero on a zero modulus.
pub open spec fn mod_result(a: Word, b: Word) -> Word {
    if b == 0 {
        0
    } else {
        wrap_word(trunc_rem(a as int, b as int))
    }
}

/// What `SMOD` pushes: `sign(a * b)` times `|a| mod |b|`, or zero on a zero
/// modulus.
pub open spec fn smod_result(a: Word, b: Word) -> Word {
    if b == 0 {
        0
    } else {
        wrap_word(product_sign(a as int, b as int) * (int_abs(a as int) % int_abs(b as int)))
    }
}

/// `DIV`: pops `a` then `b`, pushes `a / b` truncated toward zero (zero when
/// `b` is zero, with no arithmetic fault), advances the program counter by
/// one and debits 5 gas.
pub fn div(evm: &mut EvmState)
    requires
        old(evm).wf(),
        old(evm).pc < i32::MAX,
    ensures
        final(evm).wf(),
        old(evm).halted() ==> *final(evm) == *old(evm),
        !old(evm).halted() && old(evm).stack@.len() < 2 ==> reverted_only(
            *old(evm),
            *final(evm),
        ),
        !old(evm).halted() && old(evm).stack@.len() >= 2 ==> binary_step(
            *old(evm),
            *final(evm),
            div_result(first_popped(*old(evm)), second_popped(*old(evm))),
            5,
        ),
{
    if evm.stop_flag || evm.revert_flag {
        return ;
    }
    let (a, b) = match pop_two(evm) {
        Some(ab) => ab,
        None => {
            return ;
        },
    };
    let result = if b == 0 {
        0
    } else {
        crop_to_word(trunc_div_i64(a as i64, b as i64))
    };
    finish_op(evm, result, 5);
}

/// `SDIV`: pops `a` then `b`, pushes signed division by magnitude —
/// `sign(a * b)` times `|a| / |b|`, zero when `b` is zero — advances the
/// program counter by one and debits 5 gas.
pub fn sdiv(evm: &mut EvmState)
    requires
        old(evm).wf(),
        old(evm).pc < i32::MAX,
    ensures
        final(evm).wf(),
        old(evm).halted() ==> *final(evm) == *old(evm),
        !old(evm).halted() && old(evm).stack@.len() < 2 ==> reverted_only(
            *old(evm),
            *final(evm),
        ),
        !old(evm).halted() && old(evm).stack@.len() >= 2 ==> binary_step(
            *old(evm),
            *final(evm),
            sdiv_result(first_popped(*old(evm)), second_popped(*old(evm))),
            5,
        ),
{
    if evm.stop_flag || evm.revert_flag {
        return ;
    }
    let (a, b) = match pop_two(evm) {
        Some(ab) => ab,
        None => {
            return ;
        },
    };
    let result = if b == 0 {
        0
    } else {
        crop_to_word(trunc_div_i64(a as i64, b as i64))
    };
    finish_op(evm, result, 5);
}

/// `MOD`: pops `a` then `b`, pushes the truncated remainder `a mod b` (zero
/// when the modulus is zero, by domain convention), advances the program
/// counter by one and debits 5 gas.
pub fn modulus(evm: &mut EvmState)
    requires
        old(evm).wf(),
        old(evm).pc < i32::MAX,
    ensures
        final(evm).wf(),
        old(evm).halted() ==> *final(evm) == *old(evm),
        !old(evm).halted() && old(evm).stack@.len() < 2 ==> reverted_only(
            *old(evm),
            *final(evm),
        ),
        !old(evm).halted() && old(evm).stack@.len() >= 2 ==> binary_step(
            *old(evm),
            *final(evm),
            mod_result(first_popped(*old(evm)), second_popped(*old(evm))),
            5,
        ),
{
    if evm.stop_flag || evm.revert_flag {
        return ;
    }
    let (a, b) = match pop_two(evm) {
        Some(ab) => ab,
        None => {
            return ;
        },
    };
    let result = if b == 0 {
        0
    } else {
        crop_to_word(trunc_rem_i64(a as i64, b as i64))
    };
    finish_op(evm, result, 5);
}

/// `SMOD`: pops `a` then `b`, pushes `sign(a * b)` times `|a| mod |b|` (zero
/// when the modulus is zero), advances the program counter by one and debits
/// 5 gas.
pub fn smodulus(evm: &mut EvmState)
    requires
        old(evm).wf(),
        old(evm).pc < i32::MAX,
    ensures
        final(evm).wf(),
        old(evm).halted() ==> *final(evm) == *old(evm),
        !old(evm).halted() && old(evm).stack@.len() < 2 ==> reverted_only(
            *old(evm),
            *final(evm),
        ),
        !old(evm).halted() && old(evm).stack@.len() >= 2 ==> binary_step(
            *old(evm),
            *final(evm),
            smod_result(first_popped(*old(evm)), second_popped(*old(evm))),
            5,
        ),
{
    if evm.stop_flag || evm.revert_flag {
        return ;
    }
    let (a, b) = match pop_two(evm) {
        Some(ab) => ab,
        None => {
            return ;
        },
    };
    let result = if b == 0 {
        0
    } else {
        let magnitude = trunc_rem_i64(if a >= 0 {
            a as i64
        } else {
            -(a as i64)
        }, if b >= 0 {
            b as i64
        } else {
            -(b as i64)
        });
        let signed = if a == 0 || ((a < 0) == (b < 0)) {
            magnitude
        } else {
            -magnitude
        };
        proof {
            if a == 0 {
                vstd::arithmetic::div_mod::lemma_small_mod(0nat, int_abs(b as int) as nat);
            }
            lemma_wrap_in_range(signed as int);
        }
        signed as i32
    };
    finish_op(evm, result, 5);
}

/// What `ADDMOD` pushes: the exact sum `a + b` reduced by the third-popped
/// modulus `n`, truncated-remainder style, or zero on a zero modulus.
pub open spec fn addmod_result(a: Word, b: Word, n: Word) -> Word {
    if n == 0 {
        0
    } else {
        wrap_word(trunc_rem(a + b, n as int))
    }
}

/// What `MULMOD` pushes: the exact product `a * b` reduced by the
/// third-popped modulus `n`, or zero on a zero modulus.
pub open spec fn mulmod_result(a: Word, b: Word, n: Word) -> Word {
    if n == 0 {
        0
    } else {
        wrap_word(trunc_rem(a * b, n as int))
    }
}

/// `ADDMOD`: pops `a`, `b`, then the modulus `n`, pushes `(a + b) mod n` over
/// the exact sum, advances the program counter by one and debits 8 gas.
pub fn addmod(evm: &mut EvmState)
    requires
        old(evm).wf(),
        old(evm).pc < i32::MAX,
    ensures
        final(evm).wf(),
        old(evm).halted() ==> *final(evm) == *old(evm),
        !old(evm).halted() && old(evm).stack@.len() < 3 ==> reverted_only(
            *old(evm),
            *final(evm),
        ),
        !old(evm).halted() && old(evm).stack@.len() >= 3 ==> ternary_step(
            *old(evm),
            *final(evm),
            addmod_result(
                first_popped(*old(evm)),
                second_popped(*old(evm)),
                third_popped(*old(evm)),
            ),
            8,
        ),
{
    if evm.stop_flag || evm.revert_flag {
        return ;
    }
    let (a, b, n) = match pop_three(evm) {
        Some(abn) => abn,
        None => {
            return ;
        },
    };
    let result = if n == 0 {
        0
    } else {
        crop_to_word(trunc_rem_i64((a as i64) + (b as i64), n as i64))
    };
    finish_op(evm, result, 8);
}

/// `MULMOD`: pops `a`, `b`, then the modulus `n`, pushes `(a * b) mod n` over
/// the exact product, advances the program counter by one and debits 8 gas.
pub fn mulmod(evm: &mut EvmState)
    requires
        old(evm).wf(),
        old(evm).pc < i32::MAX,
    ensures
        final(evm).wf(),
        old(evm).halted() ==> *final(evm) == *old(evm),
        !old(evm).halted() && old(evm).stack@.len() < 3 ==> reverted_only(
            *old(evm),
            *final(evm),
        ),
        !old(evm).halted() && old(evm).stack@.len() >= 3 ==> ternary_step(
            *old(evm),
            *final(evm),
            mulmod_result(
                first_popped(*old(evm)),
                second_popped(*old(evm)),
                third_popped(*old(evm)),
            ),
            8,
        ),
{
    if evm.stop_flag || evm.revert_flag {
        return ;
    }
    let (a, b, n) = match pop_three(evm) {
        Some(abn) => abn,
        None => {
            return ;
        },
    };
    let result = if n == 0 {
        0
    } else {
        proof {
            assert(-0x4000_0000_0000_0000 <= (a as int) * (b as int) <= 0x4000_0000_0000_0000)
                by (nonlinear_arith)
                requires
                    -0x8000_0000 <= a as int <= 0x7fff_ffff,
                    -0x8000_0000 <= b as int <= 0x7fff_ffff,
            ;
        }
        crop_to_word(trunc_rem_i64((a as i64) * (b as i64), n as i64))
    };
    finish_op(evm, result, 8);
}

/// Bytes needed to write the magnitude of `num`: one for zero, else one per
/// started factor of 256 — the byte length of `|num|`.
pub open spec fn size_in_bytes_spec(num: int) -> int {
    if int_abs(num) < 0x100 {
        1
    } else if int_abs(num) < 0x1_0000 {
        2
    } else if int_abs(num) < 0x100_0000 {
        3
    } else {
        4
    }
}

/// Gas cost of `EXP`: 10, plus 50 per byte of the second-popped operand's
/// magnitude.
pub open spec fn exp_gas(b: Word) -> int {
    10 + 50 * size_in_bytes_spec(b as int)
}

/// What `EXP` pushes: the wrapped power of `a` to the magnitude of `b`. A
/// negative exponent is taken by its magnitude, the same quantity the cost
/// formula meters.
pub open spec fn exp_result(a: Word, b: Word) -> Word {
    wrap_word(pow(a as int, int_abs(b as int) as nat))
}

/// Bytes needed to represent the magnitude of `num`.
pub fn size_in_bytes(num: Word) -> (r: i32)
    ensures
        r == size_in_bytes_spec(num as int),
        1 <= r <= 4,
{
    let mag: i64 = if num >= 0 {
        num as i64
    } else {
        -(num as i64)
    };
    if mag < 0x100 {
        1
    } else if mag < 0x1_0000 {
        2
    } else if mag < 0x100_0000 {
        3
    } else {
        4
    }
}

/// `EXP`: pops `a` then `b`, pushes `a` raised to the magnitude of `b` with
/// wrapping multiplication, advances the program counter by one and debits
/// `10 + 50 * size_in_bytes(b)` gas.
pub fn exp(evm: &mut EvmState)
    requires
        old(evm).wf(),
        old(evm).pc < i32::MAX,
    ensures
        final(evm).wf(),
        old(evm).halted() ==> *final(evm) == *old(evm),
        !old(evm).halted() && old(evm).stack@.len() < 2 ==> reverted_only(
            *old(evm),
            *final(evm),
        ),
        !old(evm).halted() && old(evm).stack@.len() >= 2 ==> binary_step(
            *old(evm),
            *final(evm),
            exp_result(first_popped(*old(evm)), second_popped(*old(evm))),
            exp_gas(second_popped(*old(evm))),
        ),
{
    if evm.stop_flag || evm.revert_flag {
        return ;
    }
    let (a, b) = match pop_two(evm) {
        Some(ab) => ab,
        None => {
            return ;
        },
    };
    let e: u32 = if b >= 0 {
        b as u32
    } else if b == i32::MIN {
        0x8000_0000u32
    } else {
        (-b) as u32
    };
    let mut acc: Word = 1;
    let mut j: u32 = 0;
    proof {
        vstd::arithmetic::power::lemma_pow0(a as int);
        lemma_wrap_in_range(1);
    }
    while j < e
        invariant
            j <= e,
            acc == wrap_word(pow(a as int, j as nat)),
        decreases e - j,
    {
        proof {
            vstd::arithmetic::power::lemma_pow_adds(a as int, j as nat, 1nat);
            vstd::arithmetic::power::lemma_pow1(a as int);
            lemma_wrap_mul_left(pow(a as int, j as nat), a as int);
        }
        acc = acc.wrapping_mul(a);
        j = j + 1;
    }
    let size = size_in_bytes(b);
    let cost: i128 = 10 + 50 * (size as i128);
    finish_op(evm, acc, cost);
}

/// The unsigned bit pattern of a word.
pub open spec fn to_bits(b: Word) -> u32 {
    if b >= 0 {
        b as u32
    } else {
        (b + 0x1_0000_0000) as u32
    }
}

/// The word whose unsigned bit pattern is `u`.
pub open spec fn from_bits(u: u32) -> Word {
    if u <= 0x7fff_ffff {
        u as i32
    } else {
        (u - 0x1_0000_0000) as i32
    }
}

/// The bit pattern with the low `a + 1` bytes of `ub` sign-extended to the
/// full word: bit `a * 8 + 7` is copied into every higher bit.
pub open spec fn sign_extend_bits(a: u32, ub: u32) -> u32
    recommends
        a < 3,
{
    let sbit = 1u32 << (a * 8 + 7);
    let lowmask = ((sbit << 1) - 1) as u32;
    if ub & sbit != 0 {
        ub | !lowmask
    } else {
        ub & lowmask
    }
}

/// What `SIGNEXTEND` pushes: for a selector `a` naming a byte below the top
/// one, the low `a + 1` bytes of `b` sign-extended to the full word; for any
/// other selector, `b` unchanged — the sign bit it names is the word's own
/// sign bit or beyond it.
pub open spec fn signextend_result(a: Word, b: Word) -> Word {
    if 0 <= a && a < WORD_BYTES - 1 {
        from_bits(sign_extend_bits(a as u32, to_bits(b)))
    } else {
        b
    }
}

/// A selector at or past the top byte of the word leaves any operand
/// unchanged.
pub proof fn lemma_signextend_high_selector(a: Word, b: Word)
    requires
        a < 0 || a >= WORD_BYTES - 1,
    ensures
        signextend_result(a, b) == b,
{
}

/// `SIGNEXTEND`: pops the selector `a` then the operand `b`, pushes `b` with
/// its low `a + 1` bytes sign-extended to the full word (or `b` itself when
/// `a` does not name a byte below the top one), advances the program counter
/// by one and debits 5 gas.
pub fn signextend(evm: &mut EvmState)
    requires
        old(evm).wf(),
        old(evm).pc < i32::MAX,
    ensures
        final(evm).wf(),
        old(evm).halted() ==> *final(evm) == *old(evm),
        !old(evm).halted() && old(evm).stack@.len() < 2 ==> reverted_only(
            *old(evm),
            *final(evm),
        ),
        !old(evm).halted() && old(evm).stack@.len() >= 2 ==> binary_step(
            *old(evm),
            *final(evm),
            signextend_result(first_popped(*old(evm)), second_popped(*old(evm))),
            5,
        ),
        !old(evm).halted() && old(evm).stack@.len() >= 2 && (first_popped(*old(evm)) < 0
            || first_popped(*old(evm)) >= WORD_BYTES - 1) ==> final(evm).stack@.last()
            == second_popped(*old(evm)),
{
    if evm.stop_flag || evm.revert_flag {
        return ;
    }
    let (a, b) = match pop_two(evm) {
        Some(ab) => ab,
        None => {
            return ;
        },
    };
    proof {
        if a < 0 || a >= WORD_BYTES - 1 {
            lemma_signextend_high_selector(a, b);
        }
    }
    let result: Word = if a >= 0 && a < WORD_BYTES - 1 {
        let au = a as u32;
        let ub: u32 = if b >= 0 {
            b as u32
        } else {
            ((b as i64) + 0x1_0000_0000i64) as u32
        };
        proof {
            assert(1u32 << (au * 8 + 7) >= 1 && 1u32 << (au * 8 + 7) <= 0x80_0000u32 && ((1u32
                << (au * 8 + 7)) << 1) >= 2) by (bit_vector)
                requires
                    au < 3,
            ;
        }
        let sbit: u32 = 1u32 << (au * 8 + 7);
        let lowmask: u32 = (sbit << 1) - 1;
        let r: u32 = if ub & sbit != 0 {
            ub | !lowmask
        } else {
            ub & lowmask
        };
        if r <= 0x7fff_ffffu32 {
            r as i32
        } else {
            ((r as i64) - 0x1_0000_0000i64) as i32
        }
    } else {
        b
    };
    finish_op(evm, result, 5);
}

} // verus!
