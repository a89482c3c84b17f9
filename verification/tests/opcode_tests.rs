use evm_core::errors::VmError;
use evm_core::state::EvmState;

fn fresh(gas: i128) -> EvmState {
    EvmState::new(String::from("alice"), String::from("demo"), gas, 0, 0)
}

fn push_all(evm: &mut EvmState, values: &[i32]) {
    for &v in values {
        assert_eq!(evm.stack.push(v), Ok(()));
    }
}

#[test]
fn add_pushes_sum_and_debits_three_gas() {
    let mut evm = fresh(100);
    push_all(&mut evm, &[2, 3]);
    evm_core::opcodes::add(&mut evm);
    assert_eq!(evm.stack.pop(), Ok(5));
    assert_eq!(evm.gas, 97);
    assert_eq!(evm.pc, 1);
    assert!(!evm.stop_flag && !evm.revert_flag);
}

#[test]
fn add_wraps_at_word_boundary() {
    let mut evm = fresh(10);
    push_all(&mut evm, &[1, i32::MAX]);
    evm_core::opcodes::add(&mut evm);
    assert_eq!(evm.stack.pop(), Ok(i32::MIN));
}

#[test]
fn sub_is_first_popped_minus_second() {
    let mut evm = fresh(10);
    push_all(&mut evm, &[2, 3]);
    evm_core::opcodes::sub(&mut evm);
    assert_eq!(evm.stack.pop(), Ok(1));
    assert_eq!(evm.gas, 7);
}

#[test]
fn mul_pushes_product_and_debits_five_gas() {
    let mut evm = fresh(10);
    push_all(&mut evm, &[4, 5]);
    evm_core::opcodes::mul(&mut evm);
    assert_eq!(evm.stack.pop(), Ok(20));
    assert_eq!(evm.gas, 5);
}

#[test]
fn div_by_zero_yields_zero_and_still_debits_five_gas() {
    let mut evm = fresh(100);
    push_all(&mut evm, &[0, 10]);
    evm_core::opcodes::div(&mut evm);
    assert_eq!(evm.stack.pop(), Ok(0));
    assert_eq!(evm.gas, 95);
    assert_eq!(evm.pc, 1);
    assert!(!evm.revert_flag);
}

#[test]
fn div_truncates_toward_zero() {
    let mut evm = fresh(10);
    push_all(&mut evm, &[2, -7]);
    evm_core::opcodes::div(&mut evm);
    assert_eq!(evm.stack.pop(), Ok(-3));
}

#[test]
fn div_of_min_by_minus_one_wraps() {
    let mut evm = fresh(10);
    push_all(&mut evm, &[-1, i32::MIN]);
    evm_core::opcodes::div(&mut evm);
    assert_eq!(evm.stack.pop(), Ok(i32::MIN));
}

#[test]
fn sdiv_divides_magnitudes_with_product_sign() {
    let mut evm = fresh(10);
    push_all(&mut evm, &[2, -7]);
    evm_core::opcodes::sdiv(&mut evm);
    assert_eq!(evm.stack.pop(), Ok(-3));
    assert_eq!(evm.gas, 5);
}

#[test]
fn sdiv_by_zero_yields_zero() {
    let mut evm = fresh(10);
    push_all(&mut evm, &[0, -7]);
    evm_core::opcodes::sdiv(&mut evm);
    assert_eq!(evm.stack.pop(), Ok(0));
}

#[test]
fn modulus_sign_follows_dividend() {
    let mut evm = fresh(20);
    push_all(&mut evm, &[2, -7]);
    evm_core::opcodes::modulus(&mut evm);
    assert_eq!(evm.stack.pop(), Ok(-1));
    push_all(&mut evm, &[-2, 7]);
    evm_core::opcodes::modulus(&mut evm);
    assert_eq!(evm.stack.pop(), Ok(1));
}

#[test]
fn modulus_by_zero_yields_zero() {
    let mut evm = fresh(10);
    push_all(&mut evm, &[0, 7]);
    evm_core::opcodes::modulus(&mut evm);
    assert_eq!(evm.stack.pop(), Ok(0));
    assert_eq!(evm.gas, 5);
}

#[test]
fn smodulus_sign_follows_product() {
    let mut evm = fresh(20);
    push_all(&mut evm, &[-2, 7]);
    evm_core::opcodes::smodulus(&mut evm);
    assert_eq!(evm.stack.pop(), Ok(-1));
    push_all(&mut evm, &[2, -7]);
    evm_core::opcodes::smodulus(&mut evm);
    assert_eq!(evm.stack.pop(), Ok(-1));
}

#[test]
fn smodulus_by_zero_yields_zero() {
    let mut evm = fresh(10);
    push_all(&mut evm, &[0, -7]);
    evm_core::opcodes::smodulus(&mut evm);
    assert_eq!(evm.stack.pop(), Ok(0));
}

#[test]
fn addmod_reduces_exact_sum_by_third_popped_modulus() {
    let mut evm = fresh(100);
    // pushed 8 first: the modulus is popped third
    push_all(&mut evm, &[8, 10, 10]);
    evm_core::opcodes::addmod(&mut evm);
    assert_eq!(evm.stack.pop(), Ok(4));
    assert_eq!(evm.gas, 92);
    assert_eq!(evm.pc, 1);
}

#[test]
fn addmod_sum_does_not_wrap_before_reduction() {
    let mut evm = fresh(10);
    push_all(&mut evm, &[10, 1, i32::MAX]);
    evm_core::opcodes::addmod(&mut evm);
    // the exact sum 2^31 leaves remainder 8 modulo 10
    assert_eq!(evm.stack.pop(), Ok(8));
}

#[test]
fn addmod_zero_modulus_yields_zero() {
    let mut evm = fresh(10);
    push_all(&mut evm, &[0, 10, 10]);
    evm_core::opcodes::addmod(&mut evm);
    assert_eq!(evm.stack.pop(), Ok(0));
    assert_eq!(evm.gas, 2);
}

#[test]
fn mulmod_reduces_exact_product() {
    let mut evm = fresh(100);
    push_all(&mut evm, &[8, 10, 10]);
    evm_core::opcodes::mulmod(&mut evm);
    assert_eq!(evm.stack.pop(), Ok(4));
    assert_eq!(evm.gas, 92);
}

#[test]
fn mulmod_product_does_not_wrap_before_reduction() {
    let mut evm = fresh(10);
    push_all(&mut evm, &[1000, 2, i32::MAX]);
    evm_core::opcodes::mulmod(&mut evm);
    // 2 * (2^31 - 1) = 4294967294, remainder 294 modulo 1000
    assert_eq!(evm.stack.pop(), Ok(294));
}

#[test]
fn exp_raises_to_the_exponent() {
    let mut evm = fresh(100);
    push_all(&mut evm, &[10, 2]);
    evm_core::opcodes::exp(&mut evm);
    assert_eq!(evm.stack.pop(), Ok(1024));
    // one exponent byte: 10 + 50
    assert_eq!(evm.gas, 40);
    assert_eq!(evm.pc, 1);
}

#[test]
fn exp_gas_grows_with_exponent_width() {
    let mut evm = fresh(200);
    push_all(&mut evm, &[300, 1]);
    evm_core::opcodes::exp(&mut evm);
    assert_eq!(evm.stack.pop(), Ok(1));
    // two exponent bytes: 10 + 100
    assert_eq!(evm.gas, 90);
}

#[test]
fn exp_negative_exponent_uses_magnitude() {
    let mut evm = fresh(100);
    push_all(&mut evm, &[-3, 2]);
    evm_core::opcodes::exp(&mut evm);
    assert_eq!(evm.stack.pop(), Ok(8));
    assert_eq!(evm.gas, 40);
}

#[test]
fn exp_wraps_in_the_word() {
    let mut evm = fresh(100);
    push_all(&mut evm, &[32, 2]);
    evm_core::opcodes::exp(&mut evm);
    // 2^32 wraps to zero in a 32-bit word
    assert_eq!(evm.stack.pop(), Ok(0));
}

#[test]
fn size_in_bytes_counts_magnitude_bytes() {
    assert_eq!(evm_core::opcodes::size_in_bytes(0), 1);
    assert_eq!(evm_core::opcodes::size_in_bytes(255), 1);
    assert_eq!(evm_core::opcodes::size_in_bytes(256), 2);
    assert_eq!(evm_core::opcodes::size_in_bytes(-256), 2);
    assert_eq!(evm_core::opcodes::size_in_bytes(65535), 2);
    assert_eq!(evm_core::opcodes::size_in_bytes(65536), 3);
    assert_eq!(evm_core::opcodes::size_in_bytes(16777215), 3);
    assert_eq!(evm_core::opcodes::size_in_bytes(16777216), 4);
    assert_eq!(evm_core::opcodes::size_in_bytes(i32::MIN), 4);
}

#[test]
fn signextend_selector_zero_extends_sign_byte() {
    let mut evm = fresh(100);
    push_all(&mut evm, &[0xFF, 0]);
    evm_core::opcodes::signextend(&mut evm);
    // byte 0xFF extends to the all-ones word
    assert_eq!(evm.stack.pop(), Ok(-1));
    assert_eq!(evm.gas, 95);
    assert_eq!(evm.pc, 1);
}

#[test]
fn signextend_keeps_positive_low_byte() {
    let mut evm = fresh(10);
    push_all(&mut evm, &[0x17F, 0]);
    evm_core::opcodes::signextend(&mut evm);
    assert_eq!(evm.stack.pop(), Ok(0x7F));
}

#[test]
fn signextend_two_byte_selector() {
    let mut evm = fresh(10);
    push_all(&mut evm, &[0x8000, 1]);
    evm_core::opcodes::signextend(&mut evm);
    assert_eq!(evm.stack.pop(), Ok(-32768));
}

#[test]
fn signextend_selector_31_is_identity() {
    for value in [0, 1, -1, 123456, i32::MIN, i32::MAX] {
        let mut evm = fresh(10);
        push_all(&mut evm, &[value, 31]);
        evm_core::opcodes::signextend(&mut evm);
        assert_eq!(evm.stack.pop(), Ok(value));
        assert_eq!(evm.gas, 5);
    }
}

#[test]
fn stop_raises_the_stop_flag_only() {
    let mut evm = fresh(50);
    evm_core::opcodes::stop(&mut evm);
    assert!(evm.stop_flag);
    assert!(!evm.revert_flag);
    assert_eq!(evm.pc, 0);
    assert_eq!(evm.gas, 50);
}

#[test]
fn handler_underflow_reverts_without_touching_pc_or_gas() {
    let mut evm = fresh(100);
    assert_eq!(evm.stack.push(1), Ok(()));
    evm_core::opcodes::add(&mut evm);
    assert!(evm.revert_flag);
    assert!(!evm.stop_flag);
    assert_eq!(evm.pc, 0);
    assert_eq!(evm.gas, 100);
    // the one operand is still on the stack
    assert_eq!(evm.stack.pop(), Ok(1));
}

#[test]
fn ternary_underflow_reverts_and_restores_operands() {
    let mut evm = fresh(100);
    push_all(&mut evm, &[4, 9]);
    evm_core::opcodes::addmod(&mut evm);
    assert!(evm.revert_flag);
    assert_eq!(evm.gas, 100);
    assert_eq!(evm.stack.pop(), Ok(9));
    assert_eq!(evm.stack.pop(), Ok(4));
}

#[test]
fn halted_state_is_never_mutated() {
    let mut evm = fresh(100);
    push_all(&mut evm, &[2, 3]);
    evm_core::opcodes::stop(&mut evm);
    evm_core::opcodes::add(&mut evm);
    assert_eq!(evm.gas, 100);
    assert_eq!(evm.pc, 0);
    assert_eq!(evm.stack.pop(), Ok(3));
    assert_eq!(evm.stack.pop(), Ok(2));
    assert_eq!(evm.stack.pop(), Err(VmError::StackUnderflow));
}

#[test]
fn gas_dec_debits_and_saturates() {
    let mut evm = fresh(10);
    evm.gas_dec(3);
    assert_eq!(evm.gas, 7);
    evm.gas_dec(17);
    assert_eq!(evm.gas, -10);
    evm.gas_dec(-10);
    assert_eq!(evm.gas, 0);
    let mut poor = fresh(i128::MIN + 1);
    poor.gas_dec(5);
    assert_eq!(poor.gas, i128::MIN);
}

#[test]
fn new_state_carries_its_context() {
    let evm = fresh(42);
    assert_eq!(evm.sender, "alice");
    assert_eq!(evm.program, "demo");
    assert_eq!(evm.gas, 42);
    assert_eq!(evm.value, 0);
    assert_eq!(evm.calldata, 0);
    assert!(!evm.stop_flag && !evm.revert_flag);
    assert!(evm.return_data.is_empty());
    assert!(evm.logs.is_empty());
}
