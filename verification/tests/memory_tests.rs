use evm_core::errors::VmError;
use evm_core::memory::Memory;

#[test]
fn store_on_empty_grows_to_32_and_zero_fills() {
    let mut memory = Memory::new();
    let cost = memory.store(0, vec![0x01, 0x02, 0x03, 0x04]).unwrap();
    // one 32-byte word was added: quadratic cost of 1
    assert_eq!(cost, 1);
    let bytes = memory.load(0).unwrap();
    assert_eq!(bytes.len(), 32);
    let mut expected = vec![0x01, 0x02, 0x03, 0x04];
    expected.extend(std::iter::repeat(0x00).take(28));
    assert_eq!(bytes, expected);
}

#[test]
fn store_rounds_growth_up_to_word_boundary() {
    let mut memory = Memory::new();
    // covering [0, 100) grows to 128 bytes: 4 words added, cost 16
    let cost = memory.store(0, vec![0xAA; 100]).unwrap();
    assert_eq!(cost, 16);
    let tail = memory.access(96, 32).unwrap();
    let mut expected = vec![0xAA; 4];
    expected.extend(std::iter::repeat(0x00).take(28));
    assert_eq!(tail, expected);
}

#[test]
fn store_of_nothing_on_empty_still_initializes_one_word() {
    let mut memory = Memory::new();
    let cost = memory.store(0, vec![]).unwrap();
    assert_eq!(cost, 1);
    assert_eq!(memory.load(0).unwrap(), vec![0x00; 32]);
}

#[test]
fn second_store_in_covered_region_is_free() {
    let mut memory = Memory::new();
    assert_eq!(memory.store(0, vec![0x11; 8]).unwrap(), 1);
    assert_eq!(memory.store(8, vec![0x22; 8]).unwrap(), 0);
    let bytes = memory.load(0).unwrap();
    assert_eq!(&bytes[0..8], &[0x11; 8]);
    assert_eq!(&bytes[8..16], &[0x22; 8]);
    assert_eq!(&bytes[16..32], &[0x00; 16]);
}

#[test]
fn load_pre_grows_untouched_region() {
    let mut memory = Memory::new();
    let bytes = memory.load(40).unwrap();
    assert_eq!(bytes, vec![0x00; 32]);
    // the read grew memory to cover [0, 72), rounded up to 96
    assert_eq!(memory.access(64, 32).unwrap(), vec![0x00; 32]);
}

#[test]
fn access_returns_stored_slice() {
    let mut memory = Memory::new();
    memory.store(10, vec![0x09, 0x08, 0x07]).unwrap();
    assert_eq!(memory.access(10, 3).unwrap(), vec![0x09, 0x08, 0x07]);
    assert_eq!(memory.access(9, 5).unwrap(), vec![0x00, 0x09, 0x08, 0x07, 0x00]);
}

#[test]
fn ranges_past_machine_limit_are_out_of_range() {
    let mut memory = Memory::new();
    assert_eq!(memory.store(usize::MAX, vec![0x01]), Err(VmError::MemoryOutOfRange));
    assert_eq!(memory.access(usize::MAX - 1, 2), Err(VmError::MemoryOutOfRange));
    assert_eq!(memory.load(usize::MAX - 4), Err(VmError::MemoryOutOfRange));
    // the failed calls left memory untouched
    assert_eq!(memory.store(0, vec![0x01]).unwrap(), 1);
}

#[test]
fn zero_size_read_of_empty_memory_leaves_it_empty() {
    let mut memory = Memory::new();
    assert_eq!(memory.access(0, 0).unwrap(), Vec::<u8>::new());
    // the read was covered: the later store still finds empty memory
    assert_eq!(memory.store(0, vec![]).unwrap(), 1);
}

#[test]
fn covered_read_leaves_memory_unchanged() {
    let mut memory = Memory::new();
    assert_eq!(memory.store(0, vec![0x01]).unwrap(), 1);
    assert_eq!(memory.access(0, 32).unwrap()[0], 0x01);
    // the covered read did not grow the 32 bytes: covering 33 costs one word
    assert_eq!(memory.store(0, vec![0x02; 33]).unwrap(), 1);
}

#[test]
fn read_beyond_grown_region_grows() {
    let mut memory = Memory::new();
    assert_eq!(memory.store(0, vec![0x01]).unwrap(), 1);
    assert_eq!(memory.access(0, 33).unwrap().len(), 33);
    // the read grew memory to 64 bytes: covering 64 now costs nothing
    assert_eq!(memory.store(0, vec![0x03; 64]).unwrap(), 0);
}
