use harvey::instruction::InstructionException;
use harvey::memory::Memory;

#[test]
fn new_memory_reports_base_and_length() {
    let m = Memory::new(0x1000, vec![1, 2, 3]);
    assert_eq!(m.base(), 0x1000);
    assert_eq!(m.len(), 3);
    let empty = Memory::new(0, vec![]);
    assert_eq!(empty.len(), 0);
}

#[test]
fn contains_checks_both_ends() {
    let m = Memory::new(0x1000, vec![0; 16]);
    assert!(m.contains(0x1000, 16));
    assert!(m.contains(0x1000, 0));
    assert!(m.contains(0x100F, 1));
    assert!(m.contains(0x1010, 0));
    assert!(!m.contains(0x1010, 1));
    assert!(!m.contains(0x1000, 17));
    assert!(!m.contains(0x0FFF, 1));
    assert!(!m.contains(0x1011, 0));
    assert!(!m.contains(u64::MAX, 1));
    assert!(!m.contains(0x1001, usize::MAX));
}

#[test]
fn read_returns_the_bytes_in_range() {
    let m = Memory::new(0x10, vec![10, 11, 12, 13, 14]);
    assert_eq!(m.read(0x10, 5), Ok(vec![10, 11, 12, 13, 14]));
    assert_eq!(m.read(0x12, 2), Ok(vec![12, 13]));
    assert_eq!(m.read(0x15, 0), Ok(vec![]));
    assert_eq!(m.read(0x12, 4), Err(InstructionException::MemoryAccessFault));
    assert_eq!(m.read(0x0F, 1), Err(InstructionException::MemoryAccessFault));
}

#[test]
fn write_replaces_the_bytes_in_range() {
    let mut m = Memory::new(0x10, vec![0; 6]);
    assert_eq!(m.write(0x12, &[7, 8, 9]), Ok(()));
    assert_eq!(m.read(0x10, 6), Ok(vec![0, 0, 7, 8, 9, 0]));
    assert_eq!(m.write(0x14, &[1, 2, 3]), Err(InstructionException::MemoryAccessFault));
    assert_eq!(m.read(0x10, 6), Ok(vec![0, 0, 7, 8, 9, 0]));
    assert_eq!(m.write(0x0F, &[1]), Err(InstructionException::MemoryAccessFault));
    assert_eq!(m.read(0x10, 6), Ok(vec![0, 0, 7, 8, 9, 0]));
}

#[test]
fn load_is_little_endian() {
    let m = Memory::new(0, vec![0x01, 0x02, 0x03, 0x04, 0x05, 0x06, 0x07, 0x08, 0x09]);
    assert_eq!(m.load(0, 1), Ok(0x01));
    assert_eq!(m.load(0, 2), Ok(0x0201));
    assert_eq!(m.load(0, 4), Ok(0x0403_0201));
    assert_eq!(m.load(0, 8), Ok(0x0807_0605_0403_0201));
    assert_eq!(m.load(1, 8), Ok(0x0908_0706_0504_0302));
    assert_eq!(m.load(3, 0), Ok(0));
    assert_eq!(m.load(2, 8), Err(InstructionException::MemoryAccessFault));
    assert_eq!(m.load(9, 1), Err(InstructionException::MemoryAccessFault));
}

#[test]
fn store_is_little_endian() {
    let mut m = Memory::new(0x100, vec![0xEE; 10]);
    assert_eq!(m.store(0x101, 4, 0x1122_3344_5566_7788), Ok(()));
    assert_eq!(
        m.read(0x100, 10),
        Ok(vec![0xEE, 0x88, 0x77, 0x66, 0x55, 0xEE, 0xEE, 0xEE, 0xEE, 0xEE])
    );
    assert_eq!(m.store(0x102, 8, 0x1122_3344_5566_7788), Ok(()));
    assert_eq!(
        m.read(0x100, 10),
        Ok(vec![0xEE, 0x88, 0x88, 0x77, 0x66, 0x55, 0x44, 0x33, 0x22, 0x11])
    );
    assert_eq!(m.store(0x103, 8, 0), Err(InstructionException::MemoryAccessFault));
    assert_eq!(
        m.read(0x100, 10),
        Ok(vec![0xEE, 0x88, 0x88, 0x77, 0x66, 0x55, 0x44, 0x33, 0x22, 0x11])
    );
}

#[test]
fn store_then_load_gives_the_low_bytes() {
    let mut m = Memory::new(0, vec![0; 16]);
    let value: u64 = 0xFEDC_BA98_7654_3210;
    for (width, expected) in
        [(1usize, 0x10u64), (2, 0x3210), (4, 0x7654_3210), (8, 0xFEDC_BA98_7654_3210)]
    {
        assert_eq!(m.store(8, width, value), Ok(()));
        assert_eq!(m.load(8, width), Ok(expected));
    }
}

#[test]
fn store_of_more_than_eight_bytes_pads_with_zero() {
    let mut m = Memory::new(0, vec![0xFF; 10]);
    assert_eq!(m.store(0, 10, 0x0102), Ok(()));
    assert_eq!(m.read(0, 10), Ok(vec![0x02, 0x01, 0, 0, 0, 0, 0, 0, 0, 0]));
}
