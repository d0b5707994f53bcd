use wasbox::exec::Fault;
use wasbox::{Memory, SliceMemory, VectorMemory};

#[test]
fn test_vector_memory_creation() {
    let memory = VectorMemory::new(1024, Some(2048));
    assert_eq!(memory.size(), 1024);
    assert_eq!(memory.data().len(), 1024);

    // Memory should be zero-initialized
    for byte in memory.data() {
        assert_eq!(*byte, 0);
    }
}

#[test]
fn test_vector_memory_wasm_page_size() {
    const WASM_PAGE_SIZE: usize = 1 << 16; // 64KB
    let memory = VectorMemory::new(WASM_PAGE_SIZE, None);
    assert_eq!(memory.size(), 65536);
}

#[test]
fn test_memory_clone() {
    let mut original = VectorMemory::new(1024, None);
    original.set_i32(0, 0x12345678).unwrap();
    original.set_i32(100, -42).unwrap();

    let cloned = original.clone();

    // Both should have same size
    assert_eq!(original.size(), cloned.size());
    assert_eq!(cloned.size(), 1024);

    // Both should have same data
    assert_eq!(original.get_i32(0).unwrap(), cloned.get_i32(0).unwrap());
    assert_eq!(original.get_i32(100).unwrap(), cloned.get_i32(100).unwrap());
    assert_eq!(cloned.get_i32(0).unwrap(), 0x12345678);
    assert_eq!(cloned.get_i32(100).unwrap(), -42);
}

#[test]
fn test_memory_clone_independence() {
    let mut original = VectorMemory::new(1024, None);
    original.set_i32(0, 100).unwrap();

    let mut cloned = original.clone();
    cloned.set_i32(0, 200).unwrap();

    // Changes to clone should not affect original
    assert_eq!(original.get_i32(0).unwrap(), 100);
    assert_eq!(cloned.get_i32(0).unwrap(), 200);
}

#[test]
fn test_i32_operations() {
    let mut memory = VectorMemory::new(1024, None);

    // Test basic set/get
    memory.set_i32(0, 0x12345678).unwrap();
    assert_eq!(memory.get_i32(0).unwrap(), 0x12345678);

    // Test negative numbers
    memory.set_i32(4, -1).unwrap();
    assert_eq!(memory.get_i32(4).unwrap(), -1);

    // Test at different offsets
    memory.set_i32(100, 42).unwrap();
    assert_eq!(memory.get_i32(100).unwrap(), 42);

    // Original values should be unchanged
    assert_eq!(memory.get_i32(0).unwrap(), 0x12345678);
    assert_eq!(memory.get_i32(4).unwrap(), -1);
}

#[test]
fn test_memory_bounds_checking() {
    let mut memory = VectorMemory::new(8, None);

    // Valid operations
    assert!(memory.set_i32(0, 123).is_ok());
    assert!(memory.set_i32(4, 456).is_ok());
    assert_eq!(memory.get_i32(0).unwrap(), 123);
    assert_eq!(memory.get_i32(4).unwrap(), 456);

    // Out of bounds operations
    assert!(memory.set_i32(5, 999).is_err()); // offset 5 + 4 bytes = 9 > size 8
    assert!(memory.get_i32(5).is_err());
    assert!(memory.set_i32(8, 999).is_err()); // exactly at boundary
    assert!(memory.get_i32(8).is_err());
}

#[test]
fn test_little_endian_encoding() {
    let mut memory = VectorMemory::new(8, None);

    // Test that values are stored in little-endian format
    memory.set_i32(0, 0x12345678).unwrap();

    // Should be stored as [0x78, 0x56, 0x34, 0x12]
    assert_eq!(memory.get_u8(0).unwrap(), 0x78);
    assert_eq!(memory.get_u8(1).unwrap(), 0x56);
    assert_eq!(memory.get_u8(2).unwrap(), 0x34);
    assert_eq!(memory.get_u8(3).unwrap(), 0x12);
}

#[test]
fn test_multiple_data_types() {
    let mut memory = VectorMemory::new(64, None);

    // Test various data types; the floats travel as their bit patterns
    memory.set_u8(0, 0xFF).unwrap();
    memory.set_u16(1, 0x1234).unwrap();
    memory.set_i32(3, -42).unwrap();
    memory.set_i64(7, 0x123456789ABCDEF0_i64).unwrap();
    memory.set_f32(15, std::f32::consts::PI.to_bits()).unwrap();
    memory.set_f64(19, std::f64::consts::E.to_bits()).unwrap();

    assert_eq!(memory.get_u8(0).unwrap(), 0xFF);
    assert_eq!(memory.get_u16(1).unwrap(), 0x1234);
    assert_eq!(memory.get_i32(3).unwrap(), -42);
    assert_eq!(memory.get_i64(7).unwrap(), 0x123456789ABCDEF0_i64);
    assert!((f32::from_bits(memory.get_f32(15).unwrap()) - std::f32::consts::PI).abs() < 0.00001);
    assert!((f64::from_bits(memory.get_f64(19).unwrap()) - std::f64::consts::E).abs() < 0.000001);
}

#[test]
fn test_memory_growth() {
    let mut memory = VectorMemory::new(1024, Some(2048));
    assert_eq!(memory.size(), 1024);

    // A size that is no whole number of pages is refused
    assert_eq!(memory.grow(1536), Err(Fault::CannotGrowMemory));
    assert_eq!(memory.size(), 1024);

    // Test growth beyond maximum should fail
    assert!(memory.grow(3000).is_err());
    assert_eq!(memory.size(), 1024);
}

#[test]
fn test_memory_with_wasm_page_semantics() {
    const WASM_PAGE_SIZE: usize = 65536;

    // Test 1-page memory (typical for WASM modules)
    let mut memory = VectorMemory::new(WASM_PAGE_SIZE, None);
    assert_eq!(memory.size(), WASM_PAGE_SIZE);

    // Should be able to access anywhere in the page
    memory.set_i32(0, 1).unwrap();
    memory.set_i32(WASM_PAGE_SIZE - 4, 2).unwrap(); // Last 4 bytes

    assert_eq!(memory.get_i32(0).unwrap(), 1);
    assert_eq!(memory.get_i32(WASM_PAGE_SIZE - 4).unwrap(), 2);

    // Should not be able to access beyond the page
    assert!(memory.get_i32(WASM_PAGE_SIZE - 3).is_err()); // Would read beyond memory
    assert!(memory.set_i32(WASM_PAGE_SIZE, 3).is_err()); // Exactly at boundary
}

#[test]
fn test_memory_corruption_detection() {
    let mut memory = VectorMemory::new(1024, None);

    // Fill memory with pattern
    for i in 0..256 {
        memory.set_i32(i * 4, i as i32).unwrap();
    }

    // Clone and verify both have same data
    let cloned = memory.clone();
    for i in 0..256 {
        assert_eq!(memory.get_i32(i * 4).unwrap(), i as i32);
        assert_eq!(cloned.get_i32(i * 4).unwrap(), i as i32);
    }

    // Modify original and verify clone is unchanged
    memory.set_i32(0, 999).unwrap();
    assert_eq!(memory.get_i32(0).unwrap(), 999);
    assert_eq!(cloned.get_i32(0).unwrap(), 0); // Should still be original value
}

/// Test that simulates the specific block_test scenario
#[test]
fn test_block_test_memory_scenario() {
    const WASM_PAGE_SIZE: usize = 65536;

    // Create memory like in block.wast: (memory 1)
    let mut memory = VectorMemory::new(WASM_PAGE_SIZE, None);
    assert_eq!(memory.size(), WASM_PAGE_SIZE);

    // The block_test tries to load i32 from address 1
    // Uninitialized memory should return 0
    assert_eq!(memory.get_i32(1).unwrap(), 0);

    // If we put value 1 at address 1, it should read back as 1
    memory.set_i32(1, 1).unwrap();
    assert_eq!(memory.get_i32(1).unwrap(), 1);

    // Clone the memory (like in the test execution)
    let cloned = memory.clone();
    assert_eq!(cloned.size(), WASM_PAGE_SIZE);
    assert_eq!(cloned.get_i32(1).unwrap(), 1);
}

#[test]
fn typed_access_round_trips_at_every_width() {
    let mut memory = VectorMemory::new(32, None);
    memory.set_u8(0, 0xab).unwrap();
    memory.set_u16(1, 0xbeef).unwrap();
    memory.set_u32(3, 0xdead_beef).unwrap();
    memory.set_u64(7, 0x0123_4567_89ab_cdef).unwrap();
    memory.set_i64(15, i64::MIN).unwrap();
    assert_eq!(memory.get_u8(0), Ok(0xab));
    assert_eq!(memory.get_u16(1), Ok(0xbeef));
    assert_eq!(memory.get_u32(3), Ok(0xdead_beef));
    assert_eq!(memory.get_u64(7), Ok(0x0123_4567_89ab_cdef));
    assert_eq!(memory.get_i64(15), Ok(i64::MIN));
    assert_eq!(
        &memory.data()[7..15],
        &[0xef, 0xcd, 0xab, 0x89, 0x67, 0x45, 0x23, 0x01]
    );
}

#[test]
fn access_past_the_end_is_out_of_bounds_and_changes_nothing() {
    let mut memory = VectorMemory::new(4, None);
    assert_eq!(memory.get_u8(4), Err(Fault::MemoryOutOfBounds));
    assert_eq!(memory.get_u16(3), Err(Fault::MemoryOutOfBounds));
    assert_eq!(memory.get_u64(0), Err(Fault::MemoryOutOfBounds));
    assert_eq!(memory.get_u32(usize::MAX), Err(Fault::MemoryOutOfBounds));
    assert_eq!(memory.set_u64(0, u64::MAX), Err(Fault::MemoryOutOfBounds));
    assert_eq!(memory.set_u16(usize::MAX, 1), Err(Fault::MemoryOutOfBounds));
    assert_eq!(memory.data(), &[0, 0, 0, 0]);
    assert_eq!(memory.get_u32(0), Ok(0));
}

#[test]
fn vector_memory_grows_with_zeros_and_shrinks() {
    const PAGE: usize = 65536;
    let mut memory = VectorMemory::new(PAGE, Some(3 * PAGE));
    memory.set_u16(0, 0x0102).unwrap();
    memory.set_u8(PAGE - 1, 0x77).unwrap();
    assert_eq!(memory.grow(2 * PAGE), Ok(2 * PAGE));
    assert_eq!(memory.size(), 2 * PAGE);
    assert_eq!(&memory.data()[..3], &[0x02, 0x01, 0]);
    assert_eq!(memory.get_u8(PAGE - 1), Ok(0x77));
    assert!(memory.data()[PAGE..].iter().all(|b| *b == 0));
    assert_eq!(memory.grow(3 * PAGE), Ok(3 * PAGE));
    assert_eq!(memory.grow(4 * PAGE), Err(Fault::CannotGrowMemory));
    assert_eq!(memory.size(), 3 * PAGE);
    assert_eq!(memory.grow(PAGE), Ok(PAGE));
    assert_eq!(memory.size(), PAGE);
    assert_eq!(memory.get_u16(0), Ok(0x0102));
    assert_eq!(memory.grow(0), Ok(0));
    assert_eq!(memory.size(), 0);
}

#[test]
fn a_memory_stays_a_whole_number_of_pages() {
    const PAGE: usize = 65536;
    let mut memory = VectorMemory::new(PAGE, None);
    for size in [1, PAGE - 1, PAGE + 1, 2 * PAGE - 1, 3 * PAGE + 4] {
        assert_eq!(memory.grow(size), Err(Fault::CannotGrowMemory));
        assert_eq!(memory.size(), PAGE);
    }
    assert_eq!(memory.grow(2 * PAGE), Ok(2 * PAGE));
    assert_eq!(memory.size() % PAGE, 0);
    // No memory has more than 65,536 pages.
    assert_eq!(memory.grow(65_537 * PAGE), Err(Fault::CannotGrowMemory));
    assert_eq!(memory.size(), 2 * PAGE);
}

#[test]
fn vector_memory_copies_a_payload_in() {
    let mut memory = VectorMemory::new(6, None);
    assert_eq!(memory.copy_from(2, &[7, 8, 9]), Ok(()));
    assert_eq!(memory.data(), &[0, 0, 7, 8, 9, 0]);
    assert_eq!(memory.copy_from(4, &[1, 2, 3]), Err(Fault::MemoryOutOfBounds));
    assert_eq!(memory.data(), &[0, 0, 7, 8, 9, 0]);
    memory.data_mut()[0] = 5;
    assert_eq!(memory.get_u8(0), Ok(5));
}

#[test]
fn slice_memory_reads_writes_and_never_grows() {
    let mut backing = vec![0u8; 8];
    {
        let mut memory = SliceMemory::new(&mut backing);
        assert_eq!(memory.size(), 8);
        memory.set_u32(4, 0x0403_0201).unwrap();
        assert_eq!(memory.get_u32(4), Ok(0x0403_0201));
        assert_eq!(memory.get_i32(5), Err(Fault::MemoryOutOfBounds));
        assert_eq!(memory.grow(8), Err(Fault::CannotGrowMemory));
        assert_eq!(memory.grow(16), Err(Fault::CannotGrowMemory));
        assert_eq!(memory.size(), 8);
        memory.data_mut()[0] = 9;
        assert_eq!(memory.data()[0], 9);
    }
    assert_eq!(backing, vec![9, 0, 0, 0, 1, 2, 3, 4]);
}
