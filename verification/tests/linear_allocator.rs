use favilla::handles::MemoryHandle;
use favilla::linear_allocator::{get_aligned_offset, LinearAllocator, SubAllocationError};

#[test]
fn aligned_offset_values() {
    assert_eq!(get_aligned_offset(0, 16), 0);
    assert_eq!(get_aligned_offset(1, 16), 16);
    assert_eq!(get_aligned_offset(10, 4), 12);
    assert_eq!(get_aligned_offset(12, 4), 12);
    assert_eq!(get_aligned_offset(10, 1), 10);
    assert_eq!(get_aligned_offset(66, 4), 68);
}

#[test]
fn allocate_until_exhaustion() {
    let memory = MemoryHandle { raw: 7 };
    let mut allocator = LinearAllocator::new(memory, 128);

    let first = allocator.allocate(10, 16).unwrap();
    assert_eq!(first.offset, 0);
    assert_eq!(first.size, 10);
    assert_eq!(first.memory, memory);

    let second = allocator.allocate(50, 16).unwrap();
    assert_eq!(second.offset, 16);
    assert_eq!(allocator.free_section_start(), 66);

    // 66 aligned to 4 is 68; 68 + 70 = 138 > 128
    let third = allocator.allocate(70, 4);
    assert!(matches!(third, Err(SubAllocationError::OutOfMemory)));
    // a failed request leaves the allocator unchanged
    assert_eq!(allocator.free_section_start(), 66);

    // a smaller request still fits: 68 + 60 = 128
    let fourth = allocator.allocate(60, 4).unwrap();
    assert_eq!(fourth.offset, 68);
    assert_eq!(allocator.free_section_start(), 128);

    // the block is now exactly full
    assert!(allocator.allocate(1, 1).is_err());
}

#[test]
fn allocate_offsets_are_monotonic_and_aligned() {
    let mut allocator = LinearAllocator::new(MemoryHandle { raw: 1 }, 4096);
    let requests = [(10u64, 16u64), (50, 4), (1, 64), (3, 2), (100, 128)];
    let mut last_offset = 0u64;
    for (size, align) in requests {
        let sub = allocator.allocate(size, align).unwrap();
        assert_eq!(sub.offset % align, 0);
        assert!(sub.offset >= last_offset);
        last_offset = sub.offset;
    }
}

#[test]
fn exhaustion_is_exact() {
    let mut allocator = LinearAllocator::new(MemoryHandle { raw: 2 }, 64);
    // 0 aligned to 8 is 0; 0 + 64 = 64 <= 64 fits exactly
    let sub = allocator.allocate(64, 8).unwrap();
    assert_eq!(sub.offset, 0);
    // nothing is left
    assert!(allocator.allocate(1, 1).is_err());
}

#[test]
fn reset_returns_cursor_to_zero() {
    let mut allocator = LinearAllocator::new(MemoryHandle { raw: 3 }, 32);
    allocator.allocate(20, 4).unwrap();
    assert_eq!(allocator.free_section_start(), 20);
    allocator.reset();
    assert_eq!(allocator.free_section_start(), 0);
    let sub = allocator.allocate(20, 4).unwrap();
    assert_eq!(sub.offset, 0);
    assert_eq!(allocator.size(), 32);
    assert_eq!(allocator.memory(), MemoryHandle { raw: 3 });
}
