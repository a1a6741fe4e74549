use ere::guest_heap::{sp1_alloc, zisk_alloc, SP1_MAXIMUM_MEMORY_SIZE};

#[test]
fn sp1_first_allocation_starts_after_the_program() {
    assert_eq!(sp1_alloc(0, 0x1001, 16, 8), Some((0x1008, 0x1018)));
    assert_eq!(sp1_alloc(0, 0x1000, 16, 8), Some((0x1000, 0x1010)));
}

#[test]
fn sp1_allocations_run_left_to_right() {
    let mut pos = 0;
    let mut last_end = 0;
    for (bytes, align) in [(3u64, 1u64), (8, 8), (5, 4), (64, 64), (0, 16), (1, 2)] {
        let (p, next) = sp1_alloc(pos, 0x2003, bytes, align).unwrap();
        assert_eq!(p % align, 0);
        assert!(p >= last_end);
        assert_eq!(next, p + bytes);
        last_end = next;
        pos = next;
    }
}

#[test]
fn sp1_memory_limit() {
    assert_eq!(SP1_MAXIMUM_MEMORY_SIZE, (1u64 << 48) - 1);
    assert_eq!(sp1_alloc(SP1_MAXIMUM_MEMORY_SIZE - 16, 0, 16, 1), Some((SP1_MAXIMUM_MEMORY_SIZE - 16, SP1_MAXIMUM_MEMORY_SIZE)));
    assert_eq!(sp1_alloc(SP1_MAXIMUM_MEMORY_SIZE - 16, 0, 17, 1), None);
    assert_eq!(sp1_alloc(1, 0, u64::MAX, 1), None);
    assert_eq!(sp1_alloc(3, 0, 1, 1 << 63), None);
}

#[test]
fn zisk_allocations_align() {
    assert_eq!(zisk_alloc(0, 0xa001_0003, 4, 4), (0xa001_0004, 0xa001_0008));
    assert_eq!(zisk_alloc(0xa001_0008, 0xa001_0003, 1, 8), (0xa001_0008, 0xa001_0009));
    assert_eq!(zisk_alloc(0xa001_0009, 0, 2, 16), (0xa001_0010, 0xa001_0012));
}
