use lib::allocator::bin::{Allocator, NUM_BINS};
use lib::allocator::util::{align_down, align_up, next_power_of_two_exp};

#[test]
fn align_down_rounds_to_multiple() {
    assert_eq!(align_down(0, 2), 0);
    assert_eq!(align_down(7, 4), 4);
    assert_eq!(align_down(8, 4), 8);
    assert_eq!(align_down(0xFFFF, 0x1000), 0xF000);
    assert_eq!(align_down(13, 1), 13);
}

#[test]
fn align_up_rounds_to_multiple() {
    assert_eq!(align_up(0, 2), 0);
    assert_eq!(align_up(7, 4), 8);
    assert_eq!(align_up(8, 4), 8);
    assert_eq!(align_up(0x1001, 0x1000), 0x2000);
    assert_eq!(align_up(13, 1), 13);
    assert_eq!(align_up(usize::MAX - 15, 16), usize::MAX - 15);
}

#[test]
fn next_power_of_two_values() {
    assert_eq!(next_power_of_two_exp(0), (1, 0));
    assert_eq!(next_power_of_two_exp(1), (1, 0));
    assert_eq!(next_power_of_two_exp(3), (4, 2));
    assert_eq!(next_power_of_two_exp(1024), (1024, 10));
    assert_eq!(next_power_of_two_exp(1025), (2048, 11));
}

#[test]
fn map_to_bin_values() {
    assert_eq!(Allocator::map_to_bin(0), (0, 1));
    assert_eq!(Allocator::map_to_bin(1), (0, 1));
    assert_eq!(Allocator::map_to_bin(8), (0, 8));
    assert_eq!(Allocator::map_to_bin(9), (1, 16));
    assert_eq!(Allocator::map_to_bin(16), (1, 16));
    assert_eq!(Allocator::map_to_bin(100), (4, 128));
    assert_eq!(Allocator::map_to_bin(1 << 20), (17, 1 << 20));
}

#[test]
fn bump_allocation_is_aligned_and_advances() {
    let mut a = Allocator::new(1001, 1001 + 4096);
    let p = a.allocate(10, 8);
    assert_eq!(p, 1008);
    // A 10-byte request takes a 16-byte block.
    let q = a.allocate(3, 1);
    assert_eq!(q, 1024);
    let r = a.allocate(100, 64);
    assert_eq!(r, 1088);
    assert_eq!(NUM_BINS, 30);
}

#[test]
fn freed_block_is_reused_last_in_first_out() {
    let mut a = Allocator::new(0x1000, 0x9000);
    let p1 = a.allocate(32, 8);
    let p2 = a.allocate(32, 8);
    assert_ne!(p1, p2);
    a.deallocate(p1, 32, 8);
    a.deallocate(p2, 32, 8);
    assert_eq!(a.allocate(32, 8), p2);
    assert_eq!(a.allocate(32, 8), p1);
    // A request of another size class does not take a freed 32-byte block.
    a.deallocate(p1, 32, 8);
    let other = a.allocate(64, 8);
    assert_ne!(other, p1);
    assert_eq!(a.allocate(20, 4), p1);
}

#[test]
fn request_larger_than_region_fails() {
    let mut a = Allocator::new(0x1000, 0x2000);
    assert_eq!(a.allocate(0x1001, 8), 0);
    assert_eq!(a.allocate(0x1000, 8), 0x1000);
}

#[test]
fn exhausted_region_fails_and_keeps_cursor() {
    let mut a = Allocator::new(0x1000, 0x1100);
    assert_eq!(a.allocate(0x80, 8), 0x1000);
    assert_eq!(a.allocate(0x80, 8), 0x1080);
    assert_eq!(a.allocate(0x80, 8), 0);
    assert_eq!(a.allocate(8, 8), 0);
    a.deallocate(0x1000, 0x80, 8);
    assert_eq!(a.allocate(0x80, 8), 0x1000);
}

#[test]
fn alignment_larger_than_size_sets_block_size() {
    let mut a = Allocator::new(0, 0x10000);
    let p = a.allocate(1, 0x100);
    assert_eq!(p, 0);
    let q = a.allocate(1, 0x100);
    assert_eq!(q, 0x100);
}

#[test]
fn allocator_getters() {
    let mut a = Allocator::new(0x1000, 0x3000);
    assert_eq!(a.global_start(), 0x1000);
    assert_eq!(a.global_end(), 0x3000);
    assert_eq!(a.total_size(), 0x2000);
    assert_eq!(a.relative_start(), 0x1000);
    let p = a.allocate(100, 16);
    assert_eq!(a.relative_start(), p + 128);
    a.deallocate(p, 100, 16);
    assert_eq!(a.free_blocks(4), 1);
    assert_eq!(a.free_blocks(0), 0);
}

#[test]
fn misaligned_freed_block_is_not_handed_to_stricter_request() {
    let mut a = Allocator::new(0x1000, 0x2000);
    assert_eq!(a.allocate(16, 8), 0x1000);
    assert_eq!(a.allocate(8, 8), 0x1010);
    let p = a.allocate(16, 8);
    assert_eq!(p, 0x1018);
    a.deallocate(p, 16, 8);
    // The freed block is not 16-byte aligned: the request is served from the
    // cursor, and the freed block stays in its bin.
    let q = a.allocate(16, 16);
    assert_eq!(q % 16, 0);
    assert_eq!(q, 0x1030);
    assert_eq!(a.free_blocks(1), 1);
    // A request the freed block does meet gets it back.
    assert_eq!(a.allocate(16, 8), 0x1018);
    assert_eq!(a.free_blocks(1), 0);
}

#[test]
fn allocations_stay_in_region_and_apart() {
    let mut a = Allocator::new(0x1000, 0x2000);
    let p = a.allocate(24, 8);
    let q = a.allocate(100, 64);
    let r = a.allocate(8, 8);
    a.deallocate(p, 24, 8);
    let s = a.allocate(32, 32);
    let blocks = [(q, 128usize), (r, 8), (s, 32)];
    for &(x, n) in blocks.iter() {
        assert!(x >= 0x1000 && x + n <= 0x2000);
    }
    for i in 0..blocks.len() {
        for j in 0..blocks.len() {
            if i != j {
                let (x, n) = blocks[i];
                let (y, m) = blocks[j];
                assert!(x + n <= y || y + m <= x);
            }
        }
    }
}

#[test]
fn reuses_block_checks_alignment() {
    let mut a = Allocator::new(0x1000, 0x2000);
    assert!(!a.reuses_block(16, 8));
    a.deallocate(0x1018, 16, 8);
    assert!(a.reuses_block(16, 8));
    assert!(!a.reuses_block(16, 16));
}

#[test]
fn first_allocation_is_the_aligned_region_start() {
    let mut a = Allocator::new(0x1004, 0x2000);
    assert_eq!(a.allocate(10, 16), 0x1010);
    assert_eq!(a.relative_start(), 0x1010 + 16);
}
