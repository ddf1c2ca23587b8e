use native_arenas::allocators::{Allocator, BasicAllocator};
use native_arenas::classes::{Class, FieldRepr};

fn sample_layout(instance_size: usize) -> Class {
    let header_size = if instance_size >= 8 { 8 } else { 0 };
    let descriptors = vec![
        FieldRepr { name: String::from("x"), signature: String::from("I"), offset: 8 },
    ];
    Class::build_layout(instance_size, header_size, &descriptors).unwrap()
}

fn assert_block_is_zero(arena: &BasicAllocator, handle: usize) {
    for at in 0..arena.block_len(handle) {
        assert_eq!(arena.read_byte(handle, at), 0);
    }
}

#[test]
fn two_allocations_are_distinct_sized_and_zeroed() {
    let mut arena = BasicAllocator::new();
    let layout = sample_layout(16);
    let first = arena.allocate(&layout).unwrap();
    let second = arena.allocate(&layout).unwrap();
    assert_ne!(first, second);
    assert_eq!(arena.block_len(first), 16);
    assert_eq!(arena.block_len(second), 16);
    assert_block_is_zero(&arena, first);
    assert_block_is_zero(&arena, second);
    arena.write_byte(first, 3, 0xAB);
    assert_eq!(arena.read_byte(first, 3), 0xAB);
    assert_block_is_zero(&arena, second);
    for at in 0..16 {
        if at != 3 {
            assert_eq!(arena.read_byte(first, at), 0);
        }
    }
}

#[test]
fn earlier_blocks_survive_arena_growth_unchanged() {
    let mut arena = BasicAllocator::new();
    let layout = sample_layout(24);
    let mut handles = Vec::new();
    for round in 0..32usize {
        let handle = arena.allocate(&layout).unwrap();
        arena.write_byte(handle, 0, round as u8 + 1);
        handles.push(handle);
    }
    for (round, &handle) in handles.iter().enumerate() {
        assert_eq!(arena.block_len(handle), 24);
        assert_eq!(arena.read_byte(handle, 0), round as u8 + 1);
        for at in 1..24 {
            assert_eq!(arena.read_byte(handle, at), 0);
        }
    }
    assert_eq!(arena.block_count(), 32);
}

#[test]
fn exhaustion_fails_the_request_and_spares_the_arena() {
    let mut arena = BasicAllocator::with_limit(40);
    let layout = sample_layout(16);
    let first = arena.allocate(&layout).unwrap();
    let second = arena.allocate(&layout).unwrap();
    arena.write_byte(first, 5, 9);
    assert!(arena.allocate(&layout).is_err());
    assert_eq!(arena.block_count(), 2);
    assert_eq!(arena.read_byte(first, 5), 9);
    assert_block_is_zero(&arena, second);
    let small = sample_layout(8);
    let third = arena.allocate(&small).unwrap();
    assert_eq!(arena.block_len(third), 8);
    assert!(arena.allocate(&small).is_err());
}

#[test]
fn a_zero_budget_arena_rejects_any_sized_request() {
    let mut arena = BasicAllocator::with_limit(0);
    let layout = sample_layout(1);
    assert!(arena.allocate(&layout).is_err());
    assert_eq!(arena.block_count(), 0);
}

#[test]
fn the_default_arena_is_empty_and_unbounded() {
    let mut arena = BasicAllocator::default();
    assert_eq!(arena.block_count(), 0);
    let layout = sample_layout(1024);
    for _ in 0..8 {
        arena.allocate(&layout).unwrap();
    }
    assert_eq!(arena.block_count(), 8);
}

#[test]
fn handles_index_blocks_in_allocation_order() {
    let mut arena = BasicAllocator::new();
    for size in 1..6usize {
        let handle = arena.allocate(&sample_layout(size * 16)).unwrap();
        assert_eq!(handle, size - 1);
        assert_eq!(arena.block_len(handle), size * 16);
    }
}
