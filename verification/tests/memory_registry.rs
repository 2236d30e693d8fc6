use otelwasm_rust_sdk::{allocate, take_ownership, Allocations, StatusCode};

#[test]
fn take_ownership_accepts_high_bit_pointer_pattern() {
    let ptr = -1_i32;
    let mut allocations = Allocations::new();
    allocations.insert(ptr, vec![1, 2, 3]);

    let got = take_ownership(&mut allocations, ptr, 3).expect("take ownership should succeed");
    assert_eq!(got, vec![1, 2, 3]);
}

#[test]
fn take_ownership_rejects_size_larger_than_alloc() {
    let ptr = 7_i32;
    let mut allocations = Allocations::new();
    allocations.insert(ptr, vec![1, 2, 3]);

    let err = take_ownership(&mut allocations, ptr, 4).expect_err("size overflow must error");
    assert_eq!(err.code, StatusCode::Error);
}

#[test]
fn oversized_take_reports_both_sizes_and_unpins() {
    let mut allocations = Allocations::new();
    allocations.insert(7, vec![1, 2, 3]);
    let err = take_ownership(&mut allocations, 7, 4).unwrap_err();
    assert_eq!(err.reason, "payload size 4 exceeds allocation size 3");
    let again = take_ownership(&mut allocations, 7, 1).unwrap_err();
    assert_eq!(again.reason, "unknown allocation pointer: 7");
}

#[test]
fn take_ownership_truncates_to_requested_size() {
    let mut allocations = Allocations::new();
    allocations.insert(42, vec![9, 8, 7, 6]);
    assert_eq!(take_ownership(&mut allocations, 42, 2).unwrap(), vec![9, 8]);
}

#[test]
fn take_ownership_null_empty_payload() {
    let mut allocations = Allocations::new();
    assert_eq!(take_ownership(&mut allocations, 0, 0).unwrap(), Vec::<u8>::new());
}

#[test]
fn take_ownership_rejects_null_or_negative() {
    let mut allocations = Allocations::new();
    let err = take_ownership(&mut allocations, 0, 3).unwrap_err();
    assert_eq!(err.code, StatusCode::Error);
    assert_eq!(err.reason, "invalid pointer/size");
    allocations.insert(5, vec![1]);
    let err = take_ownership(&mut allocations, 5, -1).unwrap_err();
    assert_eq!(err.reason, "invalid pointer/size");
    // the buffer is still pinned
    assert_eq!(take_ownership(&mut allocations, 5, 1).unwrap(), vec![1]);
}

#[test]
fn take_ownership_unknown_negative_pointer_message() {
    let mut allocations = Allocations::new();
    let err = take_ownership(&mut allocations, -2147483648, 1).unwrap_err();
    assert_eq!(err.reason, "unknown allocation pointer: -2147483648");
}

#[test]
fn allocate_then_take_gives_zeroed_buffer() {
    let mut allocations = Allocations::new();
    let ptr = allocate(&mut allocations, 5);
    assert_ne!(ptr, 0);
    assert_eq!(take_ownership(&mut allocations, ptr, 5).unwrap(), vec![0u8; 5]);
    // a pointer is taken only once
    assert!(take_ownership(&mut allocations, ptr, 5).is_err());
}

#[test]
fn allocate_non_positive_size_returns_null() {
    let mut allocations = Allocations::new();
    assert_eq!(allocate(&mut allocations, 0), 0);
    assert_eq!(allocate(&mut allocations, -4), 0);
}

#[test]
fn take_ownership_leaves_other_buffers() {
    let mut allocations = Allocations::new();
    allocations.insert(1, vec![1]);
    allocations.insert(2, vec![2, 2]);
    assert_eq!(take_ownership(&mut allocations, 1, 1).unwrap(), vec![1]);
    assert_eq!(take_ownership(&mut allocations, 2, 2).unwrap(), vec![2, 2]);
}
