use cutoff_common::util::lang_util::prealloc_vec::PreallocatedVec;

#[test]
fn test_vector() {
    let mut v = PreallocatedVec::with_capacity(10, || 0usize);

    v.push(0usize);
    v.push(1usize);
    v.push(2usize);
    println!("Vector: {:?}. Len: {}. Capacity: {}", v.raw_slice(), v.len(), v.capacity());

    v.clear();
    println!("Vector: {:?}. Len: {}. Capacity: {}", v.raw_slice(), v.len(), v.capacity());

    v.push(3usize);
    v.push(4usize);
    println!("Vector: {:?}. Len: {}. Capacity: {}", v.raw_slice(), v.len(), v.capacity());
}

#[test]
fn test_pushes_in_order() {
    let mut v = PreallocatedVec::with_capacity(4, || 0u32);
    for i in 0..4u32 {
        v.push(i * 10);
    }
    assert_eq!(v.len(), 4);
    for i in 0..4usize {
        assert_eq!(v.get(i), Some(&(i as u32 * 10)));
    }
}

#[test]
fn test_clear_keeps_capacity() {
    let mut v = PreallocatedVec::with_capacity(5, || 0i32);
    v.push(1);
    v.push(2);
    v.clear();
    assert_eq!(v.len(), 0);
    assert_eq!(v.capacity(), 5);
}

#[test]
fn test_reuse_after_clear_never_grows() {
    let mut v = PreallocatedVec::with_capacity(2, || 0i32);
    v.push(1);
    v.push(2);
    v.push(3);
    assert_eq!(v.capacity(), 3);
    v.clear();
    v.push(4);
    v.push(5);
    v.push(6);
    assert_eq!(v.capacity(), 3);
    assert_eq!(v.get(0), Some(&4));
    assert_eq!(v.get(1), Some(&5));
    assert_eq!(v.get(2), Some(&6));
}

#[test]
fn test_growth_by_overflow_amount() {
    let mut v = PreallocatedVec::with_capacity(3, || 0i32);
    v.push(1);
    v.push(2);
    v.push(3);
    v.clear();
    for i in 0..5 {
        v.push(i);
    }
    assert_eq!(v.capacity(), 5);
    assert_eq!(v.len(), 5);
}

#[test]
fn test_get_absent_beyond_len() {
    let mut v = PreallocatedVec::with_capacity(4, || 7u8);
    v.push(1);
    assert_eq!(v.get(1), None);
    assert_eq!(v.get(3), None);
    assert_eq!(v.get(4), None);
    assert_eq!(v.get_mut(1), None);
    assert_eq!(v.get_mut(4), None);
}

#[test]
fn test_last_and_last_index() {
    let mut v = PreallocatedVec::with_capacity(3, || 0u8);
    assert_eq!(v.last(), None);
    assert_eq!(v.last_mut(), None);
    assert_eq!(v.last_index(), None);
    v.push(9);
    assert_eq!(v.last(), Some(&9));
    assert_eq!(v.last_index(), Some(0));
    assert_eq!(v.get(0), Some(&9));
}

#[test]
fn test_get_mut_writes_through() {
    let mut v = PreallocatedVec::with_capacity(2, || 0u8);
    v.push(1);
    if let Some(slot) = v.get_mut(0) {
        *slot = 42;
    }
    assert_eq!(v.get(0), Some(&42));
    if let Some(slot) = v.last_mut() {
        *slot = 43;
    }
    assert_eq!(v.get(0), Some(&43));
}

#[test]
fn test_push_prealloc_failure_changes_nothing() {
    let mut v = PreallocatedVec::with_capacity(2, || 0u8);
    v.push(5);
    for _ in 0..4 {
        let accepted = v.push_prealloc(|slot| (slot, false));
        assert!(!accepted);
        assert_eq!(v.len(), 1);
    }
    assert_eq!(v.capacity(), 2);
    assert_eq!(v.get(0), Some(&5));

    // the same holds when the store is full and a refusal avoids growth
    v.push(6);
    assert_eq!(v.len(), 2);
    let accepted = v.push_prealloc(|slot| (slot, false));
    assert!(!accepted);
    assert_eq!(v.len(), 2);
    assert_eq!(v.capacity(), 2);
}

#[test]
fn test_push_prealloc_success_acts_like_push() {
    let mut by_push = PreallocatedVec::with_capacity(2, || 0u8);
    let mut by_prealloc = PreallocatedVec::with_capacity(2, || 0u8);
    for i in 0..4u8 {
        by_push.push(i + 1);
        let accepted = by_prealloc.push_prealloc(|_slot| (i + 1, true));
        assert!(accepted);
        assert_eq!(by_push.len(), by_prealloc.len());
    }
    for i in 0..4usize {
        assert_eq!(by_push.get(i), by_prealloc.get(i));
    }
}

#[test]
fn test_capacity_three_scenario() {
    let mut v = PreallocatedVec::with_capacity(3, || 0i32);
    v.push(10);
    v.push(20);
    v.push(30);
    assert_eq!(v.len(), 3);
    assert_eq!(v.get(0), Some(&10));
    assert_eq!(v.get(1), Some(&20));
    assert_eq!(v.get(2), Some(&30));
    assert_eq!(v.capacity(), 3);
    v.clear();
    assert_eq!(v.len(), 0);
    assert_eq!(v.capacity(), 3);
    v.push(99);
    assert_eq!(v.capacity(), 3);
    assert_eq!(v.get(0), Some(&99));
}

#[test]
fn test_capacity_one_growth_scenario() {
    let mut v = PreallocatedVec::with_capacity(1, || 0i32);
    v.push(1);
    assert_eq!(v.capacity(), 1);
    v.push(2);
    assert_eq!(v.capacity(), 2);
    v.push(3);
    assert_eq!(v.capacity(), 3);
    assert_eq!(v.get(0), Some(&1));
    assert_eq!(v.get(1), Some(&2));
    assert_eq!(v.get(2), Some(&3));
}

#[test]
fn test_set_capacity_shrink_clamps_len() {
    let mut v = PreallocatedVec::with_capacity(4, || 0i32);
    v.push(1);
    v.push(2);
    v.push(3);
    v.set_capacity(2);
    assert_eq!(v.capacity(), 2);
    assert_eq!(v.len(), 2);
    assert_eq!(v.get(0), Some(&1));
    assert_eq!(v.get(1), Some(&2));
    assert_eq!(v.get(2), None);
    v.set_capacity(6);
    assert_eq!(v.capacity(), 6);
    assert_eq!(v.len(), 2);
    assert_eq!(v.raw_slice().len(), 6);
}
