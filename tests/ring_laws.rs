use kairpods::ringbuf::Ring;

fn joined(rb: &Ring<i32, 4>) -> Vec<i32> {
    let (left, right) = rb.as_slices();
    let mut all = left.to_vec();
    all.extend_from_slice(right);
    all
}

#[test]
fn pushes_within_capacity_keep_all_in_order() {
    let mut rb: Ring<i32, 4> = Ring::new();
    for v in [7, 8, 9] {
        rb.push(v);
    }
    assert_eq!(rb.len(), 3);
    assert_eq!(rb.to_vec(), vec![7, 8, 9]);
}

#[test]
fn pushes_up_to_exact_capacity_keep_all() {
    let mut rb: Ring<i32, 4> = Ring::new();
    for v in [1, 2, 3, 4] {
        rb.push(v);
    }
    assert_eq!(rb.len(), 4);
    assert_eq!(rb.to_vec(), vec![1, 2, 3, 4]);
    let (left, right) = rb.as_slices();
    assert_eq!(left, &[1, 2, 3, 4]);
    assert!(right.is_empty());
}

#[test]
fn pushes_beyond_capacity_keep_last_four() {
    let mut rb: Ring<i32, 4> = Ring::new();
    for v in 1..=11 {
        rb.push(v);
    }
    assert_eq!(rb.len(), 4);
    assert_eq!(rb.to_vec(), vec![8, 9, 10, 11]);
    assert_eq!(rb.get(0), Some(&8));
    assert_eq!(rb.get(3), Some(&11));
    assert_eq!(rb.get(4), None);
}

#[test]
fn truncate_front_at_or_above_len_changes_nothing() {
    let mut rb: Ring<i32, 4> = Ring::new();
    for v in 1..=6 {
        rb.push(v);
    }
    rb.truncate_front(4);
    assert_eq!(rb.to_vec(), vec![3, 4, 5, 6]);
    assert_eq!(rb.tail(), 6);
    rb.truncate_front(9);
    assert_eq!(rb.to_vec(), vec![3, 4, 5, 6]);
}

#[test]
fn truncate_front_restarts_indexing_at_new_oldest() {
    let mut rb: Ring<i32, 4> = Ring::new();
    for v in 1..=7 {
        rb.push(v);
    }
    rb.truncate_front(2);
    assert_eq!(rb.len(), 2);
    assert_eq!(rb.tail(), 2);
    assert_eq!(rb.get(0), Some(&6));
    rb.push(8);
    rb.push(9);
    rb.push(10);
    assert_eq!(rb.to_vec(), vec![7, 8, 9, 10]);
}

#[test]
fn clear_then_push_leaves_one_value() {
    let mut rb: Ring<i32, 4> = Ring::new();
    for v in 1..=9 {
        rb.push(v);
    }
    rb.clear();
    rb.push(42);
    assert_eq!(rb.len(), 1);
    assert_eq!(rb.last(), Some(&42));
    assert_eq!(rb.to_vec(), vec![42]);
}

#[test]
fn two_slices_concatenate_to_contents() {
    let mut rb: Ring<i32, 4> = Ring::new();
    for v in 1..=10 {
        rb.push(v);
        assert_eq!(joined(&rb), rb.to_vec());
    }
    rb.truncate_front(3);
    assert_eq!(joined(&rb), vec![8, 9, 10]);
}

#[test]
fn empty_buffer_reads_absent() {
    let rb: Ring<i32, 4> = Ring::default();
    assert!(rb.is_empty());
    assert_eq!(rb.last(), None);
    assert_eq!(rb.get(0), None);
    assert!(rb.to_vec().is_empty());
}

#[test]
fn extend_equals_repeated_push() {
    let mut a: Ring<i32, 4> = Ring::new();
    a.push(100);
    a.extend(&[1, 2, 3, 4, 5]);
    let mut b: Ring<i32, 4> = Ring::new();
    for v in [100, 1, 2, 3, 4, 5] {
        b.push(v);
    }
    assert_eq!(a.to_vec(), b.to_vec());
    assert_eq!(a.tail(), 6);
    let c: Ring<i32, 4> = Ring::from_slice(&[1, 2, 3, 4, 5, 6]);
    assert_eq!(c.to_vec(), vec![3, 4, 5, 6]);
}

#[test]
fn iterator_hands_out_oldest_first() {
    let mut rb: Ring<i32, 4> = Ring::new();
    for v in 1..=6 {
        rb.push(v);
    }
    let mut it = rb.iter();
    assert_eq!(it.len(), 4);
    assert_eq!(it.size_hint(), (4, Some(4)));
    assert_eq!(it.next(), Some(&3));
    assert_eq!(it.next(), Some(&4));
    assert_eq!(it.next(), Some(&5));
    assert_eq!(it.next(), Some(&6));
    assert_eq!(it.len(), 0);
    assert_eq!(it.next(), None);
}

#[test]
fn push_into_full_buffer_evicts_single_oldest() {
    let mut rb: Ring<i32, 3> = Ring::new();
    for v in [1, 2, 3] {
        rb.push(v);
    }
    rb.push(4);
    assert_eq!(rb.to_vec(), vec![2, 3, 4]);
    assert_eq!(rb.len(), 3);
    rb.push(5);
    assert_eq!(rb.to_vec(), vec![3, 4, 5]);
}

#[test]
fn exactly_full_buffer_is_one_slice() {
    let mut rb: Ring<i32, 3> = Ring::new();
    rb.push(1);
    rb.push(2);
    rb.push(3);
    let (left, right) = rb.as_slices();
    assert_eq!(left, &[1, 2, 3]);
    assert!(right.is_empty());
}

#[test]
fn zero_capacity_buffer_reads_absent() {
    let rb: Ring<i32, 0> = Ring::new();
    assert!(rb.is_empty());
    assert_eq!(rb.len(), 0);
    assert_eq!(rb.last(), None);
    assert_eq!(rb.get(0), None);
    assert!(rb.to_vec().is_empty());
}
