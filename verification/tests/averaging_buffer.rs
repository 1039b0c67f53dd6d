use cutoff_common::collections::averaging_buffer::AveragingBuffer;

#[test]
fn test_new() {
    let buffer = AveragingBuffer::new(5);
    assert_eq!(buffer.capacity, 5);
    assert!(buffer.buffer.is_empty());
    assert_eq!(buffer.sum, 0);
}

#[test]
fn test_push_within_capacity() {
    let mut buffer = AveragingBuffer::new(3);
    buffer.push(1);
    buffer.push(2);
    buffer.push(3);
    assert_eq!(buffer.sum, 6);
    assert_eq!(buffer.buffer.len(), 3);
}

#[test]
fn test_push_evicts_oldest() {
    let mut buffer = AveragingBuffer::new(3);
    buffer.push(1);
    buffer.push(2);
    buffer.push(3);
    buffer.push(4);
    assert_eq!(buffer.buffer.len(), 3);
    assert_eq!(buffer.sum, 9);
    assert_eq!(buffer.buffer.front(), Some(&2));
}

#[test]
fn test_saturating_sum() {
    let mut buffer = AveragingBuffer::new(3);
    buffer.push(usize::MAX);
    buffer.push(usize::MAX);
    buffer.push(usize::MAX);
    assert_eq!(buffer.sum, usize::MAX);
    buffer.push(1);
    assert_eq!(buffer.sum, 1);
}
