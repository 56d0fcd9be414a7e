use voice_core::ring::RingBuffer;

fn write_range(rb: &mut RingBuffer, lo: i16, hi: i16) {
    let vals: Vec<i16> = (lo..hi).collect();
    rb.write_samples(&vals);
}

#[test]
fn read_latest_returns_last_capacity_values() {
    // capacity C, C + k distinct increasing writes: the last C come back in order
    let mut rb = RingBuffer::new(10);
    write_range(&mut rb, 0, 17);
    let got = rb.read_latest(10);
    let want: Vec<i16> = (7..17).collect();
    assert_eq!(got, want);
}

#[test]
fn read_latest_clamps_to_written() {
    let mut rb = RingBuffer::new(10);
    write_range(&mut rb, 0, 3);
    assert_eq!(rb.read_latest(10), vec![0, 1, 2]);
    assert_eq!(rb.read_latest(2), vec![1, 2]);
}

#[test]
fn read_latest_empty_buffer() {
    let rb = RingBuffer::new(8);
    assert!(rb.read_latest(4).is_empty());
}

#[test]
fn read_latest_overlaps_and_does_not_consume() {
    let mut rb = RingBuffer::new(10);
    write_range(&mut rb, 0, 6);
    assert_eq!(rb.read_latest(3), vec![3, 4, 5]);
    assert_eq!(rb.read_latest(3), vec![3, 4, 5]);
    assert_eq!(rb.unread_samples(), 6);
}

#[test]
fn end_to_end_latest_scenario() {
    // capacity 10; write 0..=14; the latest five are 10..=14
    let mut rb = RingBuffer::new(10);
    write_range(&mut rb, 0, 15);
    assert_eq!(rb.read_latest(5), vec![10, 11, 12, 13, 14]);
}

#[test]
fn end_to_end_stream_scenario() {
    // capacity 10; write 7, stream 7, write 7 more, stream 7:
    // the two reads partition the history with no duplication
    let mut rb = RingBuffer::new(10);
    write_range(&mut rb, 0, 7);
    assert_eq!(rb.read_stream(7), vec![0, 1, 2, 3, 4, 5, 6]);
    write_range(&mut rb, 7, 14);
    assert_eq!(rb.read_stream(7), vec![7, 8, 9, 10, 11, 12, 13]);
}

#[test]
fn stream_reads_are_contiguous_and_disjoint() {
    let mut rb = RingBuffer::new(16);
    write_range(&mut rb, 0, 12);
    let a = rb.read_stream(5);
    let b = rb.read_stream(5);
    let c = rb.read_stream(5);
    assert_eq!(a, vec![0, 1, 2, 3, 4]);
    assert_eq!(b, vec![5, 6, 7, 8, 9]);
    assert_eq!(c, vec![10, 11]);
}

#[test]
fn stream_cursor_rectified_after_overwrite() {
    // backlog beyond capacity: the cursor jumps to the oldest valid sample,
    // skipping but never duplicating or reordering
    let mut rb = RingBuffer::new(10);
    write_range(&mut rb, 0, 25);
    let got = rb.read_stream(5);
    assert_eq!(got, vec![15, 16, 17, 18, 19]);
    let rest = rb.read_stream(10);
    assert_eq!(rest, vec![20, 21, 22, 23, 24]);
}

#[test]
fn unread_samples_clamps_at_capacity() {
    let mut rb = RingBuffer::new(10);
    write_range(&mut rb, 0, 25);
    assert_eq!(rb.unread_samples(), 10);
}

#[test]
fn reset_stream_position_discards_backlog() {
    let mut rb = RingBuffer::new(10);
    write_range(&mut rb, 0, 6);
    rb.reset_stream_position();
    assert_eq!(rb.unread_samples(), 0);
    write_range(&mut rb, 6, 9);
    assert_eq!(rb.read_stream(10), vec![6, 7, 8]);
}

#[test]
fn clear_discards_everything() {
    let mut rb = RingBuffer::new(10);
    write_range(&mut rb, 0, 9);
    rb.clear();
    assert_eq!(rb.total_written(), 0);
    assert!(rb.read_latest(5).is_empty());
    assert_eq!(rb.unread_samples(), 0);
}

#[test]
fn empty_stream_read_leaves_cursor() {
    let mut rb = RingBuffer::new(10);
    write_range(&mut rb, 0, 4);
    assert!(rb.read_stream(0).is_empty());
    assert_eq!(rb.read_stream(4), vec![0, 1, 2, 3]);
}
