use sh4der_jockey::ringbuffer::RingBuffer;

#[test]
fn create() {
    let rb = RingBuffer::<f32>::new(8192);
    assert_eq!(rb.size, rb.buffer.len());
}

#[test]
fn push() {
    let mut rb = RingBuffer::<f32>::new(8192);
    rb.push(&12_f32);
    assert_eq!(rb.get(rb.size - 1), 12_f32);
}

#[test]
fn push_slice() {
    let mut rb = RingBuffer::<f32>::new(8192);
    let slice = [13_f32; 8192];
    rb.push_slice(&slice);
    for i in 0..8192 {
        assert_eq!(rb.get(i), 13_f32);
    }
}

#[test]
fn get_vec() {
    let mut rb = RingBuffer::<f32>::new(8192);
    let pre_slice = [13_f32; 8192];
    rb.push_slice(&pre_slice);

    let mut ret_slice = [0_f32; 8192];
    rb.get_vec(&mut ret_slice);

    for i in 0..8192 {
        assert_eq!(pre_slice[i], ret_slice[i]);
    }
}

#[test]
fn ringbuffer_new_is_filled_with_defaults() {
    let rb = RingBuffer::<u32>::new(4);
    assert_eq!(rb.buffer, vec![0, 0, 0, 0]);
    assert_eq!(rb.index, 0);
}

#[test]
fn ringbuffer_push_wraps_around() {
    let mut rb = RingBuffer::<u32>::new(3);
    rb.push_slice(&[1, 2, 3, 4, 5]);
    // the window holds the last three values, oldest first
    assert_eq!(rb.get(0), 3);
    assert_eq!(rb.get(1), 4);
    assert_eq!(rb.get(2), 5);
    // indices wrap around
    assert_eq!(rb.get(3), 3);
    assert_eq!(rb.index, 2);
    let mut out = [0u32; 5];
    rb.get_vec(&mut out);
    assert_eq!(out, [3, 4, 5, 3, 4]);
}

#[test]
fn ringbuffer_partial_fill_keeps_old_values() {
    let mut rb = RingBuffer::<i64>::new(4);
    rb.push(&7);
    rb.push(&8);
    assert_eq!(rb.get(0), 0);
    assert_eq!(rb.get(1), 0);
    assert_eq!(rb.get(2), 7);
    assert_eq!(rb.get(3), 8);
}

#[test]
fn push_slice_moves_the_write_position() {
    let mut rb = RingBuffer::<u8>::new(4);
    rb.push(&1);
    rb.push_slice(&[2, 3, 4, 5, 6]);
    assert_eq!(rb.index, (1 + 5) % 4);
    let mut v = [0u8; 4];
    rb.get_vec(&mut v);
    assert_eq!(v, [3, 4, 5, 6]);
}
