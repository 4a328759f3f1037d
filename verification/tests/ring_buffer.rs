use serial_transport::ring_buffer::{BufferError, RingBuffer};

#[test]
fn new_buffer_is_empty() {
    let b = RingBuffer::<8>::new();
    assert!(b.empty());
    assert!(!b.full());
    assert_eq!(b.data_size(), 0);
}

#[test]
fn put_then_get_returns_the_byte() {
    let mut b = RingBuffer::<8>::new();
    assert_eq!(b.put(0x5a), Ok(()));
    assert!(!b.empty());
    assert_eq!(b.data_size(), 1);
    assert_eq!(b.get(), Ok(0x5a));
    assert!(b.empty());
    assert_eq!(b.data_size(), 0);
}

#[test]
fn get_on_empty_reports_buffer_empty_and_changes_nothing() {
    let mut b = RingBuffer::<4>::new();
    assert_eq!(b.get(), Err(BufferError::BufferEmpty));
    assert!(b.empty());
    assert_eq!(b.data_size(), 0);
    // Move the cursors off slot 0, drain, and ask again.
    assert_eq!(b.put(1), Ok(()));
    assert_eq!(b.put(2), Ok(()));
    assert_eq!(b.get(), Ok(1));
    assert_eq!(b.get(), Ok(2));
    assert_eq!(b.get(), Err(BufferError::BufferEmpty));
    assert_eq!(b.get(), Err(BufferError::BufferEmpty));
    assert!(b.empty());
    // The cursors stayed where they were: three more bytes still fit and
    // come back in order.
    assert_eq!(b.put(3), Ok(()));
    assert_eq!(b.put(4), Ok(()));
    assert_eq!(b.put(5), Ok(()));
    assert!(b.full());
    assert_eq!(b.get(), Ok(3));
    assert_eq!(b.get(), Ok(4));
    assert_eq!(b.get(), Ok(5));
}

#[test]
fn put_on_full_reports_buffer_full_and_changes_nothing() {
    let mut b = RingBuffer::<4>::new();
    assert_eq!(b.put(10), Ok(()));
    assert_eq!(b.put(11), Ok(()));
    assert_eq!(b.put(12), Ok(()));
    assert!(b.full());
    assert_eq!(b.data_size(), 3);
    assert_eq!(b.put(13), Err(BufferError::BufferFull));
    assert_eq!(b.put(14), Err(BufferError::BufferFull));
    assert!(b.full());
    assert_eq!(b.data_size(), 3);
    assert_eq!(b.get(), Ok(10));
    assert_eq!(b.get(), Ok(11));
    assert_eq!(b.get(), Ok(12));
    assert_eq!(b.get(), Err(BufferError::BufferEmpty));
}

#[test]
fn one_slot_is_always_kept_free() {
    let mut b = RingBuffer::<5>::new();
    let mut accepted: usize = 0;
    let mut i: u8 = 0;
    while i < 20 {
        if b.put(i).is_ok() {
            accepted += 1;
        }
        assert!(b.data_size() <= 4);
        i += 1;
    }
    assert_eq!(accepted, 4);
    assert_eq!(b.data_size(), 4);
}

#[test]
fn round_trip_keeps_insertion_order() {
    let mut b = RingBuffer::<8>::new();
    let bytes: [u8; 7] = [9, 8, 7, 250, 0, 1, 9];
    let mut i: usize = 0;
    while i < 7 {
        assert_eq!(b.put(bytes[i]), Ok(()));
        i += 1;
    }
    let mut back: Vec<u8> = Vec::new();
    let mut j: usize = 0;
    while j < 7 {
        back.push(b.get().unwrap());
        j += 1;
    }
    assert_eq!(back, bytes.to_vec());
    assert!(b.empty());
}

#[test]
fn capacity_256_takes_255_bytes() {
    let mut b = RingBuffer::<256>::new();
    let mut i: usize = 0;
    while i < 255 {
        assert_eq!(b.put((i % 251) as u8), Ok(()));
        i += 1;
    }
    assert!(b.full());
    assert_eq!(b.data_size(), 255);
    assert_eq!(b.put(0xff), Err(BufferError::BufferFull));
    assert_eq!(b.data_size(), 255);
    let mut j: usize = 0;
    while j < 255 {
        assert_eq!(b.get(), Ok((j % 251) as u8));
        j += 1;
    }
    assert!(b.empty());
    assert_eq!(b.data_size(), 0);
    assert_eq!(b.get(), Err(BufferError::BufferEmpty));
}

#[test]
fn data_size_counts_round_the_wrap() {
    let mut b = RingBuffer::<4>::new();
    // write = 3, read = 3
    assert_eq!(b.put(1), Ok(()));
    assert_eq!(b.put(2), Ok(()));
    assert_eq!(b.put(3), Ok(()));
    assert_eq!(b.get(), Ok(1));
    assert_eq!(b.get(), Ok(2));
    assert_eq!(b.get(), Ok(3));
    // write wraps to 1 while read stays at 3: (1 - 3) mod 4 = 2
    assert_eq!(b.put(4), Ok(()));
    assert_eq!(b.put(5), Ok(()));
    assert_eq!(b.data_size(), 2);
    assert!(!b.full());
    assert_eq!(b.put(6), Ok(()));
    assert_eq!(b.data_size(), 3);
    assert!(b.full());
    assert_eq!(b.get(), Ok(4));
    assert_eq!(b.get(), Ok(5));
    assert_eq!(b.get(), Ok(6));
    assert!(b.empty());
}

#[test]
fn fifo_order_survives_many_wraps() {
    let mut b = RingBuffer::<3>::new();
    let mut next_in: u8 = 0;
    let mut next_out: u8 = 0;
    let mut round: usize = 0;
    while round < 50 {
        assert_eq!(b.put(next_in), Ok(()));
        next_in = next_in.wrapping_add(1);
        assert_eq!(b.put(next_in), Ok(()));
        next_in = next_in.wrapping_add(1);
        assert_eq!(b.put(0xee), Err(BufferError::BufferFull));
        assert_eq!(b.get(), Ok(next_out));
        next_out = next_out.wrapping_add(1);
        assert_eq!(b.get(), Ok(next_out));
        next_out = next_out.wrapping_add(1);
        assert_eq!(b.get(), Err(BufferError::BufferEmpty));
        round += 1;
    }
}

#[test]
fn single_slot_buffer_holds_nothing() {
    let mut b = RingBuffer::<1>::new();
    assert!(b.empty());
    assert!(b.full());
    assert_eq!(b.put(1), Err(BufferError::BufferFull));
    assert_eq!(b.get(), Err(BufferError::BufferEmpty));
    assert_eq!(b.data_size(), 0);
}

#[test]
fn two_slot_buffer_holds_one_byte() {
    let mut b = RingBuffer::<2>::new();
    assert_eq!(b.put(7), Ok(()));
    assert!(b.full());
    assert_eq!(b.put(8), Err(BufferError::BufferFull));
    assert_eq!(b.get(), Ok(7));
    assert!(b.empty());
    assert_eq!(b.put(9), Ok(()));
    assert_eq!(b.get(), Ok(9));
}
