use tun_inbound::virt_device::{FrameRing, PacketBuffer};

#[test]
fn packet_buffer_tracks_length_and_capacity() {
    let mut b = PacketBuffer::with_capacity(64);
    assert_eq!(b.capacity(), 64);
    assert_eq!(b.len(), 0);
    assert_eq!(b.as_bytes(), &[] as &[u8]);
    b.storage_mut()[0] = 7;
    b.storage_mut()[1] = 9;
    b.set_len(2);
    assert_eq!(b.len(), 2);
    assert_eq!(b.as_bytes(), &[7, 9]);
    assert_eq!(b.capacity(), 64);
}

#[test]
fn frame_ring_is_bounded_and_fifo() {
    let mut r = FrameRing::new(2);
    assert_eq!(r.len(), 0);
    assert_eq!(r.pop(), None);
    assert!(r.push(vec![1]));
    assert!(r.push(vec![2, 2]));
    assert!(!r.push(vec![3, 3, 3]));
    assert_eq!(r.len(), 2);
    assert_eq!(r.pop(), Some(vec![1]));
    assert_eq!(r.pop(), Some(vec![2, 2]));
    assert_eq!(r.pop(), None);
    assert!(r.push(vec![4]));
    assert_eq!(r.pop(), Some(vec![4]));
}
