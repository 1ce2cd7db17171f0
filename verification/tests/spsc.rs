use ease::spsc::Queue;

#[test]
fn spsc_resplit_resets_queue() {
    let mut q: Queue<u8, 4> = Queue::new();
    q.split();
    q.push(1).unwrap();
    q.push(2).unwrap();
    q.split();
    assert!(q.is_empty(), "re-split must reset the indices");
    assert_eq!(q.pop(), None, "stale data must not be readable after re-split");
    q.push(3).unwrap();
    assert_eq!(q.pop(), Some(3));
}

#[test]
fn spsc_full_at_exactly_n() {
    let mut q: Queue<u32, 8> = Queue::new();
    q.split();
    assert!(q.is_empty());
    for i in 0..8u32 {
        assert!(!q.is_full());
        assert!(q.push(i).is_ok(), "push {i} unexpectedly failed");
    }
    assert!(q.is_full());
    assert_eq!(q.push(99), Err(99), "push to full must return the value");
    for i in 0..8u32 {
        assert_eq!(q.pop(), Some(i));
    }
    assert!(q.is_empty());
    assert_eq!(q.pop(), None);
}

#[test]
fn spsc_wraparound_preserves_fifo() {
    let mut q: Queue<u32, 4> = Queue::new();
    q.split();
    for batch in 0..20u32 {
        let base = batch * 3;
        assert!(q.push(base).is_ok());
        assert!(q.push(base + 1).is_ok());
        assert!(q.push(base + 2).is_ok());
        assert_eq!(q.pop(), Some(base));
        assert_eq!(q.pop(), Some(base + 1));
        assert_eq!(q.pop(), Some(base + 2));
    }
    assert!(q.is_empty());
}

#[test]
fn spsc_index_rollover() {
    let mut q: Queue<u32, 8> = Queue::new();
    let start = usize::MAX - 2;
    q.start_at(start);
    for i in 0..8u32 {
        assert!(q.push(i).is_ok(), "push {i} failed across rollover");
    }
    assert!(q.is_full(), "full must be detected across rollover");
    assert_eq!(q.push(99), Err(99));
    for i in 0..8u32 {
        assert_eq!(q.pop(), Some(i), "FIFO broken across rollover");
    }
    assert!(q.is_empty(), "empty must be detected across rollover");
    assert!(q.tail() < start);
    assert!(q.head() < start);
}

#[test]
fn spsc_len_and_remaining_track_contents() {
    let mut q: Queue<u8, 4> = Queue::new();
    assert_eq!(q.len(), 0);
    assert_eq!(q.remaining(), 4);
    q.push(7).unwrap();
    q.push(8).unwrap();
    assert_eq!(q.len(), 2);
    assert_eq!(q.remaining(), 2);
    assert_eq!(q.pop(), Some(7));
    assert_eq!(q.len(), 1);
}
