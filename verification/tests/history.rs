use system_monitor::collectors::{History60, RingBuffer};

#[test]
fn new_history_is_empty() {
    let history: RingBuffer<4> = RingBuffer::new();
    assert!(history.is_empty());
    assert_eq!(history.len(), 0);
    assert_eq!(history.as_vec(), Vec::<u64>::new());
}

#[test]
fn default_history_is_empty() {
    let history = History60::default();
    assert!(history.is_empty());
    assert_eq!(history.as_vec(), Vec::<u64>::new());
}

#[test]
fn history_grows_until_full() {
    let mut history: RingBuffer<3> = RingBuffer::new();
    history.push(7);
    assert_eq!(history.as_vec(), vec![7]);
    assert!(!history.is_empty());
    history.push(8);
    assert_eq!(history.as_vec(), vec![7, 8]);
    history.push(9);
    assert_eq!(history.as_vec(), vec![7, 8, 9]);
    assert_eq!(history.len(), 3);
}

#[test]
fn full_history_drops_the_oldest_sample() {
    let mut history: RingBuffer<3> = RingBuffer::new();
    for value in [1u64, 2, 3, 4] {
        history.push(value);
    }
    assert_eq!(history.as_vec(), vec![2, 3, 4]);
    history.push(5);
    assert_eq!(history.as_vec(), vec![3, 4, 5]);
    assert_eq!(history.len(), 3);
}

#[test]
fn history_is_a_sliding_window_of_the_pushes() {
    // After n pushes into a buffer of capacity k the snapshot has min(n, k)
    // entries and begins with the (n - k + 1)-th value pushed.
    let mut history: RingBuffer<5> = RingBuffer::new();
    let pushed: Vec<u64> = (0..23u64).map(|i| i * i + 1).collect();
    for (n, value) in pushed.iter().enumerate() {
        history.push(*value);
        let count = n + 1;
        let snapshot = history.as_vec();
        assert_eq!(snapshot.len(), count.min(5));
        assert_eq!(history.len(), count.min(5));
        let first = count.saturating_sub(5);
        assert_eq!(snapshot, pushed[first..count].to_vec());
        if count > 5 {
            assert_eq!(snapshot[0], pushed[count - 5]);
        }
    }
}

#[test]
fn history_of_sixty_keeps_one_minute() {
    let mut history = History60::new();
    for second in 0..100u64 {
        history.push(second);
    }
    let snapshot = history.as_vec();
    assert_eq!(snapshot.len(), 60);
    assert_eq!(snapshot[0], 40);
    assert_eq!(snapshot[59], 99);
}

#[test]
fn history_of_capacity_one_keeps_the_last_sample() {
    let mut history: RingBuffer<1> = RingBuffer::new();
    history.push(4);
    history.push(6);
    assert_eq!(history.as_vec(), vec![6]);
}

#[test]
fn history_without_capacity_stays_empty() {
    let mut history: RingBuffer<0> = RingBuffer::new();
    history.push(4);
    history.push(6);
    assert!(history.is_empty());
    assert_eq!(history.as_vec(), Vec::<u64>::new());
}

#[test]
fn history_stores_samples_unmodified() {
    let mut history: RingBuffer<2> = RingBuffer::new();
    history.push(u64::MAX);
    history.push(0);
    assert_eq!(history.as_vec(), vec![u64::MAX, 0]);
}

#[test]
fn cloned_history_holds_the_same_samples() {
    let mut history: RingBuffer<3> = RingBuffer::new();
    for value in [1u64, 2, 3, 4] {
        history.push(value);
    }
    let mut copy = history.clone();
    assert_eq!(copy.as_vec(), vec![2, 3, 4]);
    copy.push(5);
    assert_eq!(copy.as_vec(), vec![3, 4, 5]);
    assert_eq!(history.as_vec(), vec![2, 3, 4]);
}
