use system_monitor::collectors::{MemoryCollector, MemoryData, MemoryReading};

const GB: u64 = 1024 * 1024 * 1024;

#[test]
fn new_memory_collector_is_empty() {
    let memory = MemoryCollector::new();
    assert_eq!(memory.data.total, 0);
    assert_eq!(memory.data.used, 0);
    assert_eq!(memory.data.available, 0);
    assert_eq!(memory.data.usage_percent, 0);
    assert_eq!(memory.data.swap_total, 0);
    assert_eq!(memory.data.swap_used, 0);
    assert_eq!(memory.data.swap_percent, 0);
    assert!(memory.history.is_empty());
    let data = MemoryData::default();
    assert_eq!(data.total, 0);
    assert_eq!(data.swap_percent, 0);
}

#[test]
fn memory_percentages_are_used_over_total() {
    let mut memory = MemoryCollector::new();
    memory.collect(&MemoryReading {
        total: 16 * GB,
        used: 4 * GB,
        available: 11 * GB,
        swap_total: 8 * GB,
        swap_used: GB,
    });
    assert_eq!(memory.data.total, 16 * GB);
    assert_eq!(memory.data.used, 4 * GB);
    assert_eq!(memory.data.available, 11 * GB);
    assert_eq!(memory.data.usage_percent, 2500);
    assert_eq!(memory.data.swap_total, 8 * GB);
    assert_eq!(memory.data.swap_used, GB);
    assert_eq!(memory.data.swap_percent, 1250);
    assert_eq!(memory.history.as_vec(), vec![25]);
}

#[test]
fn memory_without_swap_has_zero_swap_percent() {
    let mut memory = MemoryCollector::new();
    memory.collect(&MemoryReading { total: 0, used: 7, available: 0, swap_total: 0, swap_used: 3 });
    assert_eq!(memory.data.usage_percent, 0);
    assert_eq!(memory.data.swap_percent, 0);
    assert_eq!(memory.data.used, 7);
    assert_eq!(memory.history.as_vec(), vec![0]);
}

#[test]
fn memory_carries_nothing_between_ticks_but_the_history() {
    let mut memory = MemoryCollector::new();
    memory.collect(&MemoryReading { total: 100, used: 99, available: 1, swap_total: 10, swap_used: 10 });
    memory.collect(&MemoryReading { total: 200, used: 20, available: 180, swap_total: 0, swap_used: 0 });
    assert_eq!(memory.data.usage_percent, 1000);
    assert_eq!(memory.data.swap_percent, 0);
    assert_eq!(memory.data.available, 180);
    assert_eq!(memory.history.as_vec(), vec![99, 10]);
    memory.collect(&MemoryReading { total: 3, used: 9, available: 0, swap_total: 1, swap_used: 1 });
    assert_eq!(memory.data.usage_percent, 10_000);
    assert_eq!(memory.data.swap_percent, 10_000);
    assert_eq!(memory.history.as_vec(), vec![99, 10, 100]);
}
