use system_monitor::collectors::ranking::rank_top;
use system_monitor::collectors::{ProcessCollector, ProcessReading, RunState};

const MB: u64 = 1024 * 1024;

fn process(pid: u32, cpu: u32, memory: u64) -> ProcessReading {
    ProcessReading {
        pid,
        name: format!("proc{}", pid),
        cpu_percent: cpu,
        memory_bytes: memory,
        threads: Some(2),
        state: RunState::Sleeping,
        status: "Sleep".to_string(),
    }
}

fn pids(list: &Vec<system_monitor::collectors::ProcessInfo>) -> Vec<u32> {
    list.iter().map(|p| p.pid).collect()
}

#[test]
fn ranking_orders_by_key_descending() {
    assert_eq!(rank_top(&vec![10, 90, 50], 5), vec![1, 2, 0]);
    assert_eq!(rank_top(&vec![5, 1, 9], 5), vec![2, 0, 1]);
}

#[test]
fn ranking_keeps_enumeration_order_among_equals() {
    assert_eq!(rank_top(&vec![7, 7, 7, 7], 5), vec![0, 1, 2, 3]);
    assert_eq!(rank_top(&vec![1, 7, 3, 7, 3, 1], 6), vec![1, 3, 2, 4, 0, 5]);
}

#[test]
fn ranking_is_cut_at_the_limit() {
    assert_eq!(rank_top(&vec![1, 2, 3, 4, 5, 6, 7, 8], 5), vec![7, 6, 5, 4, 3]);
    assert_eq!(rank_top(&vec![8, 7, 6, 5, 4, 3, 2, 1], 5), vec![0, 1, 2, 3, 4]);
    assert_eq!(rank_top(&vec![3, 3, 3, 3, 3, 3, 9], 5), vec![6, 0, 1, 2, 3]);
    assert_eq!(rank_top(&vec![3, 1, 2], 1), vec![0]);
    assert_eq!(rank_top(&vec![3, 1, 2], 0), Vec::<usize>::new());
    assert_eq!(rank_top(&Vec::new(), 5), Vec::<usize>::new());
}

#[test]
fn ranking_agrees_with_a_stable_sort() {
    let mut state: u64 = 0x1234_5678_9abc_def1;
    for round in 0..500 {
        let len = round % 23;
        let mut keys: Vec<u64> = Vec::new();
        for _ in 0..len {
            state ^= state << 13;
            state ^= state >> 7;
            state ^= state << 17;
            keys.push(state % 6);
        }
        let mut order: Vec<usize> = (0..keys.len()).collect();
        order.sort_by(|a, b| keys[*b].cmp(&keys[*a]));
        for limit in [0usize, 1, 5, 30] {
            let expected: Vec<usize> = order.iter().take(limit).cloned().collect();
            assert_eq!(rank_top(&keys, limit), expected, "keys {:?}", keys);
        }
    }
}

#[test]
fn top_lists_rank_independently() {
    let mut collector = ProcessCollector::new(100 * MB);
    let readings = vec![process(1, 1000, 5 * MB), process(2, 9000, MB), process(3, 5000, 9 * MB)];
    collector.collect(&readings);
    let cpu: Vec<u32> = collector.data.top_cpu.iter().map(|p| p.cpu_percent).collect();
    let memory: Vec<u64> = collector.data.top_memory.iter().map(|p| p.memory_bytes).collect();
    assert_eq!(cpu, vec![9000, 5000, 1000]);
    assert_eq!(memory, vec![9 * MB, 5 * MB, MB]);
    assert_eq!(pids(&collector.data.top_cpu), vec![2, 3, 1]);
    assert_eq!(pids(&collector.data.top_memory), vec![3, 1, 2]);
}

#[test]
fn top_lists_hold_five_processes() {
    let mut collector = ProcessCollector::new(1000 * MB);
    let readings: Vec<ProcessReading> =
        (1..=8u32).map(|i| process(i, i * 100, (9 - i) as u64 * MB)).collect();
    collector.collect(&readings);
    assert_eq!(pids(&collector.data.top_cpu), vec![8, 7, 6, 5, 4]);
    assert_eq!(pids(&collector.data.top_memory), vec![1, 2, 3, 4, 5]);
    assert_eq!(collector.data.total_processes, 8);
}

#[test]
fn top_lists_break_ties_by_enumeration_order() {
    let mut collector = ProcessCollector::new(1000 * MB);
    // equal memory everywhere: the memory list keeps the enumeration order,
    // whatever the processor ranking is
    let readings = vec![
        process(11, 100, 4 * MB),
        process(12, 900, 4 * MB),
        process(13, 500, 4 * MB),
        process(14, 900, 4 * MB),
    ];
    collector.collect(&readings);
    assert_eq!(pids(&collector.data.top_cpu), vec![12, 14, 13, 11]);
    assert_eq!(pids(&collector.data.top_memory), vec![11, 12, 13, 14]);
}

#[test]
fn process_counts_by_state() {
    let mut collector = ProcessCollector::new(1000 * MB);
    let mut readings: Vec<ProcessReading> = (1..=7u32).map(|i| process(i, 0, MB)).collect();
    readings[0].state = RunState::Running;
    readings[1].state = RunState::Running;
    readings[2].state = RunState::Zombie;
    readings[3].state = RunState::Other;
    readings[4].threads = None;
    readings[5].threads = Some(40);
    readings[6].threads = Some(0);
    collector.collect(&readings);
    assert_eq!(collector.data.total_processes, 7);
    assert_eq!(collector.data.running, 2);
    assert_eq!(collector.data.sleeping, 3);
    assert_eq!(collector.data.zombies, 1);
    // four processes with two threads, one without a count, forty and none
    assert_eq!(collector.data.total_threads, 4 * 2 + 1 + 40);
}

#[test]
fn process_thread_total_has_room_for_any_count() {
    let mut collector = ProcessCollector::new(0);
    let mut readings: Vec<ProcessReading> = (1..=3u32).map(|i| process(i, 0, MB)).collect();
    for reading in readings.iter_mut() {
        reading.threads = Some(usize::MAX);
    }
    collector.collect(&readings);
    assert_eq!(collector.data.total_threads, 3 * usize::MAX as u128);
}

#[test]
fn process_snapshot_carries_the_reading() {
    let mut collector = ProcessCollector::new(200 * MB);
    let mut reading = process(42, 1234, 50 * MB);
    reading.name = "worker".to_string();
    reading.status = "Run".to_string();
    reading.state = RunState::Running;
    reading.threads = None;
    collector.collect(&vec![reading]);
    let info = &collector.data.top_cpu[0];
    assert_eq!(info.pid, 42);
    assert_eq!(info.name, "worker");
    assert_eq!(info.cpu_percent, 1234);
    assert_eq!(info.memory_bytes, 50 * MB);
    assert_eq!(info.memory_percent, 2500);
    assert_eq!(info.threads, 1);
    assert_eq!(info.status, "Run");
    assert_eq!(collector.data.top_memory[0].pid, 42);
}

#[test]
fn process_memory_share_is_guarded_and_fixed_at_start() {
    let mut collector = ProcessCollector::new(0);
    collector.collect(&vec![process(1, 0, 50 * MB)]);
    assert_eq!(collector.data.top_cpu[0].memory_percent, 0);
    let mut small = ProcessCollector::new(10 * MB);
    small.collect(&vec![process(1, 0, 50 * MB)]);
    assert_eq!(small.data.top_cpu[0].memory_percent, 10_000);
    assert_eq!(small.total_memory, 10 * MB);
}

#[test]
fn process_collector_starts_empty_and_refreshes_fully() {
    let mut collector = ProcessCollector::new(100 * MB);
    assert_eq!(collector.data.total_processes, 0);
    assert_eq!(collector.data.total_threads, 0);
    assert!(collector.data.top_cpu.is_empty());
    assert!(collector.data.top_memory.is_empty());
    collector.collect(&vec![process(1, 10, MB), process(2, 20, MB)]);
    assert_eq!(collector.data.total_processes, 2);
    collector.collect(&Vec::new());
    assert_eq!(collector.data.total_processes, 0);
    assert_eq!(collector.data.total_threads, 0);
    assert_eq!(collector.data.sleeping, 0);
    assert!(collector.data.top_cpu.is_empty());
    assert!(collector.data.top_memory.is_empty());
}

#[test]
fn process_usage_above_one_hundred_percent_is_kept() {
    let mut collector = ProcessCollector::new(100 * MB);
    collector.collect(&vec![process(1, 10_000, MB), process(2, 35_000, MB), process(3, 20_000, MB)]);
    let cpu: Vec<u32> = collector.data.top_cpu.iter().map(|p| p.cpu_percent).collect();
    assert_eq!(cpu, vec![35_000, 20_000, 10_000]);
}
