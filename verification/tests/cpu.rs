use system_monitor::collectors::{CpuCollector, CpuReading};

fn cpu(usage: u32, frequency: u64) -> CpuReading {
    CpuReading { brand: "Example CPU @ 3.0GHz".to_string(), usage, frequency }
}

#[test]
fn new_cpu_collector_ignores_the_first_usages() {
    let cpus = vec![cpu(9000, 3000), cpu(8000, 2900), cpu(100, 2800), cpu(0, 2700)];
    let collector = CpuCollector::new(&cpus, Some(2));
    assert_eq!(collector.data.model, "Example CPU @ 3.0GHz");
    assert_eq!(collector.data.physical_cores, 2);
    assert_eq!(collector.data.logical_cores, 4);
    assert_eq!(collector.data.global_usage, 0);
    assert_eq!(collector.data.per_core_usage, vec![0, 0, 0, 0]);
    assert_eq!(collector.data.frequency_mhz, 3000);
    assert!(collector.history.is_empty());
}

#[test]
fn new_cpu_collector_without_core_count() {
    let cpus = vec![cpu(0, 1), cpu(0, 2), cpu(0, 3)];
    let collector = CpuCollector::new(&cpus, None);
    assert_eq!(collector.data.physical_cores, 3);
    assert_eq!(collector.data.logical_cores, 3);
}

#[test]
fn new_cpu_collector_without_processors() {
    let collector = CpuCollector::new(&Vec::new(), None);
    assert_eq!(collector.data.model, "");
    assert_eq!(collector.data.physical_cores, 0);
    assert_eq!(collector.data.logical_cores, 0);
    assert_eq!(collector.data.frequency_mhz, 0);
    assert!(collector.data.per_core_usage.is_empty());
}

#[test]
fn cpu_global_usage_is_the_mean() {
    let mut collector = CpuCollector::new(&vec![cpu(0, 3000), cpu(0, 3000)], None);
    collector.collect(&vec![cpu(1000, 3100), cpu(9000, 2000), cpu(5000, 2000), cpu(2500, 2000)]);
    assert_eq!(collector.data.global_usage, 4375);
    assert_eq!(collector.data.per_core_usage, vec![1000, 9000, 5000, 2500]);
    assert_eq!(collector.data.frequency_mhz, 3100);
    assert_eq!(collector.history.as_vec(), vec![43]);
    // what was found at start stays
    assert_eq!(collector.data.logical_cores, 2);
    assert_eq!(collector.data.physical_cores, 2);
    assert_eq!(collector.data.model, "Example CPU @ 3.0GHz");
    collector.collect(&vec![cpu(1, 1), cpu(2, 2), cpu(2, 3)]);
    assert_eq!(collector.data.global_usage, 1);
    assert_eq!(collector.history.as_vec(), vec![43, 0]);
}

#[test]
fn cpu_usage_is_held_within_one_hundred_percent() {
    let mut collector = CpuCollector::new(&Vec::new(), None);
    collector.collect(&vec![cpu(10_001, 1), cpu(u32::MAX, 1), cpu(10_000, 1)]);
    assert_eq!(collector.data.per_core_usage, vec![10_000, 10_000, 10_000]);
    assert_eq!(collector.data.global_usage, 10_000);
    assert_eq!(collector.history.as_vec(), vec![100]);
}

#[test]
fn cpu_without_processors_has_no_usage() {
    let mut collector = CpuCollector::new(&vec![cpu(0, 3000)], None);
    collector.collect(&Vec::new());
    assert_eq!(collector.data.global_usage, 0);
    assert!(collector.data.per_core_usage.is_empty());
    assert_eq!(collector.data.frequency_mhz, 0);
    assert_eq!(collector.history.as_vec(), vec![0]);
}
