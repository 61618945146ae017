use system_monitor::collectors::{
    Collectors, CpuReading, DiskEntry, GpuIdentity, GpuReading, InterfaceEntry, Inventory,
    MemoryReading, ProcessReading, RunState, SystemReading, TickReadings,
};
use system_monitor::config::Config;

const SECOND: u64 = 1_000_000_000;
const GB: u64 = 1024 * 1024 * 1024;

fn cpus(usages: &[u32]) -> Vec<CpuReading> {
    usages
        .iter()
        .map(|u| CpuReading { brand: "CPU".to_string(), usage: *u, frequency: 2400 })
        .collect()
}

fn interfaces(received: u64, transmitted: u64) -> Vec<InterfaceEntry> {
    vec![InterfaceEntry {
        name: "eth0".to_string(),
        total_received: received,
        total_transmitted: transmitted,
        packets_received: 1,
        packets_transmitted: 2,
        errors_on_received: 3,
        errors_on_transmitted: 4,
    }]
}

fn disks(available: u64) -> Vec<DiskEntry> {
    vec![DiskEntry {
        name: "/dev/nvme0n1p2".to_string(),
        mount_point: "/".to_string(),
        total_space: 100 * GB,
        available_space: available,
    }]
}

fn table(read: u64, written: u64) -> Option<String> {
    Some(format!("259 0 nvme0n1 1 2 {} 4 5 6 {} 8 9 10 11\n", read, written))
}

fn inventory(gpu: Option<GpuIdentity>) -> Inventory {
    Inventory {
        cpus: cpus(&[5000, 5000]),
        physical_cores: Some(1),
        system: SystemReading {
            os_name: Some("OS".to_string()),
            os_version: Some("1".to_string()),
            kernel_version: Some("6".to_string()),
            hostname: None,
            uptime_secs: 50,
        },
        gpu,
        interfaces: interfaces(1000, 2000),
        disks: disks(40 * GB),
        disk_table: table(1000, 2000),
        total_memory: 16 * GB,
    }
}

fn readings() -> TickReadings {
    TickReadings {
        cpus: cpus(&[2000, 4000]),
        memory: MemoryReading { total: 16 * GB, used: 8 * GB, available: 8 * GB, swap_total: 0, swap_used: 0 },
        uptime_secs: 51,
        gpu: GpuReading {
            utilization: Some(80),
            memory: None,
            temperature: Some(60),
            fan_speed: None,
            power_usage: None,
            power_limit: None,
            clock_core: None,
            clock_memory: None,
            pcie_gen: None,
            pcie_width: None,
            encoder_usage: None,
            decoder_usage: None,
        },
        interfaces: interfaces(3_001_000, 2000),
        disks: disks(30 * GB),
        disk_table: table(3000, 2500),
        processes: vec![ProcessReading {
            pid: 1,
            name: "init".to_string(),
            cpu_percent: 10,
            memory_bytes: GB,
            threads: Some(1),
            state: RunState::Running,
            status: "Run".to_string(),
        }],
    }
}

#[test]
fn new_collectors_hold_what_was_found_at_start() {
    let collectors = Collectors::new(&Config::default(), inventory(None), 7 * SECOND);
    assert_eq!(collectors.cpu.data.logical_cores, 2);
    assert_eq!(collectors.cpu.data.physical_cores, 1);
    assert_eq!(collectors.cpu.data.global_usage, 0);
    assert_eq!(collectors.memory.data.total, 0);
    assert_eq!(collectors.system.data.os_name, "OS");
    assert_eq!(collectors.system.data.hostname, "localhost");
    assert_eq!(collectors.system.data.uptime_secs, 50);
    assert!(!collectors.gpu.is_available());
    assert_eq!(collectors.network.data.interface, "eth0");
    assert_eq!(collectors.network.last_rx, 1000);
    assert_eq!(collectors.network.last_update, 7 * SECOND);
    assert_eq!(collectors.disk.data.mount_point, "/");
    assert_eq!(collectors.disk.device_name, "nvme0n1");
    assert_eq!(collectors.disk.last_sectors_read, 1000);
    assert_eq!(collectors.disk.data.usage_percent, 6000);
    assert_eq!(collectors.disk.last_update, 7 * SECOND);
    assert_eq!(collectors.process.total_memory, 16 * GB);
    assert_eq!(collectors.process.data.total_processes, 0);
}

#[test]
fn configuration_does_not_change_the_collectors() {
    let device = Some(GpuIdentity { name: "GPU".to_string(), driver_version: "1".to_string() });
    let off = Config::default().with_gpu(false);
    let collectors = Collectors::new(&off, inventory(device), 0);
    assert!(collectors.gpu.is_available());
    assert_eq!(collectors.gpu.data.name, "GPU");
}

#[test]
fn update_advances_every_collector() {
    let device = Some(GpuIdentity { name: "GPU".to_string(), driver_version: "1".to_string() });
    let mut collectors = Collectors::new(&Config::default(), inventory(device), 0);
    collectors.update(&readings(), SECOND);
    assert_eq!(collectors.cpu.data.global_usage, 3000);
    assert_eq!(collectors.cpu.history.as_vec(), vec![30]);
    assert_eq!(collectors.memory.data.usage_percent, 5000);
    assert_eq!(collectors.memory.history.as_vec(), vec![50]);
    assert_eq!(collectors.system.data.uptime_secs, 51);
    assert_eq!(collectors.gpu.data.usage_percent, 8000);
    assert_eq!(collectors.gpu.data.temperature, 60);
    assert_eq!(collectors.gpu.history.as_vec(), vec![80]);
    assert_eq!(collectors.network.data.rx_speed, 3_000_000);
    assert_eq!(collectors.network.data.tx_speed, 0);
    assert_eq!(collectors.network.rx_history.as_vec(), vec![3]);
    assert_eq!(collectors.disk.data.read_speed, 1_024_000);
    assert_eq!(collectors.disk.data.write_speed, 256_000);
    assert_eq!(collectors.disk.data.usage_percent, 7000);
    assert_eq!(collectors.process.data.total_processes, 1);
    assert_eq!(collectors.process.data.running, 1);
    assert_eq!(collectors.process.data.top_cpu[0].memory_percent, 625);
}

#[test]
fn update_below_the_minimum_interval_skips_only_the_rates() {
    let mut collectors = Collectors::new(&Config::default(), inventory(None), 0);
    collectors.update(&readings(), SECOND / 20);
    // processors, memory, uptime and processes are taken over
    assert_eq!(collectors.cpu.data.global_usage, 3000);
    assert_eq!(collectors.memory.data.usage_percent, 5000);
    assert_eq!(collectors.system.data.uptime_secs, 51);
    assert_eq!(collectors.process.data.total_processes, 1);
    // network and disk wait for the interval
    assert_eq!(collectors.network.data.rx_bytes, 0);
    assert_eq!(collectors.network.last_update, 0);
    assert!(collectors.network.rx_history.is_empty());
    assert_eq!(collectors.disk.data.usage_percent, 6000);
    assert_eq!(collectors.disk.data.read_speed, 0);
    assert!(collectors.disk.read_history.is_empty());
    // the graphics processor is absent
    assert!(collectors.gpu.history.is_empty());
    assert_eq!(collectors.gpu.data.temperature, 0);
}
