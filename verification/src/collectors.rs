//! The collectors, one per subsystem, and the registry that owns them.

pub mod cpu;
pub mod disk;
pub mod diskstats;
pub mod gpu;
pub mod history;
pub mod memory;
pub mod metrics;
pub mod network;
pub mod process;
pub mod ranking;
pub mod system;

pub use cpu::{CpuCollector, CpuData, CpuReading};
pub use disk::{DiskCollector, DiskData, DiskEntry};
pub use gpu::{GpuCollector, GpuData, GpuIdentity, GpuReading};
pub use history::{History60, RingBuffer};
pub use memory::{MemoryCollector, MemoryData, MemoryReading};
pub use network::{InterfaceEntry, NetworkCollector, NetworkData};
pub use process::{ProcessCollector, ProcessData, ProcessInfo, ProcessReading, RunState};
pub use system::{SystemCollector, SystemData, SystemReading};

use crate::config::Config;
use disk::table_text;
use vstd::prelude::*;

verus! {

/// What is read from the system once, when the collectors are built.
pub struct Inventory {
    /// The logical processors, read a second time after a short pause.
    pub cpus: Vec<CpuReading>,
    /// The number of physical cores, where the system tells it.
    pub physical_cores: Option<usize>,
    pub system: SystemReading,
    /// The graphics processor found by the probe, if any.
    pub gpu: Option<GpuIdentity>,
    pub interfaces: Vec<InterfaceEntry>,
    /// The mounted filesystems.
    pub disks: Vec<DiskEntry>,
    /// The text of the I/O accounting table, where it could be read.
    pub disk_table: Option<String>,
    /// Memory of the system in bytes.
    pub total_memory: u64,
}

/// What is read from the system on every tick.
pub struct TickReadings {
    pub cpus: Vec<CpuReading>,
    pub memory: MemoryReading,
    /// Seconds since the system started.
    pub uptime_secs: u64,
    pub gpu: GpuReading,
    pub interfaces: Vec<InterfaceEntry>,
    /// The mounted filesystems.
    pub disks: Vec<DiskEntry>,
    /// The text of the I/O accounting table, where it could be read.
    pub disk_table: Option<String>,
    pub processes: Vec<ProcessReading>,
}

/// One collector of each kind.
pub struct Collectors {
    pub cpu: CpuCollector,
    pub memory: MemoryCollector,
    pub system: SystemCollector,
    pub gpu: GpuCollector,
    pub network: NetworkCollector,
    pub disk: DiskCollector,
    pub process: ProcessCollector,
}

/// The text of a table that was read, as a sequence of characters.
pub open spec fn owned_table_text(table: Option<String>) -> Option<Seq<char>> {
    match table {
        Some(text) => Some(text@),
        None => None,
    }
}

/// The table as the disk collector takes it.
fn borrow_table(table: &Option<String>) -> (text: Option<&str>)
    ensures
        table_text(text) == owned_table_text(*table),
{
    match table {
        Some(text) => Some(text.as_str()),
        None => None,
    }
}

impl Collectors {
    /// What one call of `update` does: every collector takes over its part
    /// of the readings, each exactly once and none depending on another.
    pub open spec fn tick(pre: Collectors, post: Collectors, readings: TickReadings, now: u64) -> bool {
        &&& CpuCollector::tick(pre.cpu, post.cpu, readings.cpus@)
        &&& MemoryCollector::tick(pre.memory, post.memory, readings.memory)
        &&& SystemCollector::tick(pre.system, post.system, readings.uptime_secs)
        &&& GpuCollector::tick(pre.gpu, post.gpu, readings.gpu)
        &&& NetworkCollector::tick(pre.network, post.network, readings.interfaces@, now)
        &&& DiskCollector::tick(
            pre.disk,
            post.disk,
            readings.disks@,
            owned_table_text(readings.disk_table),
            now,
        )
        &&& ProcessCollector::tick(pre.process, post.process, readings.processes@)
    }

    /// What `new` builds: each collector is what its own constructor gives
    /// for its part of the inventory.
    pub open spec fn fresh(collectors: Collectors, inventory: Inventory, now: u64) -> bool {
        &&& CpuCollector::fresh(collectors.cpu, inventory.cpus@, inventory.physical_cores)
        &&& MemoryCollector::fresh(collectors.memory)
        &&& SystemCollector::fresh(collectors.system, inventory.system)
        &&& GpuCollector::fresh(collectors.gpu, inventory.gpu)
        &&& NetworkCollector::fresh(collectors.network, inventory.interfaces@, now)
        &&& DiskCollector::fresh(
            collectors.disk,
            inventory.disks@,
            owned_table_text(inventory.disk_table),
            now,
        )
        &&& ProcessCollector::fresh(collectors.process, inventory.total_memory)
    }

    /// Builds all collectors at time `now`, in nanoseconds, from what was
    /// read at start. Each collector is what its own constructor gives for
    /// its part of the inventory. No setting changes any of them: a graphics
    /// processor that was found is collected whether or not the
    /// configuration enables it.
    pub fn new(_config: &Config, inventory: Inventory, now: u64) -> (collectors: Self)
        ensures
            Collectors::fresh(collectors, inventory, now),
    {
        let cpu = CpuCollector::new(&inventory.cpus, inventory.physical_cores);
        let memory = MemoryCollector::new();
        let system = SystemCollector::new(inventory.system);
        let gpu = GpuCollector::new(inventory.gpu);
        let network = NetworkCollector::new(&inventory.interfaces, now);
        let disk = DiskCollector::new(&inventory.disks, borrow_table(&inventory.disk_table), now);
        let process = ProcessCollector::new(inventory.total_memory);
        Collectors { cpu, memory, system, gpu, network, disk, process }
    }

    /// Advances every collector by one tick at time `now`, in nanoseconds:
    /// processors, memory, system, graphics processor, network, disk and
    /// processes, in this order.
    pub fn update(&mut self, readings: &TickReadings, now: u64)
        ensures
            Collectors::tick(*old(self), *final(self), *readings, now),
    {
        self.cpu.collect(&readings.cpus);
        self.memory.collect(&readings.memory);
        self.system.collect(readings.uptime_secs);
        self.gpu.collect(&readings.gpu);
        self.network.collect(&readings.interfaces, now);
        self.disk.collect(&readings.disks, borrow_table(&readings.disk_table), now);
        self.process.collect(&readings.processes);
    }
}

} // verus!
