//! Graphics processor metrics, present only where a supported device exists.

use vstd::prelude::*;
use super::history::{pushed, History60};
use super::metrics::{
    clamp_whole_percent, from_whole_percent, percent_of, percent_sample, usage_percent,
    whole_percent,
};

verus! {

/// Name and driver of the device found when the collector was built.
#[derive(Debug)]
pub struct GpuIdentity {
    pub name: String,
    pub driver_version: String,
}

/// One tick of raw device readings. Each metric is read on its own, and one
/// that could not be read is `None`.
#[derive(Clone, Copy, Debug)]
pub struct GpuReading {
    /// Core utilization in whole percent.
    pub utilization: Option<u32>,
    /// Device memory in bytes: used, then total.
    pub memory: Option<(u64, u64)>,
    /// Core temperature in degrees Celsius.
    pub temperature: Option<u32>,
    /// Fan speed in whole percent.
    pub fan_speed: Option<u32>,
    /// Power draw in milliwatts.
    pub power_usage: Option<u32>,
    /// Power limit in milliwatts.
    pub power_limit: Option<u32>,
    /// Core clock in MHz.
    pub clock_core: Option<u32>,
    /// Memory clock in MHz.
    pub clock_memory: Option<u32>,
    /// Current PCIe link generation.
    pub pcie_gen: Option<u32>,
    /// Current PCIe link width.
    pub pcie_width: Option<u32>,
    /// Encoder utilization in whole percent.
    pub encoder_usage: Option<u32>,
    /// Decoder utilization in whole percent.
    pub decoder_usage: Option<u32>,
}

/// Current state of the graphics processor. While `available` is false the
/// other fields hold their defaults and are no measurements.
#[derive(Debug)]
pub struct GpuData {
    pub available: bool,
    pub name: String,
    pub driver_version: String,
    /// Core utilization in hundredths of a percent.
    pub usage_percent: u32,
    pub memory_used: u64,
    pub memory_total: u64,
    /// Share of device memory in use, in hundredths of a percent.
    pub memory_percent: u32,
    pub temperature: u32,
    pub fan_speed: u32,
    /// Power draw in watts.
    pub power_draw: u32,
    /// Power limit in watts.
    pub power_limit: u32,
    pub clock_core: u32,
    pub clock_memory: u32,
    pub encoder_usage: u32,
    pub decoder_usage: u32,
    pub pcie_gen: u32,
    pub pcie_width: u32,
}

/// The value a field takes on a tick: what was read, or what it held before.
pub open spec fn read_or_keep(reading: Option<u32>, previous: u32) -> u32 {
    match reading {
        Some(v) => v,
        None => previous,
    }
}

/// A power reading in milliwatts as whole watts, or the previous value.
pub open spec fn watts_or_keep(reading: Option<u32>, previous: u32) -> u32 {
    match reading {
        Some(v) => (v / 1000) as u32,
        None => previous,
    }
}

/// What was read, or the previous value where the read failed.
fn reading_or(reading: Option<u32>, previous: u32) -> (value: u32)
    ensures
        value == read_or_keep(reading, previous),
{
    match reading {
        Some(v) => v,
        None => previous,
    }
}

/// A power reading in whole watts, or the previous value where the read failed.
fn watts_or(reading: Option<u32>, previous: u32) -> (value: u32)
    ensures
        value == watts_or_keep(reading, previous),
{
    match reading {
        Some(v) => v / 1000,
        None => previous,
    }
}

impl GpuData {
    /// Every numeric field is zero.
    pub open spec fn all_zero(&self) -> bool {
        &&& self.usage_percent == 0
        &&& self.memory_used == 0
        &&& self.memory_total == 0
        &&& self.memory_percent == 0
        &&& self.temperature == 0
        &&& self.fan_speed == 0
        &&& self.power_draw == 0
        &&& self.power_limit == 0
        &&& self.clock_core == 0
        &&& self.clock_memory == 0
        &&& self.encoder_usage == 0
        &&& self.decoder_usage == 0
        &&& self.pcie_gen == 0
        &&& self.pcie_width == 0
    }

    /// No device: not available, empty strings, every number zero.
    pub open spec fn is_default(&self) -> bool {
        &&& !self.available
        &&& self.name@ == Seq::<char>::empty()
        &&& self.driver_version@ == Seq::<char>::empty()
        &&& self.all_zero()
    }

    /// How one tick of readings changes the data of an available device:
    /// every metric that was read is taken over, every other keeps its value.
    pub open spec fn refreshed(pre: GpuData, post: GpuData, reading: GpuReading) -> bool {
        &&& post.available == pre.available
        &&& post.name == pre.name
        &&& post.driver_version == pre.driver_version
        &&& post.usage_percent == match reading.utilization {
            Some(whole) => from_whole_percent(whole),
            None => pre.usage_percent,
        }
        &&& post.memory_used == match reading.memory {
            Some(m) => m.0,
            None => pre.memory_used,
        }
        &&& post.memory_total == match reading.memory {
            Some(m) => m.1,
            None => pre.memory_total,
        }
        &&& post.memory_percent == match reading.memory {
            Some(m) => percent_of(m.0 as nat, m.1 as nat),
            None => pre.memory_percent as nat,
        }
        &&& post.temperature == read_or_keep(reading.temperature, pre.temperature)
        &&& post.fan_speed == read_or_keep(reading.fan_speed, pre.fan_speed)
        &&& post.power_draw == watts_or_keep(reading.power_usage, pre.power_draw)
        &&& post.power_limit == watts_or_keep(reading.power_limit, pre.power_limit)
        &&& post.clock_core == read_or_keep(reading.clock_core, pre.clock_core)
        &&& post.clock_memory == read_or_keep(reading.clock_memory, pre.clock_memory)
        &&& post.pcie_gen == read_or_keep(reading.pcie_gen, pre.pcie_gen)
        &&& post.pcie_width == read_or_keep(reading.pcie_width, pre.pcie_width)
        &&& post.encoder_usage == read_or_keep(reading.encoder_usage, pre.encoder_usage)
        &&& post.decoder_usage == read_or_keep(reading.decoder_usage, pre.decoder_usage)
    }
}

impl Default for GpuData {
    fn default() -> (data: Self)
        ensures
            data.is_default(),
    {
        GpuData {
            available: false,
            name: String::new(),
            driver_version: String::new(),
            usage_percent: 0,
            memory_used: 0,
            memory_total: 0,
            memory_percent: 0,
            temperature: 0,
            fan_speed: 0,
            power_draw: 0,
            power_limit: 0,
            clock_core: 0,
            clock_memory: 0,
            encoder_usage: 0,
            decoder_usage: 0,
            pcie_gen: 0,
            pcie_width: 0,
        }
    }
}

/// Collector for the graphics processor. Whether a device is available is
/// decided once, when the collector is built.
pub struct GpuCollector {
    pub data: GpuData,
    pub history: History60,
}

impl GpuCollector {
    /// What one call of `collect` does: without a device nothing changes;
    /// with one, the data is refreshed and the utilization is recorded in
    /// whole percent.
    pub open spec fn tick(pre: GpuCollector, post: GpuCollector, reading: GpuReading) -> bool {
        if pre.data.available {
            &&& GpuData::refreshed(pre.data, post.data, reading)
            &&& post.history@ == pushed(
                pre.history@,
                whole_percent(post.data.usage_percent as nat) as u64,
                60,
            )
        } else {
            post == pre
        }
    }

    /// What any number of calls of `collect`, one per reading, do.
    pub open spec fn ticks(pre: GpuCollector, post: GpuCollector, readings: Seq<GpuReading>) -> bool
        decreases readings.len(),
    {
        if readings.len() == 0 {
            post == pre
        } else {
            exists|mid: GpuCollector|
                GpuCollector::ticks(pre, mid, readings.drop_last()) && GpuCollector::tick(
                    mid,
                    post,
                    readings.last(),
                )
        }
    }

    /// What `new` builds: with a device, its name and driver and every
    /// number zero; without one, the defaults. The history is empty.
    pub open spec fn fresh(collector: GpuCollector, probe: Option<GpuIdentity>) -> bool {
        &&& collector.history@ == Seq::<u64>::empty()
        &&& match probe {
            Some(identity) => {
                &&& collector.data.available
                &&& collector.data.name@ == identity.name@
                &&& collector.data.driver_version@ == identity.driver_version@
                &&& collector.data.all_zero()
            },
            None => collector.data.is_default(),
        }
    }

    /// Builds the collector from the outcome of the device probe: `None`
    /// where no driver or no device was found.
    pub fn new(probe: Option<GpuIdentity>) -> (collector: Self)
        ensures
            GpuCollector::fresh(collector, probe),
    {
        let mut data = GpuData::default();
        match probe {
            Some(identity) => {
                data.available = true;
                data.name = identity.name;
                data.driver_version = identity.driver_version;
            },
            None => {},
        }
        GpuCollector { data, history: History60::new() }
    }

    /// Takes over one tick of readings.
    pub fn collect(&mut self, reading: &GpuReading)
        ensures
            GpuCollector::tick(*old(self), *final(self), *reading),
    {
        if !self.data.available {
            return ;
        }
        match reading.utilization {
            Some(v) => {
                self.data.usage_percent = clamp_whole_percent(v);
            },
            None => {},
        }
        match reading.memory {
            Some(m) => {
                self.data.memory_used = m.0;
                self.data.memory_total = m.1;
                self.data.memory_percent = usage_percent(m.0, m.1);
            },
            None => {},
        }
        self.data.temperature = reading_or(reading.temperature, self.data.temperature);
        self.data.fan_speed = reading_or(reading.fan_speed, self.data.fan_speed);
        self.data.power_draw = watts_or(reading.power_usage, self.data.power_draw);
        self.data.power_limit = watts_or(reading.power_limit, self.data.power_limit);
        self.data.clock_core = reading_or(reading.clock_core, self.data.clock_core);
        self.data.clock_memory = reading_or(reading.clock_memory, self.data.clock_memory);
        self.data.pcie_gen = reading_or(reading.pcie_gen, self.data.pcie_gen);
        self.data.pcie_width = reading_or(reading.pcie_width, self.data.pcie_width);
        self.data.encoder_usage = reading_or(reading.encoder_usage, self.data.encoder_usage);
        self.data.decoder_usage = reading_or(reading.decoder_usage, self.data.decoder_usage);
        self.history.push(percent_sample(self.data.usage_percent));
    }

    /// Whether a device was found when the collector was built.
    pub fn is_available(&self) -> (available: bool)
        ensures
            available == self.data.available,
    {
        self.data.available
    }
}

/// A collector built without a device reports no device and holds its
/// defaults after any number of ticks, whatever the readings: every numeric
/// field is zero and the history is empty.
pub proof fn lemma_gpu_without_device(
    start: GpuCollector,
    end: GpuCollector,
    readings: Seq<GpuReading>,
)
    requires
        GpuCollector::fresh(start, None),
        GpuCollector::ticks(start, end, readings),
    ensures
        !end.data.available,
        end.data.is_default(),
        end.data.all_zero(),
        end.history@ == Seq::<u64>::empty(),
{
    lemma_unavailable_gpu_stays_default(start, end, readings);
}

/// Without a device the collector never changes: after any number of ticks,
/// whatever the readings, it is still unavailable and its data still holds
/// what it held before.
pub proof fn lemma_unavailable_gpu_stays_default(
    pre: GpuCollector,
    post: GpuCollector,
    readings: Seq<GpuReading>,
)
    requires
        !pre.data.available,
        GpuCollector::ticks(pre, post, readings),
    ensures
        post == pre,
        !post.data.available,
        pre.data.is_default() ==> post.data.is_default(),
        pre.data.all_zero() ==> post.data.all_zero(),
    decreases readings.len(),
{
    if readings.len() > 0 {
        let mid = choose|mid: GpuCollector|
            GpuCollector::ticks(pre, mid, readings.drop_last()) && GpuCollector::tick(
                mid,
                post,
                readings.last(),
            );
        lemma_unavailable_gpu_stays_default(pre, mid, readings.drop_last());
    }
}

} // verus!
