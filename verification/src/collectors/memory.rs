//! Usage of physical memory and swap space.

use vstd::prelude::*;
use super::history::{pushed, History60};
use super::metrics::{percent_of, percent_sample, usage_percent, whole_percent};
use crate::text::{
    nearest_double, no_decimal, one_decimal, push_no_decimal, push_one_decimal, to_nearest_double,
    GB, MB,
};

verus! {

/// One tick of memory figures, all in bytes.
#[derive(Clone, Copy, Debug)]
pub struct MemoryReading {
    pub total: u64,
    pub used: u64,
    pub available: u64,
    pub swap_total: u64,
    pub swap_used: u64,
}

/// Current state of memory and swap.
#[derive(Clone, Copy, Debug)]
pub struct MemoryData {
    pub total: u64,
    pub used: u64,
    pub available: u64,
    /// Share of memory in use, in hundredths of a percent.
    pub usage_percent: u32,
    pub swap_total: u64,
    pub swap_used: u64,
    /// Share of swap space in use, in hundredths of a percent.
    pub swap_percent: u32,
}

/// Collector for memory and swap. It carries nothing from tick to tick but
/// the history.
pub struct MemoryCollector {
    pub data: MemoryData,
    /// Memory usage in whole percent.
    pub history: History60,
}

impl MemoryData {
    /// Nothing read yet: every figure zero.
    pub open spec fn is_default(&self) -> bool {
        &&& self.total == 0
        &&& self.used == 0
        &&& self.available == 0
        &&& self.usage_percent == 0
        &&& self.swap_total == 0
        &&& self.swap_used == 0
        &&& self.swap_percent == 0
    }

    /// Whether the data is what `reading` gives: the figures as read, and
    /// both percentages computed from them.
    pub open spec fn reflects(&self, reading: MemoryReading) -> bool {
        &&& self.total == reading.total
        &&& self.used == reading.used
        &&& self.available == reading.available
        &&& self.usage_percent == percent_of(reading.used as nat, reading.total as nat)
        &&& self.swap_total == reading.swap_total
        &&& self.swap_used == reading.swap_used
        &&& self.swap_percent == percent_of(reading.swap_used as nat, reading.swap_total as nat)
    }
}

impl Default for MemoryData {
    fn default() -> (data: Self)
        ensures
            data.is_default(),
    {
        MemoryData {
            total: 0,
            used: 0,
            available: 0,
            usage_percent: 0,
            swap_total: 0,
            swap_used: 0,
            swap_percent: 0,
        }
    }
}

impl MemoryCollector {
    /// What one call of `collect` does: the data is that of the reading, and
    /// the memory usage is recorded in whole percent.
    pub open spec fn tick(pre: MemoryCollector, post: MemoryCollector, reading: MemoryReading) -> bool {
        &&& post.data.reflects(reading)
        &&& post.history@ == pushed(
            pre.history@,
            whole_percent(post.data.usage_percent as nat) as u64,
            60,
        )
    }

    /// What `new` builds: no data and an empty history.
    pub open spec fn fresh(collector: MemoryCollector) -> bool {
        &&& collector.data.is_default()
        &&& collector.history@ == Seq::<u64>::empty()
    }

    /// Builds the collector, with no data and an empty history.
    pub fn new() -> (collector: Self)
        ensures
            MemoryCollector::fresh(collector),
    {
        MemoryCollector { data: MemoryData::default(), history: History60::new() }
    }

    /// Takes over one tick of memory figures.
    pub fn collect(&mut self, reading: &MemoryReading)
        ensures
            MemoryCollector::tick(*old(self), *final(self), *reading),
    {
        self.data.total = reading.total;
        self.data.used = reading.used;
        self.data.available = reading.available;
        self.data.usage_percent = usage_percent(reading.used, reading.total);
        self.data.swap_total = reading.swap_total;
        self.data.swap_used = reading.swap_used;
        self.data.swap_percent = usage_percent(reading.swap_used, reading.swap_total);
        self.history.push(percent_sample(self.data.usage_percent));
    }
}

/// The text that shows a size of `bytes` bytes: gigabytes with one decimal
/// place from one gigabyte on, whole megabytes below. The figure is rounded
/// as a double-precision quotient is when it is printed.
pub open spec fn bytes_text(bytes: u64) -> Seq<char> {
    if bytes >= GB {
        one_decimal(nearest_double(bytes as nat), GB as nat) + seq![' ', 'G', 'B']
    } else {
        no_decimal(bytes as nat, MB as nat) + seq![' ', 'M', 'B']
    }
}

/// Shows a size in bytes for reading: `1.5 GB`, `512 MB`.
pub fn format_bytes(bytes: u64) -> (text: String)
    ensures
        text@ == bytes_text(bytes),
{
    proof {
        reveal_strlit(" GB");
        reveal_strlit(" MB");
        assert(" GB"@ =~= seq![' ', 'G', 'B']);
        assert(" MB"@ =~= seq![' ', 'M', 'B']);
    }
    let mut text = String::new();
    if bytes >= GB {
        push_one_decimal(&mut text, to_nearest_double(bytes), GB as u128);
        text.append(" GB");
    } else {
        push_no_decimal(&mut text, bytes as u128, MB as u128);
        text.append(" MB");
    }
    assert(text@ =~= bytes_text(bytes));
    text
}

} // verus!
