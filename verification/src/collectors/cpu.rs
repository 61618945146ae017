//! Processor usage, per logical processor and overall.

use vstd::prelude::*;
use super::history::{pushed, History60};
use super::metrics::{percent_sample, whole_percent, PERCENT_FULL};

verus! {

/// One logical processor, as the operating system reports it on a tick.
#[derive(Debug)]
pub struct CpuReading {
    /// Model name of the processor.
    pub brand: String,
    /// Usage since the previous reading, in hundredths of a percent.
    pub usage: u32,
    /// Current clock frequency in MHz.
    pub frequency: u64,
}

/// Current state of the processors.
#[derive(Debug)]
pub struct CpuData {
    pub model: String,
    pub physical_cores: usize,
    pub logical_cores: usize,
    /// Mean usage over all logical processors, in hundredths of a percent.
    pub global_usage: u32,
    /// Usage of each logical processor, in hundredths of a percent.
    pub per_core_usage: Vec<u32>,
    pub frequency_mhz: u64,
}

/// Collector for the processors.
pub struct CpuCollector {
    pub data: CpuData,
    /// Overall usage in whole percent.
    pub history: History60,
}

/// A usage held within zero to one hundred percent.
pub open spec fn clamped_usage(usage: u32) -> u32 {
    if usage > 10_000 {
        10_000
    } else {
        usage
    }
}

/// The usages of the processors, each within zero to one hundred percent.
pub open spec fn core_usages(cpus: Seq<CpuReading>) -> Seq<u32> {
    Seq::new(cpus.len(), |i: int| clamped_usage(cpus[i].usage))
}

/// Sum of the usages of the processors.
pub open spec fn usage_total(cpus: Seq<CpuReading>) -> nat
    decreases cpus.len(),
{
    if cpus.len() == 0 {
        0
    } else {
        usage_total(cpus.drop_last()) + clamped_usage(cpus.last().usage) as nat
    }
}

/// Arithmetic mean of the usages of the processors, rounded down; zero
/// where there is no processor.
pub open spec fn mean_usage(cpus: Seq<CpuReading>) -> nat {
    if cpus.len() == 0 {
        0
    } else {
        usage_total(cpus) / cpus.len()
    }
}

/// The model name of the first processor, empty where there is none.
pub open spec fn first_brand(cpus: Seq<CpuReading>) -> Seq<char> {
    if cpus.len() == 0 {
        Seq::empty()
    } else {
        cpus[0].brand@
    }
}

/// The frequency of the first processor, zero where there is none.
pub open spec fn first_frequency(cpus: Seq<CpuReading>) -> u64 {
    if cpus.len() == 0 {
        0
    } else {
        cpus[0].frequency
    }
}

/// The sum of the usages is at most one hundred percent for each processor,
/// so their mean is at most one hundred percent.
pub proof fn lemma_mean_usage_bounded(cpus: Seq<CpuReading>)
    ensures
        usage_total(cpus) <= cpus.len() * 10_000,
        mean_usage(cpus) <= 10_000,
    decreases cpus.len(),
{
    if cpus.len() > 0 {
        lemma_mean_usage_bounded(cpus.drop_last());
        assert((cpus.len() - 1) * 10_000 + 10_000 == cpus.len() * 10_000) by (nonlinear_arith);
        vstd::arithmetic::div_mod::lemma_div_is_ordered(
            usage_total(cpus) as int,
            (cpus.len() * 10_000) as int,
            cpus.len() as int,
        );
        vstd::arithmetic::div_mod::lemma_div_multiples_vanish(10_000, cpus.len() as int);
        assert(cpus.len() * 10_000 == cpus.len() as int * 10_000);
    }
}

/// Usage of one processor, within zero to one hundred percent.
fn clamp_usage(usage: u32) -> (clamped: u32)
    ensures
        clamped == clamped_usage(usage),
{
    if usage > PERCENT_FULL {
        PERCENT_FULL
    } else {
        usage
    }
}

impl CpuCollector {
    /// What one call of `collect` does: the overall usage is the mean over
    /// the logical processors, each usage and the frequency are as read, and
    /// the overall usage is recorded in whole percent. Model and processor
    /// counts stay as they were found at start.
    pub open spec fn tick(pre: CpuCollector, post: CpuCollector, cpus: Seq<CpuReading>) -> bool {
        &&& post.data.model == pre.data.model
        &&& post.data.physical_cores == pre.data.physical_cores
        &&& post.data.logical_cores == pre.data.logical_cores
        &&& post.data.global_usage == mean_usage(cpus)
        &&& post.data.per_core_usage@ == core_usages(cpus)
        &&& post.data.frequency_mhz == first_frequency(cpus)
        &&& post.history@ == pushed(
            pre.history@,
            whole_percent(post.data.global_usage as nat) as u64,
            60,
        )
    }

    /// What `new` builds: model, processor counts and frequency as found,
    /// every usage zero and the history empty. Without a count of physical
    /// cores there are as many as logical processors.
    pub open spec fn fresh(
        collector: CpuCollector,
        cpus: Seq<CpuReading>,
        physical_cores: Option<usize>,
    ) -> bool {
        &&& collector.data.model@ == first_brand(cpus)
        &&& collector.data.physical_cores == match physical_cores {
            Some(n) => n,
            None => cpus.len() as usize,
        }
        &&& collector.data.logical_cores == cpus.len()
        &&& collector.data.global_usage == 0
        &&& collector.data.per_core_usage@ == Seq::new(cpus.len(), |i: int| 0u32)
        &&& collector.data.frequency_mhz == first_frequency(cpus)
        &&& collector.history@ == Seq::<u64>::empty()
    }

    /// Builds the collector from the processors found at start and, where
    /// the system tells it, the number of physical cores. The usages of this
    /// first reading are not taken over: until the first tick every usage is
    /// zero.
    pub fn new(cpus: &Vec<CpuReading>, physical_cores: Option<usize>) -> (collector: Self)
        ensures
            CpuCollector::fresh(collector, cpus@, physical_cores),
    {
        let mut per_core: Vec<u32> = Vec::new();
        let mut i: usize = 0;
        while i < cpus.len()
            invariant
                i <= cpus.len(),
                per_core@ == Seq::new(i as nat, |k: int| 0u32),
            decreases cpus.len() - i,
        {
            per_core.push(0);
            assert(per_core@ =~= Seq::new((i + 1) as nat, |k: int| 0u32));
            i += 1;
        }
        let (model, frequency): (String, u64) = if cpus.len() > 0 {
            (cpus[0].brand.clone(), cpus[0].frequency)
        } else {
            (String::new(), 0)
        };
        CpuCollector {
            data: CpuData {
                model,
                physical_cores: match physical_cores {
                    Some(n) => n,
                    None => cpus.len(),
                },
                logical_cores: cpus.len(),
                global_usage: 0,
                per_core_usage: per_core,
                frequency_mhz: frequency,
            },
            history: History60::new(),
        }
    }

    /// Takes over one tick: all logical processors.
    pub fn collect(&mut self, cpus: &Vec<CpuReading>)
        ensures
            CpuCollector::tick(*old(self), *final(self), cpus@),
            final(self).data.global_usage <= PERCENT_FULL,
    {
        let mut total: u128 = 0;
        let mut per_core: Vec<u32> = Vec::new();
        let mut i: usize = 0;
        assert(cpus@.take(0) =~= Seq::<CpuReading>::empty());
        while i < cpus.len()
            invariant
                i <= cpus.len(),
                total == usage_total(cpus@.take(i as int)),
                total <= i * 10_000,
                per_core@ == core_usages(cpus@.take(i as int)),
            decreases cpus.len() - i,
        {
            proof {
                assert(cpus@.take(i + 1).drop_last() =~= cpus@.take(i as int));
            }
            let usage: u32 = clamp_usage(cpus[i].usage);
            assert((i + 1) * 10_000 == i * 10_000 + 10_000) by (nonlinear_arith);
            assert(i * 10_000 + 10_000 <= u128::MAX) by (nonlinear_arith)
                requires
                    i <= 0xffff_ffff_ffff_ffff,
            ;
            total = total + usage as u128;
            per_core.push(usage);
            assert(per_core@ =~= core_usages(cpus@.take(i + 1)));
            i += 1;
        }
        assert(cpus@.take(cpus.len() as int) =~= cpus@);
        proof {
            lemma_mean_usage_bounded(cpus@);
        }
        self.data.global_usage = if cpus.len() == 0 {
            0
        } else {
            (total / cpus.len() as u128) as u32
        };
        self.data.per_core_usage = per_core;
        self.data.frequency_mhz = if cpus.len() > 0 {
            cpus[0].frequency
        } else {
            0
        };
        self.history.push(percent_sample(self.data.global_usage));
    }
}

} // verus!
