//! Process counts and the processes that use the most processor time and memory.

use vstd::prelude::*;
use super::metrics::{percent_of, usage_percent};
use super::ranking::{is_ranking, lemma_ranking_properties, rank_top, ranking};
use crate::text::{
    decimal, nearest_double, one_decimal, push_decimal, push_one_decimal, to_nearest_double, GB,
    MB,
};

verus! {

/// Number of processes in each of the two top lists.
pub const TOP_COUNT: usize = 5;

/// Run state of a process, as far as the counts tell states apart.
#[derive(Clone, Copy, PartialEq, Eq, Debug)]
pub enum RunState {
    Running,
    Sleeping,
    Zombie,
    Other,
}

/// One process, as the operating system reports it on a tick.
#[derive(Debug)]
pub struct ProcessReading {
    pub pid: u32,
    pub name: String,
    /// Processor usage in hundredths of a percent of one processor.
    pub cpu_percent: u32,
    /// Resident memory in bytes.
    pub memory_bytes: u64,
    /// Number of threads, `None` where they cannot be enumerated.
    pub threads: Option<usize>,
    pub state: RunState,
    /// Label of the run state for display.
    pub status: String,
}

/// One process in a top list.
#[derive(Debug)]
pub struct ProcessInfo {
    pub pid: u32,
    pub name: String,
    /// Processor usage in hundredths of a percent of one processor.
    pub cpu_percent: u32,
    pub memory_bytes: u64,
    /// Share of the system's memory, in hundredths of a percent.
    pub memory_percent: u32,
    pub threads: usize,
    pub status: String,
}

/// Counts over all processes and the two top lists.
#[derive(Debug)]
pub struct ProcessData {
    pub total_processes: usize,
    pub total_threads: u128,
    pub running: usize,
    pub sleeping: usize,
    pub zombies: usize,
    /// The processes with the highest processor usage, highest first.
    pub top_cpu: Vec<ProcessInfo>,
    /// The processes with the most memory, most first.
    pub top_memory: Vec<ProcessInfo>,
}

/// Collector for the process table.
pub struct ProcessCollector {
    pub data: ProcessData,
    /// Memory of the system in bytes, fixed when the collector is built.
    pub total_memory: u64,
}

/// Threads counted for a process: one where they cannot be enumerated.
pub open spec fn thread_count(reading: ProcessReading) -> nat {
    match reading.threads {
        Some(n) => n as nat,
        None => 1,
    }
}

/// Threads of all processes together.
pub open spec fn total_threads(readings: Seq<ProcessReading>) -> nat
    decreases readings.len(),
{
    if readings.len() == 0 {
        0
    } else {
        total_threads(readings.drop_last()) + thread_count(readings.last())
    }
}

/// Number of processes in run state `state`.
pub open spec fn count_in_state(readings: Seq<ProcessReading>, state: RunState) -> nat
    decreases readings.len(),
{
    if readings.len() == 0 {
        0
    } else {
        count_in_state(readings.drop_last(), state) + if readings.last().state == state {
            1nat
        } else {
            0nat
        }
    }
}

/// Processor usage of each process, in the order of the enumeration.
pub open spec fn cpu_keys(readings: Seq<ProcessReading>) -> Seq<u64> {
    Seq::new(readings.len(), |i: int| readings[i].cpu_percent as u64)
}

/// Memory of each process, in the order of the enumeration.
pub open spec fn memory_keys(readings: Seq<ProcessReading>) -> Seq<u64> {
    Seq::new(readings.len(), |i: int| readings[i].memory_bytes)
}

/// Whether `info` is the snapshot of the process `reading` on a system with
/// `total_memory` bytes of memory.
pub open spec fn describes(info: ProcessInfo, reading: ProcessReading, total_memory: u64) -> bool {
    &&& info.pid == reading.pid
    &&& info.name@ == reading.name@
    &&& info.cpu_percent == reading.cpu_percent
    &&& info.memory_bytes == reading.memory_bytes
    &&& info.memory_percent == percent_of(reading.memory_bytes as nat, total_memory as nat)
    &&& info.threads == thread_count(reading)
    &&& info.status@ == reading.status@
}

/// Whether `list` holds the snapshots of the five processes that rank
/// highest by `keys`, highest first: a ranking of the five best exists, and
/// the list describes the process at each of its places.
pub open spec fn is_top_list(
    list: Seq<ProcessInfo>,
    readings: Seq<ProcessReading>,
    keys: Seq<u64>,
    total_memory: u64,
) -> bool {
    let order = ranking(keys, TOP_COUNT as nat);
    &&& is_ranking(keys, TOP_COUNT as nat, order)
    &&& list.len() == order.len()
    &&& forall|k: int|
        0 <= k < list.len() ==> describes(
            #[trigger] list[k],
            readings[order[k] as int],
            total_memory,
        )
}

/// Snapshot of one process.
fn describe(reading: &ProcessReading, total_memory: u64) -> (info: ProcessInfo)
    ensures
        describes(info, *reading, total_memory),
{
    ProcessInfo {
        pid: reading.pid,
        name: reading.name.clone(),
        cpu_percent: reading.cpu_percent,
        memory_bytes: reading.memory_bytes,
        memory_percent: usage_percent(reading.memory_bytes, total_memory),
        threads: match reading.threads {
            Some(n) => n,
            None => 1,
        },
        status: reading.status.clone(),
    }
}

/// Snapshots of the processes that rank highest by `keys`.
fn top_list(readings: &Vec<ProcessReading>, keys: &Vec<u64>, total_memory: u64) -> (list: Vec<
    ProcessInfo,
>)
    requires
        keys@.len() == readings@.len(),
    ensures
        is_top_list(list@, readings@, keys@, total_memory),
        list@.len() <= TOP_COUNT,
{
    let order = rank_top(keys, TOP_COUNT);
    let mut list: Vec<ProcessInfo> = Vec::new();
    let mut k: usize = 0;
    while k < order.len()
        invariant
            k <= order.len(),
            keys@.len() == readings@.len(),
            is_ranking(keys@, TOP_COUNT as nat, order@),
            list@.len() == k,
            forall|m: int|
                0 <= m < k ==> describes(
                    #[trigger] list@[m],
                    readings@[order@[m] as int],
                    total_memory,
                ),
        decreases order.len() - k,
    {
        let at: usize = order[k];
        list.push(describe(&readings[at], total_memory));
        k += 1;
    }
    list
}

impl ProcessData {
    /// Nothing counted yet: every count zero, both lists empty.
    pub open spec fn is_default(&self) -> bool {
        &&& self.total_processes == 0
        &&& self.total_threads == 0
        &&& self.running == 0
        &&& self.sleeping == 0
        &&& self.zombies == 0
        &&& self.top_cpu@.len() == 0
        &&& self.top_memory@.len() == 0
    }
}

impl Default for ProcessData {
    fn default() -> (data: Self)
        ensures
            data.is_default(),
    {
        ProcessData {
            total_processes: 0,
            total_threads: 0,
            running: 0,
            sleeping: 0,
            zombies: 0,
            top_cpu: Vec::new(),
            top_memory: Vec::new(),
        }
    }
}

impl ProcessCollector {
    /// What one call of `collect` does: everything is computed anew from
    /// the processes of this tick. The counts cover all of them; each top
    /// list ranks them by its own key, and processes with equal keys stand
    /// in the order in which they were enumerated.
    pub open spec fn tick(
        pre: ProcessCollector,
        post: ProcessCollector,
        readings: Seq<ProcessReading>,
    ) -> bool {
        &&& post.total_memory == pre.total_memory
        &&& post.data.total_processes == readings.len()
        &&& post.data.total_threads == total_threads(readings)
        &&& post.data.running == count_in_state(readings, RunState::Running)
        &&& post.data.sleeping == count_in_state(readings, RunState::Sleeping)
        &&& post.data.zombies == count_in_state(readings, RunState::Zombie)
        &&& is_top_list(post.data.top_cpu@, readings, cpu_keys(readings), pre.total_memory)
        &&& is_top_list(post.data.top_memory@, readings, memory_keys(readings), pre.total_memory)
    }

    /// What `new` builds: the memory of the system remembered, nothing
    /// counted and both lists empty.
    pub open spec fn fresh(collector: ProcessCollector, total_memory: u64) -> bool {
        &&& collector.total_memory == total_memory
        &&& collector.data.is_default()
    }

    /// Builds the collector for a system with `total_memory` bytes of
    /// memory. Memory shares are computed against this figure from then on.
    pub fn new(total_memory: u64) -> (collector: Self)
        ensures
            ProcessCollector::fresh(collector, total_memory),
    {
        ProcessCollector { data: ProcessData::default(), total_memory }
    }

    /// Takes over one tick: all processes of the system.
    pub fn collect(&mut self, readings: &Vec<ProcessReading>)
        ensures
            ProcessCollector::tick(*old(self), *final(self), readings@),
    {
        let mut threads: u128 = 0;
        let mut running: usize = 0;
        let mut sleeping: usize = 0;
        let mut zombies: usize = 0;
        let mut by_cpu: Vec<u64> = Vec::new();
        let mut by_memory: Vec<u64> = Vec::new();
        let mut i: usize = 0;
        assert(readings@.take(0) =~= Seq::<ProcessReading>::empty());
        while i < readings.len()
            invariant
                i <= readings.len(),
                threads == total_threads(readings@.take(i as int)),
                threads <= i * usize::MAX,
                running == count_in_state(readings@.take(i as int), RunState::Running),
                sleeping == count_in_state(readings@.take(i as int), RunState::Sleeping),
                zombies == count_in_state(readings@.take(i as int), RunState::Zombie),
                running <= i,
                sleeping <= i,
                zombies <= i,
                by_cpu@ == cpu_keys(readings@.take(i as int)),
                by_memory@ == memory_keys(readings@.take(i as int)),
            decreases readings.len() - i,
        {
            let reading = &readings[i];
            proof {
                assert(readings@.take(i + 1).drop_last() =~= readings@.take(i as int));
                assert(readings@.take(i + 1).last() == *reading);
                assert((i + 1) * usize::MAX == i * usize::MAX + usize::MAX) by (nonlinear_arith);
                assert(i * usize::MAX + usize::MAX <= u128::MAX) by (nonlinear_arith)
                    requires
                        i < usize::MAX,
                        usize::MAX <= 0xffff_ffff_ffff_ffff,
                ;
            }
            match reading.state {
                RunState::Running => {
                    running += 1;
                },
                RunState::Sleeping => {
                    sleeping += 1;
                },
                RunState::Zombie => {
                    zombies += 1;
                },
                RunState::Other => {},
            }
            let count: usize = match reading.threads {
                Some(n) => n,
                None => 1,
            };
            threads = threads + count as u128;
            by_cpu.push(reading.cpu_percent as u64);
            by_memory.push(reading.memory_bytes);
            assert(by_cpu@ =~= cpu_keys(readings@.take(i + 1)));
            assert(by_memory@ =~= memory_keys(readings@.take(i + 1)));
            i += 1;
        }
        assert(readings@.take(readings.len() as int) =~= readings@);
        self.data.total_processes = readings.len();
        self.data.total_threads = threads;
        self.data.running = running;
        self.data.sleeping = sleeping;
        self.data.zombies = zombies;
        self.data.top_cpu = top_list(readings, &by_cpu, self.total_memory);
        self.data.top_memory = top_list(readings, &by_memory, self.total_memory);
    }
}

/// The text that shows the memory of a process: gigabytes with one decimal
/// place from one gigabyte on, and below that the whole megabytes that the
/// memory fills. The gigabytes are rounded as a double-precision quotient is
/// when it is printed.
pub open spec fn proc_memory_text(bytes: u64) -> Seq<char> {
    if bytes >= GB {
        one_decimal(nearest_double(bytes as nat), GB as nat) + seq!['G']
    } else {
        decimal((bytes / MB) as nat) + seq!['M']
    }
}

/// Shows the memory of a process for reading: `2.5G`, `340M`.
pub fn format_proc_memory(bytes: u64) -> (text: String)
    ensures
        text@ == proc_memory_text(bytes),
{
    proof {
        reveal_strlit("G");
        reveal_strlit("M");
        assert("G"@ =~= seq!['G']);
        assert("M"@ =~= seq!['M']);
    }
    let mut text = String::new();
    if bytes >= GB {
        push_one_decimal(&mut text, to_nearest_double(bytes), GB as u128);
        text.append("G");
    } else {
        push_decimal(&mut text, (bytes / MB) as u128);
        text.append("M");
    }
    assert(text@ =~= proc_memory_text(bytes));
    text
}

/// What a tick says of a top list, without the ranking in between: it has
/// at most five entries and as many as there are processes if those are
/// fewer, each entry describes a process of the tick, the keys never grow
/// along the list, and no process that the list leaves out has a larger key
/// than one in it.
pub proof fn lemma_top_list_properties(
    list: Seq<ProcessInfo>,
    readings: Seq<ProcessReading>,
    keys: Seq<u64>,
    total_memory: u64,
)
    requires
        is_top_list(list, readings, keys, total_memory),
        keys.len() == readings.len(),
    ensures
        list.len() == if readings.len() <= TOP_COUNT {
            readings.len()
        } else {
            TOP_COUNT as nat
        },
        forall|k: int|
            0 <= k < list.len() ==> {
                let at = #[trigger] ranking(keys, TOP_COUNT as nat)[k] as int;
                0 <= at < readings.len() && describes(list[k], readings[at], total_memory)
            },
        forall|a: int, b: int|
            0 <= a < b < list.len() ==> keys[(#[trigger] ranking(keys, TOP_COUNT as nat)[a]) as int]
                >= keys[(#[trigger] ranking(keys, TOP_COUNT as nat)[b]) as int],
        forall|j: int, k: int|
            #![trigger keys[j], ranking(keys, TOP_COUNT as nat)[k]]
            0 <= j < keys.len() && 0 <= k < list.len() && !ranking(
                keys,
                TOP_COUNT as nat,
            ).contains(j as usize) ==> keys[j] <= keys[ranking(keys, TOP_COUNT as nat)[k] as int],
{
    let order = ranking(keys, TOP_COUNT as nat);
    lemma_ranking_properties(keys, TOP_COUNT as nat, order);
    assert forall|k: int| 0 <= k < list.len() implies {
        let at = #[trigger] order[k] as int;
        0 <= at < readings.len() && describes(list[k], readings[at], total_memory)
    } by {
        assert(describes(list[k], readings[order[k] as int], total_memory));
    }
}

} // verus!
