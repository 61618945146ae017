//! Usage and throughput of the primary disk.

use vstd::prelude::*;
use super::diskstats::{disk_stats, read_disk_stats};
use super::history::{pushed, History60};
use super::metrics::{
    counter_delta, interval_due, percent_of, rate_per_second, saturating_delta, speed_sample,
    throughput, throughput_sample, usage_percent, MIN_INTERVAL_NANOS, SECTOR_BYTES,
};
use crate::text::{
    char_is_digit, chars_of, has_prefix, nearest_double, no_decimal, one_decimal,
    push_no_decimal, push_one_decimal, starts_with_at, strip_leading, to_nearest_double,
    trim_trailing_digits, GB, TB,
};

verus! {

/// One mounted filesystem, as the operating system lists it.
#[derive(Debug)]
pub struct DiskEntry {
    /// Path of the block device, such as `/dev/sda1`.
    pub name: String,
    pub mount_point: String,
    /// Capacity in bytes.
    pub total_space: u64,
    /// Bytes still available.
    pub available_space: u64,
}

/// Current state of the primary disk.
#[derive(Debug)]
pub struct DiskData {
    pub name: String,
    pub mount_point: String,
    pub total_space: u64,
    pub used_space: u64,
    pub free_space: u64,
    /// Share of the capacity in use, in hundredths of a percent.
    pub usage_percent: u32,
    /// Read throughput in bytes per second.
    pub read_speed: u128,
    /// Write throughput in bytes per second.
    pub write_speed: u128,
    /// Bytes read since the system started.
    pub reads_total: u128,
    /// Bytes written since the system started.
    pub writes_total: u128,
}

/// Collector for the primary disk. The disk is chosen when the collector is
/// built and never changes afterwards.
pub struct DiskCollector {
    pub data: DiskData,
    /// Read throughput in whole megabytes per second.
    pub read_history: History60,
    /// Write throughput in whole megabytes per second.
    pub write_history: History60,
    /// Time of the last tick that computed the speeds, in nanoseconds; the
    /// time at which the collector was built until there is one. The sector
    /// counters below were read at this time.
    pub last_update: u64,
    /// Name of the device in the accounting table, empty if there is none.
    pub device_name: String,
    pub last_sectors_read: u64,
    pub last_sectors_written: u64,
}

/// The mount point of the root filesystem.
pub open spec fn root_mount() -> Seq<char> {
    seq!['/']
}

/// The directory prefix of device paths.
pub open spec fn device_dir() -> Seq<char> {
    seq!['/', 'd', 'e', 'v', '/']
}

/// The prefix of the names of NVMe devices.
pub open spec fn nvme_prefix() -> Seq<char> {
    seq!['n', 'v', 'm', 'e']
}

/// The name of the whole device that a partition path belongs to: the path
/// without the device directory and without the partition suffix. The suffix
/// is the trailing digits, for an NVMe device together with the `p` before
/// them; an NVMe name without such a `p` is left as it is.
pub open spec fn device_base_name(path: Seq<char>) -> Seq<char> {
    let name = strip_leading(path, device_dir());
    let stem = trim_trailing_digits(name);
    if has_prefix(name, nvme_prefix()) {
        if stem.len() > 0 && stem.last() == 'p' {
            stem.drop_last()
        } else {
            name
        }
    } else {
        stem
    }
}

/// Index of the first filesystem of `disks` mounted at `mount`.
pub open spec fn first_mounted_at(disks: Seq<DiskEntry>, mount: Seq<char>) -> Option<int>
    decreases disks.len(),
{
    if disks.len() == 0 {
        None
    } else {
        match first_mounted_at(disks.drop_last(), mount) {
            Some(i) => Some(i),
            None => if disks.last().mount_point@ == mount {
                Some(disks.len() - 1)
            } else {
                None
            },
        }
    }
}

/// Index of the filesystem of `disks` with the largest capacity, the last of
/// them where several are equally large.
pub open spec fn largest_disk(disks: Seq<DiskEntry>) -> Option<int>
    decreases disks.len(),
{
    if disks.len() == 0 {
        None
    } else {
        match largest_disk(disks.drop_last()) {
            Some(i) => if disks[i].total_space > disks.last().total_space {
                Some(i)
            } else {
                Some(disks.len() - 1)
            },
            None => Some(disks.len() - 1),
        }
    }
}

/// Index of the primary disk: the root filesystem, or without one the
/// largest filesystem.
pub open spec fn primary_disk(disks: Seq<DiskEntry>) -> Option<int> {
    match first_mounted_at(disks, root_mount()) {
        Some(i) => Some(i),
        None => largest_disk(disks),
    }
}

/// What `first_mounted_at` finds is mounted at `mount` and nothing before it
/// is; it finds nothing only where no filesystem is mounted there.
pub proof fn lemma_first_mounted_at(disks: Seq<DiskEntry>, mount: Seq<char>)
    ensures
        match first_mounted_at(disks, mount) {
            Some(i) => {
                &&& 0 <= i < disks.len()
                &&& disks[i].mount_point@ == mount
                &&& forall|j: int| 0 <= j < i ==> (#[trigger] disks[j]).mount_point@ != mount
            },
            None => forall|j: int|
                0 <= j < disks.len() ==> (#[trigger] disks[j]).mount_point@ != mount,
        },
    decreases disks.len(),
{
    if disks.len() > 0 {
        lemma_first_mounted_at(disks.drop_last(), mount);
        assert forall|j: int| 0 <= j < disks.len() - 1 implies disks.drop_last()[j]
            == disks[j] by {}
        match first_mounted_at(disks.drop_last(), mount) {
            Some(i) => {
                assert forall|j: int| 0 <= j < i implies (#[trigger] disks[j]).mount_point@
                    != mount by {
                    assert(disks.drop_last()[j] == disks[j]);
                }
            },
            None => {
                assert forall|j: int| 0 <= j < disks.len() - 1 implies (
                #[trigger] disks[j]).mount_point@ != mount by {
                    assert(disks.drop_last()[j] == disks[j]);
                }
            },
        }
    }
}

/// What `largest_disk` finds is at least as large as every filesystem and
/// larger than every one after it; it finds nothing only in an empty list.
pub proof fn lemma_largest_disk(disks: Seq<DiskEntry>)
    ensures
        match largest_disk(disks) {
            Some(i) => {
                &&& 0 <= i < disks.len()
                &&& forall|j: int|
                    0 <= j < disks.len() ==> (#[trigger] disks[j]).total_space
                        <= disks[i].total_space
                &&& forall|j: int|
                    i < j < disks.len() ==> (#[trigger] disks[j]).total_space
                        < disks[i].total_space
            },
            None => disks.len() == 0,
        },
    decreases disks.len(),
{
    if disks.len() > 0 {
        let init = disks.drop_last();
        lemma_largest_disk(init);
        match largest_disk(init) {
            Some(i) => {
                assert(init[i] == disks[i]);
                let best = largest_disk(disks)->0;
                assert forall|j: int| 0 <= j < disks.len() implies (
                #[trigger] disks[j]).total_space <= disks[best].total_space by {
                    if j < init.len() {
                        assert(init[j] == disks[j]);
                    }
                }
                assert forall|j: int| best < j < disks.len() implies (
                #[trigger] disks[j]).total_space < disks[best].total_space by {
                    if j < init.len() {
                        assert(init[j] == disks[j]);
                    }
                }
            },
            None => {},
        }
    }
}

/// Name of the whole device behind a partition path, as the accounting table
/// calls it: `sda` for `/dev/sda1`, `nvme0n1` for `/dev/nvme0n1p1`.
pub fn extract_device_name(name: &str) -> (device: String)
    ensures
        device@ == device_base_name(name@),
{
    let chars = chars_of(name);
    proof {
        reveal_strlit("/dev/");
        reveal_strlit("nvme");
    }
    let dir = chars_of("/dev/");
    let nvme = chars_of("nvme");
    assert(dir@ =~= device_dir());
    assert(nvme@ =~= nvme_prefix());
    let mut start: usize = 0;
    assert(chars@.skip(0) =~= chars@);
    while starts_with_at(&chars, start, &dir)
        invariant
            start <= chars.len(),
            dir@ == device_dir(),
            strip_leading(chars@, dir@) == strip_leading(chars@.skip(start as int), dir@),
        decreases chars.len() - start,
    {
        assert(chars@.skip(start as int).skip(5) =~= chars@.skip(start + 5));
        start += 5;
    }
    let ghost base = chars@.skip(start as int);
    assert(base == strip_leading(name@, device_dir()));
    let mut end: usize = chars.len();
    assert(chars@.subrange(start as int, end as int) =~= base);
    while end > start && char_is_digit(chars[end - 1])
        invariant
            start <= end <= chars.len(),
            trim_trailing_digits(base) == trim_trailing_digits(
                chars@.subrange(start as int, end as int),
            ),
        decreases end - start,
    {
        assert(chars@.subrange(start as int, end as int).drop_last() =~= chars@.subrange(
            start as int,
            end - 1,
        ));
        end -= 1;
    }
    let ghost stem = chars@.subrange(start as int, end as int);
    assert(stem == trim_trailing_digits(base));
    let stop: usize = if starts_with_at(&chars, start, &nvme) {
        if end > start && chars[end - 1] == 'p' {
            assert(stem.drop_last() =~= chars@.subrange(start as int, end - 1));
            end - 1
        } else {
            assert(base =~= chars@.subrange(start as int, chars.len() as int));
            chars.len()
        }
    } else {
        end
    };
    String::from_str(name.substring_char(start, stop))
}

/// What the accounting table reports for the device of a collector: nothing
/// where the collector has no device or the table could not be had.
pub open spec fn sampled_counters(device: Seq<char>, table: Option<Seq<char>>) -> Option<
    (u64, u64),
> {
    match table {
        Some(text) => if device.len() > 0 {
            disk_stats(text, device)
        } else {
            None
        },
        None => None,
    }
}

/// The text of a table that was read, as a sequence of characters.
pub open spec fn table_text(table: Option<&str>) -> Option<Seq<char>> {
    match table {
        Some(text) => Some(text@),
        None => None,
    }
}

impl DiskData {
    /// Nothing known: empty strings, every number zero.
    pub open spec fn is_default(&self) -> bool {
        &&& self.name@ == Seq::<char>::empty()
        &&& self.mount_point@ == Seq::<char>::empty()
        &&& self.total_space == 0
        &&& self.used_space == 0
        &&& self.free_space == 0
        &&& self.usage_percent == 0
        &&& self.read_speed == 0
        &&& self.write_speed == 0
        &&& self.reads_total == 0
        &&& self.writes_total == 0
    }

    /// Whether the usage figures are those of the filesystem `disk`.
    pub open spec fn usage_of(&self, disk: DiskEntry) -> bool {
        &&& self.total_space == disk.total_space
        &&& self.free_space == disk.available_space
        &&& self.used_space == counter_delta(
            disk.available_space as nat,
            disk.total_space as nat,
        )
        &&& self.usage_percent == percent_of(self.used_space as nat, self.total_space as nat)
    }

    /// Whether the usage figures are those of `pre`.
    pub open spec fn usage_kept(&self, pre: DiskData) -> bool {
        &&& self.total_space == pre.total_space
        &&& self.free_space == pre.free_space
        &&& self.used_space == pre.used_space
        &&& self.usage_percent == pre.usage_percent
    }
}

impl Default for DiskData {
    fn default() -> (data: Self)
        ensures
            data.is_default(),
    {
        DiskData {
            name: String::new(),
            mount_point: String::new(),
            total_space: 0,
            used_space: 0,
            free_space: 0,
            usage_percent: 0,
            read_speed: 0,
            write_speed: 0,
            reads_total: 0,
            writes_total: 0,
        }
    }
}

/// Index of the first filesystem mounted at `mount`.
pub fn find_mount(disks: &Vec<DiskEntry>, mount: &str) -> (found: Option<usize>)
    ensures
        match found {
            Some(i) => first_mounted_at(disks@, mount@) == Some(i as int) && i < disks.len(),
            None => first_mounted_at(disks@, mount@) is None,
        },
{
    let wanted = String::from_str(mount);
    let mut i: usize = 0;
    assert(disks@.take(0) =~= Seq::<DiskEntry>::empty());
    while i < disks.len()
        invariant
            i <= disks.len(),
            wanted@ == mount@,
            first_mounted_at(disks@.take(i as int), mount@) is None,
        decreases disks.len() - i,
    {
        assert(disks@.take(i + 1).drop_last() =~= disks@.take(i as int));
        if disks[i].mount_point == wanted {
            proof {
                lemma_first_mounted_at_extends(disks@, mount@, i + 1);
            }
            return Some(i);
        }
        i += 1;
    }
    assert(disks@.take(disks.len() as int) =~= disks@);
    None
}

/// What is found among the first `n` filesystems is found among all of them.
proof fn lemma_first_mounted_at_extends(disks: Seq<DiskEntry>, mount: Seq<char>, n: int)
    requires
        0 <= n <= disks.len(),
        first_mounted_at(disks.take(n), mount) is Some,
    ensures
        first_mounted_at(disks, mount) == first_mounted_at(disks.take(n), mount),
    decreases disks.len() - n,
{
    if n < disks.len() {
        assert(disks.take(n + 1).drop_last() =~= disks.take(n));
        lemma_first_mounted_at_extends(disks, mount, n + 1);
    } else {
        assert(disks.take(n) =~= disks);
    }
}

/// Index of the filesystem with the largest capacity, the last of several.
pub fn find_largest(disks: &Vec<DiskEntry>) -> (found: Option<usize>)
    ensures
        match found {
            Some(i) => largest_disk(disks@) == Some(i as int) && i < disks.len(),
            None => largest_disk(disks@) is None,
        },
{
    if disks.len() == 0 {
        return None;
    }
    let mut best: usize = 0;
    let mut i: usize = 1;
    assert(largest_disk(disks@.take(1)) == Some(0int)) by {
        assert(disks@.take(1).drop_last() =~= Seq::<DiskEntry>::empty());
        assert(largest_disk(disks@.take(1).drop_last()) is None);
    }
    while i < disks.len()
        invariant
            1 <= i <= disks.len(),
            best < i,
            largest_disk(disks@.take(i as int)) == Some(best as int),
        decreases disks.len() - i,
    {
        assert(disks@.take(i + 1).drop_last() =~= disks@.take(i as int));
        if disks[i].total_space >= disks[best].total_space {
            best = i;
        }
        i += 1;
    }
    assert(disks@.take(disks.len() as int) =~= disks@);
    Some(best)
}

/// Index of the primary disk: the root filesystem, or the largest one.
pub fn select_primary(disks: &Vec<DiskEntry>) -> (found: Option<usize>)
    ensures
        match found {
            Some(i) => primary_disk(disks@) == Some(i as int) && i < disks.len(),
            None => primary_disk(disks@) is None,
        },
{
    proof {
        reveal_strlit("/");
    }
    assert("/"@ =~= root_mount());
    match find_mount(disks, "/") {
        Some(i) => Some(i),
        None => find_largest(disks),
    }
}

/// Looks up the sector counters of `device` in the accounting table.
fn sample_counters(device: &String, table: Option<&str>) -> (counters: Option<(u64, u64)>)
    ensures
        counters == sampled_counters(device@, table_text(table)),
{
    match table {
        Some(text) => if device.as_str().unicode_len() > 0 {
            read_disk_stats(text, device.as_str())
        } else {
            None
        },
        None => None,
    }
}

impl DiskCollector {
    /// What one call of `collect` does. A tick that comes less than the
    /// minimum interval after the last one that computed the speeds changes
    /// nothing. Otherwise the usage figures are those of the filesystem at
    /// the collector's mount point, or stay where it is gone. If the table
    /// reports the device, the speeds are the growth of its sector counters,
    /// in bytes, over the time since they were last read, the totals are
    /// the counters in bytes, and counters and time are remembered; if not,
    /// speeds, totals, counters and time stay. Both speeds are recorded.
    pub open spec fn tick(
        pre: DiskCollector,
        post: DiskCollector,
        disks: Seq<DiskEntry>,
        table: Option<Seq<char>>,
        now: u64,
    ) -> bool {
        let elapsed = counter_delta(pre.last_update as nat, now as nat);
        if !interval_due(pre.last_update, now) {
            post == pre
        } else {
            &&& post.data.name == pre.data.name
            &&& post.data.mount_point == pre.data.mount_point
            &&& post.device_name == pre.device_name
            &&& match first_mounted_at(disks, pre.data.mount_point@) {
                Some(i) => post.data.usage_of(disks[i]),
                None => post.data.usage_kept(pre.data),
            }
            &&& match sampled_counters(pre.device_name@, table) {
                Some((read, written)) => {
                    &&& post.data.read_speed == rate_per_second(
                        counter_delta(pre.last_sectors_read as nat, read as nat),
                        512,
                        elapsed,
                    )
                    &&& post.data.write_speed == rate_per_second(
                        counter_delta(pre.last_sectors_written as nat, written as nat),
                        512,
                        elapsed,
                    )
                    &&& post.data.reads_total == read * 512
                    &&& post.data.writes_total == written * 512
                    &&& post.last_sectors_read == read
                    &&& post.last_sectors_written == written
                    &&& post.last_update == now
                },
                None => {
                    &&& post.data.read_speed == pre.data.read_speed
                    &&& post.data.write_speed == pre.data.write_speed
                    &&& post.data.reads_total == pre.data.reads_total
                    &&& post.data.writes_total == pre.data.writes_total
                    &&& post.last_sectors_read == pre.last_sectors_read
                    &&& post.last_sectors_written == pre.last_sectors_written
                    &&& post.last_update == pre.last_update
                },
            }
            &&& post.read_history@ == pushed(
                pre.read_history@,
                speed_sample(post.data.read_speed),
                60,
            )
            &&& post.write_history@ == pushed(
                pre.write_history@,
                speed_sample(post.data.write_speed),
                60,
            )
        }
    }

    /// What `new` builds: the primary disk chosen, with its usage and the
    /// name of its device; the sector counters that the table reports for
    /// the device, or zero; speeds and totals zero and both histories empty.
    pub open spec fn fresh(
        collector: DiskCollector,
        disks: Seq<DiskEntry>,
        table: Option<Seq<char>>,
        now: u64,
    ) -> bool {
        &&& collector.read_history@ == Seq::<u64>::empty()
        &&& collector.write_history@ == Seq::<u64>::empty()
        &&& collector.last_update == now
        &&& collector.data.read_speed == 0
        &&& collector.data.write_speed == 0
        &&& collector.data.reads_total == 0
        &&& collector.data.writes_total == 0
        &&& match primary_disk(disks) {
            Some(i) => {
                &&& collector.data.name@ == disks[i].name@
                &&& collector.data.mount_point@ == disks[i].mount_point@
                &&& collector.data.usage_of(disks[i])
                &&& collector.device_name@ == device_base_name(disks[i].name@)
            },
            None => {
                &&& collector.data.is_default()
                &&& collector.device_name@ == Seq::<char>::empty()
            },
        }
        &&& match sampled_counters(collector.device_name@, table) {
            Some(counters) => collector.last_sectors_read == counters.0
                && collector.last_sectors_written == counters.1,
            None => collector.last_sectors_read == 0 && collector.last_sectors_written == 0,
        }
    }

    /// Builds the collector at time `now` from the mounted filesystems and,
    /// where it could be read, the text of the accounting table. The primary
    /// disk is chosen here, and the initial sector counters are those that
    /// the table reports for its device, or zero.
    pub fn new(disks: &Vec<DiskEntry>, table: Option<&str>, now: u64) -> (collector: Self)
        ensures
            DiskCollector::fresh(collector, disks@, table_text(table), now),
    {
        let mut data = DiskData::default();
        let mut device_name = String::new();
        match select_primary(disks) {
            Some(i) => {
                let disk = &disks[i];
                let used: u64 = saturating_delta(disk.available_space, disk.total_space);
                data.name = disk.name.clone();
                data.mount_point = disk.mount_point.clone();
                data.total_space = disk.total_space;
                data.used_space = used;
                data.free_space = disk.available_space;
                data.usage_percent = usage_percent(used, disk.total_space);
                device_name = extract_device_name(disk.name.as_str());
            },
            None => {},
        }
        let (sectors_read, sectors_written): (u64, u64) = match sample_counters(
            &device_name,
            table,
        ) {
            Some(c) => c,
            None => (0, 0),
        };
        DiskCollector {
            data,
            read_history: History60::new(),
            write_history: History60::new(),
            last_update: now,
            device_name,
            last_sectors_read: sectors_read,
            last_sectors_written: sectors_written,
        }
    }

    /// Takes over one tick: the mounted filesystems, the text of the
    /// accounting table where it could be read, and the time in nanoseconds.
    pub fn collect(&mut self, disks: &Vec<DiskEntry>, table: Option<&str>, now: u64)
        ensures
            DiskCollector::tick(*old(self), *final(self), disks@, table_text(table), now),
    {
        let elapsed: u64 = saturating_delta(self.last_update, now);
        if elapsed < MIN_INTERVAL_NANOS {
            return ;
        }
        match find_mount(disks, self.data.mount_point.as_str()) {
            Some(i) => {
                let disk = &disks[i];
                let used: u64 = saturating_delta(disk.available_space, disk.total_space);
                self.data.total_space = disk.total_space;
                self.data.used_space = used;
                self.data.free_space = disk.available_space;
                self.data.usage_percent = usage_percent(used, disk.total_space);
            },
            None => {},
        }
        match sample_counters(&self.device_name, table) {
            Some((read, written)) => {
                let read_delta: u64 = saturating_delta(self.last_sectors_read, read);
                let written_delta: u64 = saturating_delta(self.last_sectors_written, written);
                self.data.read_speed = throughput(read_delta, SECTOR_BYTES, elapsed);
                self.data.write_speed = throughput(written_delta, SECTOR_BYTES, elapsed);
                self.data.reads_total = (read as u128) * (SECTOR_BYTES as u128);
                self.data.writes_total = (written as u128) * (SECTOR_BYTES as u128);
                self.last_sectors_read = read;
                self.last_sectors_written = written;
                self.last_update = now;
            },
            None => {},
        }
        self.read_history.push(throughput_sample(self.data.read_speed));
        self.write_history.push(throughput_sample(self.data.write_speed));
    }
}

/// Rate law of the disk collector. A tick that comes less than the minimum
/// interval after the last one that computed the speeds leaves both speeds
/// as they were, and so does a tick that does not find the device in the
/// table. A later tick that finds it sets each speed to the growth of its
/// sector counter times 512 bytes, divided by the seconds that have passed
/// since the counters were last read; a counter that went backwards counts
/// as no growth and gives a speed of zero.
pub proof fn lemma_disk_rates(
    pre: DiskCollector,
    post: DiskCollector,
    disks: Seq<DiskEntry>,
    table: Option<Seq<char>>,
    now: u64,
)
    requires
        DiskCollector::tick(pre, post, disks, table, now),
    ensures
        !interval_due(pre.last_update, now) ==> post.data.read_speed == pre.data.read_speed
            && post.data.write_speed == pre.data.write_speed,
        interval_due(pre.last_update, now) ==> match sampled_counters(pre.device_name@, table) {
            Some((read, written)) => {
                &&& now > pre.last_update
                &&& pre.last_sectors_read <= read ==> post.data.read_speed == (read
                    - pre.last_sectors_read) * 512 * 1_000_000_000 / (now - pre.last_update)
                &&& pre.last_sectors_written <= written ==> post.data.write_speed == (written
                    - pre.last_sectors_written) * 512 * 1_000_000_000 / (now - pre.last_update)
                &&& read < pre.last_sectors_read ==> post.data.read_speed == 0
                &&& written < pre.last_sectors_written ==> post.data.write_speed == 0
            },
            None => post.data.read_speed == pre.data.read_speed && post.data.write_speed
                == pre.data.write_speed,
        },
{
    if interval_due(pre.last_update, now) {
        let elapsed = (now - pre.last_update) as int;
        assert(0int * 512 * 1_000_000_000 / elapsed == 0int);
    }
}

/// Counters and time move together: after any tick the remembered sector
/// counters are those read at the remembered time. A tick that does not
/// compute the speeds keeps all three, so the next rate divides the growth
/// since the last computation by the time since that same computation.
pub proof fn lemma_disk_baseline_moves_with_time(
    pre: DiskCollector,
    post: DiskCollector,
    disks: Seq<DiskEntry>,
    table: Option<Seq<char>>,
    now: u64,
)
    requires
        DiskCollector::tick(pre, post, disks, table, now),
    ensures
        if interval_due(pre.last_update, now) && sampled_counters(pre.device_name@, table)
            is Some {
            &&& post.last_update == now
            &&& Some((post.last_sectors_read, post.last_sectors_written)) == sampled_counters(
                pre.device_name@,
                table,
            )
        } else {
            &&& post.last_update == pre.last_update
            &&& post.last_sectors_read == pre.last_sectors_read
            &&& post.last_sectors_written == pre.last_sectors_written
            &&& post.data.read_speed == pre.data.read_speed
            &&& post.data.write_speed == pre.data.write_speed
        },
{
}

/// A tick that finds no counters does not shorten the interval of the next
/// rate. When a tick at time `a` computed the speeds from the counters
/// `first`, a later tick found no line for the device, and a tick at time
/// `c` after that reads the counters `last`, each speed is the growth since
/// `first` divided by the seconds from `a` to `c`.
pub proof fn lemma_disk_rate_across_missed_tick(
    start: DiskCollector,
    computed: DiskCollector,
    missed: DiskCollector,
    end: DiskCollector,
    ticks: (Seq<DiskEntry>, Seq<DiskEntry>, Seq<DiskEntry>),
    tables: (Option<Seq<char>>, Option<Seq<char>>, Option<Seq<char>>),
    a: u64,
    b: u64,
    c: u64,
    first: (u64, u64),
    last: (u64, u64),
)
    requires
        DiskCollector::tick(start, computed, ticks.0, tables.0, a),
        DiskCollector::tick(computed, missed, ticks.1, tables.1, b),
        DiskCollector::tick(missed, end, ticks.2, tables.2, c),
        interval_due(start.last_update, a),
        sampled_counters(start.device_name@, tables.0) == Some(first),
        interval_due(a, b),
        sampled_counters(start.device_name@, tables.1) is None,
        b <= c,
        sampled_counters(start.device_name@, tables.2) == Some(last),
        first.0 <= last.0,
        first.1 <= last.1,
    ensures
        a < c,
        end.data.read_speed == (last.0 - first.0) * 512 * 1_000_000_000 / (c - a),
        end.data.write_speed == (last.1 - first.1) * 512 * 1_000_000_000 / (c - a),
        end.last_update == c,
{
    assert(computed.last_update == a);
    assert(computed.device_name == start.device_name);
    assert(missed.last_update == a);
    assert(missed.device_name == start.device_name);
    assert(interval_due(missed.last_update, c));
}

/// The text that shows a disk space of `bytes` bytes: terabytes with one
/// decimal place from one terabyte on, whole gigabytes below. The figure is
/// rounded as a double-precision quotient is when it is printed.
pub open spec fn space_text(bytes: u64) -> Seq<char> {
    if bytes >= TB {
        one_decimal(nearest_double(bytes as nat), TB as nat) + seq![' ', 'T', 'B']
    } else {
        no_decimal(bytes as nat, GB as nat) + seq![' ', 'G', 'B']
    }
}

/// Shows a disk space in bytes for reading: `1.8 TB`, `466 GB`.
pub fn format_space(bytes: u64) -> (text: String)
    ensures
        text@ == space_text(bytes),
{
    proof {
        reveal_strlit(" TB");
        reveal_strlit(" GB");
        assert(" TB"@ =~= seq![' ', 'T', 'B']);
        assert(" GB"@ =~= seq![' ', 'G', 'B']);
    }
    let mut text = String::new();
    if bytes >= TB {
        push_one_decimal(&mut text, to_nearest_double(bytes), TB as u128);
        text.append(" TB");
    } else {
        push_no_decimal(&mut text, bytes as u128, GB as u128);
        text.append(" GB");
    }
    assert(text@ =~= space_text(bytes));
    text
}

} // verus!
