//! Traffic of the primary network interface.

use vstd::prelude::*;
use super::history::{pushed, History60};
use super::metrics::{
    counter_delta, interval_due, rate_per_second, saturating_delta, speed_sample, throughput,
    throughput_sample, MIN_INTERVAL_NANOS,
};
use crate::text::{
    decimal, nearest_double, no_decimal, one_decimal, push_decimal, push_no_decimal,
    push_one_decimal, to_nearest_double, GB, KB, MB,
};

verus! {

/// One network interface with its cumulative counters, as the operating
/// system lists it.
#[derive(Debug)]
pub struct InterfaceEntry {
    pub name: String,
    /// Bytes received since the system started.
    pub total_received: u64,
    /// Bytes transmitted since the system started.
    pub total_transmitted: u64,
    pub packets_received: u64,
    pub packets_transmitted: u64,
    pub errors_on_received: u64,
    pub errors_on_transmitted: u64,
}

/// Current state of the primary interface.
#[derive(Debug)]
pub struct NetworkData {
    pub interface: String,
    pub rx_bytes: u64,
    pub tx_bytes: u64,
    /// Receive throughput in bytes per second.
    pub rx_speed: u128,
    /// Transmit throughput in bytes per second.
    pub tx_speed: u128,
    pub rx_packets: u64,
    pub tx_packets: u64,
    pub rx_errors: u64,
    pub tx_errors: u64,
}

/// Collector for the primary network interface. The interface is chosen when
/// the collector is built and never changes afterwards.
pub struct NetworkCollector {
    pub data: NetworkData,
    /// Receive throughput in whole megabytes per second.
    pub rx_history: History60,
    /// Transmit throughput in whole megabytes per second.
    pub tx_history: History60,
    pub last_rx: u64,
    pub last_tx: u64,
    /// Time of the last tick that was taken over, in nanoseconds.
    pub last_update: u64,
}

/// The interface that is watched where the system lists none.
pub open spec fn fallback_interface() -> Seq<char> {
    seq!['e', 't', 'h', '0']
}

/// Bytes that an interface has moved in both directions.
pub open spec fn traffic(entry: InterfaceEntry) -> nat {
    (entry.total_received + entry.total_transmitted) as nat
}

/// Index of the interface that has moved the most bytes, the last of them
/// where several have moved equally many.
pub open spec fn busiest_interface(interfaces: Seq<InterfaceEntry>) -> Option<int>
    decreases interfaces.len(),
{
    if interfaces.len() == 0 {
        None
    } else {
        match busiest_interface(interfaces.drop_last()) {
            Some(i) => if traffic(interfaces[i]) > traffic(interfaces.last()) {
                Some(i)
            } else {
                Some(interfaces.len() - 1)
            },
            None => Some(interfaces.len() - 1),
        }
    }
}

/// Index of the first interface called `name`.
pub open spec fn interface_named(interfaces: Seq<InterfaceEntry>, name: Seq<char>) -> Option<int>
    decreases interfaces.len(),
{
    if interfaces.len() == 0 {
        None
    } else {
        match interface_named(interfaces.drop_last(), name) {
            Some(i) => Some(i),
            None => if interfaces.last().name@ == name {
                Some(interfaces.len() - 1)
            } else {
                None
            },
        }
    }
}

/// What `busiest_interface` finds has moved at least as many bytes as every
/// interface and more than every one after it; it finds nothing only in an
/// empty list.
pub proof fn lemma_busiest_interface(interfaces: Seq<InterfaceEntry>)
    ensures
        match busiest_interface(interfaces) {
            Some(i) => {
                &&& 0 <= i < interfaces.len()
                &&& forall|j: int|
                    0 <= j < interfaces.len() ==> traffic(#[trigger] interfaces[j]) <= traffic(
                        interfaces[i],
                    )
                &&& forall|j: int|
                    i < j < interfaces.len() ==> traffic(#[trigger] interfaces[j]) < traffic(
                        interfaces[i],
                    )
            },
            None => interfaces.len() == 0,
        },
    decreases interfaces.len(),
{
    if interfaces.len() > 0 {
        let init = interfaces.drop_last();
        lemma_busiest_interface(init);
        match busiest_interface(init) {
            Some(i) => {
                assert(init[i] == interfaces[i]);
                let best = busiest_interface(interfaces)->0;
                assert forall|j: int| 0 <= j < interfaces.len() implies traffic(
                    #[trigger] interfaces[j],
                ) <= traffic(interfaces[best]) by {
                    if j < init.len() {
                        assert(init[j] == interfaces[j]);
                    }
                }
                assert forall|j: int| best < j < interfaces.len() implies traffic(
                    #[trigger] interfaces[j],
                ) < traffic(interfaces[best]) by {
                    if j < init.len() {
                        assert(init[j] == interfaces[j]);
                    }
                }
            },
            None => {},
        }
    }
}

/// What `interface_named` finds is called `name` and nothing before it is;
/// it finds nothing only where no interface is called so.
pub proof fn lemma_interface_named(interfaces: Seq<InterfaceEntry>, name: Seq<char>)
    ensures
        match interface_named(interfaces, name) {
            Some(i) => {
                &&& 0 <= i < interfaces.len()
                &&& interfaces[i].name@ == name
                &&& forall|j: int| 0 <= j < i ==> (#[trigger] interfaces[j]).name@ != name
            },
            None => forall|j: int|
                0 <= j < interfaces.len() ==> (#[trigger] interfaces[j]).name@ != name,
        },
    decreases interfaces.len(),
{
    if interfaces.len() > 0 {
        let init = interfaces.drop_last();
        lemma_interface_named(init, name);
        match interface_named(init, name) {
            Some(i) => {
                assert forall|j: int| 0 <= j < i implies (#[trigger] interfaces[j]).name@
                    != name by {
                    assert(init[j] == interfaces[j]);
                }
            },
            None => {
                assert forall|j: int| 0 <= j < interfaces.len() - 1 implies (
                #[trigger] interfaces[j]).name@ != name by {
                    assert(init[j] == interfaces[j]);
                }
            },
        }
    }
}

/// What is found among the first `n` interfaces is found among all of them.
proof fn lemma_interface_named_extends(
    interfaces: Seq<InterfaceEntry>,
    name: Seq<char>,
    n: int,
)
    requires
        0 <= n <= interfaces.len(),
        interface_named(interfaces.take(n), name) is Some,
    ensures
        interface_named(interfaces, name) == interface_named(interfaces.take(n), name),
    decreases interfaces.len() - n,
{
    if n < interfaces.len() {
        assert(interfaces.take(n + 1).drop_last() =~= interfaces.take(n));
        lemma_interface_named_extends(interfaces, name, n + 1);
    } else {
        assert(interfaces.take(n) =~= interfaces);
    }
}

/// Index of the interface that has moved the most bytes, the last of several.
pub fn find_busiest(interfaces: &Vec<InterfaceEntry>) -> (found: Option<usize>)
    ensures
        match found {
            Some(i) => busiest_interface(interfaces@) == Some(i as int) && i < interfaces.len(),
            None => busiest_interface(interfaces@) is None,
        },
{
    if interfaces.len() == 0 {
        return None;
    }
    let mut best: usize = 0;
    let mut i: usize = 1;
    assert(busiest_interface(interfaces@.take(1)) == Some(0int)) by {
        assert(interfaces@.take(1).drop_last() =~= Seq::<InterfaceEntry>::empty());
        assert(busiest_interface(interfaces@.take(1).drop_last()) is None);
    }
    while i < interfaces.len()
        invariant
            1 <= i <= interfaces.len(),
            best < i,
            busiest_interface(interfaces@.take(i as int)) == Some(best as int),
        decreases interfaces.len() - i,
    {
        assert(interfaces@.take(i + 1).drop_last() =~= interfaces@.take(i as int));
        let here: u128 = interfaces[i].total_received as u128
            + interfaces[i].total_transmitted as u128;
        let most: u128 = interfaces[best].total_received as u128
            + interfaces[best].total_transmitted as u128;
        if here >= most {
            best = i;
        }
        i += 1;
    }
    assert(interfaces@.take(interfaces.len() as int) =~= interfaces@);
    Some(best)
}

/// Index of the first interface called `name`.
pub fn find_interface(interfaces: &Vec<InterfaceEntry>, name: &str) -> (found: Option<usize>)
    ensures
        match found {
            Some(i) => interface_named(interfaces@, name@) == Some(i as int) && i
                < interfaces.len(),
            None => interface_named(interfaces@, name@) is None,
        },
{
    let wanted = String::from_str(name);
    let mut i: usize = 0;
    assert(interfaces@.take(0) =~= Seq::<InterfaceEntry>::empty());
    while i < interfaces.len()
        invariant
            i <= interfaces.len(),
            wanted@ == name@,
            interface_named(interfaces@.take(i as int), name@) is None,
        decreases interfaces.len() - i,
    {
        assert(interfaces@.take(i + 1).drop_last() =~= interfaces@.take(i as int));
        if interfaces[i].name == wanted {
            proof {
                lemma_interface_named_extends(interfaces@, name@, i + 1);
            }
            return Some(i);
        }
        i += 1;
    }
    assert(interfaces@.take(interfaces.len() as int) =~= interfaces@);
    None
}

impl NetworkCollector {
    /// What one call of `collect` does. A tick that comes less than the
    /// minimum interval after the last one, or that does not list the
    /// collector's interface, changes nothing. Otherwise the speeds are the
    /// growth of the byte counters over the time since the last tick, the
    /// cumulative figures are those reported, and both speeds are recorded.
    pub open spec fn tick(
        pre: NetworkCollector,
        post: NetworkCollector,
        interfaces: Seq<InterfaceEntry>,
        now: u64,
    ) -> bool {
        let elapsed = counter_delta(pre.last_update as nat, now as nat);
        if !interval_due(pre.last_update, now) {
            post == pre
        } else {
            match interface_named(interfaces, pre.data.interface@) {
                None => post == pre,
                Some(i) => {
                    let net = interfaces[i];
                    &&& post.data.interface == pre.data.interface
                    &&& post.data.rx_speed == rate_per_second(
                        counter_delta(pre.last_rx as nat, net.total_received as nat),
                        1,
                        elapsed,
                    )
                    &&& post.data.tx_speed == rate_per_second(
                        counter_delta(pre.last_tx as nat, net.total_transmitted as nat),
                        1,
                        elapsed,
                    )
                    &&& post.data.rx_bytes == net.total_received
                    &&& post.data.tx_bytes == net.total_transmitted
                    &&& post.data.rx_packets == net.packets_received
                    &&& post.data.tx_packets == net.packets_transmitted
                    &&& post.data.rx_errors == net.errors_on_received
                    &&& post.data.tx_errors == net.errors_on_transmitted
                    &&& post.last_rx == net.total_received
                    &&& post.last_tx == net.total_transmitted
                    &&& post.last_update == now
                    &&& post.rx_history@ == pushed(
                        pre.rx_history@,
                        speed_sample(post.data.rx_speed),
                        60,
                    )
                    &&& post.tx_history@ == pushed(
                        pre.tx_history@,
                        speed_sample(post.data.tx_speed),
                        60,
                    )
                },
            }
        }
    }

    /// What `new` builds: the primary interface chosen, its byte counters
    /// remembered, every figure of the data zero and both histories empty.
    pub open spec fn fresh(
        collector: NetworkCollector,
        interfaces: Seq<InterfaceEntry>,
        now: u64,
    ) -> bool {
        &&& collector.rx_history@ == Seq::<u64>::empty()
        &&& collector.tx_history@ == Seq::<u64>::empty()
        &&& collector.last_update == now
        &&& collector.data.rx_bytes == 0
        &&& collector.data.tx_bytes == 0
        &&& collector.data.rx_speed == 0
        &&& collector.data.tx_speed == 0
        &&& collector.data.rx_packets == 0
        &&& collector.data.tx_packets == 0
        &&& collector.data.rx_errors == 0
        &&& collector.data.tx_errors == 0
        &&& match busiest_interface(interfaces) {
            Some(i) => {
                &&& collector.data.interface@ == interfaces[i].name@
                &&& collector.last_rx == interfaces[i].total_received
                &&& collector.last_tx == interfaces[i].total_transmitted
            },
            None => {
                &&& collector.data.interface@ == fallback_interface()
                &&& collector.last_rx == 0
                &&& collector.last_tx == 0
            },
        }
    }

    /// Builds the collector at time `now` from the interfaces that the system
    /// lists. The primary interface is the one that has moved the most
    /// bytes, or `eth0` where none is listed; its byte counters are the
    /// starting point of the first rates.
    pub fn new(interfaces: &Vec<InterfaceEntry>, now: u64) -> (collector: Self)
        ensures
            NetworkCollector::fresh(collector, interfaces@, now),
    {
        let (interface, last_rx, last_tx): (String, u64, u64) = match find_busiest(interfaces) {
            Some(i) => (
                interfaces[i].name.clone(),
                interfaces[i].total_received,
                interfaces[i].total_transmitted,
            ),
            None => {
                proof {
                    reveal_strlit("eth0");
                }
                let name = String::from_str("eth0");
                assert(name@ =~= fallback_interface());
                (name, 0, 0)
            },
        };
        NetworkCollector {
            data: NetworkData {
                interface,
                rx_bytes: 0,
                tx_bytes: 0,
                rx_speed: 0,
                tx_speed: 0,
                rx_packets: 0,
                tx_packets: 0,
                rx_errors: 0,
                tx_errors: 0,
            },
            rx_history: History60::new(),
            tx_history: History60::new(),
            last_rx,
            last_tx,
            last_update: now,
        }
    }

    /// Takes over one tick: the interfaces with their counters, and the time
    /// in nanoseconds.
    pub fn collect(&mut self, interfaces: &Vec<InterfaceEntry>, now: u64)
        ensures
            NetworkCollector::tick(*old(self), *final(self), interfaces@, now),
    {
        let elapsed: u64 = saturating_delta(self.last_update, now);
        if elapsed < MIN_INTERVAL_NANOS {
            return ;
        }
        match find_interface(interfaces, self.data.interface.as_str()) {
            Some(i) => {
                let net = &interfaces[i];
                let rx: u64 = net.total_received;
                let tx: u64 = net.total_transmitted;
                self.data.rx_speed = throughput(saturating_delta(self.last_rx, rx), 1, elapsed);
                self.data.tx_speed = throughput(saturating_delta(self.last_tx, tx), 1, elapsed);
                self.data.rx_bytes = rx;
                self.data.tx_bytes = tx;
                self.data.rx_packets = net.packets_received;
                self.data.tx_packets = net.packets_transmitted;
                self.data.rx_errors = net.errors_on_received;
                self.data.tx_errors = net.errors_on_transmitted;
                self.last_rx = rx;
                self.last_tx = tx;
                self.last_update = now;
                self.rx_history.push(throughput_sample(self.data.rx_speed));
                self.tx_history.push(throughput_sample(self.data.tx_speed));
            },
            None => {},
        }
    }
}

/// Rate law of the network collector. A tick that comes less than the
/// minimum interval after the last one leaves both speeds as they were. A
/// later tick that lists the interface sets each speed to the growth of its
/// byte counter divided by the seconds that have passed; a counter that went
/// backwards counts as no growth and gives a speed of zero.
pub proof fn lemma_network_rates(
    pre: NetworkCollector,
    post: NetworkCollector,
    interfaces: Seq<InterfaceEntry>,
    now: u64,
)
    requires
        NetworkCollector::tick(pre, post, interfaces, now),
    ensures
        !interval_due(pre.last_update, now) ==> post.data.rx_speed == pre.data.rx_speed
            && post.data.tx_speed == pre.data.tx_speed,
        interval_due(pre.last_update, now) ==> match interface_named(
            interfaces,
            pre.data.interface@,
        ) {
            Some(i) => {
                let rx = interfaces[i].total_received;
                let tx = interfaces[i].total_transmitted;
                &&& now > pre.last_update
                &&& pre.last_rx <= rx ==> post.data.rx_speed == (rx - pre.last_rx) * 1_000_000_000
                    / (now - pre.last_update)
                &&& pre.last_tx <= tx ==> post.data.tx_speed == (tx - pre.last_tx) * 1_000_000_000
                    / (now - pre.last_update)
                &&& rx < pre.last_rx ==> post.data.rx_speed == 0
                &&& tx < pre.last_tx ==> post.data.tx_speed == 0
            },
            None => post.data.rx_speed == pre.data.rx_speed && post.data.tx_speed
                == pre.data.tx_speed,
        },
{
    if interval_due(pre.last_update, now) {
        let elapsed = (now - pre.last_update) as int;
        assert(0int * 1 * 1_000_000_000 / elapsed == 0int);
        match interface_named(interfaces, pre.data.interface@) {
            Some(i) => {
                let rx = interfaces[i].total_received;
                let tx = interfaces[i].total_transmitted;
                assert((rx - pre.last_rx) * 1 == rx - pre.last_rx);
                assert((tx - pre.last_tx) * 1 == tx - pre.last_tx);
            },
            None => {},
        }
    }
}

/// The text that shows a throughput of `bytes_per_sec` bytes per second: in
/// the largest unit that it reaches, with one decimal place, or in whole
/// bytes below one kilobyte. A tie in rounding goes to the even tenth.
pub open spec fn speed_text(bytes_per_sec: u128) -> Seq<char> {
    if bytes_per_sec >= GB {
        one_decimal(bytes_per_sec as nat, GB as nat) + seq![' ', 'G', 'B', '/', 's']
    } else if bytes_per_sec >= MB {
        one_decimal(bytes_per_sec as nat, MB as nat) + seq![' ', 'M', 'B', '/', 's']
    } else if bytes_per_sec >= KB {
        one_decimal(bytes_per_sec as nat, KB as nat) + seq![' ', 'K', 'B', '/', 's']
    } else {
        decimal(bytes_per_sec as nat) + seq![' ', 'B', '/', 's']
    }
}

/// The text that shows a cumulative traffic of `bytes` bytes: gigabytes with
/// one decimal place from one gigabyte on, whole megabytes from one megabyte
/// on, whole kilobytes below. The figure is rounded as a double-precision
/// quotient is when it is printed.
pub open spec fn total_text(bytes: u64) -> Seq<char> {
    if bytes >= GB {
        one_decimal(nearest_double(bytes as nat), GB as nat) + seq![' ', 'G', 'B']
    } else if bytes >= MB {
        no_decimal(bytes as nat, MB as nat) + seq![' ', 'M', 'B']
    } else {
        no_decimal(bytes as nat, KB as nat) + seq![' ', 'K', 'B']
    }
}

/// Shows a throughput in bytes per second for reading: `1.2 MB/s`, `512 B/s`.
pub fn format_speed(bytes_per_sec: u128) -> (text: String)
    ensures
        text@ == speed_text(bytes_per_sec),
{
    proof {
        reveal_strlit(" GB/s");
        reveal_strlit(" MB/s");
        reveal_strlit(" KB/s");
        reveal_strlit(" B/s");
        assert(" GB/s"@ =~= seq![' ', 'G', 'B', '/', 's']);
        assert(" MB/s"@ =~= seq![' ', 'M', 'B', '/', 's']);
        assert(" KB/s"@ =~= seq![' ', 'K', 'B', '/', 's']);
        assert(" B/s"@ =~= seq![' ', 'B', '/', 's']);
    }
    let mut text = String::new();
    if bytes_per_sec >= GB as u128 {
        push_one_decimal(&mut text, bytes_per_sec, GB as u128);
        text.append(" GB/s");
    } else if bytes_per_sec >= MB as u128 {
        push_one_decimal(&mut text, bytes_per_sec, MB as u128);
        text.append(" MB/s");
    } else if bytes_per_sec >= KB as u128 {
        push_one_decimal(&mut text, bytes_per_sec, KB as u128);
        text.append(" KB/s");
    } else {
        push_decimal(&mut text, bytes_per_sec);
        text.append(" B/s");
    }
    assert(text@ =~= speed_text(bytes_per_sec));
    text
}

/// Shows a cumulative traffic in bytes for reading: `3.4 GB`, `120 MB`, `17 KB`.
pub fn format_total(bytes: u64) -> (text: String)
    ensures
        text@ == total_text(bytes),
{
    proof {
        reveal_strlit(" GB");
        reveal_strlit(" MB");
        reveal_strlit(" KB");
        assert(" GB"@ =~= seq![' ', 'G', 'B']);
        assert(" MB"@ =~= seq![' ', 'M', 'B']);
        assert(" KB"@ =~= seq![' ', 'K', 'B']);
    }
    let mut text = String::new();
    if bytes >= GB {
        push_one_decimal(&mut text, to_nearest_double(bytes), GB as u128);
        text.append(" GB");
    } else if bytes >= MB {
        push_no_decimal(&mut text, bytes as u128, MB as u128);
        text.append(" MB");
    } else {
        push_no_decimal(&mut text, bytes as u128, KB as u128);
        text.append(" KB");
    }
    assert(text@ =~= total_text(bytes));
    text
}

} // verus!
