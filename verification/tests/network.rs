use system_monitor::collectors::network::{find_busiest, find_interface};
use system_monitor::collectors::{InterfaceEntry, NetworkCollector};

const SECOND: u64 = 1_000_000_000;

fn interface(name: &str, received: u64, transmitted: u64) -> InterfaceEntry {
    InterfaceEntry {
        name: name.to_string(),
        total_received: received,
        total_transmitted: transmitted,
        packets_received: received / 1000,
        packets_transmitted: transmitted / 1000,
        errors_on_received: received % 7,
        errors_on_transmitted: transmitted % 5,
    }
}

#[test]
fn primary_interface_has_moved_the_most_bytes() {
    let interfaces = vec![
        interface("lo", 500, 500),
        interface("eth0", 9000, 1000),
        interface("wlan0", 2000, 7000),
    ];
    assert_eq!(find_busiest(&interfaces), Some(1));
    let network = NetworkCollector::new(&interfaces, 3 * SECOND);
    assert_eq!(network.data.interface, "eth0");
    assert_eq!(network.last_rx, 9000);
    assert_eq!(network.last_tx, 1000);
    assert_eq!(network.last_update, 3 * SECOND);
    assert_eq!(network.data.rx_bytes, 0);
    assert_eq!(network.data.tx_bytes, 0);
    assert_eq!(network.data.rx_speed, 0);
    assert_eq!(network.data.tx_speed, 0);
    assert_eq!(network.data.rx_packets, 0);
    assert_eq!(network.data.rx_errors, 0);
    assert!(network.rx_history.is_empty());
    assert!(network.tx_history.is_empty());
}

#[test]
fn primary_interface_among_equals_is_the_last() {
    let interfaces = vec![
        interface("a", 10, 0),
        interface("b", 4, 6),
        interface("c", 1, 1),
        interface("d", 0, 10),
    ];
    assert_eq!(find_busiest(&interfaces), Some(3));
    assert_eq!(NetworkCollector::new(&interfaces, 0).data.interface, "d");
}

#[test]
fn primary_interface_counts_both_directions_without_overflow() {
    let interfaces = vec![
        interface("a", u64::MAX, 0),
        interface("b", u64::MAX, u64::MAX),
        interface("c", 5, u64::MAX),
    ];
    assert_eq!(find_busiest(&interfaces), Some(1));
}

#[test]
fn primary_interface_without_interfaces_is_eth0() {
    let interfaces: Vec<InterfaceEntry> = Vec::new();
    assert_eq!(find_busiest(&interfaces), None);
    let network = NetworkCollector::new(&interfaces, 0);
    assert_eq!(network.data.interface, "eth0");
    assert_eq!(network.last_rx, 0);
    assert_eq!(network.last_tx, 0);
}

#[test]
fn interface_is_found_by_name() {
    let interfaces = vec![interface("lo", 1, 1), interface("eth0", 2, 2), interface("eth0", 3, 3)];
    assert_eq!(find_interface(&interfaces, "eth0"), Some(1));
    assert_eq!(find_interface(&interfaces, "lo"), Some(0));
    assert_eq!(find_interface(&interfaces, "eth"), None);
    assert_eq!(find_interface(&Vec::new(), "eth0"), None);
}

#[test]
fn network_speeds_are_delta_over_elapsed() {
    let mut network = NetworkCollector::new(&vec![interface("eth0", 10_000, 20_000)], 0);
    network.collect(&vec![interface("lo", 1, 1), interface("eth0", 5_010_000, 2_020_000)], SECOND);
    assert_eq!(network.data.rx_speed, 5_000_000);
    assert_eq!(network.data.tx_speed, 2_000_000);
    assert_eq!(network.data.rx_bytes, 5_010_000);
    assert_eq!(network.data.tx_bytes, 2_020_000);
    assert_eq!(network.data.rx_packets, 5_010);
    assert_eq!(network.data.tx_packets, 2_020);
    assert_eq!(network.data.rx_errors, 5_010_000 % 7);
    assert_eq!(network.data.tx_errors, 2_020_000 % 5);
    assert_eq!(network.last_rx, 5_010_000);
    assert_eq!(network.last_tx, 2_020_000);
    assert_eq!(network.last_update, SECOND);
    assert_eq!(network.rx_history.as_vec(), vec![5]);
    assert_eq!(network.tx_history.as_vec(), vec![2]);
    network.collect(&vec![interface("eth0", 5_010_500, 2_020_000)], SECOND + SECOND / 2);
    assert_eq!(network.data.rx_speed, 1000);
    assert_eq!(network.data.tx_speed, 0);
    assert_eq!(network.rx_history.as_vec(), vec![5, 0]);
}

#[test]
fn network_tick_below_the_minimum_interval_changes_nothing() {
    let mut network = NetworkCollector::new(&vec![interface("eth0", 0, 0)], 0);
    network.collect(&vec![interface("eth0", 3_000_000, 1_000_000)], SECOND);
    network.collect(&vec![interface("eth0", 9_000_000, 9_000_000)], SECOND + 99_999_999);
    assert_eq!(network.data.rx_speed, 3_000_000);
    assert_eq!(network.data.tx_speed, 1_000_000);
    assert_eq!(network.data.rx_bytes, 3_000_000);
    assert_eq!(network.last_rx, 3_000_000);
    assert_eq!(network.last_update, SECOND);
    assert_eq!(network.rx_history.len(), 1);
    network.collect(&vec![interface("eth0", 9_000_000, 9_000_000)], SECOND / 2);
    assert_eq!(network.data.rx_speed, 3_000_000);
    network.collect(&vec![interface("eth0", 3_100_000, 1_000_000)], SECOND + 100_000_000);
    assert_eq!(network.data.rx_speed, 1_000_000);
    assert_eq!(network.rx_history.len(), 2);
}

#[test]
fn network_counter_that_went_backwards_gives_speed_zero() {
    let mut network = NetworkCollector::new(&vec![interface("eth0", 8_000, 8_000)], 0);
    network.collect(&vec![interface("eth0", 100, 9_000)], SECOND);
    assert_eq!(network.data.rx_speed, 0);
    assert_eq!(network.data.tx_speed, 1000);
    assert_eq!(network.data.rx_bytes, 100);
    assert_eq!(network.last_rx, 100);
}

#[test]
fn network_interface_missing_changes_nothing() {
    let mut network = NetworkCollector::new(&vec![interface("eth0", 0, 0)], 0);
    network.collect(&vec![interface("eth0", 3_000_000, 1_000_000)], SECOND);
    network.collect(&vec![interface("wlan0", 9_000_000, 9_000_000)], 2 * SECOND);
    assert_eq!(network.data.interface, "eth0");
    assert_eq!(network.data.rx_speed, 3_000_000);
    assert_eq!(network.data.rx_bytes, 3_000_000);
    assert_eq!(network.last_update, SECOND);
    assert_eq!(network.rx_history.as_vec(), vec![3]);
    // the next rate spans the whole time since the last tick that counted
    network.collect(&vec![interface("eth0", 5_000_000, 1_000_000)], 3 * SECOND);
    assert_eq!(network.data.rx_speed, 1_000_000);
    assert_eq!(network.rx_history.as_vec(), vec![3, 1]);
}

#[test]
fn network_interface_stays_fixed() {
    let mut network = NetworkCollector::new(&vec![interface("eth0", 10, 10), interface("lo", 1, 1)], 0);
    network.collect(&vec![interface("eth0", 20, 20), interface("lo", 1_000_000_000, 1)], SECOND);
    assert_eq!(network.data.interface, "eth0");
    assert_eq!(network.data.rx_bytes, 20);
}
