use system_monitor::collectors::{SystemCollector, SystemReading};

#[test]
fn system_facts_are_taken_as_read() {
    let system = SystemCollector::new(SystemReading {
        os_name: Some("Debian GNU/Linux".to_string()),
        os_version: Some("12".to_string()),
        kernel_version: Some("6.1.0".to_string()),
        hostname: Some("box".to_string()),
        uptime_secs: 12_345,
    });
    assert_eq!(system.data.os_name, "Debian GNU/Linux");
    assert_eq!(system.data.os_version, "12");
    assert_eq!(system.data.kernel_version, "6.1.0");
    assert_eq!(system.data.hostname, "box");
    assert_eq!(system.data.uptime_secs, 12_345);
}

#[test]
fn system_facts_that_are_missing_get_their_fallbacks() {
    let system = SystemCollector::new(SystemReading {
        os_name: None,
        os_version: None,
        kernel_version: None,
        hostname: None,
        uptime_secs: 0,
    });
    assert_eq!(system.data.os_name, "Unknown");
    assert_eq!(system.data.os_version, "");
    assert_eq!(system.data.kernel_version, "");
    assert_eq!(system.data.hostname, "localhost");
}

#[test]
fn system_uptime_is_read_each_tick() {
    let mut system = SystemCollector::new(SystemReading {
        os_name: Some("OS".to_string()),
        os_version: None,
        kernel_version: None,
        hostname: None,
        uptime_secs: 100,
    });
    system.collect(101);
    assert_eq!(system.data.uptime_secs, 101);
    system.collect(7);
    assert_eq!(system.data.uptime_secs, 7);
    assert_eq!(system.data.os_name, "OS");
    assert_eq!(system.data.hostname, "localhost");
}
