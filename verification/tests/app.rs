use system_monitor::app::{next_faster, next_slower, App, Command, Key, SaveOutcome};
use system_monitor::collectors::{
    CpuReading, GpuReading, Inventory, MemoryReading, SystemReading, TickReadings,
};
use system_monitor::config::Config;
use system_monitor::themes::{find_theme, theme_name, usage_level, UsageLevel, THEME_COUNT};
use system_monitor::ui::{popup_area, sparkline_max, truncate_str};

const SECOND: u64 = 1_000_000_000;

fn inventory() -> Inventory {
    Inventory {
        cpus: vec![CpuReading { brand: "CPU".to_string(), usage: 0, frequency: 1 }],
        physical_cores: None,
        system: SystemReading {
            os_name: None,
            os_version: None,
            kernel_version: None,
            hostname: None,
            uptime_secs: 0,
        },
        gpu: None,
        interfaces: Vec::new(),
        disks: Vec::new(),
        disk_table: None,
        total_memory: 0,
    }
}

fn readings() -> TickReadings {
    TickReadings {
        cpus: vec![CpuReading { brand: "CPU".to_string(), usage: 4200, frequency: 1 }],
        memory: MemoryReading { total: 4, used: 1, available: 3, swap_total: 0, swap_used: 0 },
        uptime_secs: 9,
        gpu: GpuReading {
            utilization: None,
            memory: None,
            temperature: None,
            fan_speed: None,
            power_usage: None,
            power_limit: None,
            clock_core: None,
            clock_memory: None,
            pcie_gen: None,
            pcie_width: None,
            encoder_usage: None,
            decoder_usage: None,
        },
        interfaces: Vec::new(),
        disks: Vec::new(),
        disk_table: None,
        processes: Vec::new(),
    }
}

fn app() -> App {
    App::new(Config::default(), inventory(), 0)
}

#[test]
fn theme_names_in_order() {
    let names: Vec<&str> = (0..THEME_COUNT).map(theme_name).collect();
    assert_eq!(
        names,
        vec!["hacker", "matrix", "minimal", "cyberpunk", "dracula", "nord", "gruvbox", "tokyo", "ocean"]
    );
    assert_eq!(theme_name(THEME_COUNT), "hacker");
}

#[test]
fn theme_is_found_by_name() {
    for index in 0..THEME_COUNT {
        assert_eq!(find_theme(theme_name(index)), index);
    }
    assert_eq!(find_theme("no such theme"), 0);
    assert_eq!(find_theme(""), 0);
    assert_eq!(find_theme("Nord"), 0);
}

#[test]
fn usage_levels_by_whole_percent() {
    assert_eq!(usage_level(0), UsageLevel::Normal);
    assert_eq!(usage_level(6000), UsageLevel::Normal);
    assert_eq!(usage_level(6099), UsageLevel::Normal);
    assert_eq!(usage_level(6100), UsageLevel::Elevated);
    assert_eq!(usage_level(8599), UsageLevel::Elevated);
    assert_eq!(usage_level(8600), UsageLevel::Critical);
    assert_eq!(usage_level(10_000), UsageLevel::Critical);
    assert_eq!(usage_level(u32::MAX), UsageLevel::Critical);
}

#[test]
fn usage_levels_agree_with_the_cast_of_a_float() {
    for hundredths in 0..=12_000u32 {
        let percent = hundredths as f32 / 100.0;
        let expected = match percent as u8 {
            0..=60 => UsageLevel::Normal,
            61..=85 => UsageLevel::Elevated,
            _ => UsageLevel::Critical,
        };
        assert_eq!(usage_level(hundredths), expected, "{}", hundredths);
    }
}

#[test]
fn new_app_takes_the_theme_of_the_configuration() {
    let fresh = app();
    assert_eq!(fresh.theme_index, 0);
    assert!(!fresh.should_quit);
    assert!(!fresh.show_help);
    assert!(fresh.status_message.is_none());
    assert!(fresh.status_message_time.is_none());
    assert_eq!(fresh.config.theme, "hacker");
    let nord = App::new(Config::default().with_theme("nord"), inventory(), 0);
    assert_eq!(nord.theme_index, 5);
    let unknown = App::new(Config::default().with_theme("plaid"), inventory(), 0);
    assert_eq!(unknown.theme_index, 0);
    assert_eq!(unknown.config.theme, "plaid");
}

#[test]
fn themes_cycle() {
    let mut state = app();
    for expected in ["matrix", "minimal", "cyberpunk", "dracula", "nord", "gruvbox", "tokyo", "ocean", "hacker", "matrix"] {
        state.cycle_theme();
        assert_eq!(state.config.theme, expected);
        assert_eq!(theme_name(state.theme_index), expected);
    }
}

#[test]
fn help_toggles() {
    let mut state = app();
    state.toggle_help();
    assert!(state.show_help);
    state.toggle_help();
    assert!(!state.show_help);
}

#[test]
fn refresh_rate_steps_up() {
    assert_eq!(next_slower(0), 250);
    assert_eq!(next_slower(239), 250);
    assert_eq!(next_slower(240), 500);
    assert_eq!(next_slower(250), 500);
    assert_eq!(next_slower(489), 500);
    assert_eq!(next_slower(490), 1000);
    assert_eq!(next_slower(500), 1000);
    assert_eq!(next_slower(1000), 1500);
    assert_eq!(next_slower(1500), 2000);
    assert_eq!(next_slower(2000), 3000);
    assert_eq!(next_slower(3000), 5000);
    assert_eq!(next_slower(4989), 5000);
    assert_eq!(next_slower(4990), 10_000);
    assert_eq!(next_slower(5000), 10_000);
    assert_eq!(next_slower(10_000), 10_000);
    assert_eq!(next_slower(u32::MAX), 10_000);
    let mut state = app();
    let mut seen = Vec::new();
    for _ in 0..7 {
        state.increase_refresh_rate();
        seen.push(state.config.refresh_rate);
    }
    assert_eq!(seen, vec![1500, 2000, 3000, 5000, 10_000, 10_000, 10_000]);
}

#[test]
fn refresh_rate_steps_down() {
    assert_eq!(next_faster(u32::MAX), 10_000);
    assert_eq!(next_faster(10_011), 10_000);
    assert_eq!(next_faster(10_010), 5000);
    assert_eq!(next_faster(10_000), 5000);
    assert_eq!(next_faster(5000), 3000);
    assert_eq!(next_faster(3000), 2000);
    assert_eq!(next_faster(2000), 1500);
    assert_eq!(next_faster(1500), 1000);
    assert_eq!(next_faster(1011), 1000);
    assert_eq!(next_faster(1010), 500);
    assert_eq!(next_faster(1000), 500);
    assert_eq!(next_faster(500), 250);
    assert_eq!(next_faster(250), 250);
    assert_eq!(next_faster(0), 250);
    let mut state = app();
    let mut seen = Vec::new();
    for _ in 0..4 {
        state.decrease_refresh_rate();
        seen.push(state.config.refresh_rate);
    }
    assert_eq!(seen, vec![500, 250, 250, 250]);
}

#[test]
fn refresh_rate_steps_agree_with_the_float_steps() {
    const STEPS: &[f64] = &[0.25, 0.5, 1.0, 1.5, 2.0, 3.0, 5.0, 10.0];
    for millis in (0..12_000u32).filter(|m| m % 10 != 0) {
        let current = millis as f64 / 1000.0;
        let mut up = 10.0;
        for &step in STEPS {
            if step > current + 0.01 {
                up = step;
                break;
            }
        }
        let mut down = 0.25;
        for &step in STEPS.iter().rev() {
            if step < current - 0.01 {
                down = step;
                break;
            }
        }
        assert_eq!(next_slower(millis), (up * 1000.0) as u32, "{}", millis);
        assert_eq!(next_faster(millis), (down * 1000.0) as u32, "{}", millis);
    }
}

#[test]
fn save_outcome_becomes_the_status_message() {
    let mut state = app();
    state.save_config(SaveOutcome::SavedTo("/home/u/.config/system-monitor/config.toml".to_string()), 5);
    assert_eq!(
        state.status_message.as_deref(),
        Some("\u{2713} Saved to /home/u/.config/system-monitor/config.toml")
    );
    assert_eq!(state.status_message_time, Some(5));
    state.save_config(SaveOutcome::Saved, 6);
    assert_eq!(state.status_message.as_deref(), Some("\u{2713} Config saved!"));
    state.save_config(SaveOutcome::Failed("read-only file system".to_string()), 7);
    assert_eq!(
        state.status_message.as_deref(),
        Some("\u{2717} Save failed: read-only file system")
    );
    assert_eq!(state.status_message_time, Some(7));
}

#[test]
fn status_message_expires_after_three_seconds() {
    let mut state = app();
    state.clear_expired_status(100 * SECOND);
    assert!(state.status_message.is_none());
    state.save_config(SaveOutcome::Saved, 10 * SECOND);
    state.clear_expired_status(10 * SECOND);
    assert!(state.status_message.is_some());
    state.clear_expired_status(13 * SECOND - 1);
    assert!(state.status_message.is_some());
    assert_eq!(state.status_message_time, Some(10 * SECOND));
    state.clear_expired_status(9 * SECOND);
    assert!(state.status_message.is_some());
    state.clear_expired_status(13 * SECOND);
    assert!(state.status_message.is_none());
    assert!(state.status_message_time.is_none());
}

#[test]
fn keys_quit() {
    for key in [Key::Char('q'), Key::Char('Q'), Key::Esc] {
        let mut state = app();
        assert_eq!(state.handle_key(key), Command::Continue);
        assert!(state.should_quit);
    }
}

#[test]
fn escape_closes_the_help_first() {
    let mut state = app();
    state.handle_key(Key::Char('?'));
    assert!(state.show_help);
    assert_eq!(state.handle_key(Key::Esc), Command::Continue);
    assert!(!state.show_help);
    assert!(!state.should_quit);
    state.handle_key(Key::Esc);
    assert!(state.should_quit);
}

#[test]
fn keys_toggle_the_help() {
    for key in [Key::Char('h'), Key::Char('H'), Key::Char('?'), Key::F(1)] {
        let mut state = app();
        assert_eq!(state.handle_key(key), Command::Continue);
        assert!(state.show_help);
        state.handle_key(key);
        assert!(!state.show_help);
    }
    let mut state = app();
    state.handle_key(Key::F(2));
    assert!(!state.show_help);
}

#[test]
fn keys_change_theme_and_rate() {
    let mut state = app();
    assert_eq!(state.handle_key(Key::Char('t')), Command::Continue);
    assert_eq!(state.config.theme, "matrix");
    state.handle_key(Key::Char('T'));
    assert_eq!(state.theme_index, 2);
    state.handle_key(Key::Char('-'));
    assert_eq!(state.config.refresh_rate, 1500);
    state.handle_key(Key::Char('_'));
    assert_eq!(state.config.refresh_rate, 2000);
    state.handle_key(Key::Char('+'));
    assert_eq!(state.config.refresh_rate, 1500);
    state.handle_key(Key::Char('='));
    assert_eq!(state.config.refresh_rate, 1000);
    assert!(!state.should_quit);
}

#[test]
fn keys_ask_the_host_to_refresh_and_save() {
    let mut state = app();
    assert_eq!(state.handle_key(Key::Char('r')), Command::Refresh);
    assert_eq!(state.handle_key(Key::Char('R')), Command::Refresh);
    assert_eq!(state.handle_key(Key::Char('s')), Command::Save);
    assert_eq!(state.handle_key(Key::Char('S')), Command::Save);
    assert_eq!(state.handle_key(Key::Char('x')), Command::Continue);
    assert_eq!(state.handle_key(Key::Other), Command::Continue);
    assert!(!state.should_quit);
    assert!(!state.show_help);
    assert_eq!(state.theme_index, 0);
    assert_eq!(state.config.refresh_rate, 1000);
}

#[test]
fn app_update_and_force_refresh_advance_the_collectors() {
    let mut state = app();
    state.update(&readings(), SECOND);
    assert_eq!(state.collectors.cpu.data.global_usage, 4200);
    assert_eq!(state.collectors.memory.data.usage_percent, 2500);
    assert_eq!(state.collectors.system.data.uptime_secs, 9);
    state.force_refresh(&readings(), SECOND + 1);
    assert_eq!(state.collectors.cpu.history.as_vec(), vec![42, 42]);
}

#[test]
fn ticks_follow_the_refresh_rate() {
    let state = app();
    assert!(!state.tick_due(0));
    assert!(!state.tick_due(SECOND - 1));
    assert!(state.tick_due(SECOND));
    assert!(state.tick_due(u64::MAX));
    assert_eq!(state.poll_timeout(0), SECOND);
    assert_eq!(state.poll_timeout(SECOND / 4), 3 * SECOND / 4);
    assert_eq!(state.poll_timeout(SECOND), 0);
    assert_eq!(state.poll_timeout(u64::MAX), 0);
}

#[test]
fn short_text_is_not_cut() {
    assert_eq!(truncate_str("", 0), "");
    assert_eq!(truncate_str("abc", 3), "abc");
    assert_eq!(truncate_str("abc", 30), "abc");
    assert_eq!(truncate_str("\u{e9}t\u{e9}", 5), "\u{e9}t\u{e9}");
}

#[test]
fn long_text_is_cut_and_marked() {
    assert_eq!(truncate_str("abcdef", 4), "abc\u{2026}");
    assert_eq!(truncate_str("abcdef", 1), "\u{2026}");
    assert_eq!(truncate_str("abcdef", 5), "abcd\u{2026}");
    assert_eq!(truncate_str("Intel(R) Core(TM) i7-8565U CPU @ 1.80GHz", 30), "Intel(R) Core(TM) i7-8565U CP\u{2026}");
    // five bytes, cut after the two-byte character
    assert_eq!(truncate_str("\u{e9}t\u{e9}", 3), "\u{e9}\u{2026}");
    assert_eq!(truncate_str("\u{e9}t\u{e9}", 4), "\u{e9}t\u{2026}");
}

#[test]
fn help_window_is_centred() {
    assert_eq!(popup_area(120, 40), (35, 10, 50, 20));
    assert_eq!(popup_area(54, 24), (2, 2, 50, 20));
    assert_eq!(popup_area(53, 23), (2, 2, 49, 19));
    assert_eq!(popup_area(40, 12), (2, 2, 36, 8));
    assert_eq!(popup_area(4, 4), (2, 2, 0, 0));
    assert_eq!(popup_area(3, 1), (1, 0, 0, 0));
    assert_eq!(popup_area(0, 0), (0, 0, 0, 0));
    assert_eq!(popup_area(u16::MAX, u16::MAX), (32742, 32757, 50, 20));
}

#[test]
fn graph_scale_is_the_largest_sample_and_at_least_one() {
    assert_eq!(sparkline_max(&Vec::new()), 1);
    assert_eq!(sparkline_max(&vec![0, 0, 0]), 1);
    assert_eq!(sparkline_max(&vec![0, 1, 0]), 1);
    assert_eq!(sparkline_max(&vec![3, 9, 4]), 9);
    assert_eq!(sparkline_max(&vec![u64::MAX, 2]), u64::MAX);
}
