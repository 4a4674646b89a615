use mizu::app::{App, AppTab};
use mizu::config::{Config, Theme};
use mizu::confcodec::{encode_config, parse_config};
use mizu::disk::{RawDisk, disk_summary};
use mizu::fetch::SystemInfo;
use mizu::net::{NetworkInfo, RawNetSample, compute_networks, local_ip_of};
use mizu::os::EnvInfo;
use mizu::process::{ProcessInfo, ProcessSortMode, build_process_table, clamp_scroll};
use mizu::style::StyleInfo;

fn proc(pid: u32, name: &str, cpu: u32, mem: u64) -> ProcessInfo {
    ProcessInfo { pid, name: name.to_string(), cpu, mem }
}

#[test]
fn process_table_sorts_by_cpu_descending() {
    let raw = vec![
        proc(1, "a", 10, 5),
        proc(2, "b", 30, 1),
        proc(3, "c", 20, 9),
    ];
    let t = build_process_table(raw, ProcessSortMode::Cpu);
    let pids: Vec<u32> = t.iter().map(|p| p.pid).collect();
    assert_eq!(pids, vec![2, 3, 1]);
}

#[test]
fn process_table_sorts_by_memory_descending() {
    let raw = vec![
        proc(1, "a", 10, 5),
        proc(2, "b", 30, 1),
        proc(3, "c", 20, 9),
    ];
    let t = build_process_table(raw, ProcessSortMode::Memory);
    let pids: Vec<u32> = t.iter().map(|p| p.pid).collect();
    assert_eq!(pids, vec![3, 1, 2]);
}

#[test]
fn process_table_sorts_by_pid_ascending() {
    let raw = vec![
        proc(9, "a", 10, 5),
        proc(2, "b", 30, 1),
        proc(5, "c", 20, 9),
    ];
    let t = build_process_table(raw, ProcessSortMode::Pid);
    let pids: Vec<u32> = t.iter().map(|p| p.pid).collect();
    assert_eq!(pids, vec![2, 5, 9]);
}

#[test]
fn process_table_truncates_to_top_fifty() {
    // 60 processes; under the CPU key exactly the 50 hottest must remain.
    let mut raw = Vec::new();
    for i in 0..60u32 {
        raw.push(proc(i, "p", i, 0));
    }
    let t = build_process_table(raw, ProcessSortMode::Cpu);
    assert_eq!(t.len(), 50);
    // The dropped ones are cpu 0..=9; every kept row has cpu >= 10.
    for p in &t {
        assert!(p.cpu >= 10);
    }
    assert_eq!(t[0].cpu, 59);
    assert_eq!(t[49].cpu, 10);
}

#[test]
fn process_table_stable_on_equal_keys() {
    // Equal CPU values keep their encounter order.
    let raw = vec![
        proc(7, "a", 10, 0),
        proc(3, "b", 10, 0),
        proc(9, "c", 10, 0),
    ];
    let t = build_process_table(raw, ProcessSortMode::Cpu);
    let pids: Vec<u32> = t.iter().map(|p| p.pid).collect();
    assert_eq!(pids, vec![7, 3, 9]);
}

#[test]
fn scroll_clamp_bounds() {
    assert_eq!(clamp_scroll(5, 10), 5);
    assert_eq!(clamp_scroll(10, 10), 9);
    assert_eq!(clamp_scroll(100, 3), 2);
    assert_eq!(clamp_scroll(0, 0), 0);
    assert_eq!(clamp_scroll(7, 0), 0);
}

fn empty_env() -> EnvInfo {
    EnvInfo { shell_path: None, desktop: None, session: None, lang: None }
}

fn test_style() -> StyleInfo {
    StyleInfo::new("unknown-desktop", None, None, None, None)
}

fn test_app() -> App {
    let info = SystemInfo::new(
        empty_env(),
        vec!["Test GPU".to_string()],
        "Unknown".to_string(),
        "N/A".to_string(),
        test_style(),
    );
    App::new(Config::default(), info)
}

#[test]
fn tab_cycle_period_four() {
    let mut app = test_app();
    assert!(matches!(app.current_tab, AppTab::Dashboard));
    app.next_tab();
    assert!(matches!(app.current_tab, AppTab::Processes));
    app.next_tab();
    assert!(matches!(app.current_tab, AppTab::Network));
    app.next_tab();
    assert!(matches!(app.current_tab, AppTab::Settings));
    app.next_tab();
    assert!(matches!(app.current_tab, AppTab::Dashboard));
    // previous_tab inverts next_tab, around both ends.
    app.previous_tab();
    assert!(matches!(app.current_tab, AppTab::Settings));
    app.next_tab();
    assert!(matches!(app.current_tab, AppTab::Dashboard));
}

#[test]
fn refresh_rate_cycle_visits_all_rates() {
    let mut app = test_app();
    assert_eq!(app.refresh_rate_ms, 250);
    app.settings_toggle();
    assert_eq!(app.refresh_rate_ms, 500);
    app.settings_toggle();
    assert_eq!(app.refresh_rate_ms, 1000);
    app.settings_toggle();
    assert_eq!(app.refresh_rate_ms, 2000);
    app.settings_toggle();
    assert_eq!(app.refresh_rate_ms, 250);
    assert_eq!(app.config.refresh_rate, 250);
}

#[test]
fn settings_cursor_saturates() {
    let mut app = test_app();
    assert_eq!(app.settings_index, 0);
    app.settings_previous();
    assert_eq!(app.settings_index, 0);
    app.settings_next();
    app.settings_next();
    assert_eq!(app.settings_index, 2);
    app.settings_next();
    assert_eq!(app.settings_index, 2);
    app.settings_previous();
    assert_eq!(app.settings_index, 1);
}

#[test]
fn theme_toggle_flips_between_palettes() {
    let mut app = test_app();
    app.settings_next();
    assert_eq!(app.settings_index, 1);
    assert_eq!(app.config.theme.border_color, "#00ffff");
    app.settings_toggle();
    // All five themed colors flip together; the other three stay.
    assert_eq!(app.config.theme.border_color, "#ff00ff");
    assert_eq!(app.config.theme.key_color, "#ff00ff");
    assert_eq!(app.config.theme.title_color, "#ff00ff");
    assert_eq!(app.config.theme.value_color, "#ff00ff");
    assert_eq!(app.config.theme.gauge_cpu_low, "#ff00ff");
    assert_eq!(app.config.theme.text_color, "#ffffff");
    assert_eq!(app.config.theme.gauge_cpu_high, "#ff0000");
    assert_eq!(app.config.theme.gauge_ram, "#ff00ff");
    app.settings_toggle();
    assert_eq!(app.config.theme.border_color, "#00ffff");
    assert_eq!(app.config.theme.gauge_cpu_low, "#00ffff");
}

#[test]
fn show_hints_toggle_flips() {
    let mut app = test_app();
    app.settings_next();
    app.settings_next();
    assert_eq!(app.settings_index, 2);
    assert!(app.config.show_hints);
    app.settings_toggle();
    assert!(!app.config.show_hints);
    app.settings_toggle();
    assert!(app.config.show_hints);
}

#[test]
fn help_modal_toggles() {
    let mut app = test_app();
    assert!(!app.show_help);
    app.toggle_help();
    assert!(app.show_help);
    app.toggle_help();
    assert!(!app.show_help);
}

#[test]
fn scroll_stays_clamped_through_ops() {
    let mut app = test_app();
    for _ in 0..3 {
        app.scroll_up();
    }
    assert_eq!(app.process_scroll, 0);
    for _ in 0..100000 {
        app.scroll_down();
    }
    let len = app.system_info.processes.len();
    assert!(app.process_scroll < std::cmp::max(1, len));
    app.on_tick();
    let len = app.system_info.processes.len();
    assert!(app.process_scroll < std::cmp::max(1, len));
}

fn net_row(name: &str, rx: u64, tx: u64, total_rx: u64, total_tx: u64) -> NetworkInfo {
    NetworkInfo {
        name: name.to_string(),
        rx,
        tx,
        total_rx,
        total_tx,
        ip_v4: "N/A".to_string(),
    }
}

#[test]
fn network_delta_is_difference_of_totals() {
    let prev = vec![net_row("eth0", 0, 0, 1000, 500)];
    let raw = vec![RawNetSample {
        name: "eth0".to_string(),
        total_rx: 1600,
        total_tx: 900,
        addrs: vec![],
    }];
    let rows = compute_networks(&prev, raw);
    assert_eq!(rows.len(), 1);
    assert_eq!(rows[0].rx, 600);
    assert_eq!(rows[0].tx, 400);
    // Totals pass through and never fall below the previous reading here.
    assert!(rows[0].total_rx >= prev[0].total_rx);
    assert!(rows[0].total_tx >= prev[0].total_tx);
    assert_eq!(rows[0].total_rx, 1600);
}

#[test]
fn network_unknown_interface_reports_whole_total() {
    let prev: Vec<NetworkInfo> = Vec::new();
    let raw = vec![RawNetSample {
        name: "wlan0".to_string(),
        total_rx: 123,
        total_tx: 45,
        addrs: vec![(false, "fe80::1".to_string()), (true, "192.168.1.7".to_string())],
    }];
    let rows = compute_networks(&prev, raw);
    assert_eq!(rows[0].rx, 123);
    assert_eq!(rows[0].tx, 45);
    assert_eq!(rows[0].ip_v4, "192.168.1.7");
}

#[test]
fn local_ip_skips_loopback() {
    let mut lo = net_row("lo", 0, 0, 0, 0);
    lo.ip_v4 = "127.0.0.1".to_string();
    let mut eth = net_row("eth0", 0, 0, 0, 0);
    eth.ip_v4 = "10.0.0.2".to_string();
    let rows = vec![lo, eth];
    assert_eq!(local_ip_of(&rows), "10.0.0.2");
    let only_lo = vec![net_row("lo", 0, 0, 0, 0)];
    assert_eq!(local_ip_of(&only_lo), "127.0.0.1");
}

#[test]
fn disk_summary_root_quarter_free() {
    // total = 100 GiB, available = 25 GiB: used 75.00 GiB, 75%.
    let gib: u64 = 1 << 30;
    let ds = vec![RawDisk {
        mount: "/".to_string(),
        fs: "ext4".to_string(),
        total: 100 * gib,
        available: 25 * gib,
    }];
    assert_eq!(disk_summary(&ds), "Root: 75.00 GiB / 100.00 GiB (75%) - ext4");
}

#[test]
fn disk_summary_joins_targets_and_skips_others() {
    let gib: u64 = 1 << 30;
    let ds = vec![
        RawDisk {
            mount: "/boot".to_string(),
            fs: "vfat".to_string(),
            total: gib,
            available: gib / 2,
        },
        RawDisk {
            mount: "/".to_string(),
            fs: "ext4".to_string(),
            total: 10 * gib,
            available: 5 * gib,
        },
        RawDisk {
            mount: "/home".to_string(),
            fs: "xfs".to_string(),
            total: 20 * gib,
            available: 10 * gib,
        },
    ];
    assert_eq!(
        disk_summary(&ds),
        "Root: 5.00 GiB / 10.00 GiB (50%) - ext4 | Home: 10.00 GiB / 20.00 GiB (50%) - xfs"
    );
}

#[test]
fn disk_summary_sentinel_when_no_target() {
    let ds = vec![RawDisk {
        mount: "/boot".to_string(),
        fs: "vfat".to_string(),
        total: 100,
        available: 1,
    }];
    assert_eq!(disk_summary(&ds), "Unknown");
    let none: Vec<RawDisk> = Vec::new();
    assert_eq!(disk_summary(&none), "Unknown");
}

#[test]
fn config_round_trip_preserves_custom_values() {
    let mut c = Config::default();
    c.refresh_rate = 1000;
    c.show_hints = false;
    c.modules = vec!["disk".to_string(), "os".to_string(), "cpu".to_string()];
    c.theme = Theme::from_name("dracula");
    let text = encode_config(&c);
    let back = parse_config(&text).expect("round trip must parse");
    assert_eq!(back.refresh_rate, 1000);
    assert!(!back.show_hints);
    assert_eq!(back.modules, vec!["disk", "os", "cpu"]);
    assert_eq!(back.theme.border_color, "#bd93f9");
    assert_eq!(back.theme.gauge_ram, "#ffb86c");
}

#[test]
fn config_round_trip_default() {
    let c = Config::default();
    let text = encode_config(&c);
    let back = parse_config(&text).expect("default config must parse");
    assert_eq!(back.refresh_rate, 250);
    assert_eq!(back.modules.len(), 21);
    assert_eq!(back.theme.text_color, "#ffffff");
    assert!(back.show_hints);
}

#[test]
fn config_parse_rejects_malformed() {
    assert!(parse_config("refresh_rate = ").is_none());
    assert!(parse_config("not a config at all").is_none());
    // A document missing the theme table misses mandatory colors.
    assert!(parse_config("refresh_rate = 250\n").is_none());
    // An empty document has nothing mandatory either.
    assert!(parse_config("").is_none());
}

#[test]
fn config_parse_tolerates_unknown_keys_and_comments() {
    let c = Config::default();
    let mut text = String::from("# a comment\nfuture_knob = 7\n");
    text.push_str(&encode_config(&c));
    let back = parse_config(&text).expect("unknown keys are ignored");
    assert_eq!(back.refresh_rate, 250);
}
