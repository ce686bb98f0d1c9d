use cyberdeck_tui::lists::{
    battery_bar, bool_label, brightness_bar, compute_offset, format_age, list_nav, selected_index,
    vol_bar,
};
use cyberdeck_tui::system_screens::{
    journal_entry, battery_severity, brightness_down, brightness_toast, brightness_up, logs_window,
    next_governor, power_toggle_target, power_toggle_toast, same_ignoring_ascii_case,
    selected_upgradable, toggle_up, AudioScreen, BluetoothScreen, BtAction, BtDevice,
    DisplayAction, DisplayScreen, Interface, LogsAction, LogsScreen, NetworkAction,
    NetworkScreen, PackagesAction, PackagesScreen, PowerAction, PowerScreen, Severity, Sink,
    WifiNet,
};
use cyberdeck_tui::ui::{ConfirmKind, InputKind, Key, Modal, RunAction};

fn sink(name: &str, volume: u8, muted: bool) -> Sink {
    Sink { id: 1, name: name.to_string(), description: name.to_string(), volume, muted, default: false }
}

fn ifaces(n: usize) -> Vec<Interface> {
    (0..n).map(|i| Interface { name: format!("eth{i}"), state: "UP".to_string() }).collect()
}

fn wifi(n: usize) -> Vec<WifiNet> {
    (0..n)
        .map(|i| WifiNet { ssid: format!("net{i}"), security: "WPA2".to_string() })
        .collect()
}

// ─── Logs ──────────────────────────────────────────────────────────────

#[test]
fn logs_screen_r_sends_refresh_logs_action() {
    let mut offset = 7usize;
    let (consumed, action) = LogsScreen.on_key(&mut offset, Key::Char('r'));
    assert!(consumed, "r must be consumed by the Logs screen");
    assert!(matches!(action, LogsAction::Refresh));
    assert_eq!(offset, 7);
}

#[test]
fn logs_screen_other_keys_still_unaffected_by_r_handler() {
    let mut offset = 3usize;
    let (consumed, action) = LogsScreen.on_key(&mut offset, Key::Char('c'));
    assert!(consumed, "c must still be consumed");
    assert!(matches!(action, LogsAction::Clear), "c clears the buffer and queues nothing");
    assert_eq!(offset, 0);
}

#[test]
fn logs_scrolling_counts_back_from_the_tail() {
    let mut offset = 0usize;
    LogsScreen.on_key(&mut offset, Key::Down);
    assert_eq!(offset, 1);
    LogsScreen.on_key(&mut offset, Key::PageDown);
    assert_eq!(offset, 11);
    LogsScreen.on_key(&mut offset, Key::PageUp);
    assert_eq!(offset, 1);
    LogsScreen.on_key(&mut offset, Key::Char('g'));
    assert_eq!(offset, usize::MAX);
    LogsScreen.on_key(&mut offset, Key::Down);
    assert_eq!(offset, usize::MAX);
    LogsScreen.on_key(&mut offset, Key::End);
    assert_eq!(offset, 0);
    let (consumed, action) = LogsScreen.on_key(&mut offset, Key::Char('x'));
    assert!(!consumed);
    assert!(matches!(action, LogsAction::Stay));
    let (_, action) = LogsScreen.on_key(&mut offset, Key::Char('f'));
    assert!(matches!(action, LogsAction::FetchRecent));
}

#[test]
fn logs_window_caps_the_offset_at_the_oldest_line() {
    assert_eq!(logs_window(100, 0, 10), (0, 90, 100));
    assert_eq!(logs_window(100, 5, 10), (5, 85, 95));
    assert_eq!(logs_window(100, usize::MAX, 10), (90, 0, 10));
    assert_eq!(logs_window(4, 2, 10), (0, 0, 4));
}

// ─── Packages ──────────────────────────────────────────────────────────

#[test]
fn packages_screen_s_key_opens_search_input_modal() {
    let names = vec!["vim".to_string()];
    let mut selected = 0usize;
    let (consumed, action) = PackagesScreen.on_key(&mut selected, &names, Key::Char('s'));
    assert!(consumed, "`s` must be consumed on the Packages screen");
    match action {
        PackagesAction::Open(Modal::Input { prompt, buf, kind }) => {
            assert_eq!(kind, InputKind::PackageSearch, "modal kind");
            assert!(buf.is_empty(), "modal buffer starts empty: got {buf:?}");
            assert!(!prompt.is_empty(), "modal prompt must not be empty");
        }
        _ => panic!("expected an input modal for the package search"),
    }
}

#[test]
fn packages_screen_s_key_overwrites_existing_help_modal() {
    let names: Vec<String> = Vec::new();
    let mut selected = 0usize;
    let (consumed, action) = PackagesScreen.on_key(&mut selected, &names, Key::Char('s'));
    assert!(consumed);
    assert!(matches!(
        action,
        PackagesAction::Open(Modal::Input { kind: InputKind::PackageSearch, .. })
    ));
}

#[test]
fn packages_keys_act_on_the_selected_package() {
    let names = vec!["curl".to_string(), "git".to_string()];
    let mut selected = 5usize;
    match PackagesScreen.on_key(&mut selected, &names, Key::Char('i')) {
        (true, PackagesAction::Run(RunAction::PackageInstall(p))) => assert_eq!(p, "git"),
        _ => panic!("expected an install of the clamped selection"),
    }
    match PackagesScreen.on_key(&mut selected, &names, Key::Char('r')) {
        (true, PackagesAction::Open(Modal::Confirm { message, kind, arg })) => {
            assert_eq!(message, "Remove package `git`?");
            assert_eq!(kind, ConfirmKind::Remove);
            assert_eq!(arg, "git");
        }
        _ => panic!("expected a removal confirmation"),
    }
    assert!(matches!(
        PackagesScreen.on_key(&mut selected, &names, Key::Char('U')),
        (true, PackagesAction::Run(RunAction::PackageUpgrade))
    ));
    assert!(matches!(
        PackagesScreen.on_key(&mut selected, &names, Key::Char('/')),
        (true, PackagesAction::ClearFilter)
    ));
    PackagesScreen.on_key(&mut selected, &names, Key::Home);
    assert_eq!(selected, 0);
    let empty: Vec<String> = Vec::new();
    assert!(matches!(PackagesScreen.on_key(&mut selected, &empty, Key::Char('i')), (true, PackagesAction::Stay)));
    assert_eq!(selected_upgradable(&empty, 0), None);
    assert_eq!(selected_upgradable(&names, 9), Some("git".to_string()));
}

// ─── Audio ─────────────────────────────────────────────────────────────

#[test]
fn audio_volume_steps_are_clamped() {
    let sinks = vec![sink("speakers", 148, false), sink("hdmi", 3, true)];
    let mut selected = 0usize;
    match AudioScreen.on_key(&mut selected, &sinks, Key::Char('+')) {
        (true, Some(RunAction::SetVolume { target, percent })) => {
            assert_eq!(target, "speakers");
            assert_eq!(percent, 150);
        }
        _ => panic!("expected a volume change"),
    }
    AudioScreen.on_key(&mut selected, &sinks, Key::Down);
    assert_eq!(selected, 1);
    match AudioScreen.on_key(&mut selected, &sinks, Key::Char('-')) {
        (true, Some(RunAction::SetVolume { target, percent })) => {
            assert_eq!(target, "hdmi");
            assert_eq!(percent, 0);
        }
        _ => panic!("expected a volume change"),
    }
    match AudioScreen.on_key(&mut selected, &sinks, Key::Char('m')) {
        (true, Some(RunAction::MuteSink { target, mute })) => {
            assert_eq!(target, "hdmi");
            assert!(!mute);
        }
        _ => panic!("expected a mute toggle"),
    }
    match AudioScreen.on_key(&mut selected, &sinks, Key::Char('d')) {
        (true, Some(RunAction::SetDefaultSink(t))) => assert_eq!(t, "hdmi"),
        _ => panic!("expected a default-sink change"),
    }
    assert!(matches!(AudioScreen.on_key(&mut selected, &sinks, Key::Char('x')), (false, None)));
    let none: Vec<Sink> = Vec::new();
    assert!(matches!(AudioScreen.on_key(&mut selected, &none, Key::Char('+')), (false, None)));
}

// ─── Bluetooth ─────────────────────────────────────────────────────────

#[test]
fn bluetooth_keys_act_on_the_selected_device() {
    let devices = vec![
        BtDevice { mac: "AA".into(), name: "pad".into(), paired: true, connected: false, trusted: false, rssi: None },
        BtDevice { mac: "BB".into(), name: "buds".into(), paired: false, connected: true, trusted: false, rssi: None },
    ];
    let mut selected = 0usize;
    BluetoothScreen.on_key(&mut selected, &devices, Key::End);
    assert_eq!(selected, 1);
    match BluetoothScreen.on_key(&mut selected, &devices, Key::Char('C')) {
        (true, BtAction::Run(RunAction::BluetoothDisconnect(m))) => assert_eq!(m, "BB"),
        _ => panic!("expected a disconnect"),
    }
    match BluetoothScreen.on_key(&mut selected, &devices, Key::Char('p')) {
        (true, BtAction::Run(RunAction::BluetoothPair(m))) => assert_eq!(m, "BB"),
        _ => panic!("expected a pairing"),
    }
    assert!(matches!(BluetoothScreen.on_key(&mut selected, &devices, Key::Char('P')), (true, BtAction::TogglePower)));
    assert!(matches!(BluetoothScreen.on_key(&mut selected, &devices, Key::Char('z')), (false, BtAction::Stay)));
    assert!(power_toggle_target(Some(0)));
    assert!(!power_toggle_target(Some(2)));
    assert!(power_toggle_target(None));
    assert_eq!(power_toggle_toast(true), "bluetooth on");
    assert_eq!(power_toggle_toast(false), "bluetooth off");
}

#[test]
fn arrows_walk_bt_device_list_with_thirty_devices() {
    let devices: Vec<BtDevice> = (0..30)
        .map(|i| BtDevice { mac: format!("{i}"), name: String::new(), paired: false, connected: false, trusted: false, rssi: None })
        .collect();
    let mut selected = 0usize;
    for expected in [1usize, 2, 3] {
        assert!(BluetoothScreen.on_key(&mut selected, &devices, Key::Down).0);
        assert_eq!(selected, expected);
    }
    BluetoothScreen.on_key(&mut selected, &devices, Key::Char('G'));
    assert_eq!(selected, 29);
    assert_eq!(compute_offset(selected, 30, 10), 20);
}

// ─── Display and power ─────────────────────────────────────────────────

#[test]
fn display_and_power_keys() {
    let mut selected = 0usize;
    assert!(matches!(DisplayScreen.on_key(&mut selected, 3, Key::Left), (true, DisplayAction::BrightnessDown)));
    assert!(matches!(DisplayScreen.on_key(&mut selected, 3, Key::Right), (true, DisplayAction::BrightnessUp)));
    DisplayScreen.on_key(&mut selected, 3, Key::PageDown);
    assert_eq!(selected, 2);
    assert_eq!(brightness_down(3), 0);
    assert_eq!(brightness_down(50), 45);
    assert_eq!(brightness_up(97), 100);
    assert_eq!(brightness_up(50), 55);
    assert_eq!(brightness_toast(40), "brightness 40%");
    assert!(matches!(PowerScreen.on_key(Key::Char('s')), Some(PowerAction::Run(RunAction::Suspend))));
    match PowerScreen.on_key(Key::Char('p')) {
        Some(PowerAction::Open(Modal::Confirm { message, kind, .. })) => {
            assert_eq!(message, "Shut down the system?");
            assert_eq!(kind, ConfirmKind::Shutdown);
        }
        _ => panic!("expected a shutdown confirmation"),
    }
    assert!(PowerScreen.on_key(Key::Char('x')).is_none());
    assert_eq!(next_governor("performance"), "powersave");
    assert_eq!(next_governor("schedutil"), "performance");
    assert_eq!(battery_severity(10), Severity::Error);
    assert_eq!(battery_severity(20), Severity::Warn);
    assert_eq!(battery_severity(50), Severity::Good);
}

// ─── Network ───────────────────────────────────────────────────────────

#[test]
fn arrows_walk_iface_into_wifi_region() {
    let i = ifaces(2);
    let w = wifi(30);
    let mut selected = 0usize;
    for expected in [1usize, 2, 3] {
        assert!(NetworkScreen.on_key(&mut selected, &i, &w, Key::Down).0);
        assert_eq!(selected, expected);
    }
}

#[test]
fn end_jumps_to_last_wifi_network() {
    let i = ifaces(2);
    let w = wifi(30);
    let mut selected = 0usize;
    assert!(NetworkScreen.on_key(&mut selected, &i, &w, Key::End).0);
    assert_eq!(selected, 31);
    NetworkScreen.on_key(&mut selected, &i, &w, Key::Char('h'));
    assert_eq!(selected, 1);
    NetworkScreen.on_key(&mut selected, &i, &w, Key::Char('l'));
    assert_eq!(selected, 2);
}

#[test]
fn enter_on_open_and_secured_networks() {
    let i = ifaces(1);
    let w = vec![
        WifiNet { ssid: "CafeWiFi".into(), security: String::new() },
        WifiNet { ssid: "HomeNet".into(), security: "WPA2".into() },
    ];
    let mut selected = 1usize;
    match NetworkScreen.on_key(&mut selected, &i, &w, Key::Enter) {
        (true, NetworkAction::Run(RunAction::WifiConnect { ssid, password })) => {
            assert_eq!(ssid, "CafeWiFi");
            assert_eq!(password, None);
        }
        _ => panic!("expected a connection to the open network"),
    }
    selected = 2;
    match NetworkScreen.on_key(&mut selected, &i, &w, Key::Enter) {
        (true, NetworkAction::AskPassword { ssid, prompt }) => {
            assert_eq!(ssid, "HomeNet");
            assert!(prompt.contains("HomeNet"));
        }
        _ => panic!("expected a password prompt"),
    }
    assert!(matches!(NetworkScreen.on_key(&mut selected, &i, &w, Key::Char('r')), (true, NetworkAction::Run(RunAction::WifiScan))));
    match NetworkScreen.on_key(&mut selected, &i, &w, Key::Char('c')) {
        (true, NetworkAction::Open(Modal::Input { prompt, buf, kind })) => {
            assert!(prompt.to_lowercase().contains("ssid"));
            assert!(buf.is_empty());
            assert_eq!(kind, InputKind::ConnectSsid);
        }
        _ => panic!("expected the hidden-SSID input"),
    }
    assert!(matches!(NetworkScreen.on_key(&mut selected, &i, &w, Key::Char('s')), (true, NetworkAction::ToggleSaved)));
    selected = 0;
    match NetworkScreen.on_key(&mut selected, &i, &w, Key::Char(' ')) {
        (true, NetworkAction::Run(RunAction::SetInterfaceUp(name, up))) => {
            assert_eq!(name, "eth0");
            assert!(!up, "an interface reporting UP is taken down");
        }
        _ => panic!("expected an interface toggle"),
    }
}

#[test]
fn interface_toggle_ignores_ascii_case() {
    assert!(same_ignoring_ascii_case("UnKnOwN", "unknown"));
    assert!(!same_ignoring_ascii_case("up", "upp"));
    assert!(!toggle_up("UP"));
    assert!(!toggle_up("unknown"));
    assert!(toggle_up("DOWN"));
}

// ─── Shared list helpers ───────────────────────────────────────────────

#[test]
fn list_helpers() {
    assert_eq!(list_nav(0, 0, Key::Down, 10), Some(0));
    assert_eq!(list_nav(4, 20, Key::PageDown, 10), Some(14));
    assert_eq!(list_nav(14, 20, Key::PageDown, 10), Some(19));
    assert_eq!(list_nav(3, 20, Key::PageUp, 10), Some(0));
    assert_eq!(list_nav(3, 20, Key::Char('x'), 10), None);
    assert_eq!(selected_index(9, 3), Some(2));
    assert_eq!(selected_index(0, 0), None);
    assert_eq!(compute_offset(3, 100, 10), 0);
    assert_eq!(compute_offset(15, 100, 10), 6);
    assert_eq!(compute_offset(500, 100, 10), 90);
    assert_eq!(vol_bar(50).chars().count(), vol_bar(100).chars().count());
    assert_eq!(brightness_bar(100).chars().filter(|c| *c == '█').count(), 20);
    assert_eq!(battery_bar(55).chars().filter(|c| *c == '█').count(), 5);
    assert_eq!(bool_label(true), "yes");
    assert_eq!(bool_label(false), "no");
    assert_eq!(format_age(42), "42s ago");
}

#[test]
fn list_keys_stay_on_the_list_and_up_undoes_down() {
    for total in 1..6usize {
        for sel in 0..total {
            for key in [Key::Down, Key::Up, Key::PageDown, Key::PageUp, Key::Home, Key::End] {
                if let Some(s) = list_nav(sel, total, key, 3) {
                    assert!(s < total);
                }
            }
            if sel + 1 < total {
                let down = list_nav(sel, total, Key::Down, 3).unwrap();
                assert_eq!(list_nav(down, total, Key::Up, 3), Some(sel));
            }
        }
    }
}

fn set_volume(r: (bool, Option<RunAction>)) -> u8 {
    match r {
        (true, Some(RunAction::SetVolume { percent, .. })) => percent,
        _ => panic!("expected a volume change"),
    }
}

#[test]
fn volume_minus_undoes_plus() {
    let mut selected = 0usize;
    let up = set_volume(AudioScreen.on_key(&mut selected, &vec![sink("speakers", 40, false)], Key::Char('+')));
    assert_eq!(up, 45);
    let back = set_volume(AudioScreen.on_key(&mut selected, &vec![sink("speakers", up, false)], Key::Char('-')));
    assert_eq!(back, 40);
}

#[test]
fn journal_lines_become_entries() {
    let ok = br#"{"__REALTIME_TIMESTAMP":"1700000000123456","MESSAGE":"hello"}"#;
    assert_eq!(journal_entry(ok), Some((1_700_000_000_123_456, "hello".to_string())));
    let neg = br#"{"__REALTIME_TIMESTAMP":"-5","MESSAGE":"x"}"#;
    assert_eq!(journal_entry(neg), Some((-5, "x".to_string())));
    assert_eq!(journal_entry(b""), None, "blank line");
    assert_eq!(journal_entry(b"not json"), None);
    assert_eq!(journal_entry(br#"{"MESSAGE":"no time"}"#), None);
    assert_eq!(journal_entry(br#"{"__REALTIME_TIMESTAMP":"soon","MESSAGE":"x"}"#), None);
    assert_eq!(journal_entry(br#"{"__REALTIME_TIMESTAMP":17,"MESSAGE":"x"}"#), None);
    assert_eq!(journal_entry(br#"{"__REALTIME_TIMESTAMP":"17","MESSAGE":""}"#), None);
    assert_eq!(journal_entry(br#"{"__REALTIME_TIMESTAMP":"17"}"#), None);
    assert_eq!(journal_entry(br#"{"__REALTIME_TIMESTAMP":"17","MESSAGE":[104,105]}"#), None);
    assert_eq!(journal_entry(br#"[1,2]"#), None);
}

#[test]
fn journal_timestamps_parse_as_i64_does() {
    let at = |ts: &str| {
        let line = format!("{{\"__REALTIME_TIMESTAMP\":\"{ts}\",\"MESSAGE\":\"m\"}}");
        journal_entry(line.as_bytes()).map(|(t, _)| t)
    };
    assert_eq!(at("+7"), Some(7));
    assert_eq!(at("9223372036854775807"), Some(i64::MAX));
    assert_eq!(at("-9223372036854775808"), Some(i64::MIN));
    assert_eq!(at("9223372036854775808"), None);
    assert_eq!(at("-9223372036854775809"), None);
    assert_eq!(at("-"), None);
    assert_eq!(at("+"), None);
    assert_eq!(at("1 2"), None);
    assert_eq!(at(""), None);
}
