use cyberdeck_tui::editor::editor_bar;
use cyberdeck_tui::files::FilesScreenV2;
use cyberdeck_tui::intel::{IntelScreen, LayerId, LayerStatus, Sentinel, Snapshot};
use cyberdeck_tui::lora::LoraChatLine;
use cyberdeck_tui::nav_screens::{
    AudioScreenV2, BluetoothScreenV2, DisplayScreenV2, EditorScreenV2, IntelScreenV2, LogsScreenV2,
    LoraScreenV2, NetworkScreenV2, PackagesScreenV2,
};
use cyberdeck_tui::panes::{
    contains_text, power_side_view, CpuInfo, GovernorInfo, IfaceDetail, PackageInfo, ThermalRow,
};
use cyberdeck_tui::system_screens::{BtDevice, Sink};
use cyberdeck_tui::views::{OutputInfo, TextRun, Tone};

fn runs(row: &[TextRun]) -> Vec<(String, Tone)> {
    row.iter().map(|r| (r.text.clone(), r.tone)).collect()
}

fn texts(rows: &[Vec<TextRun>]) -> Vec<String> {
    rows.iter().map(|r| r.iter().map(|t| t.text.as_str()).collect::<String>()).collect()
}

fn p(s: &str, t: Tone) -> (String, Tone) {
    (s.to_string(), t)
}

fn iface(name: &str, state: &str, v4: &[&str], v6: &[&str]) -> IfaceDetail {
    IfaceDetail {
        name: name.into(),
        state: state.into(),
        ipv4: v4.iter().map(|s| s.to_string()).collect(),
        ipv6: v6.iter().map(|s| s.to_string()).collect(),
    }
}

#[test]
fn network_v2_rows_and_detail_of_the_kept_interface() {
    let ifaces = vec![iface("eth0", "UP", &["10.0.0.2", "10.0.0.3"], &["fe80::1"]), iface("wlan0", "down", &[], &[])];
    let mut s = NetworkScreenV2::new();
    let v = s.view(Some(&ifaces), &Some("home".into()));
    assert_eq!(
        runs(&v.rows[0]),
        vec![p("eth0        ", Tone::Fg), p("UP    ", Tone::Good), p(" 10.0.0.2", Tone::Accent)]
    );
    assert_eq!(runs(&v.rows[1]), vec![p("wlan0       ", Tone::Fg), p("down  ", Tone::Dim)]);
    assert_eq!(v.selected, Some(0));
    assert_eq!(
        texts(&v.detail),
        vec!["name   eth0", "state  UP", "ipv4   10.0.0.2", "ipv4   10.0.0.3", "ipv6   fe80::1", "ssid   home"]
    );
    s.selected = 7;
    let v = s.view(Some(&ifaces), &None);
    assert_eq!(v.selected, Some(1), "the cursor is kept on the list");
    assert_eq!(texts(&v.detail), vec!["name   wlan0", "state  down"]);

    let busy = s.view(None, &None);
    assert_eq!(texts(&busy.rows), vec!["  (refreshing…)"]);
    assert_eq!(busy.selected, None);
    assert_eq!(texts(&busy.detail), vec!["(refreshing…)"]);
    let none = s.view(Some(&Vec::new()), &None);
    assert_eq!(none.selected, None);
    assert_eq!(texts(&none.detail), vec!["(no interface selected)"]);
}

fn sink(volume: u8, muted: bool, default: bool) -> Sink {
    Sink {
        id: 42,
        name: "Speakers".into(),
        description: "Built-in Audio Analog Stereo Output Device".into(),
        volume,
        muted,
        default,
    }
}

#[test]
fn audio_v2_sink_rows_and_volume_bar() {
    let s = AudioScreenV2 { selected: 0 };
    let sinks = vec![sink(110, true, true)];
    let v = s.view(Some(&sinks));
    assert_eq!(runs(&v.rows[0]), vec![p(" ★ ", Tone::Good), p("Speakers [M]", Tone::Fg)]);
    assert_eq!(v.selected, Some(0));
    assert_eq!(
        texts(&v.detail),
        vec![
            "name   Speakers",
            "id     42",
            "volume [████████████████] 110%",
            "muted  yes",
            "default ★ yes",
            "",
            "Built-in Audio Analog Stereo …",
            "",
            "  ◀/▶ volume  m mute",
            "  A set as default",
        ]
    );
    assert_eq!(v.detail[2][1].tone, Tone::Warn, "above 100% is a warning");

    let half = s.view(Some(&vec![sink(50, false, false)]));
    assert_eq!(runs(&half.rows[0]), vec![p(" ○ ", Tone::Dim), p("Speakers", Tone::Fg)]);
    assert_eq!(runs(&half.detail[2])[1], p("[████████░░░░░░░░] 50%", Tone::Good));

    let empty = s.view(Some(&Vec::new()));
    assert_eq!(texts(&empty.rows), vec!["  (no audio sinks)"]);
    assert_eq!(empty.selected, None);
    assert_eq!(texts(&empty.detail), vec!["(no sink selected)"]);
}

#[test]
fn bluetooth_v2_device_rows_and_detail() {
    let d = BtDevice {
        mac: "AA:BB:CC".into(),
        name: "Buds".into(),
        paired: true,
        connected: false,
        trusted: false,
        rssi: Some(-60),
    };
    let s = BluetoothScreenV2 { selected: 3 };
    let v = s.view(Some(&vec![d]));
    assert_eq!(runs(&v.rows[0]), vec![p(" ○ ", Tone::Dim), p("Buds", Tone::Fg)]);
    assert_eq!(v.selected, Some(0));
    assert_eq!(
        texts(&v.detail),
        vec![
            "name      Buds",
            "mac       AA:BB:CC",
            "paired    yes",
            "connected no",
            "trusted   no",
            "rssi      -60 dBm",
            "",
            "  A = connect/disconnect",
            "  s = scan for devices",
        ]
    );
    let empty = s.view(Some(&Vec::new()));
    assert_eq!(texts(&empty.rows), vec!["  (no devices — press s to scan)"]);
    assert_eq!(texts(&empty.detail), vec!["(no device selected)"]);
}

#[test]
fn display_v2_brightness_bar_and_outputs() {
    let mut s = DisplayScreenV2::new();
    s.brightness = 55;
    let outs = vec![OutputInfo {
        name: "HDMI-A-1".into(),
        enabled: true,
        mode: "1920x1080@60".into(),
        scale_text: "1.0".into(),
    }];
    let v = s.view(Some(&outs));
    assert_eq!(
        texts(&v.header),
        vec!["", "  brightness  [███████████░░░░░░░░░] 55%", "", "  ◀/▶ adjust   A to apply"]
    );
    assert_eq!(
        runs(&v.rows[0]),
        vec![
            p(" ● ", Tone::Good),
            p("HDMI-A-1    ", Tone::Fg),
            p("1920x1080@60", Tone::Accent),
            p("  ×1.0", Tone::Dim),
        ]
    );
    assert_eq!(v.selected, Some(0));
    let none = s.view(Some(&Vec::new()));
    assert_eq!(texts(&none.rows), vec!["  (no displays detected)"]);
    assert_eq!(none.selected, None);
}

#[test]
fn packages_v2_count_and_rows() {
    let s = PackagesScreenV2::new();
    let pkgs = vec![PackageInfo { name: "libfoo".into(), version: "1.2.3-1".into() }];
    let v = s.view(Some(&pkgs));
    assert_eq!(texts(&v.header), vec!["  upgradable: 1 package(s)"]);
    assert_eq!(runs(&v.rows[0]), vec![p(&format!("  {:<30}", "libfoo"), Tone::Fg), p("1.2.3-1", Tone::Accent)]);
    assert_eq!(v.selected, Some(0));
    let done = s.view(Some(&Vec::new()));
    assert_eq!(runs(&done.rows[0]), vec![p("  all packages up to date", Tone::Good)]);
    assert_eq!(done.selected, None);
    let busy = s.view(None);
    assert_eq!(texts(&busy.header), vec!["  upgradable: 0 package(s)"]);
    assert_eq!(texts(&busy.rows), vec!["  (refreshing…)"]);
}

#[test]
fn files_v2_listing_rows() {
    let s = FilesScreenV2 {
        cwd: "/home/u".into(),
        entries: vec![("docs".into(), true), ("a.txt".into(), false)],
        selected: 9,
        loaded: true,
    };
    let v = s.view();
    assert_eq!(texts(&v.header), vec!["  /home/u"]);
    assert_eq!(runs(&v.rows[0]), vec![p("▶ ", Tone::Good), p("docs", Tone::Good)]);
    assert_eq!(runs(&v.rows[1]), vec![p("  ", Tone::Fg), p("a.txt", Tone::Fg)]);
    assert_eq!(v.selected, Some(1));
    let empty = FilesScreenV2 { entries: Vec::new(), ..s };
    let e = empty.view();
    assert_eq!(texts(&e.rows), vec!["  (empty directory)"]);
    assert_eq!(e.selected, Some(0));
}

#[test]
fn logs_v2_lines_take_their_level_tone() {
    let s = LogsScreenV2 {
        lines: vec!["boot ok".into(), "disk Error here".into(), "WARN low battery".into(), "warning: x".into()],
        offset: 10,
        loaded: true,
    };
    let v = s.view();
    let tones: Vec<Tone> = v.rows.iter().map(|r| r[0].tone).collect();
    assert_eq!(tones, vec![Tone::Fg, Tone::Bad, Tone::Warn, Tone::Warn]);
    assert_eq!(v.selected, Some(3));
    let waiting = LogsScreenV2 { lines: Vec::new(), offset: 0, loaded: false };
    assert_eq!(texts(&waiting.view().rows), vec!["  (press any key to load…)"]);
    let empty = LogsScreenV2 { lines: Vec::new(), offset: 0, loaded: true };
    assert_eq!(texts(&empty.view().rows), vec!["  (no log entries)"]);

    assert!(contains_text("a disk error", "error"));
    assert!(!contains_text("errno", "error"));
    assert!(contains_text("anything", ""));
}

#[test]
fn editor_v2_window_follows_the_cursor() {
    let s = EditorScreenV2 {
        path: Some("/tmp/notes.txt".into()),
        lines: (0..10).map(|i| format!("l{}", i)).collect(),
        cursor_row: 7,
        view_offset: 0,
    };
    let v = s.view(5);
    assert_eq!(texts(&v.header), vec![" /tmp/notes.txt  8:1"]);
    assert_eq!(texts(&v.rows), vec!["   4 l3", "   5 l4", "   6 l5", "   7 l6", "   8 l7"]);
    assert_eq!(v.rows[4][1].tone, Tone::Selected);
    assert_eq!(v.rows[0][1].tone, Tone::Fg);
    assert_eq!(v.selected, Some(4));
    let blank = EditorScreenV2 { path: None, lines: Vec::new(), cursor_row: 0, view_offset: 0 };
    let b = blank.view(5);
    assert_eq!(texts(&b.header), vec![" (no file)  1:1"]);
    assert!(b.rows.is_empty());
    assert_eq!(b.selected, None);
}

fn line(i: usize) -> LoraChatLine {
    LoraChatLine { from: format!("n{}", i), text: format!("m{}", i), hops_away: 0, is_local: i == 4 }
}

#[test]
fn lora_v2_chat_window_and_draft() {
    let msgs: Vec<LoraChatLine> = (0..5).map(line).collect();
    let mut s = LoraScreenV2::new();
    let v = s.chat_view(&msgs, true, 3);
    assert_eq!(v.title, " chat ● ");
    assert_eq!(texts(&v.rows), vec!["<n2> m2", "<n3> m3", "<n4> m4", "> (type to compose)"]);
    assert_eq!(v.rows[2][0].tone, Tone::Good, "our own lines are marked");
    assert_eq!(v.rows[0][0].tone, Tone::Accent);
    s.scroll = 10;
    s.input = "hi".into();
    let v = s.chat_view(&msgs, false, 3);
    assert_eq!(v.title, " chat ○ ");
    assert_eq!(texts(&v.rows), vec!["<n0> m0", "<n1> m1", "<n2> m2", "> hi"]);
    let empty = s.chat_view(&Vec::new(), false, 3);
    assert_eq!(texts(&empty.rows), vec!["  (not connected — select a node →)", "> hi"]);
}

fn snap(layer: LayerId, sentinel: Sentinel, status: LayerStatus) -> Snapshot {
    Snapshot { layer, status, sentinel, summary: String::new(), entity_count: 0, raw: "null".into() }
}

#[test]
fn intel_grid_rows_and_title() {
    let snaps = vec![
        snap(LayerId::Fires, Sentinel::Yellow, LayerStatus::Pending),
        snap(LayerId::News, Sentinel::Red, LayerStatus::Error { last_ok_unix: None, reason: "x".into() }),
    ];
    let counts = vec!["7".to_string(), "1.2k".to_string()];
    let mut screen = IntelScreen::with_snapshots(snaps);
    screen.selected = 5;
    let g = screen.grid_view(&counts);
    assert_eq!(screen.selected, 1);
    assert_eq!(g.title, " Intel · RED ");
    assert_eq!(
        texts(&g.rows),
        vec![format!("  🔥 {:<10} {:>5} ◌", "Fires", "7"), format!("▶ 📰 {:<10} {:>5} ✗", "News", "1.2k")]
    );
    assert_eq!(g.rows[1][0].tone, Tone::Selected);

    let v2 = IntelScreenV2 { selected: 0 };
    let g2 = v2.grid_view(&screen.snapshots, &counts);
    assert_eq!(g2.rows[0][0].tone, Tone::Selected);
    assert!(g2.rows[0][0].text.starts_with("▶ "));
}

#[test]
fn editor_bar_shows_state_and_actions() {
    let bar: Vec<(String, Tone)> = runs(&editor_bar("/tmp/x", true, true));
    assert_eq!(bar[0], p(" Editor · /tmp/x • (read-only) ", Tone::Title));
    assert_eq!(
        bar[1..].iter().map(|r| r.0.as_str()).collect::<String>(),
        " Ctrl-S  Save  S  Save As…  F5  Reload "
    );
    let clean = runs(&editor_bar("/tmp/x", false, false));
    assert_eq!(clean[0].0, " Editor · /tmp/x ");
}

#[test]
fn power_side_pane_lists_cpu_governor_and_thermals() {
    let cpu = Some(CpuInfo { count: 4, model: "ARM Cortex-A72".into() });
    let gov = Some(GovernorInfo {
        driver: "cpufreq-dt".into(),
        governor: "ondemand".into(),
        available: vec!["performance".into(), "powersave".into(), "ondemand".into()],
    });
    let th = vec![
        ThermalRow { label: "cpu".into(), temp_text: "81.0°C".into(), hot: true, warm: true },
        ThermalRow { label: "gpu".into(), temp_text: "64.5°C".into(), hot: false, warm: true },
        ThermalRow { label: "board".into(), temp_text: "40.0°C".into(), hot: false, warm: false },
    ];
    let rows = power_side_view(&cpu, &gov, Some(&th));
    assert_eq!(
        texts(&rows),
        vec![
            "  cpu      4 × ARM Cortex-A72".to_string(),
            "  driver   cpufreq-dt".to_string(),
            "  governor ondemand".to_string(),
            "  available: performance, powersave, ondemand".to_string(),
            "".to_string(),
            format!("  thermal  {:<14}81.0°C", "cpu"),
            format!("  thermal  {:<14}64.5°C", "gpu"),
            format!("  thermal  {:<14}40.0°C", "board"),
            "".to_string(),
            "  g toggle governor (performance↔powersave)".to_string(),
        ]
    );
    let tones: Vec<Tone> = rows[5..8].iter().map(|r| r[2].tone).collect();
    assert_eq!(tones, vec![Tone::Bad, Tone::Warn, Tone::Good]);

    let bare = power_side_view(&None, &None, None);
    assert_eq!(texts(&bare), vec!["", "  g toggle governor (performance↔powersave)"]);
}
