use cyberdeck_tui::lines::DirEntry;
use cyberdeck_tui::nav_screens::{AiLogsScreen, AiMessage, AiRole, EntryKind};
use cyberdeck_tui::transcript::{message_fits_width, transcript, transcript_window, ChatLine, LineStyle};
use cyberdeck_tui::system_screens::{BtDevice, Sink};
use cyberdeck_tui::views::{
    audio_view, bluetooth_view, brightness_lines, display_view, packages_view, OutputInfo,
    battery_view, files_view, iface_row, network_footer, network_view, position, saved_rows, wifi_row,
    BatteryInfo, IfaceInfo, SavedConnection, SignalGlyphs, TextRun, Tone, WifiInfo,
    logs_view, LogLine,
};
use cyberdeck_tui::wrap::wrap_line;

fn text(row: &[TextRun]) -> String {
    row.iter().map(|r| r.text.as_str()).collect()
}

fn glyphs() -> SignalGlyphs {
    SignalGlyphs { full: "▂▄▆█".into(), mid: "▂▄▆_".into(), low: "▂▄__".into(), none: "▂___".into() }
}

fn iface(name: &str, state: &str, ip: Option<&str>, v6: usize) -> IfaceInfo {
    IfaceInfo { name: name.into(), state: state.into(), ipv4_first: ip.map(|s| s.into()), ipv6_count: v6 }
}

fn net(ssid: &str, signal: u8) -> WifiInfo {
    WifiInfo { ssid: ssid.into(), signal, security: "WPA2".into(), in_use: false }
}

// ─── Word wrapping ─────────────────────────────────────────────────────

#[test]
fn wrap_line_breaks_at_spaces() {
    assert_eq!(wrap_line("hello world foo", 11), vec!["hello world", "foo"]);
    assert_eq!(wrap_line("short", 10), vec!["short"]);
    assert_eq!(wrap_line("anything", 0), vec![""]);
    assert_eq!(wrap_line("a b c d", 3), vec!["a b", "c d"]);
}

#[test]
fn wrap_line_hard_breaks_long_words() {
    assert_eq!(wrap_line("abcdefghij xy", 4), vec!["abcd", "efgh", "ij", "xy"]);
    assert_eq!(wrap_line("ab abcdefgh", 4), vec!["ab", "abcd", "efgh"]);
    assert_eq!(wrap_line("     ", 2), vec![""]);
}

// ─── Transcript ────────────────────────────────────────────────────────

fn msg(role: AiRole, content: &str, thinking: &str, tools: &[&str], streaming: bool) -> AiMessage {
    AiMessage {
        role,
        content: content.into(),
        thinking: thinking.into(),
        tool_log: tools.iter().map(|t| t.to_string()).collect(),
        streaming,
    }
}

fn lines(v: &[ChatLine]) -> Vec<(String, LineStyle)> {
    v.iter().map(|l| (l.text.clone(), l.style)).collect()
}

#[test]
fn transcript_lays_out_user_and_assistant_messages() {
    let msgs = vec![
        msg(AiRole::User, "hi", "", &[], false),
        msg(AiRole::Assistant, "see:\n```\nlet x = 1;\n```\ndone", "hmm", &["ls"], true),
    ];
    let got = lines(&transcript(&msgs, true, 40));
    let want: Vec<(String, LineStyle)> = vec![
        ("You: hi".into(), LineStyle::User),
        ("".into(), LineStyle::Plain),
        ("  💭 Thinking...".into(), LineStyle::Dim),
        ("    hmm".into(), LineStyle::Think),
        ("".into(), LineStyle::Plain),
        ("  🔧 ls".into(), LineStyle::Tool),
        ("".into(), LineStyle::Plain),
        ("see:".into(), LineStyle::Plain),
        ("```".into(), LineStyle::Dim),
        ("  let x = 1;".into(), LineStyle::Code),
        ("```".into(), LineStyle::Dim),
        ("done".into(), LineStyle::Plain),
        ("▌".into(), LineStyle::Cursor),
        ("".into(), LineStyle::Plain),
    ];
    assert_eq!(got, want);
    let only = vec![msg(AiRole::Assistant, "see:\n```\nlet x = 1;\n```\ndone", "hmm", &["ls"], true)];
    let hidden = lines(&transcript(&only, false, 40));
    assert_eq!(hidden[0], ("  🔧 ls".into(), LineStyle::Tool));
}

#[test]
fn transcript_cuts_code_lines_to_width() {
    let msgs = vec![msg(AiRole::Assistant, "```\nabcdefghijkl", "", &[], false)];
    let got = lines(&transcript(&msgs, true, 8));
    assert_eq!(got[1], ("  abcde…".into(), LineStyle::Code));
}

#[test]
fn transcript_window_follows_or_scrolls() {
    assert_eq!(transcript_window(100, 10, 0, true), (90, 100));
    assert_eq!(transcript_window(100, 10, 5, false), (5, 15));
    assert_eq!(transcript_window(100, 10, 95, false), (90, 100));
    assert_eq!(transcript_window(4, 10, 3, false), (0, 4));
}

// ─── Network ───────────────────────────────────────────────────────────

#[test]
fn network_rows_pad_and_tone() {
    let r = iface_row(&iface("wlan0", "UP", Some("10.0.0.2"), 2));
    assert_eq!(text(&r), "wlan0       UP       10.0.0.2 +2v6");
    assert_eq!(r[1].tone, Tone::Good);
    let r = iface_row(&iface("lo", "unknown", None, 0));
    assert_eq!(text(&r), "lo          unknown ");
    assert_eq!(r[1].tone, Tone::Dim);
    let w = wifi_row(&net("Cafe", 80), &glyphs());
    assert_eq!(text(&w), "  ▂▄▆█ Cafe                     80% WPA2");
    let open = WifiInfo { ssid: "x".into(), signal: 5, security: String::new(), in_use: true };
    let w = wifi_row(&open, &glyphs());
    assert_eq!(w[2].tone, Tone::Good);
    assert_eq!(w[4].text, "open");
    assert_eq!(w[1].text, "▂___ ");
    let saved = saved_rows(&vec![SavedConnection { ssid: "Home".into(), security: "wpa-psk".into(), autoconnect_priority: -5 }]);
    assert_eq!(text(&saved[0]), "  Home                 wpa-psk  prio:-5");
    assert_eq!(text(&saved_rows(&Vec::new())[0]), "  (loading…)");
    assert_eq!(position(0, 0), "  no items");
    assert_eq!(position(4, 12), "  5/12  ");
}

#[test]
fn wifi_pane_scrolls_with_30_networks() {
    let ifaces = vec![iface("eth0", "up", None, 0), iface("eth1", "up", None, 0)];
    let wifi: Vec<WifiInfo> = (0..30).map(|i| net(&format!("net-{i:02}"), 50)).collect();
    let mut selected = 31usize;
    let v = network_view(&mut selected, &ifaces, &wifi, Some(Some("net-00".into())), &glyphs(), 10, 10);
    assert_eq!(v.iface_selected, None);
    assert_eq!(v.wifi_rows.len(), 32);
    assert_eq!(v.wifi_selected, Some(31));
    assert_eq!(v.wifi_offset, 22);
    assert_eq!(v.position, "  32/32  ");
    let mut selected = 99usize;
    let v = network_view(&mut selected, &Vec::new(), &Vec::new(), None, &glyphs(), 10, 10);
    assert_eq!(selected, 0);
    assert_eq!(text(&v.iface_rows[0]), "  (no interfaces)");
    assert_eq!(text(&v.wifi_rows[0]), "  scan results:");
    assert_eq!(text(&v.wifi_rows[1]), "  (press r to scan)");
    assert_eq!(v.position, "  no items");
}

// ─── Files and power ───────────────────────────────────────────────────

#[test]
fn files_view_rows_and_tail_peek() {
    let entries = vec![
        DirEntry { name: "docs".into(), path: "/docs".into(), is_dir: true, size: 0 },
        DirEntry { name: "notes.txt".into(), path: "/notes.txt".into(), is_dir: false, size: 3 },
    ];
    let sizes = vec![String::new(), "3 B".to_string()];
    let mut selected = 7usize;
    let v = files_view(&mut selected, &entries, &sizes, &Vec::new(), &Vec::new(), 5, 5);
    assert_eq!(selected, 1);
    assert_eq!(v.left_selected, Some(1));
    assert_eq!(v.left_rows[0][0].text, "▸ ");
    assert_eq!(v.left_rows[1][2].text, "       3 B");
    assert_eq!(v.left_rows[1][1].text.chars().count(), 32);
    assert_eq!(text(&v.right_rows[0]), "  (no selection — press space on a directory)");
    assert_eq!(v.position, "  2/2  ");
    let many: Vec<DirEntry> = (0..9)
        .map(|i| DirEntry { name: format!("f{i}"), path: String::new(), is_dir: false, size: 0 })
        .collect();
    let many_sizes = vec!["0 B".to_string(); 9];
    let v = files_view(&mut selected, &Vec::new(), &Vec::new(), &many, &many_sizes, 5, 5);
    assert_eq!(v.right_offset, 4);
    assert_eq!(v.position, "  (empty)");
}

#[test]
fn battery_pane_lines() {
    let bat = BatteryInfo {
        capacity: 45,
        status: "Discharging".into(),
        time_to_full: None,
        time_to_empty: Some("2h 10m".into()),
        power_text: Some("7.25 W".into()),
        health: None,
    };
    let rows = battery_view(&Some(Some(bat)));
    assert_eq!(text(&rows[0]), "  ████░░░░░░  45%");
    assert_eq!(rows[0][1].tone, Tone::Warn);
    assert_eq!(text(&rows[1]), "  status   Discharging");
    assert_eq!(text(&rows[2]), "  to empty 2h 10m");
    assert_eq!(text(&rows[3]), "  power    7.25 W");
    assert_eq!(text(&rows[5]), "  actions:");
    assert_eq!(rows.len(), 8);
    let ac = battery_view(&Some(None));
    assert_eq!(text(&ac[0]), "  (no battery — running on AC)");
    assert_eq!(battery_view(&None).len(), 4);
}

// ─── System lists ──────────────────────────────────────────────────────

#[test]
fn audio_and_bluetooth_lists() {
    let sinks = vec![Sink {
        id: 47,
        name: "alsa_output".into(),
        description: "Speakers".into(),
        volume: 55,
        muted: true,
        default: true,
    }];
    let mut sel = 3usize;
    let v = audio_view(&mut sel, Some(&sinks), 10);
    assert_eq!(sel, 0);
    assert_eq!(v.selected, Some(0));
    let row = &v.rows[0];
    assert_eq!(row[0].text, "◉ ");
    assert_eq!(row[2].text, "47  ");
    assert_eq!(row[3].text, "  ███████████░░░░░░░░░");
    assert_eq!(row[4].text, "  55%");
    assert_eq!(row[5].text, " muted");
    assert_eq!(row[4].tone, Tone::Warn);
    assert_eq!(v.position, "  1/1  ");
    let v = audio_view(&mut sel, Some(&Vec::new()), 10);
    assert_eq!(v.position, "  no sinks");
    assert_eq!(v.selected, None);
    assert_eq!(audio_view(&mut sel, None, 10).rows.len(), 0);

    let devs = vec![BtDevice {
        mac: "AA:BB".into(),
        name: "Buds".into(),
        paired: true,
        connected: false,
        trusted: true,
        rssi: Some(-60),
    }];
    let v = bluetooth_view(&mut sel, Some(&devs), 10);
    assert_eq!(v.rows[0][2].text, "paired    ");
    assert_eq!(v.rows[0][2].tone, Tone::Accent);
    assert_eq!(v.rows[0][3].text, "-60 dBm   ");
    assert_eq!(v.rows[0][4].text, "[✓]");
}

#[test]
fn packages_and_display_lists() {
    let mut sel = 5usize;
    let v = packages_view(&mut sel, Some(&vec!["vim".to_string(), "git".to_string()]), 10);
    assert_eq!(sel, 0, "a cursor past the end goes back to the top");
    assert_eq!(text(&v.rows[1]), "▲ git");
    let v = packages_view(&mut sel, None, 10);
    assert_eq!(text(&v.rows[0]), "  (system up to date — press u to refresh)");
    assert_eq!(v.selected, Some(0));
    let outs = vec![OutputInfo { name: "eDP-1".into(), enabled: true, mode: "1920x1080".into(), scale_text: "1.00".into() }];
    let v = display_view(&mut sel, Some(&outs), 10);
    assert_eq!(text(&v.rows[0]), "eDP-1       on    1920x1080     scale 1.00");
    let b = brightness_lines(&Ok(40));
    assert_eq!(text(&b[0]), "  ████████░░░░░░░░░░░░   40%");
    let e = brightness_lines(&Err("no backlight".into()));
    assert_eq!(text(&e[0]), "  brightness unavailable: no backlight");
}

// ─── Logs and the conversation log ─────────────────────────────────────

fn log_lines(n: usize) -> Vec<LogLine> {
    (0..n)
        .map(|i| LogLine { time_text: format!("10:00:0{}", i), message: format!("msg {}", i) })
        .collect()
}

#[test]
fn logs_view_caps_offset_and_pauses_above_the_tail() {
    let lines = log_lines(5);
    let mut off = 10usize;
    let v = logs_view(&mut off, &lines, 3);
    assert_eq!(off, 2, "the offset stops at the oldest line");
    let rows: Vec<String> = v.rows.iter().map(|r| text(r)).collect();
    assert_eq!(rows, vec![" 10:00:00 msg 0", " 10:00:01 msg 1", " 10:00:02 msg 2"]);
    assert_eq!(v.rows[0][0].tone, Tone::Dim);
    assert_eq!(v.rows[0][1].tone, Tone::Fg);
    assert_eq!(v.highlight, Some(2));
    assert_eq!(v.count_text, "  5 lines  ");
    assert_eq!(v.mode_text, "  ⏸ paused — press G to jump back to live tail");
}

#[test]
fn logs_view_follows_the_tail_at_offset_zero() {
    let lines = log_lines(5);
    let mut off = 0usize;
    let v = logs_view(&mut off, &lines, 3);
    assert_eq!(off, 0);
    let rows: Vec<String> = v.rows.iter().map(|r| text(r)).collect();
    assert_eq!(rows, vec![" 10:00:02 msg 2", " 10:00:03 msg 3", " 10:00:04 msg 4"]);
    assert_eq!(v.highlight, Some(2));
    assert_eq!(v.mode_text, "  ● live (G to scroll up, j/k step, PgUp/PgDn page)");

    let mut off = 4usize;
    let empty = logs_view(&mut off, &Vec::new(), 3);
    assert_eq!(off, 0);
    assert!(empty.rows.is_empty());
    assert_eq!(empty.highlight, None);
    assert_eq!(empty.count_text, "  0 lines  ");
}

#[test]
fn ai_logs_view_keeps_selection_on_rows_and_previews() {
    let msgs = vec![
        msg(AiRole::User, "hello\nworld", "", &[], false),
        msg(AiRole::Assistant, "answer text here", "pondering", &[], false),
    ];
    let s = AiLogsScreen { selected: 5, scroll: 0, expanded: false, visible_rows: 2 };
    let v = s.view(&msgs, 2, 30);
    assert_eq!(v.selected, 2, "the selection is kept on the last row");
    assert_eq!(v.scroll, 1, "the window scrolls just enough to show it");
    let rows: Vec<(String, EntryKind)> = v.rows.clone();
    assert_eq!(
        rows,
        vec![
            ("  [1] THINK  pondering".to_string(), EntryKind::Think),
            ("► [2] ASST   answer text h...".to_string(), EntryKind::Asst),
        ]
    );
    assert_eq!(
        v.detail,
        Some((" Assistant ".to_string(), "answer text here".to_string(), EntryKind::Asst))
    );

    let top = AiLogsScreen::new().view(&msgs, 10, 40);
    assert_eq!(top.scroll, 0);
    assert_eq!(top.rows[0].0, "► [0] USER   hello");
    assert_eq!(top.detail.map(|d| d.0), Some(" User ".to_string()));

    let none = AiLogsScreen::new().view(&Vec::new(), 10, 40);
    assert!(none.rows.is_empty());
    assert!(none.detail.is_none());
}

#[test]
fn wrap_line_keeps_ascii_lines_within_width() {
    let text = "the quick brown fox jumps over a supercalifragilistic dog and keeps running";
    for w in 1..30 {
        for line in wrap_line(text, w) {
            assert!(line.len() <= w, "{:?} is wider than {}", line, w);
        }
    }
    assert_eq!(wrap_line("é", 1), vec!["\u{FFFD}", "\u{FFFD}"], "a cut character is replaced");
}

#[test]
fn unreadable_ssid_leaves_the_wifi_highlight_unshifted() {
    let ifaces = vec![iface("eth0", "up", None, 0)];
    let wifi: Vec<WifiInfo> = (0..3).map(|i| net(&format!("net-{i}"), 60)).collect();
    let mut selected = 2usize;
    let v = network_view(&mut selected, &ifaces, &wifi, None, &glyphs(), 10, 10);
    assert_eq!(v.wifi_rows.len(), 4, "heading and three networks");
    assert_eq!(v.wifi_selected, Some(1));
    let mut selected = 2usize;
    let v = network_view(&mut selected, &ifaces, &wifi, Some(None), &glyphs(), 10, 10);
    assert_eq!(v.wifi_selected, Some(3));
}

#[test]
fn network_footer_names_the_saved_pane_toggle() {
    let f = network_footer("  1/3  ", false);
    assert_eq!(
        text(&f),
        "  1/3   r scan   c connect   d disconnect   ⏎ join   space iface up/down  s saved Wi-Fi"
    );
    assert!(text(&network_footer("  no items", true)).ends_with(" s hide saved"));
}

#[test]
fn message_fits_width_spots_a_code_cut_inside_a_character() {
    // Inside a code block the line is "  " + "éééé" = 10 bytes; at width 4
    // the cut falls at byte 3, inside the first "é".
    let bad = msg(AiRole::Assistant, "```\néééé\n```", "", &[], false);
    assert!(!message_fits_width(&bad, 4));
    // At width 5 the cut falls at byte 4, after the first "é".
    assert!(message_fits_width(&bad, 5));
    // Plain text is wrapped, never cut.
    let plain = msg(AiRole::Assistant, "éééééé", "", &[], false);
    assert!(message_fits_width(&plain, 1));
    let user = msg(AiRole::User, "```\néééé", "", &[], false);
    assert!(message_fits_width(&user, 1));
}
