use cyberdeck_tui::intel::{
    all_layers, collect_snapshots, detail_lines_for, fallback_snapshots, fixture_for,
    sentinel_chip, status_dot_char, status_word, worst_sentinel, IntelScreen, LayerId, LayerStatus,
    Sentinel, Snapshot, StyledLine, LAYER_COUNT,
};
use cyberdeck_tui::ui::Key;

const NOW: i64 = 1_731_001_200;

fn s(layer: LayerId, sentinel: Sentinel, status: LayerStatus, count: u64) -> Snapshot {
    Snapshot {
        layer,
        status,
        sentinel,
        summary: format!("{} summary", layer.label()),
        entity_count: count,
        raw: "{\"x\":1}".to_string(),
    }
}

fn joined(lines: &[StyledLine]) -> String {
    lines.iter().map(|l| l.text.clone()).collect::<Vec<_>>().join("\n")
}

#[test]
fn render_picks_worst_sentinel() {
    let snaps = vec![
        s(LayerId::Flights, Sentinel::Green, LayerStatus::Pending, 0),
        s(LayerId::Fires, Sentinel::Red, LayerStatus::Pending, 0),
        s(LayerId::News, Sentinel::Yellow, LayerStatus::Pending, 0),
    ];
    let screen = IntelScreen::with_snapshots(snaps);
    assert_eq!(screen.worst_sentinel(), Sentinel::Red);
    assert_eq!(worst_sentinel(&Vec::new()), Sentinel::Green);
    assert_eq!(sentinel_chip(Sentinel::Yellow), "YELLOW");
}

#[test]
fn clamp_selected_survives_swap_to_shorter_list() {
    let mut screen = IntelScreen::with_snapshots(vec![
        s(LayerId::Flights, Sentinel::Green, LayerStatus::Pending, 0),
        s(LayerId::News, Sentinel::Green, LayerStatus::Pending, 0),
        s(LayerId::Cctv, Sentinel::Green, LayerStatus::Pending, 0),
    ]);
    screen.selected = 2;
    screen.snapshots = vec![s(LayerId::Flights, Sentinel::Green, LayerStatus::Pending, 0)];
    screen.clamp_selected();
    assert_eq!(screen.selected, 0);
}

#[test]
fn detail_lines_for_pending_layer_says_no_summary() {
    let mut screen = IntelScreen::with_snapshots(fallback_snapshots(NOW));
    screen.selected = 3; // Weather
    let lines = screen.detail_lines(NOW);
    assert!(
        lines.iter().any(|l| l.text.contains("no summary yet") || l.text.contains("PENDING")),
        "pending layer's detail must mention PENDING or 'no summary yet'"
    );
}

#[test]
fn error_layer_shows_error_reason_in_detail() {
    let mut screen = IntelScreen::with_snapshots(fallback_snapshots(NOW));
    screen.selected = 6; // CCTV
    let lines = screen.detail_lines(NOW);
    let combined = joined(&lines);
    assert!(combined.contains("error: timeout on stream 3"), "got {combined}");
    assert!(lines.last().unwrap().warn);
    assert!(combined.contains("ERROR · 1h ago (last ok)"));
}

#[test]
fn on_key_cycles_up_and_down() {
    let mut screen = IntelScreen::with_snapshots(vec![
        s(LayerId::Flights, Sentinel::Green, LayerStatus::Pending, 0),
        s(LayerId::Earthquakes, Sentinel::Green, LayerStatus::Pending, 0),
        s(LayerId::Fires, Sentinel::Green, LayerStatus::Pending, 0),
    ]);
    assert_eq!(screen.selected, 0);
    assert!(screen.on_key(Key::Down), "Down cycles");
    assert_eq!(screen.selected, 1);
    assert!(screen.on_key(Key::Down));
    assert_eq!(screen.selected, 2);
    assert!(screen.on_key(Key::Down), "wraps to 0");
    assert_eq!(screen.selected, 0);
    assert!(screen.on_key(Key::Up), "wraps from 0 to last");
    assert_eq!(screen.selected, 2);
}

#[test]
fn tab_falls_through_to_main_loop() {
    let mut screen = IntelScreen::new();
    assert!(!screen.on_key(Key::Tab), "Intel must NOT consume Tab");
}

#[test]
fn esc_falls_through_to_region_router() {
    let mut screen = IntelScreen::new();
    assert!(!screen.on_key(Key::Esc), "Intel must NOT consume Esc");
}

#[test]
fn detail_lines_for_ok_layer_shows_summary_and_raw() {
    let mut screen = IntelScreen::with_snapshots(fallback_snapshots(NOW));
    screen.selected = 0; // Flights
    let lines = screen.detail_lines(NOW);
    let combined = joined(&lines);
    assert!(combined.contains("OpenSky Network"), "summary missing");
    assert!(combined.contains("s ago"), "last-ok relative timestamp missing");
    assert!(combined.contains("raw payload"), "raw preview header missing");
    assert_eq!(lines[0].text, "✈ Flights  · GREEN");
    assert_eq!(lines[1].text, "OK · 12s ago");
    assert_eq!(lines[5].text, format!("raw payload: {{\"states\":[\"… (truncated)\"],\"time\":{NOW}}}"));
    assert!(lines.iter().all(|l| !l.warn));
}

#[test]
fn collect_snapshots_falls_back_to_fixture_on_empty_app() {
    let fixture = fallback_snapshots(NOW);
    let snaps = collect_snapshots(&Vec::new(), &fixture);
    assert_eq!(snaps.len(), LAYER_COUNT);
    assert_eq!(all_layers().len(), LAYER_COUNT);
    for s in &snaps {
        assert!(!s.summary.is_empty() || matches!(s.status, LayerStatus::Pending));
    }
}

#[test]
fn collect_snapshots_prefers_live_over_fixture() {
    let live = vec![Snapshot {
        layer: LayerId::Flights,
        status: LayerStatus::Fresh { last_ok_unix: 1 },
        sentinel: Sentinel::Green,
        summary: "live-test-marker".into(),
        entity_count: 9999,
        raw: "null".into(),
    }];
    let snaps = collect_snapshots(&live, &fallback_snapshots(NOW));
    let flights = snaps.iter().find(|s| s.layer == LayerId::Flights).unwrap();
    assert_eq!(flights.summary, "live-test-marker");
    assert_eq!(flights.entity_count, 9999);
    let news = snaps.iter().find(|s| s.layer == LayerId::News).unwrap();
    assert!(news.summary.contains("GDELT"));
}

#[test]
fn missing_fixture_layer_is_pending_and_empty() {
    let f = fixture_for(&Vec::new(), LayerId::Maritime);
    assert!(matches!(f.status, LayerStatus::Pending));
    assert_eq!(f.sentinel, Sentinel::Green);
    assert!(f.summary.is_empty());
    assert_eq!(f.raw, "null");
}

#[test]
fn pane_detail_hides_null_payloads() {
    let fixture = fallback_snapshots(NOW);
    let weather = detail_lines_for(Some(&fixture[3]), NOW);
    let texts: Vec<String> = weather.iter().map(|l| l.text.clone()).collect();
    assert_eq!(texts, vec!["☀ Weather  · GREEN", "PENDING · —", "", "(no summary yet)"]);
    let cctv = detail_lines_for(Some(&fixture[6]), NOW);
    assert_eq!(cctv.len(), 7);
    assert_eq!(cctv[5].text, "raw: {\"error\":\"timeout on stream 3\"}");
    assert!(cctv[6].warn);
    let none = detail_lines_for(None, NOW);
    assert_eq!(none[0].text, "no layer selected");
    assert_eq!(status_word(&LayerStatus::Pending), "PENDING");
    assert_eq!(status_dot_char(&LayerStatus::Fresh { last_ok_unix: 0 }), "●");
}
