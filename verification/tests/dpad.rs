use cyberdeck_tui::nav_screens::{
    build_entries, build_node_items, focus_step, one_line_preview, AiLogsScreen, AiMessage,
    AiRole, AiScreenV2, AudioScreenV2, BluetoothScreenV2, DisplayScreenV2, EditorScreenV2,
    EntryKind, IntelScreenV2, LogsScreenV2, LoraScreenV2, NavRequest, NetworkScreenV2,
    PackagesScreenV2, SavedLoraNode,
};
use cyberdeck_tui::system_screens::{BtDevice, Sink};
use cyberdeck_tui::ui::{Consumed, NavEvent, RunAction};

fn node(ip: &str, label: Option<&str>) -> SavedLoraNode {
    SavedLoraNode { ip: ip.to_string(), label: label.map(|l| l.to_string()) }
}

fn msg(role: AiRole, content: &str, thinking: &str) -> AiMessage {
    AiMessage {
        role,
        content: content.to_string(),
        thinking: thinking.to_string(),
        tool_log: Vec::new(),
        streaming: false,
    }
}

// ─── Saved LoRa nodes ──────────────────────────────────────────────────

#[test]
fn empty_nodes_visual_sel_is_add_entry() {
    let (items, sel) = build_node_items(&Vec::new(), 0, &None);
    assert_eq!(items.len(), 2); // empty msg + "+"
    assert_eq!(sel, 1); // "+" is highlighted
}

#[test]
fn nonempty_nodes_sel_clamps_to_add_entry() {
    let nodes = vec![node("10.0.0.1", None)];
    let (items, sel) = build_node_items(&nodes, 99, &None);
    assert_eq!(items.len(), 2); // 1 node + "+"
    assert_eq!(sel, 1); // clamped to nodes.len() = "+"
}

#[test]
fn active_ip_marks_correct_entry() {
    let nodes = vec![node("10.0.0.1", None), node("10.0.0.2", Some("home"))];
    let (items, _) = build_node_items(&nodes, 0, &Some("10.0.0.2".to_string()));
    assert_eq!(items.len(), 3);
    assert!(!items[0].active);
    assert_eq!(items[0].text, "  10.0.0.1");
    assert!(items[1].active);
    assert_eq!(items[1].text, "● 10.0.0.2 (home)");
    assert_eq!(items[2].text, "  [ + Add Node ]");
}

#[test]
fn lora_v2_chat_pane_edits_and_sends() {
    let mut s = LoraScreenV2::new();
    let mut focus = 0usize;
    let nodes: Vec<SavedLoraNode> = Vec::new();
    for c in "  hi  ".chars() {
        assert_eq!(s.on_nav(NavEvent::Char(c), &mut focus, &nodes).0, Consumed::Yes);
    }
    s.on_nav(NavEvent::Down, &mut focus, &nodes);
    assert_eq!(s.scroll, 1);
    s.on_nav(NavEvent::Backspace, &mut focus, &nodes);
    assert_eq!(s.input, "  hi ");
    match s.on_nav(NavEvent::Confirm, &mut focus, &nodes) {
        (Consumed::Yes, NavRequest::SendLongFast(t)) => assert_eq!(t, "hi"),
        _ => panic!("expected a send of the trimmed draft"),
    }
    assert!(s.input.is_empty());
    assert_eq!(s.scroll, 0);
    assert!(matches!(s.on_nav(NavEvent::Confirm, &mut focus, &nodes), (Consumed::Yes, NavRequest::Stay)));
}

#[test]
fn lora_v2_draft_stops_at_200_bytes() {
    let mut s = LoraScreenV2::new();
    let mut focus = 0usize;
    let nodes: Vec<SavedLoraNode> = Vec::new();
    for _ in 0..250 {
        s.on_nav(NavEvent::Char('x'), &mut focus, &nodes);
    }
    assert_eq!(s.input.len(), 200);
}

#[test]
fn lora_v2_nodes_pane_selects_adds_and_deletes() {
    let mut s = LoraScreenV2::new();
    let mut focus = 0usize;
    let nodes = vec![node("10.0.0.1", None), node("10.0.0.2", None)];
    s.on_nav(NavEvent::Right, &mut focus, &nodes);
    assert_eq!(focus, 1);
    s.on_nav(NavEvent::Down, &mut focus, &nodes);
    s.on_nav(NavEvent::Confirm, &mut focus, &nodes);
    assert_eq!(s.active_ip.as_deref(), Some("10.0.0.2"));
    match s.on_nav(NavEvent::Char('d'), &mut focus, &nodes) {
        (Consumed::Yes, NavRequest::DeleteNode { idx, message }) => {
            assert_eq!(idx, 1);
            assert_eq!(message, "Remove 10.0.0.2?");
        }
        _ => panic!("expected a removal prompt"),
    }
    s.on_nav(NavEvent::Down, &mut focus, &nodes);
    s.on_nav(NavEvent::Down, &mut focus, &nodes);
    assert_eq!(s.saved_sel, 2);
    assert!(matches!(s.on_nav(NavEvent::Confirm, &mut focus, &nodes), (Consumed::Yes, NavRequest::AddNode)));
    assert!(matches!(s.on_nav(NavEvent::Char('x'), &mut focus, &nodes), (Consumed::No, NavRequest::Stay)));
    s.on_nav(NavEvent::Tab, &mut focus, &nodes);
    assert_eq!(focus, 0);
    assert!(matches!(s.on_nav(NavEvent::Back, &mut focus, &nodes), (Consumed::Yes, NavRequest::GoBack)));
}

// ─── Focus and plain lists ─────────────────────────────────────────────

#[test]
fn focus_cycles_between_two_panes() {
    let mut f = 0usize;
    assert!(focus_step(&mut f, NavEvent::Tab));
    assert_eq!(f, 1);
    assert!(focus_step(&mut f, NavEvent::Tab));
    assert_eq!(f, 0);
    assert!(focus_step(&mut f, NavEvent::BackTab));
    assert_eq!(f, 1);
    assert!(focus_step(&mut f, NavEvent::Left));
    assert_eq!(f, 0);
    assert!(!focus_step(&mut f, NavEvent::Up));
    assert_eq!(f, 0);
}

#[test]
fn plain_lists_clamp_and_fall_through() {
    let mut p = PackagesScreenV2::new();
    assert_eq!(p.on_nav(NavEvent::Down, 0).0, Consumed::No);
    p.on_nav(NavEvent::Down, 2);
    p.on_nav(NavEvent::Down, 2);
    assert_eq!(p.selected, 1);
    p.on_nav(NavEvent::Up, 2);
    p.on_nav(NavEvent::Up, 2);
    assert_eq!(p.selected, 0);
    assert!(matches!(p.on_nav(NavEvent::Back, 2), (Consumed::Yes, NavRequest::GoBack)));
    assert!(matches!(p.on_nav(NavEvent::Confirm, 2), (Consumed::No, NavRequest::Stay)));

    let mut n = NetworkScreenV2::new();
    let mut focus = 0usize;
    n.on_nav(NavEvent::Right, &mut focus, 3);
    assert_eq!(focus, 1);
    n.on_nav(NavEvent::Down, &mut focus, 3);
    assert_eq!(n.selected, 1);
}

#[test]
fn intel_v2_walks_layers_as_a_ring() {
    let mut s = IntelScreenV2::new();
    let mut focus = 0usize;
    s.on_nav(NavEvent::Up, &mut focus, 9);
    assert_eq!(s.selected, 8);
    s.on_nav(NavEvent::Down, &mut focus, 9);
    assert_eq!(s.selected, 0);
    assert!(matches!(s.on_nav(NavEvent::Confirm, &mut focus, 9), (Consumed::No, NavRequest::Stay)));
}

// ─── Audio, Bluetooth, Display ─────────────────────────────────────────

#[test]
fn audio_v2_acts_on_the_clamped_sink() {
    let sinks = vec![
        Sink {
            id: 42,
            name: "A very long speaker name here".into(),
            description: String::new(),
            volume: 148,
            muted: false,
            default: false,
        },
    ];
    let mut s = AudioScreenV2 { selected: 7 };
    match s.on_nav(NavEvent::Right, &sinks) {
        (Consumed::Yes, NavRequest::Queue(RunAction::SetVolume { target, percent })) => {
            assert_eq!(target, "42");
            assert_eq!(percent, 150);
        }
        _ => panic!("expected a volume change"),
    }
    match s.on_nav(NavEvent::Left, &sinks) {
        (_, NavRequest::Queue(RunAction::SetVolume { percent, .. })) => assert_eq!(percent, 143),
        _ => panic!("expected a volume change"),
    }
    match s.on_nav(NavEvent::Confirm, &sinks) {
        (Consumed::Yes, NavRequest::ConfirmRun { message, action: RunAction::SetDefaultSink(id) }) => {
            assert_eq!(message, "Set 'A very long speaker…' as default sink?");
            assert_eq!(id, "42");
        }
        _ => panic!("expected a default-sink prompt"),
    }
    assert!(matches!(
        s.on_nav(NavEvent::Char('m'), &sinks),
        (Consumed::Yes, NavRequest::Queue(RunAction::MuteSink { mute: true, .. }))
    ));
    let none: Vec<Sink> = Vec::new();
    assert!(matches!(s.on_nav(NavEvent::Right, &none), (Consumed::Yes, NavRequest::Stay)));
}

#[test]
fn bluetooth_v2_confirm_connects_or_disconnects() {
    let devices = vec![
        BtDevice { mac: "AA".into(), name: "pad".into(), paired: true, connected: false, trusted: false, rssi: None },
        BtDevice { mac: "BB".into(), name: "buds".into(), paired: true, connected: true, trusted: false, rssi: None },
    ];
    let mut s = BluetoothScreenV2::new();
    match s.on_nav(NavEvent::Confirm, &devices) {
        (Consumed::Yes, NavRequest::ConfirmRun { message, action: RunAction::BluetoothConnect(m) }) => {
            assert_eq!(message, "Connect to pad?");
            assert_eq!(m, "AA");
        }
        _ => panic!("expected a connect prompt"),
    }
    s.on_nav(NavEvent::Down, &devices);
    match s.on_nav(NavEvent::Confirm, &devices) {
        (Consumed::Yes, NavRequest::ConfirmRun { message, action: RunAction::BluetoothDisconnect(m) }) => {
            assert_eq!(message, "Disconnect buds?");
            assert_eq!(m, "BB");
        }
        _ => panic!("expected a disconnect prompt"),
    }
    assert!(matches!(
        s.on_nav(NavEvent::Char('s'), &devices),
        (Consumed::Yes, NavRequest::Queue(RunAction::BluetoothScan))
    ));
    s.selected = 5;
    assert!(matches!(s.on_nav(NavEvent::Confirm, &devices), (Consumed::Yes, NavRequest::Stay)));
}

#[test]
fn display_v2_brightness_steps_by_ten() {
    let mut s = DisplayScreenV2::new();
    s.on_nav(NavEvent::Right, 1);
    assert_eq!(s.brightness, 100);
    s.on_nav(NavEvent::Left, 1);
    s.on_nav(NavEvent::Left, 1);
    assert_eq!(s.brightness, 80);
    match s.on_nav(NavEvent::Confirm, 1) {
        (Consumed::Yes, NavRequest::ConfirmRun { message, action: RunAction::SetBrightness(b) }) => {
            assert_eq!(message, "Set brightness to 80%?");
            assert_eq!(b, 80);
        }
        _ => panic!("expected a brightness prompt"),
    }
    for _ in 0..20 {
        s.on_nav(NavEvent::Left, 1);
    }
    assert_eq!(s.brightness, 0);
}

// ─── Editor view and journal ───────────────────────────────────────────

#[test]
fn editor_v2_splits_like_str_lines() {
    let e = EditorScreenV2::open("/tmp/x", "alpha\r\nbeta\n\ngamma");
    assert_eq!(e.lines, vec!["alpha", "beta", "", "gamma"]);
    let empty = EditorScreenV2::open("/tmp/y", "");
    assert_eq!(empty.lines, vec![String::new()]);
    let mut e = EditorScreenV2::open("/tmp/x", "a\nb\nc\n");
    assert_eq!(e.lines.len(), 3);
    e.view_offset = 2;
    e.cursor_row = 2;
    e.on_nav(NavEvent::Up);
    assert_eq!(e.cursor_row, 1);
    assert_eq!(e.view_offset, 1);
    e.on_nav(NavEvent::Down);
    e.on_nav(NavEvent::Down);
    assert_eq!(e.cursor_row, 2);
}

#[test]
fn logs_v2_keeps_the_last_500_lines() {
    let mut s = LogsScreenV2::new();
    let text: String = (0..600).map(|i| format!("line {i}\n")).collect();
    s.load(Some(text.as_bytes()));
    assert!(s.loaded);
    assert_eq!(s.lines.len(), 500);
    assert_eq!(s.lines[0], "line 100");
    assert_eq!(s.lines[499], "line 599");
    assert_eq!(s.offset, 499);
    assert!(matches!(s.on_nav(NavEvent::Char('r')), (Consumed::Yes, NavRequest::Reload)));
    s.load(None);
    assert_eq!(s.lines, vec!["(journalctl unavailable)"]);
    assert_eq!(s.offset, 0);
}

// ─── Assistant chat and its log ────────────────────────────────────────

#[test]
fn ai_v2_submits_trimmed_prompt() {
    let mut s = AiScreenV2::new();
    for c in " what? ".chars() {
        s.on_nav(NavEvent::Char(c));
    }
    s.on_nav(NavEvent::Down);
    s.on_nav(NavEvent::Down);
    s.on_nav(NavEvent::Up);
    assert_eq!(s.scroll, 1);
    assert!(!s.auto_scroll);
    match s.on_nav(NavEvent::Confirm) {
        (Consumed::Yes, NavRequest::SubmitPrompt(t)) => assert_eq!(t, "what?"),
        _ => panic!("expected a submitted prompt"),
    }
    assert!(s.input.is_empty());
    assert!(s.auto_scroll);
    s.on_nav(NavEvent::Tab);
    assert!(!s.show_thinking);
}

#[test]
fn ai_logs_rows_and_navigation() {
    let msgs = vec![
        msg(AiRole::User, "hi", ""),
        msg(AiRole::Assistant, "hello", "thinking..."),
        msg(AiRole::Assistant, "more", ""),
    ];
    let entries = build_entries(&msgs);
    let kinds: Vec<(EntryKind, usize)> = entries.iter().map(|e| (e.kind, e.msg_idx)).collect();
    assert_eq!(
        kinds,
        vec![(EntryKind::User, 0), (EntryKind::Think, 1), (EntryKind::Asst, 1), (EntryKind::Asst, 2)]
    );
    let mut s = AiLogsScreen::new();
    s.visible_rows = 2;
    for _ in 0..10 {
        s.on_nav(NavEvent::Down, &msgs);
    }
    assert_eq!(s.selected, 3);
    assert_eq!(s.scroll, 2);
    s.on_nav(NavEvent::Up, &msgs);
    s.on_nav(NavEvent::Up, &msgs);
    s.on_nav(NavEvent::Up, &msgs);
    assert_eq!(s.selected, 0);
    assert_eq!(s.scroll, 0);
    s.on_nav(NavEvent::Confirm, &msgs);
    assert!(s.expanded);
}

#[test]
fn one_line_preview_cuts_with_dots() {
    assert_eq!(one_line_preview("  hello world  \nsecond", 8), "hello...");
    assert_eq!(one_line_preview("short\nmore", 20), "short");
    assert_eq!(one_line_preview("", 10), "");
    assert_eq!(one_line_preview("abcdef", 2), "...");
}
