use cyberdeck_tui::chat_view::{
    chat_row, chat_window, clamp_cursor, clamp_selected, ip_chip, longfast_row,
    lora_chat_title_text, lora_empty_hint_text, lora_to_chip_text, mesh_to_chip, node_row,
};
use cyberdeck_tui::lora::{ChannelKind, LoraNode};
use cyberdeck_tui::mesh::{
    is_meshtastic_serial_path, FakeTransport, MeshAction, MeshAppState, MeshChatLine, MeshError,
    MeshNode, MeshScreen,
};
use cyberdeck_tui::ui::{Key, ToastKind};

fn kc(c: char) -> Key {
    Key::Char(c)
}

fn mnode(id: &str, long: &str, short: &str, hops: u8, last: u64, snr: Option<f32>) -> MeshNode {
    MeshNode {
        node_id: id.into(),
        long_name: long.into(),
        short_name: short.into(),
        hops_away: hops,
        last_heard_secs: last,
        snr_bits: snr.map(f32::to_bits),
    }
}

fn press(
    screen: &mut MeshScreen,
    app: &mut MeshAppState,
    t: &mut FakeTransport,
    key: Key,
    toasts: &mut Vec<(ToastKind, String)>,
) -> bool {
    let (used, action) = screen.on_key(key, app);
    if let MeshAction::Send(text) = action {
        let r = t.send_longfast(&text);
        let toast = MeshScreen::after_send(app, &r, t.messages());
        toasts.push((toast.kind, toast.text));
    }
    used
}

#[test]
fn mesh_fake_transport_rejects_send_when_disconnected() {
    let mut t = FakeTransport::new();
    assert_eq!(t.send_longfast("hello"), Err(MeshError::NotConnected));
    assert!(t.sent.is_empty());
}

#[test]
fn mesh_fake_transport_rejects_empty_message() {
    let mut t = FakeTransport::new().with_connected(true);
    assert_eq!(t.send_longfast("   \n"), Err(MeshError::Empty));
    assert!(t.sent.is_empty());
}

#[test]
fn mesh_fake_transport_rejects_overlong_message() {
    let mut t = FakeTransport::new().with_connected(true);
    let long = "a".repeat(201);
    assert_eq!(t.send_longfast(&long), Err(MeshError::TooLong));
    assert!(t.sent.is_empty());
}

#[test]
fn mesh_fake_transport_echoes_local_line_to_messages() {
    let mut t = FakeTransport::new().with_connected(true);
    t.send_longfast("hello mesh").unwrap();
    assert_eq!(t.sent, vec!["hello mesh".to_string()]);
    assert_eq!(t.messages().len(), 1);
    let line = &t.messages()[0];
    assert!(line.is_local);
    assert_eq!(line.text, "hello mesh");
    assert_eq!(line.from, "me");
}

#[test]
fn mesh_node_label_prefers_long_then_short_then_id() {
    let n = mnode("!abcdef01", "", "alpha", 2, 5, Some(7.5));
    assert_eq!(n.label(), "alpha");
    let m = mnode("!abcdef01", "Trailer Mesh", "alpha", 2, 5, Some(7.5));
    assert_eq!(m.label(), "Trailer Mesh");
    let k = mnode("!abcdef01", "", "", 0, 0, None);
    assert_eq!(k.label(), "!abcdef01");
}

#[test]
fn mesh_poll_copies_transport_state_into_app() {
    let node = mnode("!aabbccdd", "Trailer", "TR", 1, 30, Some(4.0));
    let line = MeshChatLine { from: "TR".into(), text: "test ping".into(), hops_away: 1, is_local: false };
    let mut t = FakeTransport::with_nodes(vec![node.clone()]).with_connected(true);
    t.messages.push(line.clone());
    let mut app = MeshAppState::new();
    let mut screen = MeshScreen::new();
    screen.poll(&mut app, t.connected(), t.nodes(), t.messages());
    assert!(app.connected);
    assert_eq!(app.nodes, vec![node]);
    assert_eq!(app.chat, vec![line]);
}

#[test]
fn mesh_typing_and_enter_sends_via_transport() {
    let mut app = MeshAppState::new();
    let mut t = FakeTransport::new().with_connected(true);
    let mut screen = MeshScreen::new();
    let mut toasts = Vec::new();
    assert!(press(&mut screen, &mut app, &mut t, kc('h'), &mut toasts));
    assert!(press(&mut screen, &mut app, &mut t, kc('i'), &mut toasts));
    assert_eq!(app.input, "hi");
    assert!(press(&mut screen, &mut app, &mut t, Key::Enter, &mut toasts));
    assert_eq!(app.input, "");
    assert_eq!(app.chat.len(), 1);
    assert!(app.chat[0].is_local);
    assert_eq!(app.chat[0].text, "hi");
    assert_eq!(toasts, vec![(ToastKind::Success, "sent".to_string())]);
}

#[test]
fn mesh_enter_with_no_connection_pushes_warn_toast_and_no_message() {
    let mut app = MeshAppState::new();
    let mut t = FakeTransport::new();
    let mut screen = MeshScreen::new();
    let mut toasts = Vec::new();
    assert!(press(&mut screen, &mut app, &mut t, Key::Enter, &mut toasts));
    assert!(app.chat.is_empty(), "no line should be added");
    assert!(toasts.iter().any(|(k, text)| *k == ToastKind::Warn && text.contains("not connected")));
}

#[test]
fn mesh_backspace_tab_navigate() {
    let mut app = MeshAppState::new();
    let nodes = vec![mnode("!aa", "A", "A", 1, 1, Some(1.0)), mnode("!bb", "B", "B", 2, 1, Some(2.0))];
    let mut t = FakeTransport::with_nodes(nodes.clone());
    let mut screen = MeshScreen::new();
    let mut toasts = Vec::new();
    app.nodes = nodes;
    press(&mut screen, &mut app, &mut t, kc('a'), &mut toasts);
    press(&mut screen, &mut app, &mut t, kc('b'), &mut toasts);
    assert_eq!(app.input, "ab");
    press(&mut screen, &mut app, &mut t, Key::Backspace, &mut toasts);
    assert_eq!(app.input, "a");
    assert_eq!(screen.nodes_selected, 0);
    press(&mut screen, &mut app, &mut t, Key::Tab, &mut toasts);
    assert_eq!(screen.nodes_selected, 1);
    press(&mut screen, &mut app, &mut t, Key::Tab, &mut toasts);
    assert_eq!(screen.nodes_selected, 0, "Tab wraps to first");
    press(&mut screen, &mut app, &mut t, Key::BackTab, &mut toasts);
    assert_eq!(screen.nodes_selected, 1, "BackTab wraps backward to last");
}

#[test]
fn mesh_g_and_g_set_chat_offset() {
    let mut app = MeshAppState::new();
    let mut t = FakeTransport::new();
    let mut screen = MeshScreen::new();
    let mut toasts = Vec::new();
    app.chat_offset = 5;
    press(&mut screen, &mut app, &mut t, kc('G'), &mut toasts);
    assert_eq!(app.chat_offset, 0, "G == live tail");
    press(&mut screen, &mut app, &mut t, kc('g'), &mut toasts);
    assert_eq!(app.chat_offset, usize::MAX, "g == oldest visible");
}

#[test]
fn mesh_io_errors_become_error_toasts() {
    let mut app = MeshAppState::new();
    let t = MeshScreen::after_send(&mut app, &Err(MeshError::Io("eof".into())), vec![]);
    assert_eq!(t.kind, ToastKind::Error);
    assert_eq!(t.text, "mesh io: eof");
    assert!(is_meshtastic_serial_path(true, Some("/dev"), Some("ttyACM0")));
    assert!(!is_meshtastic_serial_path(true, Some("/dev"), Some("ttyS0")));
    assert!(!is_meshtastic_serial_path(true, Some("/tmp"), Some("ttyUSB0")), "only devices under /dev");
    assert!(!is_meshtastic_serial_path(true, None, Some("ttyUSB0")));
}

// ─── What the chat screens draw ────────────────────────────────────────

#[test]
fn chat_window_clamps_and_slices() {
    let w = chat_window(10, 3, 4);
    assert_eq!((w.offset, w.start, w.end), (3, 3, 7));
    let w = chat_window(10, 50, 4);
    assert_eq!((w.offset, w.start, w.end), (9, 0, 1));
    let w = chat_window(0, 5, 4);
    assert_eq!((w.offset, w.start, w.end), (0, 0, 0));
    let w = chat_window(3, 0, 10);
    assert_eq!((w.offset, w.start, w.end), (0, 0, 3));
}

#[test]
fn chat_row_columns() {
    let r = chat_row("TR", "hello", 2, false);
    assert_eq!(r.arrow, "· ");
    assert_eq!(r.from, format!("{:<16}", "TR"));
    assert_eq!(r.body, " hello [2h] ");
    let r = chat_row("a-very-long-sender-name", "x", 0, false);
    assert_eq!(r.from, "a-very-long-sen…");
    assert_eq!(r.body, " x ");
    let r = chat_row("me", "x", 0, true);
    assert_eq!(r.arrow, "> ");
    assert_eq!(r.body, " x [0h] ");
}

#[test]
fn node_rows_and_chips() {
    assert_eq!(node_row("trucker", 0), (" trucker".to_string(), format!("  {:<10}", "direct")));
    assert_eq!(node_row("a-long-label", 12).0, "a-long-…");
    assert_eq!(node_row("x", 12).1, format!("  {:<10}", "12 hops"));
    assert_eq!(lora_chat_title_text(ChannelKind::LongFast), " longfast ");
    assert_eq!(lora_chat_title_text(ChannelKind::Direct(0x42)), " dm:!000000… ");
    assert_eq!(lora_empty_hint_text(&None), "  press i to set the node IP");
    assert!(lora_empty_hint_text(&Some("x".into())).contains("no messages yet"));
    assert_eq!(longfast_row(ChannelKind::LongFast), "[● LongFast]");
    assert_eq!(longfast_row(ChannelKind::Direct(1)), "[○ LongFast]");
    assert_eq!(clamp_cursor(5, 2), 2);
    assert_eq!(clamp_cursor(1, 2), 1);
    assert_eq!(clamp_selected(9, 3), 2);
    assert_eq!(clamp_selected(9, 0), 0);
    assert_eq!(ip_chip(&None), " i: ip ");
    assert_eq!(ip_chip(&Some("10.0.0.193".into())), " i:10.0.0.193 ");
    let nodes = vec![LoraNode {
        node_id: "!00000042".into(),
        long_name: "trucker".into(),
        short_name: "T".into(),
        hops_away: 0,
        last_heard_secs: 0,
        snr_bits: None,
    }];
    assert_eq!(lora_to_chip_text(ChannelKind::LongFast, &nodes), "to: broadcast");
    assert_eq!(lora_to_chip_text(ChannelKind::Direct(0x42), &nodes), "to: trucker");
    assert_eq!(lora_to_chip_text(ChannelKind::Direct(0x43), &nodes), "to: !000000…");
    let m = vec![mnode("!1", "Trailer Mesh", "", 0, 0, None)];
    assert_eq!(mesh_to_chip(&m, 0), "to: Trailer…");
    assert_eq!(mesh_to_chip(&m, 1), "to: (broadcast)");
}
