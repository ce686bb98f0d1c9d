use cyberdeck_tui::lora::{
    sort_lora_threads, ChannelKind, FakeTransport, LoraChatLine, LoraError, LoraNode, Thread,
    ONLINE_THRESHOLD_SECS,
};
use cyberdeck_tui::lora_screen::{
    is_meshtastic_serial_path, send_toast, LoraAction, LoraAppState, LoraScreen, TransportSwap,
};
use cyberdeck_tui::ui::{Key, ToastKind};

fn kc(c: char) -> Key {
    Key::Char(c)
}

fn node(id: &str, long: &str, short: &str, hops: u8, last: u64, snr: Option<f32>) -> LoraNode {
    LoraNode {
        node_id: id.to_string(),
        long_name: long.to_string(),
        short_name: short.to_string(),
        hops_away: hops,
        last_heard_secs: last,
        snr_bits: snr.map(f32::to_bits),
    }
}

fn empty_id_node() -> LoraNode {
    node("!abcdef01", "", "", 0, 0, None)
}

/// One tick of the main loop: mirror the transport into the app.
fn poll(screen: &mut LoraScreen, app: &mut LoraAppState, t: &FakeTransport) {
    screen.poll(app, t.connected(), t.nodes(), t.threads());
}

/// A key as the main loop handles it: the screen decides, the transport
/// sends, the toast is collected.
fn press(
    screen: &mut LoraScreen,
    app: &mut LoraAppState,
    t: &mut FakeTransport,
    key: Key,
    toasts: &mut Vec<(ToastKind, String)>,
) -> bool {
    let (used, action) = screen.on_key(key, app);
    if let LoraAction::Send { kind, text } = action {
        let r = t.send_to(&kind, &text);
        let toast = LoraScreen::after_send(app, &r, t.threads());
        toasts.push((toast.kind, toast.text));
    }
    used
}

#[test]
fn lora_fake_transport_rejects_send_when_disconnected() {
    let mut t = FakeTransport::new();
    assert_eq!(t.send_longfast("hello"), Err(LoraError::NotConnected));
    assert!(t.sent.is_empty());
}

#[test]
fn lora_fake_transport_rejects_empty_message() {
    let mut t = FakeTransport::new().with_connected(true);
    assert_eq!(t.send_longfast("   \n"), Err(LoraError::Empty));
    assert!(t.sent.is_empty());
}

#[test]
fn lora_fake_transport_rejects_overlong_message() {
    let mut t = FakeTransport::new().with_connected(true);
    let long = "a".repeat(201);
    assert_eq!(t.send_longfast(&long), Err(LoraError::TooLong));
    assert!(t.sent.is_empty());
}

#[test]
fn lora_fake_transport_echoes_local_line_to_messages() {
    let mut t = FakeTransport::new().with_connected(true);
    t.send_longfast("hello lora").unwrap();
    assert_eq!(t.sent, vec!["hello lora".to_string()]);
    assert_eq!(t.messages().len(), 1);
    let line = &t.messages()[0];
    assert!(line.is_local);
    assert_eq!(line.text, "hello lora");
    assert_eq!(line.from, "me");
}

#[test]
fn fake_transport_accepts_exactly_200_bytes_and_trims() {
    let mut t = FakeTransport::new().with_connected(true);
    let max = "b".repeat(200);
    assert_eq!(t.send_longfast(&format!("  {max}\n")), Ok(()));
    assert_eq!(t.sent, vec![max]);
    // 100 two-byte characters are 200 bytes; one more is too long.
    let wide = "é".repeat(101);
    assert_eq!(t.send_longfast(&wide), Err(LoraError::TooLong));
}

#[test]
fn fake_transport_send_to_direct_records_dm() {
    let mut t = FakeTransport::new().with_connected(true);
    t.send_to(&ChannelKind::Direct(7), " yo ").unwrap();
    assert_eq!(t.sent_dm, vec![(7u32, "yo".to_string())]);
    assert!(t.sent.is_empty());
    assert_eq!(t.line_count_for(&ChannelKind::Direct(7)), 1);
    assert_eq!(t.line_count_for(&ChannelKind::LongFast), 0);
}

#[test]
fn lora_node_label_prefers_long_then_short_then_id() {
    let n = node("!abcdef01", "", "alpha", 2, 5, Some(7.5));
    assert_eq!(n.label(), "alpha");
    let m = node("!abcdef01", "Trailer", "alpha", 2, 5, Some(7.5));
    assert_eq!(m.label(), "Trailer");
    let k = empty_id_node();
    assert_eq!(k.label(), "!abcdef01");
}

#[test]
fn lora_poll_copies_transport_state_into_app() {
    let n = node("!aabbccdd", "Trailer", "TR", 1, 30, Some(4.0));
    let line = LoraChatLine {
        from: "TR".into(),
        text: "test ping".into(),
        hops_away: 1,
        is_local: false,
    };
    let mut t = FakeTransport::with_nodes(vec![n.clone()]).with_connected(true);
    let mut th = Thread::new(ChannelKind::LongFast, "longfast");
    th.lines.push(line.clone());
    t.threads.push(th);

    let mut app = LoraAppState::new();
    let mut screen = LoraScreen::new();
    poll(&mut screen, &mut app, &t);
    assert!(app.connected);
    assert_eq!(app.nodes, vec![n]);
    assert_eq!(
        app.threads.first().map(|th| th.lines.as_slice()),
        Some([line.clone()].as_slice()),
        "lora_threads must mirror transport.threads() (LongFast first)"
    );
}

#[test]
fn lora_typing_and_enter_sends_via_transport() {
    let mut app = LoraAppState::new();
    let mut t = FakeTransport::new().with_connected(true);
    let mut screen = LoraScreen::new();
    let mut toasts = Vec::new();
    assert!(press(&mut screen, &mut app, &mut t, kc('h'), &mut toasts));
    // `i` types a character once the compose line is not empty.
    assert!(press(&mut screen, &mut app, &mut t, kc('i'), &mut toasts));
    assert_eq!(app.input, "hi");
    assert!(press(&mut screen, &mut app, &mut t, Key::Enter, &mut toasts));
    assert_eq!(app.input, "");
    assert_eq!(toasts, vec![(ToastKind::Success, "sent".to_string())]);
    poll(&mut screen, &mut app, &t);
    let longfast = app
        .threads
        .iter()
        .find(|th| th.kind == ChannelKind::LongFast)
        .expect("LongFast thread must exist after Enter");
    assert_eq!(longfast.lines.len(), 1);
    assert!(longfast.lines[0].is_local);
    assert_eq!(longfast.lines[0].text, "hi");
}

#[test]
fn lora_enter_with_no_connection_pushes_warn_toast_and_no_message() {
    let mut app = LoraAppState::new();
    let mut t = FakeTransport::new();
    let mut screen = LoraScreen::new();
    let mut toasts = Vec::new();
    assert!(press(&mut screen, &mut app, &mut t, Key::Enter, &mut toasts));
    assert!(app.threads.iter().all(|th| th.lines.is_empty()));
    assert!(toasts.iter().any(|(_, text)| text.contains("not connected")), "got {toasts:?}");
    assert_eq!(toasts[0].0, ToastKind::Warn);
}

#[test]
fn lora_backspace_tab_navigate() {
    let mut app = LoraAppState::new();
    let nodes = vec![
        node("!aa", "A", "A", 1, 1, Some(1.0)),
        node("!bb", "B", "B", 2, 1, Some(2.0)),
    ];
    let mut t = FakeTransport::with_nodes(nodes.clone());
    let mut screen = LoraScreen::new();
    let mut toasts = Vec::new();
    app.nodes = nodes;

    press(&mut screen, &mut app, &mut t, kc('a'), &mut toasts);
    press(&mut screen, &mut app, &mut t, kc('b'), &mut toasts);
    assert_eq!(app.input, "ab");
    press(&mut screen, &mut app, &mut t, Key::Backspace, &mut toasts);
    assert_eq!(app.input, "a");

    app.right_pane = true;
    assert_eq!(screen.cursor, 0);
    press(&mut screen, &mut app, &mut t, Key::Down, &mut toasts);
    assert_eq!(screen.cursor, 1, "Down advances to first node");
    press(&mut screen, &mut app, &mut t, Key::Down, &mut toasts);
    assert_eq!(screen.cursor, 2, "Down advances to second node");
    press(&mut screen, &mut app, &mut t, Key::Down, &mut toasts);
    assert_eq!(screen.cursor, 2, "Down clamps at last row");
    press(&mut screen, &mut app, &mut t, Key::Up, &mut toasts);
    assert_eq!(screen.cursor, 1, "Up retreats from last node");
    press(&mut screen, &mut app, &mut t, Key::Up, &mut toasts);
    assert_eq!(screen.cursor, 0, "Up clamps at first row");
}

#[test]
fn lora_g_and_g_set_chat_offset() {
    let mut app = LoraAppState::new();
    let mut t = FakeTransport::new();
    let mut screen = LoraScreen::new();
    let mut toasts = Vec::new();
    app.chat_offset = 5;
    press(&mut screen, &mut app, &mut t, kc('G'), &mut toasts);
    assert_eq!(app.chat_offset, 0, "G == live tail");
    press(&mut screen, &mut app, &mut t, kc('g'), &mut toasts);
    assert_eq!(app.chat_offset, usize::MAX, "g == oldest visible");
}

#[test]
fn chat_offset_keys_saturate() {
    let mut app = LoraAppState::new();
    let mut screen = LoraScreen::new();
    assert!(screen.on_key(Key::PageUp, &mut app).0);
    assert_eq!(app.chat_offset, 0);
    screen.on_key(Key::PageDown, &mut app);
    assert_eq!(app.chat_offset, 10);
    screen.on_key(kc('k'), &mut app);
    assert_eq!(app.chat_offset, 9);
    app.chat_offset = usize::MAX - 3;
    screen.on_key(Key::PageDown, &mut app);
    assert_eq!(app.chat_offset, usize::MAX);
    screen.on_key(Key::End, &mut app);
    assert_eq!(app.chat_offset, 0);
    assert!(!screen.on_key(Key::Tab, &mut app).0, "Tab is left to the app");
}

#[test]
fn i_on_empty_line_asks_for_the_node_address() {
    let mut app = LoraAppState::new();
    let mut screen = LoraScreen::new();
    match screen.on_key(kc('i'), &mut app) {
        (true, LoraAction::AskNodeIp { prompt, prefill }) => {
            assert_eq!(prompt, "Node IP (Meshtastic HTTP API)");
            assert_eq!(prefill, "");
        }
        _ => panic!("expected the node-address modal"),
    }
    app.node_ip = Some("10.0.0.193".to_string());
    match screen.on_key(kc('i'), &mut app) {
        (true, LoraAction::AskNodeIp { prefill, .. }) => assert_eq!(prefill, "10.0.0.193"),
        _ => panic!("expected the node-address modal"),
    }
    assert_eq!(app.input, "");
}

#[test]
fn compose_line_stops_at_200_bytes() {
    let mut app = LoraAppState::new();
    let mut screen = LoraScreen::new();
    app.input = "x".repeat(199);
    screen.on_key(kc('y'), &mut app);
    assert_eq!(app.input.len(), 200);
    screen.on_key(kc('z'), &mut app);
    assert_eq!(app.input.len(), 200);
    assert!(app.input.ends_with('y'));
}

#[test]
fn esc_and_enter_on_the_right_pane_pick_threads() {
    let mut app = LoraAppState::new();
    let mut screen = LoraScreen::new();
    app.nodes = vec![node("!00000042", "", "", 0, 0, None)];
    app.right_pane = true;
    screen.on_key(Key::Down, &mut app);
    screen.on_key(Key::Enter, &mut app);
    assert_eq!(app.active, ChannelKind::Direct(0x42));
    screen.on_key(Key::Esc, &mut app);
    assert_eq!(app.active, ChannelKind::LongFast);
    screen.on_key(Key::Down, &mut app);
    screen.on_key(Key::Up, &mut app);
    screen.on_key(Key::Enter, &mut app);
    assert_eq!(app.active, ChannelKind::LongFast);
}

#[test]
fn send_to_dm_routes_into_dm_thread_via_poll() {
    let mut transport = FakeTransport::new().with_connected(true);
    let _ = transport.longfast_thread_mut();
    let dm_pre = LoraChatLine {
        from: "!00000042".into(),
        text: "ack me?".into(),
        hops_away: 1,
        is_local: false,
    };
    transport.direct_thread_mut(0x42).lines.push(dm_pre);
    transport.nodes.push(node("!00000042", "trucker", "T", 1, 0, None));

    let mut screen = LoraScreen::new();
    let mut app = LoraAppState::new();
    let mut toasts = Vec::new();
    poll(&mut screen, &mut app, &transport);
    app.right_pane = true;
    assert_eq!(app.nodes.len(), 1);
    assert_eq!(app.nodes[0].node_id, "!00000042");
    press(&mut screen, &mut app, &mut transport, Key::Down, &mut toasts);
    press(&mut screen, &mut app, &mut transport, Key::Enter, &mut toasts);
    assert_eq!(app.active, ChannelKind::Direct(0x42));

    app.right_pane = false;
    press(&mut screen, &mut app, &mut transport, kc('h'), &mut toasts);
    press(&mut screen, &mut app, &mut transport, kc('i'), &mut toasts);
    assert_eq!(app.input, "hi");
    press(&mut screen, &mut app, &mut transport, Key::Enter, &mut toasts);
    assert_eq!(app.input, "");
    poll(&mut screen, &mut app, &transport);

    let dm = app
        .threads
        .iter()
        .find(|t| t.kind == ChannelKind::Direct(0x42))
        .expect("Direct(0x42) thread must exist after poll()");
    assert_eq!(dm.lines.len(), 2);
    assert!(!dm.lines[0].is_local);
    assert_eq!(dm.lines[0].text, "ack me?");
    assert!(dm.lines[1].is_local);
    assert_eq!(dm.lines[1].text, "hi");
    assert_eq!(dm.lines[1].from, "me");
    let longfast = app
        .threads
        .iter()
        .find(|t| t.kind == ChannelKind::LongFast)
        .expect("LongFast header thread must still exist");
    assert_eq!(longfast.lines.len(), 0);
}

#[test]
fn poll_does_not_snap_active_thread_back_when_direct_is_activated() {
    let mut t = FakeTransport::new().with_connected(true);
    t.nodes.push(node("!0000000a", "", "", 1, 0, None));
    let mut app = LoraAppState::new();
    let mut screen = LoraScreen::new();
    let mut toasts = Vec::new();
    poll(&mut screen, &mut app, &t);
    app.right_pane = true;
    press(&mut screen, &mut app, &mut t, Key::Down, &mut toasts);
    press(&mut screen, &mut app, &mut t, Key::Enter, &mut toasts);
    assert_eq!(app.active, ChannelKind::Direct(0xa));
    poll(&mut screen, &mut app, &t);
    assert_eq!(app.active, ChannelKind::Direct(0xa));
}

#[test]
fn poll_auto_seeds_missing_direct_thread_when_user_activates_it() {
    let mut t = FakeTransport::new().with_connected(true);
    t.nodes.push(node("!0000000a", "trucker", "T", 1, 0, None));
    let mut app = LoraAppState::new();
    let mut screen = LoraScreen::new();
    let mut toasts = Vec::new();
    poll(&mut screen, &mut app, &t);
    app.right_pane = true;
    press(&mut screen, &mut app, &mut t, Key::Down, &mut toasts);
    press(&mut screen, &mut app, &mut t, Key::Enter, &mut toasts);
    poll(&mut screen, &mut app, &t);
    let dm = app
        .threads
        .iter()
        .find(|t| t.kind == ChannelKind::Direct(0xa))
        .expect("poll() must auto-seed a Direct(0xa) thread");
    assert_eq!(dm.label, "trucker");
    assert!(dm.lines.is_empty());
}

#[test]
fn poll_seeds_unknown_peer_with_its_id_and_keeps_order() {
    let mut app = LoraAppState::new();
    let mut screen = LoraScreen::new();
    app.active = ChannelKind::Direct(0x2b);
    let threads = vec![
        Thread::new(ChannelKind::LongFast, "LongFast"),
        Thread::new(ChannelKind::Direct(0x50), "p"),
        Thread::new(ChannelKind::Direct(0x01), "q"),
    ];
    screen.poll(&mut app, true, vec![], threads);
    let kinds: Vec<_> = app.threads.iter().map(|t| t.kind).collect();
    assert_eq!(
        kinds,
        vec![
            ChannelKind::LongFast,
            ChannelKind::Direct(0x01),
            ChannelKind::Direct(0x2b),
            ChannelKind::Direct(0x50),
        ]
    );
    assert_eq!(app.threads[2].label, "!0000002b");
    assert_eq!(app.active, ChannelKind::Direct(0x2b));
}

#[test]
fn poll_falls_back_to_longfast_when_it_is_missing() {
    let mut app = LoraAppState::new();
    let mut screen = LoraScreen::new();
    screen.poll(&mut app, false, vec![], vec![]);
    assert_eq!(app.active, ChannelKind::LongFast);
    assert!(app.threads.is_empty());
}

#[test]
fn sort_lora_threads_keeps_longfast_first_and_orders_dms_ascending() {
    let mut threads = vec![
        Thread::new(ChannelKind::Direct(3), "three"),
        Thread::new(ChannelKind::Direct(1), "one"),
        Thread::new(ChannelKind::LongFast, "longfast"),
        Thread::new(ChannelKind::Direct(2), "two"),
    ];
    sort_lora_threads(&mut threads);
    let kinds: Vec<_> = threads.iter().map(|t| t.kind.clone()).collect();
    assert_eq!(
        kinds,
        vec![
            ChannelKind::LongFast,
            ChannelKind::Direct(1),
            ChannelKind::Direct(2),
            ChannelKind::Direct(3),
        ],
        "LongFast at index 0, then Direct(n) ascending"
    );
}

#[test]
fn sort_lora_threads_is_stable_for_equal_keys() {
    let mut threads = vec![
        Thread::new(ChannelKind::Direct(2), "second-a"),
        Thread::new(ChannelKind::LongFast, "lf"),
        Thread::new(ChannelKind::Direct(2), "second-b"),
        Thread::new(ChannelKind::Direct(1), "first"),
    ];
    sort_lora_threads(&mut threads);
    let labels: Vec<_> = threads.iter().map(|t| t.label.clone()).collect();
    assert_eq!(labels, vec!["lf", "first", "second-a", "second-b"]);
}

fn node_with_last_heard(last: u64) -> LoraNode {
    node("!abcdef01", "alpha", "α", 1, last, Some(-3.5))
}

#[test]
fn online_when_last_heard_within_15_min_unix_epoch() {
    let now: u64 = 1_750_000_000;
    let n = node_with_last_heard(now - 5 * 60);
    assert!(n.is_online_at(now));
}

#[test]
fn offline_when_last_heard_just_over_15_min_ago_unix_epoch() {
    let now: u64 = 1_750_000_000;
    let n = node_with_last_heard(now - (ONLINE_THRESHOLD_SECS + 1));
    assert!(!n.is_online_at(now));
}

#[test]
fn online_when_last_heard_is_zero_means_recent_relative() {
    let now: u64 = 1_750_000_000;
    let n = node_with_last_heard(0);
    assert!(n.is_online_at(now));
}

#[test]
fn offline_when_last_heard_relative_just_over_threshold() {
    let now: u64 = 1_750_000_000;
    let n = node_with_last_heard(ONLINE_THRESHOLD_SECS + 1);
    assert!(!n.is_online_at(now));
}

#[test]
fn online_at_exact_threshold_boundary() {
    let now: u64 = 1_750_000_000;
    let n = node_with_last_heard(now - ONLINE_THRESHOLD_SECS);
    assert!(n.is_online_at(now));
}

#[test]
fn online_threshold_constant_matches_spec() {
    assert_eq!(ONLINE_THRESHOLD_SECS, 15 * 60);
}

#[test]
fn poll_surfaces_inbound_longfast_line_in_chat_pane() {
    let mut t = FakeTransport::new().with_connected(true);
    t.longfast_thread_mut().lines.push(LoraChatLine {
        from: "!aabbccdd".into(),
        text: "hello-from-peer".into(),
        hops_away: 1,
        is_local: false,
    });
    let mut app = LoraAppState::new();
    let mut screen = LoraScreen::new();
    poll(&mut screen, &mut app, &t);
    let lf = app
        .threads
        .iter()
        .find(|th| th.kind == ChannelKind::LongFast)
        .expect("LongFast thread must exist after poll()");
    assert!(lf.lines.iter().any(|l| l.text == "hello-from-peer"));
    assert_eq!(app.active, ChannelKind::LongFast);
}

#[test]
fn clicking_node_row_keeps_active_thread_direct_across_five_polls() {
    let mut t = FakeTransport::new().with_connected(true);
    t.nodes.push(node("!0000000a", "trucker", "T", 1, 0, None));
    let mut app = LoraAppState::new();
    let mut screen = LoraScreen::new();
    let mut toasts = Vec::new();
    poll(&mut screen, &mut app, &t);
    app.right_pane = true;
    press(&mut screen, &mut app, &mut t, Key::Down, &mut toasts);
    press(&mut screen, &mut app, &mut t, Key::Enter, &mut toasts);
    assert_eq!(app.active, ChannelKind::Direct(0xa));
    for i in 0..5 {
        poll(&mut screen, &mut app, &t);
        assert_eq!(app.active, ChannelKind::Direct(0xa), "poll #{i}");
    }
}

#[test]
fn send_toasts_name_each_outcome() {
    let cases = [
        (Ok(()), ToastKind::Success, "sent"),
        (Err(LoraError::NotConnected), ToastKind::Warn, "lora: not connected"),
        (Err(LoraError::Empty), ToastKind::Warn, "empty message"),
        (Err(LoraError::TooLong), ToastKind::Warn, "message too long (max 200)"),
        (Err(LoraError::Io("boom".into())), ToastKind::Error, "lora io: boom"),
    ];
    for (r, kind, text) in cases {
        let t = send_toast(&r);
        assert_eq!(t.kind, kind);
        assert_eq!(t.text, text);
    }
}

#[test]
fn channel_kind_labels_and_numbers() {
    assert!(ChannelKind::LongFast.is_longfast());
    assert!(!ChannelKind::Direct(1).is_longfast());
    assert_eq!(ChannelKind::Direct(0x42).to_num(), 0x42);
    let lookup = |n: u32| if n == 0x42 { Some("trucker".to_string()) } else { None };
    assert_eq!(ChannelKind::Direct(0x42).display_label(&lookup), "trucker");
    assert_eq!(ChannelKind::LongFast.display_label(&lookup), "LongFast");
}

#[test]
fn transport_swap_follows_the_node_address() {
    let mut screen = LoraScreen::new();
    assert!(matches!(screen.transport_swap(&None), TransportSwap::Keep));
    match screen.transport_swap(&Some("10.0.0.5".to_string())) {
        TransportSwap::Connect(ip) => assert_eq!(ip, "10.0.0.5"),
        _ => panic!("expected Connect"),
    }
    screen.swapped(Some("10.0.0.5".to_string()), true);
    assert!(matches!(screen.transport_swap(&Some("10.0.0.5".to_string())), TransportSwap::Keep));
    assert!(matches!(screen.transport_swap(&None), TransportSwap::Disconnect));
    screen.swapped(Some("bad".to_string()), false);
    assert_eq!(screen.current_node_ip, None);
}

#[test]
fn serial_paths_are_recognised_by_name() {
    assert!(is_meshtastic_serial_path(true, Some("/dev"), Some("ttyUSB0")));
    assert!(is_meshtastic_serial_path(true, Some("/dev"), Some("ttyACM1")));
    assert!(!is_meshtastic_serial_path(false, Some("/dev"), Some("ttyUSB0")));
    assert!(!is_meshtastic_serial_path(true, Some("/dev"), Some("ttyS0")));
    assert!(!is_meshtastic_serial_path(true, Some("/dev"), None));
    assert!(!is_meshtastic_serial_path(true, Some("/tmp"), Some("ttyUSB0")));
}

#[test]
fn longfast_thread_is_found_or_created_in_front() {
    let mut t = FakeTransport::new();
    t.direct_thread_mut(5);
    let lf = t.longfast_thread_mut();
    assert_eq!(lf.kind, ChannelKind::LongFast);
    let kinds: Vec<ChannelKind> = t.threads.iter().map(|th| th.kind).collect();
    assert_eq!(kinds, vec![ChannelKind::LongFast, ChannelKind::Direct(5)]);
    let _ = t.longfast_thread_mut();
    assert_eq!(t.threads.len(), 2, "an existing LongFast thread is reused");
}

#[test]
fn direct_threads_stay_ascending_after_longfast() {
    let mut t = FakeTransport::new();
    let _ = t.longfast_thread_mut();
    t.direct_thread_mut(7);
    t.direct_thread_mut(3);
    t.direct_thread_mut(5);
    let again = t.direct_thread_mut(3);
    assert_eq!(again.kind, ChannelKind::Direct(3));
    let kinds: Vec<ChannelKind> = t.threads.iter().map(|th| th.kind).collect();
    assert_eq!(
        kinds,
        vec![
            ChannelKind::LongFast,
            ChannelKind::Direct(3),
            ChannelKind::Direct(5),
            ChannelKind::Direct(7)
        ]
    );
}

#[test]
fn repeated_polls_keep_one_seeded_thread_and_the_active_dm() {
    let mut t = FakeTransport::new().with_connected(true);
    t.nodes.push(node("!0000000a", "trucker", "T", 1, 0, None));
    let mut app = LoraAppState::new();
    let mut screen = LoraScreen::new();
    app.active = ChannelKind::Direct(0xa);
    poll(&mut screen, &mut app, &t);
    let first: Vec<(ChannelKind, String)> =
        app.threads.iter().map(|th| (th.kind, th.label.clone())).collect();
    for _ in 0..3 {
        poll(&mut screen, &mut app, &t);
    }
    let again: Vec<(ChannelKind, String)> =
        app.threads.iter().map(|th| (th.kind, th.label.clone())).collect();
    assert_eq!(first, again);
    assert_eq!(app.active, ChannelKind::Direct(0xa));
    let dms = app.threads.iter().filter(|th| th.kind == ChannelKind::Direct(0xa)).count();
    assert_eq!(dms, 1);
    assert!(t.threads.iter().all(|th| th.kind != ChannelKind::Direct(0xa)));
}
