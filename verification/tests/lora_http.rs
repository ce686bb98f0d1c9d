use cyberdeck_tui::lora::LoraError;
use cyberdeck_tui::lora_http::{
    handshake_nonce, normalize_base, HttpLoraTransport, PollLatch, Reply, WireDebug, LAST_FRAME_HEX_MAX,
    MAX_CHAT_LINES, USER_AGENT,
};
use cyberdeck_tui::proto::encode_leb128;
use cyberdeck_tui::text::{hex_encode, truncate_bytes};

#[test]
fn new_accepts_bare_ip() {
    let t = HttpLoraTransport::new("192.168.1.42").unwrap();
    assert_eq!(t.base(), "http://192.168.1.42");
}

#[test]
fn new_accepts_full_url_and_strips_trailing_slash() {
    let t = HttpLoraTransport::new("http://10.0.0.5:8080/").unwrap();
    assert_eq!(t.base(), "http://10.0.0.5:8080");
}

#[test]
fn new_rejects_garbage() {
    assert!(HttpLoraTransport::new("not a url at all").is_err());
}

#[test]
fn new_reports_the_parser_message() {
    match HttpLoraTransport::new("not a url at all") {
        Err(LoraError::Io(m)) => assert!(m.starts_with("invalid node URL: "), "got {m}"),
        _ => panic!("expected an Io error"),
    }
}

#[test]
fn normalize_base_trims_bare_hosts_and_keeps_schemes() {
    assert_eq!(normalize_base("  10.0.0.1 "), "http://10.0.0.1");
    assert_eq!(normalize_base("https://node.local//"), "https://node.local");
    assert_eq!(normalize_base("http://a/b/"), "http://a/b");
}

#[test]
fn truncate_short_string_is_unchanged() {
    assert_eq!(truncate_bytes("hello", 10), "hello");
}

#[test]
fn truncate_long_string_appends_ellipsis() {
    let s = "a".repeat(20);
    let out = truncate_bytes(&s, 8);
    assert!(out.ends_with('…'));
    assert!(out.chars().count() <= 9);
}

#[test]
fn hex_encode_known_value() {
    assert_eq!(hex_encode(&[0x00, 0x01, 0xff, 0xab]), "0001ffab");
}

#[test]
fn empty_transport_reports_disconnected() {
    let t = HttpLoraTransport::new("127.0.0.1").unwrap();
    let snap = t.status_snapshot();
    assert!(!snap.connected);
    assert_eq!(snap.rx_frames, 0);
    assert_eq!(snap.tx_frames, 0);
    assert!(snap.last_frame_hex.is_empty());
    assert!(snap.wire == WireDebug::default());
}

#[test]
fn user_agent_starts_with_cyberdeck_tui() {
    assert!(
        USER_AGENT.starts_with("cyberdeck-tui/"),
        "UA must start with `cyberdeck-tui/`; got {USER_AGENT:?}"
    );
}

#[test]
fn poll_loop_targets_expected_urls() {
    let t = HttpLoraTransport::new("10.0.0.193").unwrap();
    let bootstrap = t.fromradio_url(false);
    let stream = t.fromradio_url(true);
    assert!(bootstrap.ends_with("/api/v1/fromradio?all=true"), "{bootstrap}");
    assert!(stream.ends_with("/api/v1/fromradio?all=false"), "{stream}");
    assert_eq!(t.base(), "http://10.0.0.193");
    assert_eq!(t.toradio_url(), "http://10.0.0.193/api/v1/toradio");
}

#[test]
fn empty_body_2xx_still_marks_connected() {
    let mut t = HttpLoraTransport::new("127.0.0.1").unwrap();
    assert!(t.on_poll(Reply::Success, Some(Vec::new())));
    let snap = t.status_snapshot();
    assert!(snap.connected, "a 2xx response (even with empty body) must flip connected=true");
    assert_eq!(snap.rx_frames, 0);
    assert!(snap.last_frame_hex.is_empty());
}

fn ingest(body: &[u8]) -> HttpLoraTransport {
    let mut t = HttpLoraTransport::new("127.0.0.1").unwrap();
    t.ingest_frame(body);
    t
}

fn chat_packet(from: u32, hop_limit: u8, hop_start: u8, text: &[u8]) -> Vec<u8> {
    let mut data: Vec<u8> = vec![0x08, 0x01, 0x12, text.len() as u8];
    data.extend_from_slice(text);
    let mut mp: Vec<u8> = vec![0x0d];
    mp.extend_from_slice(&from.to_le_bytes());
    mp.extend_from_slice(&[0x30, hop_limit, 0x38, hop_start]);
    mp.extend_from_slice(&[0x42, data.len() as u8]);
    mp.extend_from_slice(&data);
    let mut f = vec![0x12, mp.len() as u8];
    f.extend_from_slice(&mp);
    f
}

#[test]
fn ingest_text_message_populates_chat() {
    let body = chat_packet(0xaabbccdd, 2, 5, b"hi");
    let t = ingest(&body);
    let msgs = t.messages();
    assert_eq!(msgs.len(), 1);
    assert_eq!(msgs[0].text, "hi");
    assert_eq!(msgs[0].hops_away, 3, "hop_start - hop_limit");
    assert!(!msgs[0].is_local);
    assert_eq!(msgs[0].from, "!aabbccdd");
    let snap = t.status_snapshot();
    assert_eq!(snap.rx_frames, 1);
    assert!(!snap.last_frame_hex.is_empty());
    assert_eq!(snap.last_frame_hex, hex_encode(&body));
}

#[test]
fn ingest_node_info_populates_nodes_list() {
    let user: Vec<u8> = vec![0x12, 0x05, b'a', b'l', b'i', b'c', b'e', 0x1a, 0x02, b'A', b'L'];
    let mut ni: Vec<u8> = vec![0x08, 0x2a, 0x22, user.len() as u8];
    ni.extend_from_slice(&user);
    ni.extend_from_slice(&[0x2d]);
    ni.extend_from_slice(&1_700_000_000u32.to_le_bytes());
    let mut fr: Vec<u8> = vec![0x22, ni.len() as u8];
    fr.extend_from_slice(&ni);

    let t = ingest(&fr);
    let nodes = t.nodes();
    assert_eq!(nodes.len(), 1);
    assert_eq!(nodes[0].node_id, "!0000002a");
    assert_eq!(nodes[0].long_name, "alice");
    assert_eq!(nodes[0].short_name, "AL");
    assert_eq!(nodes[0].last_heard_secs, 1_700_000_000);
}

#[test]
fn ingest_my_info_records_own_node_num() {
    let mut t = ingest(&[0x1a, 0x02, 0x08, 0x07]);
    t.ingest_frame(&chat_packet(7, 3, 3, b"hi"));
    let msgs = t.messages();
    assert_eq!(msgs.len(), 1);
    assert!(msgs[0].is_local, "from=my_node_num must be marked is_local");
    assert_eq!(msgs[0].text, "hi");
}

#[test]
fn ingest_unknown_portnum_bumps_wire_debug() {
    let data: Vec<u8> = vec![0x08, 99, 0x12, 0x01, b'x'];
    let mut mp: Vec<u8> = vec![0x0d];
    mp.extend_from_slice(&1u32.to_le_bytes());
    mp.extend_from_slice(&[0x30, 0x00, 0x38, 0x00]);
    mp.extend_from_slice(&[0x42, data.len() as u8]);
    mp.extend_from_slice(&data);
    let mut body = vec![0x12, mp.len() as u8];
    body.extend_from_slice(&mp);
    let t = ingest(&body);
    assert!(t.messages().is_empty(), "non-chat packets must not surface");
    assert_eq!(t.status_snapshot().wire.unknown_portnum, 1);
}

#[test]
fn ingest_encrypted_packet_is_silently_dropped() {
    let mut mp: Vec<u8> = vec![0x0d];
    mp.extend_from_slice(&1u32.to_le_bytes());
    mp.extend_from_slice(&[0x30, 0x03, 0x38, 0x03]);
    let mut body = vec![0x12, mp.len() as u8];
    body.extend_from_slice(&mp);
    let t = ingest(&body);
    assert!(t.messages().is_empty());
    assert_eq!(t.status_snapshot().wire.unknown_portnum, 0);
}

#[test]
fn chat_line_label_resolves_after_node_info_arrives() {
    let mut t = ingest(&chat_packet(0x42424242, 1, 1, b"hello"));
    assert_eq!(t.messages()[0].from, "!42424242");

    let user: Vec<u8> = vec![0x12, 0x05, b'a', b'l', b'i', b'c', b'e'];
    let num_bytes: Vec<u8> = encode_leb128(0x42424242u64);
    let mut ni: Vec<u8> = vec![0x08];
    ni.extend_from_slice(&num_bytes);
    ni.extend_from_slice(&[0x22, user.len() as u8]);
    ni.extend_from_slice(&user);
    ni.extend_from_slice(&[0x2d]);
    ni.extend_from_slice(&1_700_000_000u32.to_le_bytes());
    let mut fr: Vec<u8> = vec![0x22, ni.len() as u8];
    fr.extend_from_slice(&ni);
    t.ingest_frame(&fr);

    t.ingest_frame(&chat_packet(0x42424242, 1, 1, b"yo"));
    assert_eq!(t.messages()[1].from, "alice");
}

#[test]
fn chat_buffer_is_capped() {
    let mut t = HttpLoraTransport::new("127.0.0.1").unwrap();
    let body = chat_packet(1, 0, 0, b"x");
    for _ in 0..502 {
        t.ingest_frame(&body);
    }
    assert_eq!(t.messages().len(), 500, "chat buffer must cap at MAX_CHAT_LINES");
    assert_eq!(MAX_CHAT_LINES, 500);
}

#[test]
fn empty_body_does_not_bump_rx_counter() {
    let t = ingest(&[]);
    let snap = t.status_snapshot();
    assert_eq!(snap.rx_frames, 0);
    assert!(snap.last_frame_hex.is_empty());
    assert_eq!(snap.wire.parse_failures, 0);
    assert_eq!(snap.wire.unknown_variant, 0);
}

#[test]
fn truncated_body_bumps_parse_failures() {
    let t = ingest(&[0xff, 0xff, 0xff, 0xff, 0xff, 0xff, 0xff, 0xff, 0xff, 0xff, 0x01]);
    let snap = t.status_snapshot();
    assert_eq!(snap.rx_frames, 1);
    assert!(snap.wire.parse_failures >= 1, "garbage body must bump parse_failures");
}

#[test]
fn long_bodies_leave_a_truncated_hex_dump() {
    let body = vec![0x08u8; 100];
    let t = ingest(&body);
    let hex = t.status_snapshot().last_frame_hex;
    assert_eq!(hex.chars().count(), LAST_FRAME_HEX_MAX);
    assert!(hex.ends_with('…'));
}

#[test]
fn nodes_come_back_sorted_by_number_and_update_in_place() {
    let mut t = HttpLoraTransport::new("127.0.0.1").unwrap();
    for (num, name) in [(300u32, "c"), (5, "a"), (42, "b"), (5, "a2")] {
        let mut user: Vec<u8> = vec![0x12, name.len() as u8];
        user.extend_from_slice(name.as_bytes());
        let mut ni: Vec<u8> = vec![0x08];
        ni.extend_from_slice(&encode_leb128(num as u64));
        ni.extend_from_slice(&[0x22, user.len() as u8]);
        ni.extend_from_slice(&user);
        let mut fr: Vec<u8> = vec![0x22, ni.len() as u8];
        fr.extend_from_slice(&ni);
        t.ingest_frame(&fr);
    }
    let nodes = t.nodes();
    let ids: Vec<_> = nodes.iter().map(|n| n.node_id.clone()).collect();
    assert_eq!(ids, vec!["!00000005", "!0000002a", "!0000012c"]);
    assert_eq!(nodes[0].long_name, "a2");
}

#[test]
fn handshake_schedule_and_failures() {
    let mut t = HttpLoraTransport::new("127.0.0.1").unwrap();
    assert!(t.should_handshake(1000));
    assert_eq!(handshake_nonce(0x1_0000_0001), 1 ^ 0x5a5a_5a5a);
    // A failed probe counts as this tick's handshake.
    assert!(!t.on_probe(1000, Reply::Status("404 Not Found".into())));
    assert_eq!(t.status_snapshot().last_error.as_deref(), Some("OPTIONS /toradio 404 Not Found"));
    assert!(!t.should_handshake(1059));
    assert!(t.should_handshake(1060));
    assert!(t.on_probe(1060, Reply::Success));
    t.on_handshake(1060, Reply::Success);
    let s = t.status_snapshot();
    assert_eq!(s.tx_frames, 1);
    assert_eq!(s.last_error, None);
    t.on_handshake(1200, Reply::Failed("timed out".into()));
    assert_eq!(t.status_snapshot().last_error.as_deref(), Some("want_config_id PUT: timed out"));
}

#[test]
fn poll_failures_mark_the_link_down() {
    let mut t = HttpLoraTransport::new("127.0.0.1").unwrap();
    assert!(t.on_poll(Reply::Success, None));
    assert!(t.connected());
    assert!(!t.on_poll(Reply::Status("500 Internal Server Error".into()), None));
    assert!(!t.connected());
    assert_eq!(
        t.status_snapshot().last_error.as_deref(),
        Some("fromradio 500 Internal Server Error")
    );
    assert!(!t.on_poll(Reply::Failed("connection refused".into()), None));
    assert_eq!(t.status_snapshot().last_error.as_deref(), Some("fromradio: connection refused"));
}

#[test]
fn send_longfast_checks_then_hands_out_the_bytes() {
    let mut t = HttpLoraTransport::new("127.0.0.1").unwrap();
    assert_eq!(t.send_longfast("hello"), Err(LoraError::NotConnected));
    t.on_poll(Reply::Success, None);
    assert_eq!(t.send_longfast("  \t"), Err(LoraError::Empty));
    assert_eq!(t.send_longfast(&"a".repeat(201)), Err(LoraError::TooLong));
    assert_eq!(t.send_longfast("  hi there "), Ok(b"hi there".to_vec()));
    assert_eq!(t.on_put(Reply::Success), Ok(()));
    assert_eq!(t.status_snapshot().tx_frames, 1);
    assert_eq!(
        t.on_put(Reply::Status("503 Service Unavailable".into())),
        Err(LoraError::Io("toradio put: status 503 Service Unavailable".into()))
    );
    assert_eq!(
        t.on_put(Reply::Failed("reset".into())),
        Err(LoraError::Io("toradio put: reset".into()))
    );
}

#[test]
fn bare_host_loses_its_trailing_slash() {
    let t = HttpLoraTransport::new("10.0.0.5/").unwrap();
    assert_eq!(t.base(), "http://10.0.0.5");
    assert_eq!(normalize_base(" 10.0.0.5:8080// "), "http://10.0.0.5:8080");
}

#[test]
fn poll_latch_asks_for_the_backlog_until_a_poll_succeeds() {
    let t = HttpLoraTransport::new("10.0.0.5").unwrap();
    let mut latch = PollLatch::new();
    assert_eq!(latch.url(&t), "http://10.0.0.5/api/v1/fromradio?all=true");
    latch.record(false);
    assert_eq!(latch.url(&t), "http://10.0.0.5/api/v1/fromradio?all=true");
    latch.record(true);
    assert_eq!(latch.url(&t), "http://10.0.0.5/api/v1/fromradio?all=false");
    latch.record(false);
    assert!(latch.bootstrapped);
    assert_eq!(latch.url(&t), "http://10.0.0.5/api/v1/fromradio?all=false");
}
