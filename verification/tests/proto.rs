use cyberdeck_tui::proto::{
    encode_leb128, encode_to_radio_packet, encode_to_radio_packet_full, encode_to_radio_want_config_id,
    hops_away, label_for_from, node_id_from_num, node_id_to_num, parse_from_radio, read_varint,
    upsert_node, FromRadio, MeshPacket, BROADCAST_NUM, TEXT_MESSAGE_APP,
};
use cyberdeck_tui::lora::LoraNode;

// ─── LEB128 ────────────────────────────────────────────────────────────

#[test]
fn leb128_encode_zero() {
    assert_eq!(encode_leb128(0), vec![0x00]);
}

#[test]
fn leb128_encode_one() {
    assert_eq!(encode_leb128(1), vec![0x01]);
}

#[test]
fn leb128_encode_127() {
    assert_eq!(encode_leb128(127), vec![0x7f]);
}

#[test]
fn leb128_encode_128() {
    assert_eq!(encode_leb128(128), vec![0x80, 0x01]);
}

#[test]
fn leb128_round_trip_small() {
    for v in [0u64, 1, 42, 127, 128, 300, 16_384] {
        let encoded = encode_leb128(v);
        let (decoded, n) = read_varint(&encoded).unwrap();
        assert_eq!(decoded, v);
        assert_eq!(n, encoded.len());
    }
}

#[test]
fn leb128_round_trip_extremes() {
    for v in [u64::MAX, 1u64 << 63, (1u64 << 56) - 1, 0x7fff_ffff_ffff_ffff] {
        let encoded = encode_leb128(v);
        assert!(encoded.len() <= 10);
        let (decoded, n) = read_varint(&encoded).unwrap();
        assert_eq!(decoded, v);
        assert_eq!(n, encoded.len());
    }
    assert_eq!(encode_leb128(u64::MAX).len(), 10);
}

#[test]
fn read_varint_rejects_truncated_input() {
    assert_eq!(read_varint(&[]), None);
    assert_eq!(read_varint(&[0x80]), None);
    assert_eq!(read_varint(&[0xff, 0xff]), None);
    // Trailing bytes after the varint are not consumed.
    assert_eq!(read_varint(&[0x96, 0x01, 0x55]), Some((150, 2)));
}

// ─── ToRadio encoder ───────────────────────────────────────────────────

#[test]
fn want_config_id_wire_bytes_pinned() {
    assert_eq!(
        encode_to_radio_want_config_id(1),
        vec![0x18, 0x01],
        "wire bytes for ToRadio{{want_config_id:1}} must be exactly 0x18 0x01"
    );
}

#[test]
fn want_config_id_wire_bytes_128() {
    assert_eq!(encode_to_radio_want_config_id(128), vec![0x18, 0x80, 0x01]);
}

#[test]
fn encode_to_radio_packet_broadcast_chat_wire_bytes_pinned() {
    let got = encode_to_radio_packet(BROADCAST_NUM, b"hi");
    let mut expected: Vec<u8> = Vec::new();
    expected.extend_from_slice(&[0x0d, 0, 0, 0, 0]);
    expected.extend_from_slice(&[0x15, 0xff, 0xff, 0xff, 0xff]);
    expected.extend_from_slice(&[0x30, 0x03]);
    expected.extend_from_slice(&[0x38, 0x03]);
    expected.extend_from_slice(&[0x42, 0x06]);
    expected.extend_from_slice(&[0x08, 0x01, 0x12, 0x02, b'h', b'i']);
    let mp_len = expected.len();
    let mut framed: Vec<u8> = vec![0x0a, mp_len as u8];
    framed.extend_from_slice(&expected);
    assert_eq!(got, framed, "broadcast chat wire bytes mismatch");
}

#[test]
fn encode_to_radio_packet_dm_wire_bytes_pinned() {
    let got = encode_to_radio_packet(0x42424242, b"yo");
    let mut expected: Vec<u8> = Vec::new();
    expected.extend_from_slice(&[0x0d, 0, 0, 0, 0]);
    expected.extend_from_slice(&[0x15, 0x42, 0x42, 0x42, 0x42]);
    expected.extend_from_slice(&[0x30, 0x03]);
    expected.extend_from_slice(&[0x38, 0x03]);
    expected.extend_from_slice(&[0x42, 0x06]);
    expected.extend_from_slice(&[0x08, 0x01, 0x12, 0x02, b'y', b'o']);
    let mp_len = expected.len();
    let mut framed: Vec<u8> = vec![0x0a, mp_len as u8];
    framed.extend_from_slice(&expected);
    assert_eq!(got, framed, "DM wire bytes mismatch");
}

#[test]
fn encode_to_radio_packet_defaults_hops_to_three() {
    let bytes = encode_to_radio_packet(BROADCAST_NUM, b"x");
    assert_eq!(bytes[12], 0x30, "byte 12 must be hop_limit tag");
    assert_eq!(bytes[13], 3, "byte 13 must be hop_limit value");
    assert_eq!(bytes[14], 0x38, "byte 14 must be hop_start tag");
    assert_eq!(bytes[15], 3, "byte 15 must be hop_start value");
}

#[test]
fn encode_full_packet_round_trips_through_the_decoder() {
    // The ToRadio packet field (1) shares its layout with FromRadio's
    // packet field (2): re-tag the frame and decode it.
    let mut bytes = encode_to_radio_packet_full(0x0a0b0c0d, b"ping", 0x01020304, 2, 2, false, 0);
    assert_eq!(bytes[0], 0x0a);
    bytes[0] = 0x12;
    let parsed = parse_from_radio(&bytes);
    assert_eq!(parsed.len(), 1);
    match &parsed[0] {
        FromRadio::Packet(p) => {
            assert_eq!(p.from, 0x01020304);
            assert_eq!(p.to, 0x0a0b0c0d);
            assert_eq!(p.hop_limit, 2);
            assert_eq!(p.hop_start, 2);
            let d = p.decoded.as_ref().unwrap();
            assert_eq!(d.portnum, TEXT_MESSAGE_APP);
            assert_eq!(d.payload, b"ping");
        }
        other => panic!("expected Packet, got {other:?}"),
    }
}

// ─── FromRadio parser ──────────────────────────────────────────────────

#[test]
fn parse_text_message_packet_round_trips() {
    let data: Vec<u8> = vec![0x08, 0x01, 0x12, 0x02, b'h', b'i'];
    let mut mp: Vec<u8> = Vec::new();
    mp.extend_from_slice(&[0x0d]);
    mp.extend_from_slice(&0xaabbu32.to_le_bytes());
    mp.extend_from_slice(&[0x30, 0x02]);
    mp.extend_from_slice(&[0x38, 0x05]);
    mp.extend_from_slice(&[0x42, data.len() as u8]);
    mp.extend_from_slice(&data);
    let mut fr: Vec<u8> = Vec::new();
    fr.extend_from_slice(&[0x12, mp.len() as u8]);
    fr.extend_from_slice(&mp);

    let parsed = parse_from_radio(&fr);
    assert_eq!(parsed.len(), 1);
    match &parsed[0] {
        FromRadio::Packet(p) => {
            assert_eq!(p.from, 0xaabb);
            assert_eq!(p.hop_limit, 2);
            assert_eq!(p.hop_start, 5);
            let d = p.decoded.as_ref().expect("decoded Data present");
            assert_eq!(d.portnum, TEXT_MESSAGE_APP);
            assert_eq!(d.payload, b"hi");
        }
        other => panic!("expected Packet, got {other:?}"),
    }
    assert_eq!(
        hops_away(&match &parsed[0] {
            FromRadio::Packet(p) => p.clone(),
            _ => unreachable!(),
        }),
        3
    );
}

#[test]
fn hops_away_clamps_at_zero() {
    let p = MeshPacket { hop_start: 1, hop_limit: 3, ..Default::default() };
    assert_eq!(hops_away(&p), 0);
}

#[test]
fn hops_away_clamps_at_u8_max() {
    let p = MeshPacket { hop_start: 1000, hop_limit: 1, ..Default::default() };
    assert_eq!(hops_away(&p), 255);
    let q = MeshPacket { hop_start: 7, hop_limit: 3, ..Default::default() };
    assert_eq!(hops_away(&q), 4);
}

#[test]
fn parse_unknown_variant_is_dropped() {
    let bogus = vec![0x18, 0x06, 0x01];
    let parsed = parse_from_radio(&bogus);
    assert!(
        parsed.is_empty() || matches!(parsed[0], FromRadio::Unknown),
        "unknown variant must be dropped, got {parsed:?}"
    );
}

#[test]
fn parse_node_info_round_trips() {
    let user: Vec<u8> = vec![0x12, 0x05, b'a', b'l', b'i', b'c', b'e', 0x1a, 0x02, b'A', b'L'];
    let mut ni: Vec<u8> = vec![0x08, 0x2a, 0x22, user.len() as u8];
    ni.extend_from_slice(&user);
    ni.extend_from_slice(&[0x2d]);
    ni.extend_from_slice(&1_700_000_000u32.to_le_bytes());
    let mut fr: Vec<u8> = vec![0x22, ni.len() as u8];
    fr.extend_from_slice(&ni);

    let parsed = parse_from_radio(&fr);
    assert_eq!(parsed.len(), 1);
    match &parsed[0] {
        FromRadio::NodeInfo(n) => {
            assert_eq!(n.num, 42);
            assert_eq!(n.last_heard_secs, 1_700_000_000);
            let u = n.user.as_ref().expect("user present");
            assert_eq!(u.long_name, "alice");
            assert_eq!(u.short_name, "AL");
            assert!(u.id.is_empty(), "id not encoded, must be empty");
        }
        other => panic!("expected NodeInfo, got {other:?}"),
    }
}

#[test]
fn parse_my_info_round_trips() {
    let body: Vec<u8> = vec![0x08, 0x07];
    let mut fr: Vec<u8> = vec![0x1a, body.len() as u8];
    fr.extend_from_slice(&body);
    let parsed = parse_from_radio(&fr);
    assert_eq!(parsed.len(), 1);
    match &parsed[0] {
        FromRadio::MyInfo(m) => assert_eq!(m.my_node_num, 7),
        other => panic!("expected MyInfo, got {other:?}"),
    }
}

#[test]
fn parse_config_complete_id_round_trips() {
    let parsed = parse_from_radio(&[0x38, 0x63]);
    assert_eq!(parsed.len(), 1);
    assert_eq!(parsed[0], FromRadio::ConfigComplete(99));
}

#[test]
fn parse_id_only_frame() {
    let parsed = parse_from_radio(&[0x08, 0x0c]);
    assert_eq!(parsed.len(), 1);
    assert_eq!(parsed[0], FromRadio::Id(12));
}

#[test]
fn parse_two_frames_in_one_body() {
    let body: Vec<u8> = vec![0x08, 0x01, 0x38, 0x63];
    let parsed = parse_from_radio(&body);
    assert_eq!(parsed.len(), 2);
    assert_eq!(parsed[0], FromRadio::Id(1));
    assert_eq!(parsed[1], FromRadio::ConfigComplete(99));
}

#[test]
fn parse_truncated_frame_ends_the_list() {
    // A complete id frame, then a packet frame claiming 9 bytes with 2.
    let body: Vec<u8> = vec![0x08, 0x05, 0x12, 0x09, 0x0d, 0x01];
    let parsed = parse_from_radio(&body);
    assert_eq!(parsed, vec![FromRadio::Id(5)]);
    assert!(parse_from_radio(&[]).is_empty());
}

// ─── Constants and node ids ────────────────────────────────────────────

#[test]
fn text_message_app_is_one() {
    assert_eq!(TEXT_MESSAGE_APP, 1);
}

#[test]
fn node_id_format() {
    assert_eq!(node_id_from_num(0xaabbccdd), "!aabbccdd");
    assert_eq!(node_id_from_num(0), "!00000000");
}

#[test]
fn node_id_to_num_round_trips_canonical_form() {
    for n in [0u32, 1, 0xaabbccdd, 0xffffffff, 0xdeadbeef] {
        assert_eq!(node_id_to_num(&node_id_from_num(n)), n, "round-trip broke for {n:#x}");
    }
}

#[test]
fn node_id_to_num_accepts_unprefixed_hex() {
    assert_eq!(node_id_to_num("aabbccdd"), 0xaabbccdd);
}

#[test]
fn node_id_to_num_trims_whitespace() {
    assert_eq!(node_id_to_num("  !deadbeef  "), 0xdeadbeef);
}

#[test]
fn node_id_to_num_returns_zero_for_garbage() {
    assert_eq!(node_id_to_num(""), 0);
    assert_eq!(node_id_to_num("zzzzzzzz"), 0);
    assert_eq!(node_id_to_num("123456789abcdef"), 0);
}

// ─── Node table helpers ────────────────────────────────────────────────

fn node(id: &str, long: &str, short: &str) -> LoraNode {
    LoraNode {
        node_id: id.to_string(),
        long_name: long.to_string(),
        short_name: short.to_string(),
        hops_away: 0,
        last_heard_secs: 0,
        snr_bits: None,
    }
}

#[test]
fn upsert_node_replaces_by_id_and_appends_new_ids() {
    let mut nodes = vec![node("!00000001", "a", ""), node("!00000002", "b", "")];
    upsert_node(&mut nodes, node("!00000002", "bee", ""));
    assert_eq!(nodes.len(), 2);
    assert_eq!(nodes[1].long_name, "bee");
    upsert_node(&mut nodes, node("!00000003", "c", ""));
    assert_eq!(nodes.len(), 3);
    assert_eq!(nodes[2].node_id, "!00000003");
}

#[test]
fn label_for_from_prefers_the_known_node_label() {
    let nodes = vec![node("!0000002a", "", "AL")];
    assert_eq!(label_for_from(42, &nodes), "AL");
    assert_eq!(label_for_from(43, &nodes), "!0000002b");
}

#[test]
fn node_id_to_num_rejects_a_sign() {
    assert_eq!(node_id_to_num("+1"), 0);
    assert_eq!(node_id_to_num("!+ff"), 0);
    assert_eq!(node_id_to_num("-1"), 0);
    assert_eq!(node_id_to_num("!ff"), 255);
}

#[test]
fn encode_with_channel_and_ack_round_trips_through_the_decoder() {
    let mut bytes = encode_to_radio_packet_full(7, b"yo", 9, 5, 6, true, 300);
    bytes[0] = 0x12;
    let parsed = parse_from_radio(&bytes);
    assert_eq!(parsed.len(), 1);
    match &parsed[0] {
        FromRadio::Packet(p) => {
            assert_eq!((p.from, p.to, p.hop_limit, p.hop_start, p.id), (9, 7, 5, 6, 0));
            let d = p.decoded.as_ref().unwrap();
            assert_eq!((d.portnum, d.dest, d.source), (TEXT_MESSAGE_APP, 0, 0));
            assert_eq!(d.payload, b"yo");
        }
        other => panic!("expected Packet, got {other:?}"),
    }
}

#[test]
fn unmodelled_varint_field_in_a_packet_is_skipped() {
    // MeshPacket { want_ack (field 10) = 1, hop_limit = 4 }
    let mp: Vec<u8> = vec![0x50, 0x01, 0x30, 0x04];
    let mut buf = vec![0x12, mp.len() as u8];
    buf.extend_from_slice(&mp);
    let parsed = parse_from_radio(&buf);
    assert_eq!(parsed.len(), 1);
    match &parsed[0] {
        FromRadio::Packet(p) => {
            assert_eq!(p.hop_limit, 4);
            assert_eq!((p.from, p.to, p.hop_start), (0, 0, 0));
            assert!(p.decoded.is_none());
        }
        other => panic!("expected Packet, got {other:?}"),
    }
}

#[test]
fn unmodelled_field_between_known_fields_changes_nothing() {
    fn frame(mp: &[u8]) -> Vec<u8> {
        let mut buf = vec![0x12, mp.len() as u8];
        buf.extend_from_slice(mp);
        buf
    }
    let with_ack: Vec<u8> = vec![0x0d, 1, 0, 0, 0, 0x50, 0x01, 0x38, 0x03];
    let without: Vec<u8> = vec![0x0d, 1, 0, 0, 0, 0x38, 0x03];
    let a = parse_from_radio(&frame(&with_ack));
    let b = parse_from_radio(&frame(&without));
    assert_eq!(a.len(), 1);
    assert_eq!(a, b);
    match &a[0] {
        FromRadio::Packet(p) => assert_eq!((p.from, p.hop_start), (1, 3)),
        other => panic!("expected Packet, got {other:?}"),
    }
}

#[test]
fn node_id_to_num_reads_hex_of_either_case_and_trims_unicode_space() {
    assert_eq!(node_id_to_num("!FFFFFFFF"), 0xFFFF_FFFF);
    assert_eq!(node_id_to_num("\u{3000}!00aBcD12\u{a0}"), 0x00AB_CD12);
    assert_eq!(node_id_to_num("!0000000g"), 0);
    assert_eq!(node_id_to_num("!"), 0);
}
