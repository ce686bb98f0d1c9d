use cyberdeck_tui::lora::{ChannelKind, LoraChatLine, LoraNode, Thread};
use cyberdeck_tui::lora_screen::{LoraAppState, LoraScreen};
use cyberdeck_tui::mesh::{MeshAppState, MeshChatLine, MeshNode, MeshScreen};
use cyberdeck_tui::views::{TextRun, Tone};

fn text(row: &[TextRun]) -> String {
    row.iter().map(|r| r.text.as_str()).collect()
}

fn texts(rows: &[Vec<TextRun>]) -> Vec<String> {
    rows.iter().map(|r| text(r)).collect()
}

fn mline(from: &str, body: &str, hops: u8, local: bool) -> MeshChatLine {
    MeshChatLine { from: from.into(), text: body.into(), hops_away: hops, is_local: local }
}

fn mnode(id: &str, long: &str, short: &str, hops: u8) -> MeshNode {
    MeshNode {
        node_id: id.into(),
        long_name: long.into(),
        short_name: short.into(),
        hops_away: hops,
        last_heard_secs: 0,
        snr_bits: None,
    }
}

#[test]
fn mesh_view_clamps_offset_and_selection() {
    let mut app = MeshAppState::new();
    app.chat = vec![mline("alice", "hi", 0, false), mline("me", "yo", 0, true), mline("bob", "x", 2, false)];
    app.chat_offset = 9;
    app.nodes = vec![mnode("!a1", "Alpha", "", 0), mnode("!b2", "", "B", 3)];
    app.input = "draft".into();
    let mut s = MeshScreen { nodes_selected: 7 };
    let snr = vec!["5.2 dB".to_string(), "—".to_string()];
    let v = s.view(&mut app, 5, &snr);
    assert_eq!(app.chat_offset, 2, "the offset stops at the oldest line");
    assert_eq!(s.nodes_selected, 1);
    assert_eq!(v.title, " longfast ");
    assert_eq!(texts(&v.chat_rows), vec![format!("· {:<16} hi ", "alice")]);
    assert_eq!(v.chat_highlight, Some(0));
    assert_eq!(
        texts(&v.node_rows),
        vec![
            format!("{:>8}  {:<10}  {:>8}", "Alpha", "direct", "5.2 dB"),
            format!("{:>8}  {:<10}  {:>8}", "B", "3 hops", "—"),
        ]
    );
    assert_eq!(v.node_highlight, Some(1));
    assert_eq!(text(&v.input_row), "○ not connected  to: B > draft▏");
    assert_eq!(v.input_row[0].tone, Tone::Warn);

    app.chat_offset = 0;
    let v = s.view(&mut app, 5, &snr);
    assert_eq!(
        texts(&v.chat_rows),
        vec![
            format!("· {:<16} hi ", "alice"),
            format!("> {:<16} yo [0h] ", "me"),
            format!("· {:<16} x [2h] ", "bob"),
        ]
    );
    assert_eq!(v.chat_highlight, Some(2));
}

#[test]
fn mesh_view_of_an_empty_session() {
    let mut app = MeshAppState::new();
    let mut s = MeshScreen::new();
    let v = s.view(&mut app, 5, &Vec::new());
    assert_eq!(texts(&v.chat_rows), vec!["  (no messages yet — j/k scroll, type + Enter to send)"]);
    assert_eq!(v.chat_highlight, None);
    assert_eq!(texts(&v.node_rows), vec!["  (no nodes yet)"]);
    assert_eq!(v.node_highlight, None);
    assert_eq!(text(&v.input_row), "○ not connected  to: (broadcast) > ▏");
}

fn lline(from: &str, body: &str, local: bool) -> LoraChatLine {
    LoraChatLine { from: from.into(), text: body.into(), hops_away: 1, is_local: local }
}

#[test]
fn lora_view_shows_the_active_direct_thread() {
    let now: u64 = 1_700_000_000;
    let mut app = LoraAppState::new();
    app.connected = true;
    app.nodes = vec![LoraNode {
        node_id: "!0000002a".into(),
        long_name: "Peer".into(),
        short_name: String::new(),
        hops_away: 1,
        last_heard_secs: now,
        snr_bits: None,
    }];
    let mut dm = Thread::new(ChannelKind::Direct(0x2a), "Peer");
    dm.lines.push(lline("Peer", "hello", false));
    dm.lines.push(lline("me", "hey back", true));
    app.threads = vec![Thread::new(ChannelKind::LongFast, "LongFast"), dm];
    app.active = ChannelKind::Direct(0x2a);
    app.node_ip = Some("192.168.1.5".into());
    app.input = "hey".into();
    let mut s = LoraScreen::new();
    s.cursor = 9;
    let v = s.view(&mut app, 10, now, &vec!["-3.5 dB".to_string()]);
    assert_eq!(s.cursor, 1, "the cursor is kept on the rows");
    assert_eq!(v.title, " dm:!000000… ");
    assert_eq!(
        texts(&v.chat_rows),
        vec![format!("· {:<16} hello [1h] ", "Peer"), format!("> {:<16} hey back [1h] ", "me")]
    );
    assert_eq!(v.chat_highlight, Some(1));
    assert_eq!(
        texts(&v.node_rows),
        vec!["[○ LongFast]".to_string(), format!("● {:>8}  {:<10}  {:>8}", "Peer", "1 hops", "-3.5 dB")]
    );
    assert_eq!(v.node_rows[1][1].tone, Tone::Good, "the active conversation's node is marked");
    assert_eq!(v.node_highlight, Some(1));
    assert_eq!(text(&v.input_row), "● connected  to: Peer > hey▏   i:192.168.1.5 ");
}

#[test]
fn lora_view_hints_when_no_address_is_set() {
    let mut app = LoraAppState::new();
    let mut s = LoraScreen::new();
    let v = s.view(&mut app, 10, 0, &Vec::new());
    assert_eq!(v.title, " longfast ");
    assert_eq!(texts(&v.chat_rows), vec!["  press i to set the node IP"]);
    assert_eq!(v.chat_highlight, None);
    assert_eq!(
        texts(&v.node_rows),
        vec!["[● LongFast]", "  (no nodes yet — talk to your radio first)"]
    );
    assert_eq!(v.node_highlight, Some(0));
    assert_eq!(text(&v.input_row), "○ not connected  to: broadcast > ▏   i: ip ");
    assert_eq!(v.input_row.last().map(|r| r.tone), Some(Tone::Warn));
}
