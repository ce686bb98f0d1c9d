//! What the LoRa and Mesh screens draw, as text: which slice of the chat
//! log is visible, the columns of a chat or node row, and the titles and
//! chips around them. Styling and layout are the renderer's.
use vstd::prelude::*;
use crate::lora::{
    first_of_kind, lines_view, node_label, online_at, threads_view, ChannelKind, LoraChatLineV, LoraNode,
    LoraNodeV, lora_nodes_view,
};
use crate::lora_screen::{opt_chars, sat_sub, LoraAppState, LoraAppStateV, LoraScreen};
use crate::mesh::{
    mesh_label, mesh_lines_view, mesh_nodes_view, MeshAppState, MeshAppStateV, MeshChatLineV,
    MeshNode, MeshScreen,
};
use crate::views::{push_row, row_view, rows_view, run, single, TextRun, Tone};
use crate::proto::{node_id_from_num, node_id_text, node_id_to_num, node_num_of};
use crate::text::{
    concat, dec_text, decimal, pad_left, pad_right, padded_left, padded_right, truncate_chars,
    truncated,
};

verus! {

/// The visible part of a chat log.
pub struct ChatWindow {
    /// The scroll offset, clamped to the log.
    pub offset: usize,
    /// First visible line.
    pub start: usize,
    /// One past the last visible line.
    pub end: usize,
}

/// Lines `start..end` of a log of `total` lines are shown in `visible`
/// rows, `offset` lines back from the tail; the offset is first clamped to
/// the last line.
pub fn chat_window(total: usize, offset: usize, visible: usize) -> (w: ChatWindow)
    ensures
        w.offset == if offset > sat_sub(total, 1) {
            sat_sub(total, 1)
        } else {
            offset
        },
        w.end == sat_sub(total, w.offset),
        w.start == sat_sub(w.end, visible),
        w.start <= w.end <= total,
{
    let max_off = total.saturating_sub(1);
    let off = if offset > max_off {
        max_off
    } else {
        offset
    };
    let end = total.saturating_sub(off);
    let start = end.saturating_sub(visible);
    ChatWindow { offset: off, start, end }
}

/// The three text columns of a chat row.
pub struct ChatRowText {
    pub arrow: String,
    pub from: String,
    pub body: String,
}

/// Hop tag of a chat line: empty for a direct remote line, else
/// ` [<n>h]`.
pub open spec fn hop_tag(hops: u8, is_local: bool) -> Seq<char> {
    if hops == 0 && !is_local {
        Seq::empty()
    } else {
        " ["@ + dec_text(hops as nat) + "h]"@
    }
}

/// Columns of a chat row: `> ` for our own lines and `· ` for others, the
/// sender cut to 16 characters and padded to 16, then ` <text><hop tag> `.
pub fn chat_row(from: &str, text: &str, hops: u8, is_local: bool) -> (r: ChatRowText)
    ensures
        r.arrow@ == if is_local {
            "> "@
        } else {
            "· "@
        },
        r.from@ == padded_right(truncated(from@, 16), 16),
        r.body@ == " "@ + text@ + hop_tag(hops, is_local) + " "@,
{
    let arrow = if is_local {
        "> ".to_owned()
    } else {
        "· ".to_owned()
    };
    let cut = truncate_chars(from, 16);
    let name = pad_right(cut.as_str(), 16);
    let tag = if hops == 0 && !is_local {
        String::new()
    } else {
        let n = decimal(hops as u64);
        let a = concat(" [", n.as_str());
        concat(a.as_str(), "h]")
    };
    let b1 = concat(" ", text);
    let b2 = concat(b1.as_str(), tag.as_str());
    let body = concat(b2.as_str(), " ");
    ChatRowText { arrow, from: name, body }
}

/// Hop column of a node row: `direct`, or `<n> hops`.
pub open spec fn hops_label(hops: u8) -> Seq<char> {
    if hops == 0 {
        "direct"@
    } else {
        dec_text(hops as nat) + " hops"@
    }
}

/// The name and hop columns of a node row: the label cut to 8 characters
/// and right-aligned in 8, then two spaces and the hop label left-aligned
/// in 10.
pub fn node_row(label: &str, hops: u8) -> (r: (String, String))
    ensures
        r.0@ == padded_left(truncated(label@, 8), 8),
        r.1@ == "  "@ + padded_right(hops_label(hops), 10),
{
    let cut = truncate_chars(label, 8);
    let name = pad_left(cut.as_str(), 8);
    let h = if hops == 0 {
        "direct".to_owned()
    } else {
        let n = decimal(hops as u64);
        concat(n.as_str(), " hops")
    };
    let hp = pad_right(h.as_str(), 10);
    (name, concat("  ", hp.as_str()))
}

// ─── LoRa screen ────────────────────────────────────────────────────────

/// Title of the chat pane: the channel, or the peer's id for a direct
/// thread.
pub open spec fn lora_chat_title(active: ChannelKind) -> Seq<char> {
    match active {
        ChannelKind::LongFast => " longfast "@,
        ChannelKind::Direct(n) => " dm:"@ + padded_right(truncated(node_id_text(n), 8), 8)
            + " "@,
    }
}

/// Title of the chat pane for the active thread.
pub fn lora_chat_title_text(active: ChannelKind) -> (r: String)
    ensures
        r@ == lora_chat_title(active),
{
    match active {
        ChannelKind::LongFast => " longfast ".to_owned(),
        ChannelKind::Direct(n) => {
            let id = node_id_from_num(n);
            let cut = truncate_chars(id.as_str(), 8);
            let p = pad_right(cut.as_str(), 8);
            let a = concat(" dm:", p.as_str());
            concat(a.as_str(), " ")
        },
    }
}

/// What the empty chat pane says: how to set the node address when none
/// is configured, else how to scroll and send.
pub open spec fn lora_empty_hint(has_ip: bool) -> Seq<char> {
    if has_ip {
        "  (no messages yet — j/k scroll, type + Enter to send)"@
    } else {
        "  press i to set the node IP"@
    }
}

/// The empty chat pane's hint.
pub fn lora_empty_hint_text(node_ip: &Option<String>) -> (r: String)
    ensures
        r@ == lora_empty_hint(node_ip is Some),
{
    match node_ip {
        Some(_) => "  (no messages yet — j/k scroll, type + Enter to send)".to_owned(),
        None => "  press i to set the node IP".to_owned(),
    }
}

/// The right pane's header row, marked when LongFast is active.
pub fn longfast_row(active: ChannelKind) -> (r: String)
    ensures
        r@ == if active is LongFast {
            "[● LongFast]"@
        } else {
            "[○ LongFast]"@
        },
{
    match active {
        ChannelKind::LongFast => "[● LongFast]".to_owned(),
        _ => "[○ LongFast]".to_owned(),
    }
}

/// The right-pane cursor kept within its rows (the LongFast row and one
/// per node).
pub fn clamp_cursor(cursor: usize, nodes: usize) -> (r: usize)
    ensures
        ({
            let rows: int = if nodes < usize::MAX {
                nodes + 1
            } else {
                usize::MAX as int
            };
            r == if cursor >= rows {
                rows - 1
            } else {
                cursor as int
            }
        }),
{
    let rows = nodes.saturating_add(1);
    if cursor >= rows {
        rows - 1
    } else {
        cursor
    }
}

/// Index of the first node whose id is `id`, or the length.
pub open spec fn first_with_node_id(nodes: Seq<LoraNodeV>, id: Seq<char>) -> int
    decreases nodes.len(),
{
    if nodes.len() == 0 {
        0
    } else if nodes[0].node_id == id {
        0
    } else {
        1 + first_with_node_id(nodes.drop_first(), id)
    }
}

proof fn lemma_first_with_node_id_at(nodes: Seq<LoraNodeV>, id: Seq<char>, i: int)
    requires
        0 <= i <= nodes.len(),
        i < nodes.len() ==> nodes[i].node_id == id,
        forall|j: int| 0 <= j < i ==> (#[trigger] nodes[j]).node_id != id,
    ensures
        first_with_node_id(nodes, id) == i,
    decreases nodes.len(),
{
    if nodes.len() > 0 && i > 0 {
        assert forall|j: int| 0 <= j < i - 1 implies (#[trigger] nodes.drop_first()[j]).node_id
            != id by {
            assert(nodes.drop_first()[j] == nodes[j + 1]);
        }
        lemma_first_with_node_id_at(nodes.drop_first(), id, i - 1);
    }
}

/// The compose line's `to:` chip: `to: broadcast` on LongFast; for a
/// direct thread the label of the node with that id, else the id cut to
/// 8 characters.
pub open spec fn lora_to_chip(active: ChannelKind, nodes: Seq<LoraNodeV>) -> Seq<char> {
    match active {
        ChannelKind::LongFast => "to: broadcast"@,
        ChannelKind::Direct(n) => {
            let k = first_with_node_id(nodes, node_id_text(n));
            "to: "@ + if k < nodes.len() {
                node_label(nodes[k])
            } else {
                truncated(node_id_text(n), 8)
            }
        },
    }
}

/// The `to:` chip for the active thread.
pub fn lora_to_chip_text(active: ChannelKind, nodes: &Vec<LoraNode>) -> (r: String)
    ensures
        r@ == lora_to_chip(active, lora_nodes_view(nodes@)),
{
    match active {
        ChannelKind::LongFast => "to: broadcast".to_owned(),
        ChannelKind::Direct(n) => {
            let nid = node_id_from_num(n);
            let ghost v = lora_nodes_view(nodes@);
            let mut i: usize = 0;
            while i < nodes.len()
                invariant
                    i <= nodes@.len(),
                    v == lora_nodes_view(nodes@),
                    nid@ == node_id_text(n),
                    active == ChannelKind::Direct(n),
                    forall|j: int| 0 <= j < i ==> (#[trigger] v[j]).node_id != nid@,
                decreases nodes@.len() - i,
            {
                if nodes[i].node_id == nid {
                    proof {
                        lemma_first_with_node_id_at(v, nid@, i as int);
                    }
                    let l = nodes[i].label();
                    assert(v[i as int] == nodes@[i as int]@);
                    return concat("to: ", l.as_str());
                }
                i += 1;
            }
            proof {
                lemma_first_with_node_id_at(v, nid@, i as int);
            }
            let cut = truncate_chars(nid.as_str(), 8);
            concat("to: ", cut.as_str())
        },
    }
}

/// The node-address chip: ` i:<address cut to 16> `, or ` i: ip ` when
/// none is set.
pub fn ip_chip(node_ip: &Option<String>) -> (r: String)
    ensures
        r@ == match opt_chars(*node_ip) {
            Some(ip) => " i:"@ + truncated(ip, 16) + " "@,
            None => " i: ip "@,
        },
{
    match node_ip {
        Some(ip) => {
            let cut = truncate_chars(ip.as_str(), 16);
            let a = concat(" i:", cut.as_str());
            concat(a.as_str(), " ")
        },
        None => " i: ip ".to_owned(),
    }
}

// ─── Mesh screen ────────────────────────────────────────────────────────

/// The node selection kept on the list: the last node when past its end,
/// 0 when the list is empty.
pub fn clamp_selected(selected: usize, nodes: usize) -> (r: usize)
    ensures
        r == if nodes == 0 {
            0
        } else if selected >= nodes {
            (nodes - 1) as int
        } else {
            selected as int
        },
{
    if nodes == 0 {
        0
    } else if selected >= nodes {
        nodes - 1
    } else {
        selected
    }
}

/// The Mesh compose line's `to:` chip: the selected node's label cut to 8
/// characters, or `(broadcast)` when nothing is selected.
pub fn mesh_to_chip(nodes: &Vec<MeshNode>, selected: usize) -> (r: String)
    ensures
        r@ == if selected < nodes@.len() {
            "to: "@ + truncated(mesh_label(mesh_nodes_view(nodes@)[selected as int]), 8)
        } else {
            "to: (broadcast)"@
        },
{
    if selected < nodes.len() {
        let l = nodes[selected].label();
        let cut = truncate_chars(l.as_str(), 8);
        concat("to: ", cut.as_str())
    } else {
        "to: (broadcast)".to_owned()
    }
}

// ─── Whole screens ──────────────────────────────────────────────────────

/// What a chat screen draws: the chat pane's title, rows and highlight
/// (the newest shown line), the node pane's rows and highlight, and the
/// compose strip.
pub struct ChatScreenView {
    pub title: String,
    pub chat_rows: Vec<Vec<TextRun>>,
    pub chat_highlight: Option<usize>,
    pub node_rows: Vec<Vec<TextRun>>,
    pub node_highlight: Option<usize>,
    pub input_row: Vec<TextRun>,
}

/// A chat row: the arrow (accented), the sender column (dimmed) and the
/// text with its hop tag (see `chat_row`).
pub open spec fn chat_row_of(from: Seq<char>, text: Seq<char>, hops: u8, is_local: bool) -> Seq<(Seq<char>, Tone)> {
    seq![
        (if is_local {
            "> "@
        } else {
            "· "@
        }, Tone::Accent),
        (padded_right(truncated(from, 16), 16), Tone::Dim),
        (" "@ + text + hop_tag(hops, is_local) + " "@, Tone::Fg),
    ]
}

/// A node row's name, hop and signal columns (see `node_row`); the signal
/// as drawn, right-aligned in 8.
pub open spec fn node_cols_of(label: Seq<char>, hops: u8, snr: Seq<char>, name_tone: Tone) -> Seq<(Seq<char>, Tone)> {
    seq![
        (padded_left(truncated(label, 8), 8), name_tone),
        ("  "@ + padded_right(hops_label(hops), 10), Tone::Fg),
        ("  "@ + padded_left(snr, 8), Tone::Dim),
    ]
}

/// The status run of the compose strip.
pub open spec fn link_run(connected: bool) -> (Seq<char>, Tone) {
    if connected {
        ("● connected "@, Tone::Good)
    } else {
        ("○ not connected "@, Tone::Warn)
    }
}

/// The compose strip: link state, the `to:` chip, the prompt, the draft
/// and the cursor.
pub open spec fn compose_row_of(connected: bool, chip: Seq<char>, input: Seq<char>) -> Seq<(Seq<char>, Tone)> {
    seq![
        link_run(connected),
        (" "@, Tone::Fg),
        (chip + " "@, Tone::Dim),
        ("> "@, Tone::Accent),
        (input, Tone::Fg),
        ("▏"@, Tone::Accent),
    ]
}

fn chat_line_row(from: &str, text: &str, hops: u8, is_local: bool) -> (r: Vec<TextRun>)
    ensures
        row_view(r@) == chat_row_of(from@, text@, hops, is_local),
{
    let c = chat_row(from, text, hops, is_local);
    let r = vec![run(c.arrow, Tone::Accent), run(c.from, Tone::Dim), run(c.body, Tone::Fg)];
    proof {
        assert(row_view(r@) =~= chat_row_of(from@, text@, hops, is_local));
    }
    r
}

fn node_cols(label: &str, hops: u8, snr: &str, name_tone: Tone) -> (r: Vec<TextRun>)
    ensures
        row_view(r@) == node_cols_of(label@, hops, snr@, name_tone),
{
    let (name, hp) = node_row(label, hops);
    let s = concat("  ", pad_left(snr, 8).as_str());
    let r = vec![run(name, name_tone), run(hp, Tone::Fg), run(s, Tone::Dim)];
    proof {
        assert(row_view(r@) =~= node_cols_of(label@, hops, snr@, name_tone));
    }
    r
}

fn compose_row(connected: bool, chip: String, input: &String) -> (r: Vec<TextRun>)
    ensures
        row_view(r@) == compose_row_of(connected, chip@, input@),
{
    let status = if connected {
        run("● connected ".to_owned(), Tone::Good)
    } else {
        run("○ not connected ".to_owned(), Tone::Warn)
    };
    let r = vec![
        status,
        run(" ".to_owned(), Tone::Fg),
        run(concat(chip.as_str(), " "), Tone::Dim),
        run("> ".to_owned(), Tone::Accent),
        run(input.clone(), Tone::Fg),
        run("▏".to_owned(), Tone::Accent),
    ];
    proof {
        assert(row_view(r@) =~= compose_row_of(connected, chip@, input@));
    }
    r
}

/// The chat rows of lines `start..end` of a log.
pub open spec fn mesh_chat_rows(chat: Seq<MeshChatLineV>, start: int, end: int) -> Seq<Seq<(Seq<char>, Tone)>> {
    chat.subrange(start, end).map_values(
        |l: MeshChatLineV| chat_row_of(l.from, l.text, l.hops_away, l.is_local),
    )
}

impl MeshScreen {
    /// The Mesh screen for `visible` chat rows; `snr` holds each node's
    /// signal as drawn. The chat offset is clamped to the log (stored
    /// back), the node selection kept on the list (stored back); the chat
    /// pane shows its window (a hint when empty) with the newest shown line
    /// highlighted; the node pane a row per node (a hint when none); the
    /// strip the link, the `to:` chip and the draft.
    pub fn view(&mut self, app: &mut MeshAppState, visible: usize, snr: &Vec<String>) -> (v: ChatScreenView)
        requires
            snr@.len() == old(app).nodes@.len(),
        ensures
            ({
                let a = old(app)@;
                let total = a.chat.len();
                let off = if a.chat_offset > sat_sub(total as usize, 1) {
                    sat_sub(total as usize, 1)
                } else {
                    a.chat_offset
                };
                let end = sat_sub(total as usize, off);
                let start = sat_sub(end, visible);
                let n = a.nodes.len();
                let sel = if n == 0 {
                    0
                } else if old(self).nodes_selected >= n {
                    (n - 1) as int
                } else {
                    old(self).nodes_selected as int
                };
                &&& final(app)@ == (MeshAppStateV { chat_offset: off, ..a })
                &&& final(self).nodes_selected == sel
                &&& v.title@ == " longfast "@
                &&& rows_view(v.chat_rows@) == if total == 0 {
                    seq![seq![("  (no messages yet — j/k scroll, type + Enter to send)"@, Tone::Dim)]]
                } else {
                    mesh_chat_rows(a.chat, start as int, end as int)
                }
                &&& v.chat_highlight == if total == 0 {
                    None::<usize>
                } else {
                    Some(sat_sub((end - start) as usize, 1))
                }
                &&& rows_view(v.node_rows@) == if n == 0 {
                    seq![seq![("  (no nodes yet)"@, Tone::Dim)]]
                } else {
                    Seq::new(
                        n,
                        |k: int|
                            node_cols_of(mesh_label(a.nodes[k]), a.nodes[k].hops_away, snr@[k]@, Tone::Accent),
                    )
                }
                &&& v.node_highlight == if n == 0 {
                    None::<usize>
                } else {
                    Some(sel as usize)
                }
                &&& row_view(v.input_row@) == compose_row_of(
                    a.connected,
                    if sel < n {
                        "to: "@ + truncated(mesh_label(a.nodes[sel]), 8)
                    } else {
                        "to: (broadcast)"@
                    },
                    a.input,
                )
            }),
    {
        let total = app.chat.len();
        let w = chat_window(total, app.chat_offset, visible);
        app.chat_offset = w.offset;
        let mut chat_rows: Vec<Vec<TextRun>> = Vec::new();
        if total == 0 {
            chat_rows.push(single("  (no messages yet — j/k scroll, type + Enter to send)".to_owned(), Tone::Dim));
            proof {
                assert(rows_view(chat_rows@) =~= seq![
                    seq![("  (no messages yet — j/k scroll, type + Enter to send)"@, Tone::Dim)],
                ]);
            }
        } else {
            let mut k = w.start;
            while k < w.end
                invariant
                    w.start <= k <= w.end <= total == app.chat@.len(),
                    rows_view(chat_rows@) == mesh_chat_rows(
                        mesh_lines_view(app.chat@),
                        w.start as int,
                        k as int,
                    ),
                decreases w.end - k,
            {
                let l = &app.chat[k];
                push_row(&mut chat_rows, chat_line_row(l.from.as_str(), l.text.as_str(), l.hops_away, l.is_local));
                proof {
                    let cv = mesh_lines_view(app.chat@);
                    assert(cv[k as int] == app.chat@[k as int]@);
                    assert(mesh_chat_rows(cv, w.start as int, k + 1) =~= mesh_chat_rows(
                        cv,
                        w.start as int,
                        k as int,
                    ).push(chat_row_of(l.from@, l.text@, l.hops_away, l.is_local)));
                }
                k += 1;
            }
        }
        let chat_highlight = if total == 0 {
            None
        } else {
            Some((w.end - w.start).saturating_sub(1))
        };
        let n = app.nodes.len();
        self.nodes_selected = clamp_selected(self.nodes_selected, n);
        let mut node_rows: Vec<Vec<TextRun>> = Vec::new();
        if n == 0 {
            node_rows.push(single("  (no nodes yet)".to_owned(), Tone::Dim));
            proof {
                assert(rows_view(node_rows@) =~= seq![seq![("  (no nodes yet)"@, Tone::Dim)]]);
            }
        } else {
            let ghost nv = mesh_nodes_view(app.nodes@);
            let mut k: usize = 0;
            while k < n
                invariant
                    k <= n == app.nodes@.len() == snr@.len(),
                    nv == mesh_nodes_view(app.nodes@),
                    rows_view(node_rows@) == Seq::new(
                        k as nat,
                        |j: int| node_cols_of(mesh_label(nv[j]), nv[j].hops_away, snr@[j]@, Tone::Accent),
                    ),
                decreases n - k,
            {
                let label = app.nodes[k].label();
                push_row(&mut node_rows, node_cols(label.as_str(), app.nodes[k].hops_away, snr[k].as_str(), Tone::Accent));
                proof {
                    assert(nv[k as int] == app.nodes@[k as int]@);
                    assert(rows_view(node_rows@) =~= Seq::new(
                        (k + 1) as nat,
                        |j: int| node_cols_of(mesh_label(nv[j]), nv[j].hops_away, snr@[j]@, Tone::Accent),
                    ));
                }
                k += 1;
            }
        }
        let node_highlight = if n == 0 {
            None
        } else {
            Some(self.nodes_selected)
        };
        let chip = mesh_to_chip(&app.nodes, self.nodes_selected);
        let input_row = compose_row(app.connected, chip, &app.input);
        ChatScreenView {
            title: " longfast ".to_owned(),
            chat_rows,
            chat_highlight,
            node_rows,
            node_highlight,
            input_row,
        }
    }
}

/// The lines of the active thread: those of the first thread of its kind,
/// none when there is no such thread.
pub open spec fn active_lines(a: LoraAppStateV) -> Seq<LoraChatLineV> {
    let i = first_of_kind(a.threads, a.active);
    if i < a.threads.len() {
        a.threads[i].lines
    } else {
        Seq::empty()
    }
}

/// The chat rows of lines `start..end` of a thread.
pub open spec fn lora_chat_rows(lines: Seq<LoraChatLineV>, start: int, end: int) -> Seq<Seq<(Seq<char>, Tone)>> {
    lines.subrange(start, end).map_values(
        |l: LoraChatLineV| chat_row_of(l.from, l.text, l.hops_away, l.is_local),
    )
}

/// Whether the active thread is the direct conversation with this node.
pub open spec fn peer_active(active: ChannelKind, node_id: Seq<char>) -> bool {
    match active {
        ChannelKind::Direct(num) => node_num_of(node_id) == num,
        ChannelKind::LongFast => false,
    }
}

/// A node row of the LoRa screen at `now`: `●` when online (`○`
/// otherwise), then the name (good when its conversation is the active
/// one), hop and signal columns.
pub open spec fn lora_node_row_of(n: LoraNodeV, snr: Seq<char>, active: ChannelKind, now: u64) -> Seq<(Seq<char>, Tone)> {
    seq![
        if online_at(n.last_heard_secs, now) {
            ("● "@, Tone::Good)
        } else {
            ("○ "@, Tone::Warn)
        },
    ] + node_cols_of(
        node_label(n),
        n.hops_away,
        snr,
        if peer_active(active, n.node_id) {
            Tone::Good
        } else {
            Tone::Accent
        },
    )
}

/// The node-address chip run: accented with the address, a warning
/// without.
pub open spec fn ip_run(node_ip: Option<Seq<char>>) -> (Seq<char>, Tone) {
    match node_ip {
        Some(ip) => (" i:"@ + truncated(ip, 16) + " "@, Tone::Accent),
        None => (" i: ip "@, Tone::Warn),
    }
}

impl LoraScreen {
    /// The LoRa screen for `visible` chat rows at `now`; `snr` holds each
    /// node's signal as drawn. The chat offset is clamped to the active
    /// thread (stored back) and the cursor kept on the right pane's rows
    /// (stored back). The chat pane shows the active thread's window under
    /// its title (a hint when empty) with the newest shown line
    /// highlighted; the right pane the LongFast row and a row per node (a
    /// hint when none); the strip the link, the `to:` chip, the draft and
    /// the node-address chip.
    pub fn view(&mut self, app: &mut LoraAppState, visible: usize, now: u64, snr: &Vec<String>) -> (v: ChatScreenView)
        requires
            snr@.len() == old(app).nodes@.len(),
        ensures
            ({
                let a = old(app)@;
                let lines = active_lines(a);
                let total = lines.len();
                let off = if a.chat_offset > sat_sub(total as usize, 1) {
                    sat_sub(total as usize, 1)
                } else {
                    a.chat_offset
                };
                let end = sat_sub(total as usize, off);
                let start = sat_sub(end, visible);
                let n = a.nodes.len();
                let rows: int = if n < usize::MAX {
                    (n + 1) as int
                } else {
                    usize::MAX as int
                };
                let cur = if old(self).cursor >= rows {
                    rows - 1
                } else {
                    old(self).cursor as int
                };
                &&& final(app)@ == (LoraAppStateV { chat_offset: off, ..a })
                &&& final(self).cursor == cur
                &&& final(self).current_node_ip == old(self).current_node_ip
                &&& v.title@ == lora_chat_title(a.active)
                &&& rows_view(v.chat_rows@) == if total == 0 {
                    seq![seq![(lora_empty_hint(a.node_ip is Some), Tone::Dim)]]
                } else {
                    lora_chat_rows(lines, start as int, end as int)
                }
                &&& v.chat_highlight == if total == 0 {
                    None::<usize>
                } else {
                    Some(sat_sub((end - start) as usize, 1))
                }
                &&& rows_view(v.node_rows@) == seq![
                    seq![(if a.active is LongFast {
                        "[● LongFast]"@
                    } else {
                        "[○ LongFast]"@
                    }, Tone::Title)],
                ] + if n == 0 {
                    seq![seq![("  (no nodes yet — talk to your radio first)"@, Tone::Dim)]]
                } else {
                    Seq::new(n, |k: int| lora_node_row_of(a.nodes[k], snr@[k]@, a.active, now))
                }
                &&& v.node_highlight == Some(cur as usize)
                &&& row_view(v.input_row@) == compose_row_of(
                    a.connected,
                    lora_to_chip(a.active, a.nodes),
                    a.input,
                ) + seq![("  "@, Tone::Fg), ip_run(a.node_ip)]
            }),
    {
        let ghost a = app@;
        let ghost tv = threads_view(app.threads@);
        let mut ti: usize = 0;
        while ti < app.threads.len() && app.threads[ti].kind != app.active
            invariant
                ti <= app.threads@.len(),
                tv == threads_view(app.threads@),
                forall|j: int| 0 <= j < ti ==> (#[trigger] tv[j]).kind != app.active,
            decreases app.threads@.len() - ti,
        {
            proof {
                assert(tv[ti as int] == app.threads@[ti as int]@);
            }
            ti += 1;
        }
        proof {
            crate::lora::lemma_first_of_kind(tv, app.active);
            if ti < app.threads@.len() {
                assert(tv[ti as int] == app.threads@[ti as int]@);
            }
        }
        let found = ti < app.threads.len();
        proof {
            if found {
                assert(tv[ti as int].kind == app.active);
                if first_of_kind(tv, app.active) < ti {
                    let f = first_of_kind(tv, app.active);
                    assert(tv[f].kind == app.active);
                }
                assert(first_of_kind(tv, app.active) == ti);
            } else {
                if first_of_kind(tv, app.active) < tv.len() {
                    let f = first_of_kind(tv, app.active);
                    assert(tv[f].kind == app.active);
                }
            }
        }
        let total = if found {
            app.threads[ti].lines.len()
        } else {
            0
        };
        let w = chat_window(total, app.chat_offset, visible);
        app.chat_offset = w.offset;
        proof {
            assert(app@ == (LoraAppStateV { chat_offset: w.offset, ..a }));
        }
        let mut chat_rows: Vec<Vec<TextRun>> = Vec::new();
        if total == 0 {
            chat_rows.push(single(lora_empty_hint_text(&app.node_ip), Tone::Dim));
            proof {
                assert(rows_view(chat_rows@) =~= seq![seq![(lora_empty_hint(a.node_ip is Some), Tone::Dim)]]);
            }
        } else {
            let ghost lv = lines_view(app.threads@[ti as int].lines@);
            proof {
                assert(lv == active_lines(a));
            }
            let mut k = w.start;
            while k < w.end
                invariant
                    found,
                    ti < app.threads@.len(),
                    w.start <= k <= w.end <= total == app.threads@[ti as int].lines@.len(),
                    lv == lines_view(app.threads@[ti as int].lines@),
                    rows_view(chat_rows@) == lora_chat_rows(lv, w.start as int, k as int),
                decreases w.end - k,
            {
                let l = &app.threads[ti].lines[k];
                push_row(&mut chat_rows, chat_line_row(l.from.as_str(), l.text.as_str(), l.hops_away, l.is_local));
                proof {
                    assert(lv[k as int] == app.threads@[ti as int].lines@[k as int]@);
                    assert(lora_chat_rows(lv, w.start as int, k + 1) =~= lora_chat_rows(
                        lv,
                        w.start as int,
                        k as int,
                    ).push(chat_row_of(l.from@, l.text@, l.hops_away, l.is_local)));
                }
                k += 1;
            }
        }
        let chat_highlight = if total == 0 {
            None
        } else {
            Some((w.end - w.start).saturating_sub(1))
        };
        let n = app.nodes.len();
        self.cursor = clamp_cursor(self.cursor, n);
        let mut node_rows: Vec<Vec<TextRun>> = Vec::new();
        node_rows.push(single(longfast_row(app.active), Tone::Title));
        let ghost head = rows_view(node_rows@);
        if n == 0 {
            node_rows.push(single("  (no nodes yet — talk to your radio first)".to_owned(), Tone::Dim));
        } else {
            let ghost nv = lora_nodes_view(app.nodes@);
            let mut k: usize = 0;
            while k < n
                invariant
                    k <= n == app.nodes@.len() == snr@.len(),
                    nv == lora_nodes_view(app.nodes@),
                    rows_view(node_rows@) == head + Seq::new(
                        k as nat,
                        |j: int| lora_node_row_of(nv[j], snr@[j]@, app.active, now),
                    ),
                decreases n - k,
            {
                let node = &app.nodes[k];
                let online = node.is_online_at(now);
                let peer = match app.active {
                    ChannelKind::Direct(num) => node_id_to_num(node.node_id.as_str()) == num,
                    ChannelKind::LongFast => false,
                };
                let label = node.label();
                let dot = if online {
                    run("● ".to_owned(), Tone::Good)
                } else {
                    run("○ ".to_owned(), Tone::Warn)
                };
                let cols = node_cols(
                    label.as_str(),
                    node.hops_away,
                    snr[k].as_str(),
                    if peer {
                        Tone::Good
                    } else {
                        Tone::Accent
                    },
                );
                let mut row = vec![dot];
                let ghost r0 = row@;
                let mut c = cols;
                row.append(&mut c);
                proof {
                    assert(nv[k as int] == app.nodes@[k as int]@);
                    assert(row_view(row@) =~= lora_node_row_of(nv[k as int], snr@[k as int]@, app.active, now));
                }
                push_row(&mut node_rows, row);
                proof {
                    assert(rows_view(node_rows@) =~= head + Seq::new(
                        (k + 1) as nat,
                        |j: int| lora_node_row_of(nv[j], snr@[j]@, app.active, now),
                    ));
                }
                k += 1;
            }
        }
        proof {
            assert(rows_view(node_rows@) =~= seq![
                seq![(if a.active is LongFast {
                    "[● LongFast]"@
                } else {
                    "[○ LongFast]"@
                }, Tone::Title)],
            ] + if n == 0 {
                seq![seq![("  (no nodes yet — talk to your radio first)"@, Tone::Dim)]]
            } else {
                Seq::new(n as nat, |k: int| lora_node_row_of(a.nodes[k], snr@[k]@, a.active, now))
            });
        }
        let chip = lora_to_chip_text(app.active, &app.nodes);
        let mut input_row = compose_row(app.connected, chip, &app.input);
        let ghost base = row_view(input_row@);
        input_row.push(run("  ".to_owned(), Tone::Fg));
        let ipr = match &app.node_ip {
            Some(ip) => {
                let cut = truncate_chars(ip.as_str(), 16);
                let x = concat(" i:", cut.as_str());
                run(concat(x.as_str(), " "), Tone::Accent)
            },
            None => run(" i: ip ".to_owned(), Tone::Warn),
        };
        input_row.push(ipr);
        proof {
            assert(row_view(input_row@) =~= base + seq![("  "@, Tone::Fg), ip_run(a.node_ip)]);
        }
        ChatScreenView {
            title: lora_chat_title_text(app.active),
            chat_rows,
            chat_highlight,
            node_rows,
            node_highlight: Some(self.cursor),
            input_row,
        }
    }
}

} // verus!
