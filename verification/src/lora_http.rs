//! State of the HTTP link to a Meshtastic node: what the poll loop records
//! and what each response body adds to the node table, the chat buffer and
//! the wire-debug counters. The requests themselves are made by the caller.
use vstd::prelude::*;
use vstd::utf8::encode_utf8;
use crate::lora::{
    check_outbound, copy_lines, lines_view, lora_nodes_view, node_label, send_check, LoraChatLine,
    LoraChatLineV, LoraError, LoraNode, LoraNodeV,
};
use crate::proto::{
    frames, frames_view, hops_away, lemma_node_id_round_trip, node_id_from_num, node_id_text, parse_from_radio,
    spec_hops_away, lossy_text, string_from_utf8_lossy, FromRadio, FromRadioV, NodeInfo, NodeInfoV,
    TEXT_MESSAGE_APP,
};
use crate::text::{
    chars_of, concat, has_prefix, hex_encode, hex_text, push_char, starts_with, trim_seq, str_trim,
    truncate_chars, truncated,
};

verus! {

/// User-Agent sent with every request, so the node's HTTP log names us.
pub const USER_AGENT: &'static str = "cyberdeck-tui/0.1.0";

/// Seconds between two `GET /api/v1/fromradio` polls.
pub const POLL_INTERVAL_SECS: u64 = 3;

/// Read timeout of a poll request, in seconds.
pub const READ_TIMEOUT_SECS: u64 = 7;

/// Write timeout of `PUT /api/v1/toradio`, in seconds.
pub const WRITE_TIMEOUT_SECS: u64 = 4;

/// Longest hex dump of the last frame kept for the status footer.
pub const LAST_FRAME_HEX_MAX: usize = 128;

/// Seconds between two `want_config_id` handshakes.
pub const WANT_CONFIG_REFRESH_SECS: u64 = 60;

/// Chat lines kept in memory; older ones drop off the front.
pub const MAX_CHAT_LINES: usize = 500;

/// Nodes kept in memory; new nodes beyond this are dropped.
pub const MAX_NODES: usize = 256;

/// Wire-debug counters for the status footer.
#[derive(Debug, Default, Clone, Copy, PartialEq, Eq, Structural)]
pub struct WireDebug {
    /// Bodies the decoder could not make a single frame of.
    pub parse_failures: u64,
    /// `FromRadio` root fields the decoder does not model.
    pub unknown_variant: u64,
    /// Decoded packets whose portnum is not chat.
    pub unknown_portnum: u64,
}

/// Plain-data view of the link's counters for the renderer.
#[derive(Debug, Clone, PartialEq, Eq)]
pub struct HttpStatus {
    pub connected: bool,
    pub rx_frames: u64,
    pub tx_frames: u64,
    pub last_frame_hex: String,
    pub last_error: Option<String>,
    pub wire: WireDebug,
}

/// What the link knows.
struct HttpState {
    connected: bool,
    handshake_issued: bool,
    last_want_config_secs: u64,
    rx_frames: u64,
    tx_frames: u64,
    last_frame_hex: String,
    last_error: Option<String>,
    /// Known nodes with their numbers.
    nodes: Vec<(u32, LoraNode)>,
    chat: Vec<LoraChatLine>,
    my_node_num: Option<u32>,
    wire: WireDebug,
}

/// Mathematical value of the link state.
pub struct HttpStateV {
    pub connected: bool,
    pub handshake_issued: bool,
    pub last_want_config_secs: u64,
    pub rx_frames: u64,
    pub tx_frames: u64,
    pub last_frame_hex: Seq<char>,
    pub last_error: Option<Seq<char>>,
    pub nodes: Seq<(u32, LoraNodeV)>,
    pub chat: Seq<LoraChatLineV>,
    pub my_node_num: Option<u32>,
    pub wire: WireDebug,
}

pub open spec fn opt_text(s: Option<String>) -> Option<Seq<char>> {
    match s {
        Some(t) => Some(t@),
        None => None,
    }
}

pub open spec fn numbered_nodes_view(v: Seq<(u32, LoraNode)>) -> Seq<(u32, LoraNodeV)> {
    v.map_values(|p: (u32, LoraNode)| (p.0, p.1@))
}

impl View for HttpState {
    type V = HttpStateV;

    closed spec fn view(&self) -> HttpStateV {
        HttpStateV {
            connected: self.connected,
            handshake_issued: self.handshake_issued,
            last_want_config_secs: self.last_want_config_secs,
            rx_frames: self.rx_frames,
            tx_frames: self.tx_frames,
            last_frame_hex: self.last_frame_hex@,
            last_error: opt_text(self.last_error),
            nodes: numbered_nodes_view(self.nodes@),
            chat: lines_view(self.chat@),
            my_node_num: self.my_node_num,
            wire: self.wire,
        }
    }
}

/// The state of a fresh link.
pub open spec fn initial_state() -> HttpStateV {
    HttpStateV {
        connected: false,
        handshake_issued: false,
        last_want_config_secs: 0,
        rx_frames: 0,
        tx_frames: 0,
        last_frame_hex: Seq::empty(),
        last_error: None,
        nodes: Seq::empty(),
        chat: Seq::empty(),
        my_node_num: None,
        wire: WireDebug { parse_failures: 0, unknown_variant: 0, unknown_portnum: 0 },
    }
}

pub open spec fn sat_inc(x: u64) -> u64 {
    if x == u64::MAX {
        x
    } else {
        (x + 1) as u64
    }
}

// ─── Node table ─────────────────────────────────────────────────────────

/// Index of the node numbered `num`, or the length when unknown.
pub open spec fn node_slot(nodes: Seq<(u32, LoraNodeV)>, num: u32) -> int
    decreases nodes.len(),
{
    if nodes.len() == 0 {
        0
    } else if nodes[0].0 == num {
        0
    } else {
        1 + node_slot(nodes.drop_first(), num)
    }
}

/// Where a new node numbered `num` goes: before the first higher number.
pub open spec fn node_insert_pos(nodes: Seq<(u32, LoraNodeV)>, num: u32) -> int
    decreases nodes.len(),
{
    if nodes.len() == 0 {
        0
    } else if nodes[0].0 > num {
        0
    } else {
        1 + node_insert_pos(nodes.drop_first(), num)
    }
}

proof fn lemma_node_slot(nodes: Seq<(u32, LoraNodeV)>, num: u32)
    ensures
        0 <= node_slot(nodes, num) <= nodes.len(),
        node_slot(nodes, num) < nodes.len() ==> nodes[node_slot(nodes, num)].0 == num,
        forall|j: int| 0 <= j < node_slot(nodes, num) ==> nodes[j].0 != num,
    decreases nodes.len(),
{
    if nodes.len() > 0 && nodes[0].0 != num {
        lemma_node_slot(nodes.drop_first(), num);
        assert forall|j: int| 0 <= j < node_slot(nodes, num) implies nodes[j].0 != num by {
            if j > 0 {
                assert(nodes[j] == nodes.drop_first()[j - 1]);
            }
        }
    }
}

proof fn lemma_node_slot_at(nodes: Seq<(u32, LoraNodeV)>, num: u32, i: int)
    requires
        0 <= i <= nodes.len(),
        i < nodes.len() ==> nodes[i].0 == num,
        forall|j: int| 0 <= j < i ==> nodes[j].0 != num,
    ensures
        node_slot(nodes, num) == i,
    decreases nodes.len(),
{
    if nodes.len() > 0 && i > 0 {
        lemma_node_slot_at(nodes.drop_first(), num, i - 1);
    }
}

proof fn lemma_node_insert_pos(nodes: Seq<(u32, LoraNodeV)>, num: u32)
    ensures
        0 <= node_insert_pos(nodes, num) <= nodes.len(),
        node_insert_pos(nodes, num) < nodes.len() ==> nodes[node_insert_pos(nodes, num)].0 > num,
        forall|j: int| 0 <= j < node_insert_pos(nodes, num) ==> nodes[j].0 <= num,
    decreases nodes.len(),
{
    if nodes.len() > 0 && nodes[0].0 <= num {
        lemma_node_insert_pos(nodes.drop_first(), num);
        assert forall|j: int| 0 <= j < node_insert_pos(nodes, num) implies nodes[j].0 <= num by {
            if j > 0 {
                assert(nodes[j] == nodes.drop_first()[j - 1]);
            }
        }
    }
}

proof fn lemma_node_insert_pos_at(nodes: Seq<(u32, LoraNodeV)>, num: u32, i: int)
    requires
        0 <= i <= nodes.len(),
        i < nodes.len() ==> nodes[i].0 > num,
        forall|j: int| 0 <= j < i ==> nodes[j].0 <= num,
    ensures
        node_insert_pos(nodes, num) == i,
    decreases nodes.len(),
{
    if nodes.len() > 0 && i > 0 {
        lemma_node_insert_pos_at(nodes.drop_first(), num, i - 1);
    }
}

/// The node table with node `num` stored: replaced when known, inserted
/// in number order when new and the table has room, otherwise unchanged.
pub open spec fn nodes_upsert(nodes: Seq<(u32, LoraNodeV)>, num: u32, node: LoraNodeV) -> Seq<
    (u32, LoraNodeV),
> {
    let k = node_slot(nodes, num);
    if k < nodes.len() {
        nodes.update(k, (num, node))
    } else if nodes.len() >= MAX_NODES {
        nodes
    } else {
        nodes.insert(node_insert_pos(nodes, num), (num, node))
    }
}

/// The chat buffer after appending `l`, keeping the newest 500 lines.
pub open spec fn chat_push(chat: Seq<LoraChatLineV>, l: LoraChatLineV) -> Seq<LoraChatLineV> {
    let c = chat.push(l);
    if c.len() > MAX_CHAT_LINES {
        c.skip(c.len() - MAX_CHAT_LINES)
    } else {
        c
    }
}

/// The renderer's node for a decoded `NodeInfo`: names from its `User`
/// (empty without one), no hops, the last-heard time as sent, no SNR.
pub open spec fn node_of(ni: NodeInfoV) -> LoraNodeV {
    LoraNodeV {
        node_id: node_id_text(ni.num),
        long_name: match ni.user {
            Some(u) => u.long_name,
            None => Seq::empty(),
        },
        short_name: match ni.user {
            Some(u) => u.short_name,
            None => Seq::empty(),
        },
        hops_away: 0,
        last_heard_secs: ni.last_heard_secs as u64,
        snr_bits: None,
    }
}

/// The label a chat line from node `from` gets: the known node's label,
/// else its node id.
pub open spec fn sender_label(nodes: Seq<(u32, LoraNodeV)>, from: u32) -> Seq<char> {
    let k = node_slot(nodes, from);
    if k < nodes.len() {
        node_label(nodes[k].1)
    } else {
        node_id_text(from)
    }
}

/// One decoded frame applied to the state; `my` is our node number as it
/// was before the body arrived.
pub open spec fn apply_frame(st: HttpStateV, f: FromRadioV, my: Option<u32>) -> HttpStateV {
    match f {
        FromRadioV::Packet(p) => match p.decoded {
            None => st,
            Some(d) => if d.portnum != TEXT_MESSAGE_APP {
                HttpStateV {
                    wire: WireDebug { unknown_portnum: sat_inc(st.wire.unknown_portnum), ..st.wire },
                    ..st
                }
            } else if d.payload.len() == 0 {
                st
            } else {
                let line = LoraChatLineV {
                    from: sender_label(st.nodes, p.from),
                    text: lossy_text(d.payload),
                    hops_away: spec_hops_away(p),
                    is_local: my == Some(p.from),
                };
                HttpStateV { chat: chat_push(st.chat, line), ..st }
            },
        },
        FromRadioV::NodeInfo(ni) => HttpStateV {
            nodes: nodes_upsert(st.nodes, ni.num, node_of(ni)),
            ..st
        },
        FromRadioV::MyInfo(mi) => HttpStateV { my_node_num: Some(mi.my_node_num), ..st },
        FromRadioV::Unknown => HttpStateV {
            wire: WireDebug { unknown_variant: sat_inc(st.wire.unknown_variant), ..st.wire },
            ..st
        },
        _ => st,
    }
}

/// Frames applied in order.
pub open spec fn apply_frames(st: HttpStateV, fs: Seq<FromRadioV>, my: Option<u32>) -> HttpStateV
    decreases fs.len(),
{
    if fs.len() == 0 {
        st
    } else {
        apply_frame(apply_frames(st, fs.drop_last(), my), fs.last(), my)
    }
}

/// The state after a poll response body: an empty body changes nothing;
/// otherwise the frame counter and hex dump are updated, a body without a
/// single frame counts as a parse failure, and the frames are applied.
pub open spec fn ingest(st: HttpStateV, body: Seq<u8>) -> HttpStateV {
    if body.len() == 0 {
        st
    } else {
        let st1 = HttpStateV {
            rx_frames: sat_inc(st.rx_frames),
            last_frame_hex: truncated(hex_text(body), LAST_FRAME_HEX_MAX as nat),
            ..st
        };
        let fs = frames(body);
        if fs.len() == 0 {
            HttpStateV {
                wire: WireDebug { parse_failures: sat_inc(st1.wire.parse_failures), ..st1.wire },
                ..st1
            }
        } else {
            apply_frames(st1, fs, st.my_node_num)
        }
    }
}

// ─── Executable state ───────────────────────────────────────────────────

impl HttpState {
    fn new() -> (s: HttpState)
        ensures
            s@ == initial_state(),
    {
        let s = HttpState {
            connected: false,
            handshake_issued: false,
            last_want_config_secs: 0,
            rx_frames: 0,
            tx_frames: 0,
            last_frame_hex: String::new(),
            last_error: None,
            nodes: Vec::new(),
            chat: Vec::new(),
            my_node_num: None,
            wire: WireDebug { parse_failures: 0, unknown_variant: 0, unknown_portnum: 0 },
        };
        assert(s@.nodes =~= Seq::<(u32, LoraNodeV)>::empty());
        assert(s@.chat =~= Seq::<LoraChatLineV>::empty());
        assert(s@.last_frame_hex =~= Seq::<char>::empty());
        s
    }
}

/// Position of node `num` in the table, or the table's length.
fn find_slot(nodes: &Vec<(u32, LoraNode)>, num: u32) -> (k: usize)
    ensures
        k == node_slot(numbered_nodes_view(nodes@), num),
{
    let ghost v = numbered_nodes_view(nodes@);
    let mut i: usize = 0;
    while i < nodes.len()
        invariant
            i <= nodes@.len(),
            v == numbered_nodes_view(nodes@),
            forall|j: int| 0 <= j < i ==> v[j].0 != num,
        decreases nodes@.len() - i,
    {
        if nodes[i].0 == num {
            proof {
                lemma_node_slot_at(v, num, i as int);
            }
            return i;
        }
        i += 1;
    }
    proof {
        lemma_node_slot_at(v, num, i as int);
    }
    i
}

/// Position before the first node numbered above `num`.
fn find_insert_pos(nodes: &Vec<(u32, LoraNode)>, num: u32) -> (k: usize)
    ensures
        k == node_insert_pos(numbered_nodes_view(nodes@), num),
{
    let ghost v = numbered_nodes_view(nodes@);
    let mut i: usize = 0;
    while i < nodes.len()
        invariant
            i <= nodes@.len(),
            v == numbered_nodes_view(nodes@),
            forall|j: int| 0 <= j < i ==> v[j].0 <= num,
        decreases nodes@.len() - i,
    {
        if nodes[i].0 > num {
            proof {
                lemma_node_insert_pos_at(v, num, i as int);
            }
            return i;
        }
        i += 1;
    }
    proof {
        lemma_node_insert_pos_at(v, num, i as int);
    }
    i
}

/// Store node `num` in the table (see `nodes_upsert`).
fn store_node(nodes: &mut Vec<(u32, LoraNode)>, num: u32, node: LoraNode)
    ensures
        numbered_nodes_view(final(nodes)@) == nodes_upsert(
            numbered_nodes_view(old(nodes)@),
            num,
            node@,
        ),
{
    let ghost v = numbered_nodes_view(nodes@);
    let k = find_slot(nodes, num);
    proof {
        lemma_node_slot(v, num);
    }
    if k < nodes.len() {
        nodes.set(k, (num, node));
        assert(numbered_nodes_view(nodes@) =~= v.update(k as int, (num, node@)));
    } else if nodes.len() >= MAX_NODES {
    } else {
        let p = find_insert_pos(nodes, num);
        proof {
            lemma_node_insert_pos(v, num);
        }
        nodes.insert(p, (num, node));
        assert(numbered_nodes_view(nodes@) =~= v.insert(p as int, (num, node@)));
    }
}

/// Append a chat line, dropping the oldest beyond `MAX_CHAT_LINES`.
fn push_chat(chat: &mut Vec<LoraChatLine>, line: LoraChatLine)
    ensures
        lines_view(final(chat)@) == chat_push(lines_view(old(chat)@), line@),
{
    let ghost c = lines_view(chat@).push(line@);
    chat.push(line);
    assert(lines_view(chat@) =~= c);
    if chat.len() > MAX_CHAT_LINES {
        let drop = chat.len() - MAX_CHAT_LINES;
        let kept = chat.split_off(drop);
        *chat = kept;
        assert(lines_view(chat@) =~= c.skip(c.len() - MAX_CHAT_LINES));
    }
}

/// The renderer's node for a decoded `NodeInfo` (see `node_of`).
pub fn node_info_to_lora_node(ni: &NodeInfo) -> (n: LoraNode)
    ensures
        n@ == node_of(ni@),
{
    let node_id = node_id_from_num(ni.num);
    let (long_name, short_name) = match &ni.user {
        Some(u) => (u.long_name.clone(), u.short_name.clone()),
        None => (String::new(), String::new()),
    };
    LoraNode {
        node_id,
        long_name,
        short_name,
        hops_away: 0,
        last_heard_secs: ni.last_heard_secs as u64,
        snr_bits: None,
    }
}

/// Label for a chat line from node `from` (see `sender_label`).
fn chat_sender(nodes: &Vec<(u32, LoraNode)>, from: u32) -> (s: String)
    ensures
        s@ == sender_label(numbered_nodes_view(nodes@), from),
{
    let k = find_slot(nodes, from);
    proof {
        lemma_node_slot(numbered_nodes_view(nodes@), from);
    }
    if k < nodes.len() {
        nodes[k].1.label()
    } else {
        node_id_from_num(from)
    }
}

fn sat_add1(x: u64) -> (r: u64)
    ensures
        r == sat_inc(x),
{
    if x == u64::MAX {
        x
    } else {
        x + 1
    }
}

/// Apply one decoded frame (see `apply_frame`).
fn apply_one(st: &mut HttpState, f: &FromRadio, my: Option<u32>)
    ensures
        final(st)@ == apply_frame(old(st)@, f@, my),
{
    match f {
        FromRadio::Packet(pkt) => {
            match &pkt.decoded {
                None => {},
                Some(data) => {
                    if data.portnum != TEXT_MESSAGE_APP {
                        st.wire.unknown_portnum = sat_add1(st.wire.unknown_portnum);
                    } else if data.payload.len() == 0 {
                    } else {
                        let text = string_from_utf8_lossy(data.payload.as_slice());
                        let is_local = match my {
                            Some(m) => m == pkt.from,
                            None => false,
                        };
                        let hops = hops_away(pkt);
                        let from = chat_sender(&st.nodes, pkt.from);
                        push_chat(&mut st.chat, LoraChatLine { from, text, hops_away: hops, is_local });
                    }
                },
            }
        },
        FromRadio::NodeInfo(ni) => {
            let node = node_info_to_lora_node(ni);
            store_node(&mut st.nodes, ni.num, node);
        },
        FromRadio::MyInfo(mi) => {
            st.my_node_num = Some(mi.my_node_num);
        },
        FromRadio::Unknown => {
            st.wire.unknown_variant = sat_add1(st.wire.unknown_variant);
        },
        _ => {},
    }
}

/// Ingest one response body (see `ingest`).
fn ingest_body(st: &mut HttpState, bytes: &[u8])
    ensures
        final(st)@ == ingest(old(st)@, bytes@),
{
    if bytes.len() == 0 {
        return;
    }
    let my = st.my_node_num;
    st.rx_frames = sat_add1(st.rx_frames);
    let hex = hex_encode(bytes);
    st.last_frame_hex = truncate_chars(hex.as_str(), LAST_FRAME_HEX_MAX);
    let fs = parse_from_radio(bytes);
    if fs.len() == 0 {
        st.wire.parse_failures = sat_add1(st.wire.parse_failures);
        return;
    }
    let ghost st1 = st@;
    let ghost fv = frames_view(fs@);
    let mut i: usize = 0;
    while i < fs.len()
        invariant
            i <= fs@.len(),
            fv == frames_view(fs@),
            fv == frames(bytes@),
            st@ == apply_frames(st1, fv.take(i as int), my),
        decreases fs@.len() - i,
    {
        apply_one(st, &fs[i], my);
        proof {
            assert(fv.take(i + 1).drop_last() =~= fv.take(i as int));
        }
        i += 1;
    }
    assert(fv.take(fs@.len() as int) =~= fv);
}

// ─── The transport ──────────────────────────────────────────────────────

/// The link to one Meshtastic node over HTTP: its base URL and what the
/// poll loop has learned. The requests are made by the caller, which
/// reports each outcome back through the `on_*` methods.
pub struct HttpLoraTransport {
    base: String,
    state: HttpState,
}

/// Mathematical value of a transport.
pub struct HttpLoraTransportV {
    pub base: Seq<char>,
    pub state: HttpStateV,
}

impl View for HttpLoraTransport {
    type V = HttpLoraTransportV;

    closed spec fn view(&self) -> HttpLoraTransportV {
        HttpLoraTransportV { base: self.base@, state: self.state@ }
    }
}

/// `s` without its trailing `/` characters.
pub open spec fn trim_trailing_slashes(s: Seq<char>) -> Seq<char>
    decreases s.len(),
{
    if s.len() > 0 && s.last() == '/' {
        trim_trailing_slashes(s.drop_last())
    } else {
        s
    }
}

/// The base URL for what the user typed, never with a trailing slash: a
/// URL with an `http://` or `https://` scheme loses its trailing slashes;
/// anything else is taken for a host, trimmed of white space and trailing
/// slashes, behind `http://`.
pub open spec fn base_url(ip: Seq<char>) -> Seq<char> {
    if has_prefix(ip, "http://"@) || has_prefix(ip, "https://"@) {
        trim_trailing_slashes(ip)
    } else {
        "http://"@ + trim_trailing_slashes(trim_seq(ip))
    }
}

/// What `reqwest::Url::parse` makes of `s`: `None` when it parses, else
/// the parser's error message.
pub uninterp spec fn url_parse_failure(s: Seq<char>) -> Option<Seq<char>>;

/// Parse `s` with `reqwest::Url::parse`: `None` when it is a URL,
/// otherwise the text of the parse error.
#[verifier::external_body]
fn url_parse_error(s: &str) -> (r: Option<String>)
    ensures
        opt_text(r) == url_parse_failure(s@),
{
    match reqwest::Url::parse(s) {
        Ok(_) => None,
        Err(e) => Some(e.to_string()),
    }
}

/// The first `k` characters of `cs` as a string.
fn prefix_string(cs: &Vec<char>, k: usize) -> (r: String)
    requires
        k <= cs@.len(),
    ensures
        r@ == cs@.take(k as int),
{
    let mut r = String::new();
    for i in 0..k
        invariant
            k <= cs@.len(),
            r@ == cs@.take(i as int),
    {
        push_char(&mut r, cs[i]);
        assert(cs@.take(i + 1) =~= cs@.take(i as int).push(cs@[i as int]));
    }
    r
}

proof fn lemma_trim_trailing_slashes(s: Seq<char>, k: int)
    requires
        0 <= k <= s.len(),
        k == 0 || s[k - 1] != '/',
        forall|j: int| k <= j < s.len() ==> s[j] == '/',
    ensures
        trim_trailing_slashes(s) == s.take(k),
    decreases s.len(),
{
    if s.len() > 0 && s.last() == '/' {
        if k == s.len() {
            assert(false);
        }
        assert forall|j: int| k <= j < s.drop_last().len() implies s.drop_last()[j] == '/' by {}
        lemma_trim_trailing_slashes(s.drop_last(), k);
        assert(s.drop_last().take(k) =~= s.take(k));
    } else {
        if k < s.len() {
            assert(s[s.len() - 1] == '/');
        }
        assert(s.take(k) =~= s);
    }
}

/// `s` without its trailing `/` characters (see `trim_trailing_slashes`).
fn strip_trailing_slashes(s: &str) -> (r: String)
    ensures
        r@ == trim_trailing_slashes(s@),
{
    let cs = chars_of(s);
    let mut k = cs.len();
    while k > 0 && cs[k - 1] == '/'
        invariant
            cs@ == s@,
            k <= cs@.len(),
            forall|j: int| k <= j < cs@.len() ==> cs@[j] == '/',
        decreases k,
    {
        k -= 1;
    }
    proof {
        lemma_trim_trailing_slashes(s@, k as int);
    }
    prefix_string(&cs, k)
}

/// The base URL for what the user typed (see `base_url`).
pub fn normalize_base(ip: &str) -> (r: String)
    ensures
        r@ == base_url(ip@),
{
    if starts_with(ip, "http://") || starts_with(ip, "https://") {
        strip_trailing_slashes(ip)
    } else {
        let host = strip_trailing_slashes(str_trim(ip).as_str());
        concat("http://", host.as_str())
    }
}

impl HttpLoraTransport {
    /// A fresh link for `base`, given what the URL parser said of it:
    /// refused with `Io("invalid node URL: <message>")` when it failed.
    pub fn from_parsed(base: String, parse_error: Option<String>) -> (r: Result<
        HttpLoraTransport,
        LoraError,
    >)
        ensures
            match opt_text(parse_error) {
                None => r matches Ok(t) && t@ == HttpLoraTransportV {
                    base: base@,
                    state: initial_state(),
                },
                Some(msg) => r matches Err(LoraError::Io(m)) && m@ == "invalid node URL: "@ + msg,
            },
    {
        match parse_error {
            Some(e) => Err(LoraError::Io(concat("invalid node URL: ", e.as_str()))),
            None => Ok(HttpLoraTransport { base, state: HttpState::new() }),
        }
    }

    /// A link to the node at `ip`: a bare host or a full `http(s)://` URL.
    /// Refused when the base URL does not parse.
    pub fn new(ip: &str) -> (r: Result<HttpLoraTransport, LoraError>)
        ensures
            match url_parse_failure(base_url(ip@)) {
                None => r matches Ok(t) && t@ == HttpLoraTransportV {
                    base: base_url(ip@),
                    state: initial_state(),
                },
                Some(msg) => r matches Err(LoraError::Io(m)) && m@ == "invalid node URL: "@ + msg,
            },
    {
        let base = normalize_base(ip);
        let err = url_parse_error(base.as_str());
        HttpLoraTransport::from_parsed(base, err)
    }

    /// The base URL, without a trailing slash.
    pub fn base(&self) -> (r: &str)
        ensures
            r@ == self@.base,
    {
        self.base.as_str()
    }
}

/// How an HTTP request ended, as the caller saw it.
pub enum Reply {
    /// A 2xx status.
    Success,
    /// Another status, as the HTTP library prints it.
    Status(String),
    /// No response: the transport error's text.
    Failed(String),
}

/// The `last_error` text a failed request leaves: the status after a
/// space, a transport error after a colon.
pub open spec fn failure_text(what: Seq<char>, status: bool, detail: Seq<char>) -> Seq<char> {
    if status {
        what + " "@ + detail
    } else {
        what + ": "@ + detail
    }
}

/// The nonce sent with a `want_config_id` handshake at time `now`.
pub open spec fn spec_handshake_nonce(now: u64) -> u32 {
    (now as u32) ^ 0x5a5a_5a5au32
}

/// The nonce sent with a `want_config_id` handshake at time `now`: the low
/// 32 bits of the time mixed with a fixed pattern, echoed back by the
/// firmware in `config_complete_id`.
pub fn handshake_nonce(now: u64) -> (r: u32)
    ensures
        r == spec_handshake_nonce(now),
{
    (now as u32) ^ 0x5a5a_5a5a
}

/// Whether a `want_config_id` handshake is due: before the first one, and
/// then every `WANT_CONFIG_REFRESH_SECS`.
pub open spec fn handshake_due(st: HttpStateV, now: u64) -> bool {
    !st.handshake_issued || now - st.last_want_config_secs >= WANT_CONFIG_REFRESH_SECS
}

fn failure_message(what: &str, status: bool, detail: &str) -> (r: String)
    ensures
        r@ == failure_text(what@, status, detail@),
{
    if status {
        let head = concat(what, " ");
        concat(head.as_str(), detail)
    } else {
        let head = concat(what, ": ");
        concat(head.as_str(), detail)
    }
}

impl HttpLoraTransport {
    /// Whether this poll tick starts with a handshake.
    pub fn should_handshake(&self, now: u64) -> (r: bool)
        ensures
            r == handshake_due(self@.state, now),
    {
        !self.state.handshake_issued || now.saturating_sub(self.state.last_want_config_secs)
            >= WANT_CONFIG_REFRESH_SECS
    }

    /// `GET` target of a poll: the whole backlog until a poll succeeded,
    /// then only new frames.
    pub fn fromradio_url(&self, bootstrapped: bool) -> (r: String)
        ensures
            r@ == self@.base + if bootstrapped {
                "/api/v1/fromradio?all=false"@
            } else {
                "/api/v1/fromradio?all=true"@
            },
    {
        if bootstrapped {
            concat(self.base.as_str(), "/api/v1/fromradio?all=false")
        } else {
            concat(self.base.as_str(), "/api/v1/fromradio?all=true")
        }
    }

    /// `OPTIONS` and `PUT` target.
    pub fn toradio_url(&self) -> (r: String)
        ensures
            r@ == self@.base + "/api/v1/toradio"@,
    {
        concat(self.base.as_str(), "/api/v1/toradio")
    }

    /// Record the `OPTIONS /toradio` probe; `true` when the handshake
    /// `PUT` should follow. A failed probe is recorded as the handshake
    /// of this tick, so the next one waits a full refresh period.
    pub fn on_probe(&mut self, now: u64, reply: Reply) -> (go: bool)
        ensures
            go == (reply is Success),
            final(self)@.base == old(self)@.base,
            match reply {
                Reply::Success => final(self)@.state == old(self)@.state,
                Reply::Status(d) => final(self)@.state == (HttpStateV {
                    last_error: Some(failure_text("OPTIONS /toradio"@, true, d@)),
                    handshake_issued: true,
                    last_want_config_secs: now,
                    ..old(self)@.state
                }),
                Reply::Failed(d) => final(self)@.state == (HttpStateV {
                    last_error: Some(failure_text("OPTIONS /toradio"@, false, d@)),
                    handshake_issued: true,
                    last_want_config_secs: now,
                    ..old(self)@.state
                }),
            },
    {
        match reply {
            Reply::Success => true,
            Reply::Status(d) => {
                self.state.last_error = Some(failure_message("OPTIONS /toradio", true, d.as_str()));
                self.state.handshake_issued = true;
                self.state.last_want_config_secs = now;
                false
            },
            Reply::Failed(d) => {
                self.state.last_error = Some(failure_message("OPTIONS /toradio", false, d.as_str()));
                self.state.handshake_issued = true;
                self.state.last_want_config_secs = now;
                false
            },
        }
    }

    /// Record the handshake `PUT`: on success the handshake is done at
    /// `now`, one more frame went out and the last error is cleared.
    pub fn on_handshake(&mut self, now: u64, reply: Reply)
        ensures
            final(self)@.base == old(self)@.base,
            match reply {
                Reply::Success => final(self)@.state == (HttpStateV {
                    handshake_issued: true,
                    last_want_config_secs: now,
                    tx_frames: sat_inc(old(self)@.state.tx_frames),
                    last_error: None,
                    ..old(self)@.state
                }),
                Reply::Status(d) => final(self)@.state == (HttpStateV {
                    last_error: Some(failure_text("want_config_id PUT"@, true, d@)),
                    ..old(self)@.state
                }),
                Reply::Failed(d) => final(self)@.state == (HttpStateV {
                    last_error: Some(failure_text("want_config_id PUT"@, false, d@)),
                    ..old(self)@.state
                }),
            },
    {
        match reply {
            Reply::Success => {
                self.state.handshake_issued = true;
                self.state.last_want_config_secs = now;
                self.state.tx_frames = sat_add1(self.state.tx_frames);
                self.state.last_error = None;
            },
            Reply::Status(d) => {
                self.state.last_error = Some(
                    failure_message("want_config_id PUT", true, d.as_str()),
                );
            },
            Reply::Failed(d) => {
                self.state.last_error = Some(
                    failure_message("want_config_id PUT", false, d.as_str()),
                );
            },
        }
    }

    /// Ingest one poll response body: the frame counter, the hex dump, the
    /// decoded frames (see `ingest`). An empty body changes nothing.
    pub fn ingest_frame(&mut self, bytes: &[u8])
        ensures
            final(self)@ == (HttpLoraTransportV {
                state: ingest(old(self)@.state, bytes@),
                ..old(self)@
            }),
    {
        ingest_body(&mut self.state, bytes);
    }

    /// Record a poll: a 2xx marks the link up and ingests the body (`None`
    /// when reading it failed); anything else marks it down with the
    /// error. `true` when the poll succeeded.
    pub fn on_poll(&mut self, reply: Reply, body: Option<Vec<u8>>) -> (ok: bool)
        ensures
            ok == (reply is Success),
            final(self)@.base == old(self)@.base,
            match reply {
                Reply::Success => {
                    let up = HttpStateV { connected: true, ..old(self)@.state };
                    final(self)@.state == match body {
                        Some(b) => ingest(up, b@),
                        None => up,
                    }
                },
                Reply::Status(d) => final(self)@.state == (HttpStateV {
                    connected: false,
                    last_error: Some(failure_text("fromradio"@, true, d@)),
                    ..old(self)@.state
                }),
                Reply::Failed(d) => final(self)@.state == (HttpStateV {
                    connected: false,
                    last_error: Some(failure_text("fromradio"@, false, d@)),
                    ..old(self)@.state
                }),
            },
    {
        match reply {
            Reply::Success => {
                self.state.connected = true;
                match body {
                    Some(b) => ingest_body(&mut self.state, b.as_slice()),
                    None => {},
                }
                true
            },
            Reply::Status(d) => {
                self.state.connected = false;
                self.state.last_error = Some(failure_message("fromradio", true, d.as_str()));
                false
            },
            Reply::Failed(d) => {
                self.state.connected = false;
                self.state.last_error = Some(failure_message("fromradio", false, d.as_str()));
                false
            },
        }
    }

    /// Record an outbound `PUT /toradio`: a 2xx counts one more frame sent;
    /// otherwise the send fails with the status or the transport error.
    pub fn on_put(&mut self, reply: Reply) -> (r: Result<(), LoraError>)
        ensures
            final(self)@.base == old(self)@.base,
            match reply {
                Reply::Success => r is Ok && final(self)@.state == (HttpStateV {
                    tx_frames: sat_inc(old(self)@.state.tx_frames),
                    ..old(self)@.state
                }),
                Reply::Status(d) => {
                    &&& final(self)@.state == old(self)@.state
                    &&& r matches Err(LoraError::Io(m)) && m@ == "toradio put: status "@ + d@
                },
                Reply::Failed(d) => {
                    &&& final(self)@.state == old(self)@.state
                    &&& r matches Err(LoraError::Io(m)) && m@ == "toradio put: "@ + d@
                },
            },
    {
        match reply {
            Reply::Success => {
                self.state.tx_frames = sat_add1(self.state.tx_frames);
                Ok(())
            },
            Reply::Status(d) => Err(LoraError::Io(concat("toradio put: status ", d.as_str()))),
            Reply::Failed(d) => Err(LoraError::Io(concat("toradio put: ", d.as_str()))),
        }
    }

    /// Judge a message for the shared channel: the bytes to `PUT`, the
    /// trimmed text, or why it is refused.
    pub fn send_longfast(&self, text: &str) -> (r: Result<Vec<u8>, LoraError>)
        ensures
            match send_check(self@.state.connected, text@) {
                Ok(t) => r matches Ok(b) && b@ == encode_utf8(t),
                Err(e) => r == Err::<Vec<u8>, LoraError>(e),
            },
    {
        match check_outbound(self.state.connected, text) {
            Ok(t) => {
                let b = vstd::slice::slice_to_vec(t.as_str().as_bytes());
                Ok(b)
            },
            Err(e) => Err(e),
        }
    }
}

/// The nodes of a numbered table, in table order.
pub open spec fn node_values(v: Seq<(u32, LoraNodeV)>) -> Seq<LoraNodeV> {
    v.map_values(|p: (u32, LoraNodeV)| p.1)
}

impl HttpLoraTransport {
    /// The known nodes, in ascending node number (hence node id) order.
    pub fn nodes(&self) -> (r: Vec<LoraNode>)
        ensures
            lora_nodes_view(r@) == node_values(self@.state.nodes),
    {
        let mut r: Vec<LoraNode> = Vec::new();
        let ghost v = numbered_nodes_view(self.state.nodes@);
        for i in 0..self.state.nodes.len()
            invariant
                v == numbered_nodes_view(self.state.nodes@),
                lora_nodes_view(r@) == node_values(v).take(i as int),
        {
            r.push(self.state.nodes[i].1.duplicate());
            assert(node_values(v).take(i + 1) =~= node_values(v).take(i as int).push(v[i as int].1));
            assert(lora_nodes_view(r@) =~= node_values(v).take(i + 1));
        }
        assert(node_values(v).take(v.len() as int) =~= node_values(v));
        r
    }

    /// The chat lines, oldest first.
    pub fn messages(&self) -> (r: Vec<LoraChatLine>)
        ensures
            lines_view(r@) == self@.state.chat,
    {
        copy_lines(&self.state.chat)
    }

    /// Whether the last poll got a 2xx.
    pub fn connected(&self) -> (r: bool)
        ensures
            r == self@.state.connected,
    {
        self.state.connected
    }

    /// The counters for the status footer.
    pub fn status_snapshot(&self) -> (r: HttpStatus)
        ensures
            r.connected == self@.state.connected,
            r.rx_frames == self@.state.rx_frames,
            r.tx_frames == self@.state.tx_frames,
            r.last_frame_hex@ == self@.state.last_frame_hex,
            opt_text(r.last_error) == self@.state.last_error,
            r.wire == self@.state.wire,
    {
        let last_error = match &self.state.last_error {
            Some(e) => Some(e.clone()),
            None => None,
        };
        HttpStatus {
            connected: self.state.connected,
            rx_frames: self.state.rx_frames,
            tx_frames: self.state.tx_frames,
            last_frame_hex: self.state.last_frame_hex.clone(),
            last_error,
            wire: self.state.wire,
        }
    }
}

// ─── Invariant of the link state ────────────────────────────────────────

/// Node numbers strictly ascending, each node's id the id of its number,
/// at most `MAX_NODES` nodes.
pub open spec fn table_wf(nodes: Seq<(u32, LoraNodeV)>) -> bool {
    &&& nodes.len() <= MAX_NODES
    &&& forall|i: int, j: int| 0 <= i < j < nodes.len() ==> nodes[i].0 < nodes[j].0
    &&& forall|i: int| 0 <= i < nodes.len() ==> #[trigger] nodes[i].1.node_id == node_id_text(
        nodes[i].0,
    )
}

/// In a well-formed node table no two nodes share a number or an id.
pub proof fn lemma_table_ids_unique(nodes: Seq<(u32, LoraNodeV)>)
    requires
        table_wf(nodes),
    ensures
        forall|i: int, j: int|
            0 <= i < j < nodes.len() ==> (#[trigger] nodes[i]).0 != (#[trigger] nodes[j]).0
                && nodes[i].1.node_id != nodes[j].1.node_id,
{
    assert forall|i: int, j: int| 0 <= i < j < nodes.len() implies (#[trigger] nodes[i]).0 != (
    #[trigger] nodes[j]).0 && nodes[i].1.node_id != nodes[j].1.node_id by {
        assert(nodes[i].0 < nodes[j].0);
        assert(nodes[i].1.node_id == node_id_text(nodes[i].0));
        assert(nodes[j].1.node_id == node_id_text(nodes[j].0));
        lemma_node_id_round_trip(nodes[i].0);
        lemma_node_id_round_trip(nodes[j].0);
    }
}

/// The link state's invariant: a well-formed node table and at most
/// `MAX_CHAT_LINES` chat lines.
pub open spec fn state_wf(st: HttpStateV) -> bool {
    table_wf(st.nodes) && st.chat.len() <= MAX_CHAT_LINES
}

proof fn lemma_upsert_wf(nodes: Seq<(u32, LoraNodeV)>, num: u32, node: LoraNodeV)
    requires
        table_wf(nodes),
        node.node_id == node_id_text(num),
    ensures
        table_wf(nodes_upsert(nodes, num, node)),
{
    lemma_node_slot(nodes, num);
    lemma_node_insert_pos(nodes, num);
    let k = node_slot(nodes, num);
    let p = node_insert_pos(nodes, num);
    if k < nodes.len() {
        let r = nodes.update(k, (num, node));
        assert forall|i: int| 0 <= i < r.len() implies #[trigger] r[i].1.node_id == node_id_text(
            r[i].0,
        ) by {
            if i != k {
                assert(r[i] == nodes[i]);
                assert(nodes[i].1.node_id == node_id_text(nodes[i].0));
            } else {
                assert(r[i] == (num, node));
                assert(r[i].1.node_id == node_id_text(num));
            }
        }
    } else if nodes.len() < MAX_NODES {
        let r = nodes.insert(p, (num, node));
        assert forall|j: int| p <= j < nodes.len() implies nodes[j].0 > num by {
            if j > p {
                assert(nodes[p].0 < nodes[j].0);
            }
        }
        assert forall|i: int, j: int| 0 <= i < j < r.len() implies r[i].0 < r[j].0 by {
            if i < p && j < p {
                assert(r[i] == nodes[i] && r[j] == nodes[j]);
            } else if i < p && j == p {
                assert(r[i] == nodes[i]);
                assert(nodes[i].0 != num);
            } else if i < p {
                assert(r[i] == nodes[i] && r[j] == nodes[j - 1]);
            } else if i == p {
                assert(r[j] == nodes[j - 1]);
            } else {
                assert(r[i] == nodes[i - 1] && r[j] == nodes[j - 1]);
            }
        }
        assert forall|i: int| 0 <= i < r.len() implies #[trigger] r[i].1.node_id == node_id_text(
            r[i].0,
        ) by {
            if i < p {
                assert(r[i] == nodes[i]);
                assert(nodes[i].1.node_id == node_id_text(nodes[i].0));
            } else if i > p {
                assert(r[i] == nodes[i - 1]);
                assert(nodes[i - 1].1.node_id == node_id_text(nodes[i - 1].0));
            } else {
                assert(r[i] == (num, node));
                assert(r[i].1.node_id == node_id_text(num));
            }
        }
    }
}

proof fn lemma_apply_frame_wf(st: HttpStateV, f: FromRadioV, my: Option<u32>)
    requires
        state_wf(st),
    ensures
        state_wf(apply_frame(st, f, my)),
{
    match f {
        FromRadioV::NodeInfo(ni) => {
            lemma_upsert_wf(st.nodes, ni.num, node_of(ni));
        },
        _ => {},
    }
}

proof fn lemma_apply_frames_wf(st: HttpStateV, fs: Seq<FromRadioV>, my: Option<u32>)
    requires
        state_wf(st),
    ensures
        state_wf(apply_frames(st, fs, my)),
    decreases fs.len(),
{
    if fs.len() > 0 {
        lemma_apply_frames_wf(st, fs.drop_last(), my);
        lemma_apply_frame_wf(apply_frames(st, fs.drop_last(), my), fs.last(), my);
    }
}

/// A fresh link is well formed, and every response body keeps it so: the
/// node table stays sorted by number, keyed by id and capped at
/// `MAX_NODES`; the chat buffer never holds more than `MAX_CHAT_LINES`.
pub proof fn lemma_ingest_keeps_wf(st: HttpStateV, body: Seq<u8>)
    requires
        state_wf(st),
    ensures
        state_wf(initial_state()),
        state_wf(ingest(st, body)),
{
    if body.len() > 0 {
        let st1 = HttpStateV {
            rx_frames: sat_inc(st.rx_frames),
            last_frame_hex: truncated(hex_text(body), LAST_FRAME_HEX_MAX as nat),
            ..st
        };
        lemma_apply_frames_wf(st1, frames(body), st.my_node_num);
    }
}

// ─── Backlog latch ──────────────────────────────────────────────────────

/// Where the poll loop is in reading the node's backlog: the whole
/// backlog is asked for until a poll has succeeded, only new frames after.
pub struct PollLatch {
    pub bootstrapped: bool,
    /// The outcomes recorded so far, oldest first (`true` for a 2xx reply).
    pub outcomes: Ghost<Seq<bool>>,
}

/// Whether the backlog has been read after polls with outcomes `oks`
/// (`true` for a 2xx reply), starting from `b`.
pub open spec fn latched(b: bool, oks: Seq<bool>) -> bool
    decreases oks.len(),
{
    if oks.len() == 0 {
        b
    } else {
        latched(b, oks.drop_last()) || oks.last()
    }
}

/// From a fresh start the loop asks for the whole backlog exactly until
/// the first successful poll, and for new frames only from then on.
pub proof fn lemma_latch_first_success(oks: Seq<bool>)
    ensures
        latched(false, oks) == exists|i: int| 0 <= i < oks.len() && #[trigger] oks[i],
    decreases oks.len(),
{
    if oks.len() > 0 {
        lemma_latch_first_success(oks.drop_last());
        if latched(false, oks.drop_last()) {
            let i = choose|i: int| 0 <= i < oks.drop_last().len() && #[trigger] oks.drop_last()[i];
            assert(oks[i]);
        }
        if exists|i: int| 0 <= i < oks.len() && #[trigger] oks[i] {
            let i = choose|i: int| 0 <= i < oks.len() && #[trigger] oks[i];
            if i < oks.len() - 1 {
                assert(oks.drop_last()[i]);
            }
        }
    }
}

/// Recording one more outcome extends the history by one step: the latch
/// after `oks` then `ok` is the latch after `oks`, set if `ok`.
pub proof fn lemma_latch_step(b: bool, oks: Seq<bool>, ok: bool)
    ensures
        latched(b, oks.push(ok)) == (latched(b, oks) || ok),
{
    assert(oks.push(ok).drop_last() =~= oks);
}

impl PollLatch {
    /// The flag is the latch over the recorded outcomes from a fresh start.
    pub open spec fn wf(&self) -> bool {
        self.bootstrapped == latched(false, self.outcomes@)
    }

    /// A loop that has not read the backlog yet.
    pub fn new() -> (l: Self)
        ensures
            l.wf(),
            !l.bootstrapped,
            l.outcomes@ == Seq::<bool>::empty(),
    {
        PollLatch { bootstrapped: false, outcomes: Ghost(Seq::empty()) }
    }

    /// The `GET` target of the next poll (see `fromradio_url`): the whole
    /// backlog until some recorded poll succeeded, new frames only after.
    pub fn url(&self, t: &HttpLoraTransport) -> (r: String)
        requires
            self.wf(),
        ensures
            r@ == t@.base + if self.bootstrapped {
                "/api/v1/fromradio?all=false"@
            } else {
                "/api/v1/fromradio?all=true"@
            },
            self.bootstrapped == exists|i: int|
                0 <= i < self.outcomes@.len() && #[trigger] self.outcomes@[i],
    {
        proof {
            lemma_latch_first_success(self.outcomes@);
        }
        t.fromradio_url(self.bootstrapped)
    }

    /// Record a poll's outcome (`ok` for a 2xx reply): once read, the
    /// backlog stays read.
    pub fn record(&mut self, ok: bool)
        requires
            old(self).wf(),
        ensures
            final(self).wf(),
            final(self).outcomes@ == old(self).outcomes@.push(ok),
            final(self).bootstrapped == (old(self).bootstrapped || ok),
    {
        proof {
            lemma_latch_step(false, self.outcomes@, ok);
        }
        if ok {
            self.bootstrapped = true;
        }
        self.outcomes = Ghost(self.outcomes@.push(ok));
    }
}

} // verus!
