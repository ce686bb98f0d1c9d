//! The LoRa screen's decisions: what a key does to the right-pane cursor,
//! the chat scroll offset, the compose line and the active thread; which
//! toast a send raises; and how a poll reconciles the active thread with
//! what the transport reported. The transport calls themselves are made
//! by the caller with the action a key returns.
use vstd::prelude::*;
use vstd::string::StringSliceAdditionalSpecFns;
use vstd::utf8::encode_utf8;
use crate::lora::{
    keys_sorted, lemma_sorted_by_key_unique, lemma_with_key_member, lora_nodes_view, node_label,
    sort_lora_threads, thread_key, threads_view, with_key,
    ChannelKind, LoraError, LoraNode, LoraNodeV, Thread, ThreadV,
};
use crate::proto::{node_id_from_num, node_id_text, node_id_to_num, node_num_of};
use crate::text::{chars_of, concat, push_char, string_of};
use crate::ui::{Key, Toast, ToastKind};
use crate::mesh::serial_path_ok;

verus! {

/// Longest compose line, in UTF-8 bytes.
pub const MAX_INPUT_BYTES: usize = 200;

/// Rows a page key scrolls the chat by.
pub const PAGE_ROWS: usize = 10;

/// Prompt of the node-address modal.
pub const NODE_IP_PROMPT: &'static str = "Node IP (Meshtastic HTTP API)";

/// What the LoRa screen reads and writes of the app.
pub struct LoraAppState {
    /// Whether the right pane (channels and nodes) has the focus.
    pub right_pane: bool,
    pub connected: bool,
    pub nodes: Vec<LoraNode>,
    pub threads: Vec<Thread>,
    pub active: ChannelKind,
    /// Chat scroll offset from the live tail (0 = tail).
    pub chat_offset: usize,
    /// The compose line.
    pub input: String,
    /// Address of the configured node, if any.
    pub node_ip: Option<String>,
}

/// Mathematical value of `LoraAppState`.
pub struct LoraAppStateV {
    pub right_pane: bool,
    pub connected: bool,
    pub nodes: Seq<LoraNodeV>,
    pub threads: Seq<ThreadV>,
    pub active: ChannelKind,
    pub chat_offset: usize,
    pub input: Seq<char>,
    pub node_ip: Option<Seq<char>>,
}

pub open spec fn opt_chars(s: Option<String>) -> Option<Seq<char>> {
    match s {
        Some(t) => Some(t@),
        None => None,
    }
}

impl View for LoraAppState {
    type V = LoraAppStateV;

    open spec fn view(&self) -> LoraAppStateV {
        LoraAppStateV {
            right_pane: self.right_pane,
            connected: self.connected,
            nodes: lora_nodes_view(self.nodes@),
            threads: threads_view(self.threads@),
            active: self.active,
            chat_offset: self.chat_offset,
            input: self.input@,
            node_ip: opt_chars(self.node_ip),
        }
    }
}

impl LoraAppState {
    /// The app's LoRa state at start-up: chat pane focused, no link, no
    /// nodes or threads, LongFast active, at the tail, empty compose line,
    /// no node address.
    pub fn new() -> (a: LoraAppState)
        ensures
            a@ == (LoraAppStateV {
                right_pane: false,
                connected: false,
                nodes: Seq::empty(),
                threads: Seq::empty(),
                active: ChannelKind::LongFast,
                chat_offset: 0,
                input: Seq::empty(),
                node_ip: None,
            }),
    {
        let a = LoraAppState {
            right_pane: false,
            connected: false,
            nodes: Vec::new(),
            threads: Vec::new(),
            active: ChannelKind::LongFast,
            chat_offset: 0,
            input: String::new(),
            node_ip: None,
        };
        assert(a@.nodes =~= Seq::<LoraNodeV>::empty());
        assert(a@.threads =~= Seq::<ThreadV>::empty());
        a
    }
}

/// The screen's own state.
pub struct LoraScreen {
    /// Cursor over the right pane: 0 is the LongFast row, `k` is node
    /// `k - 1`.
    pub cursor: usize,
    /// The node address the current transport was built for.
    pub current_node_ip: Option<String>,
}

/// What a key asks the caller to do beyond the state change.
pub enum LoraAction {
    /// Nothing beyond the state change.
    Stay,
    /// Open the node-address modal, pre-filled.
    AskNodeIp { prompt: String, prefill: String },
    /// Send `text` to the thread `kind` through the transport.
    Send { kind: ChannelKind, text: String },
}

/// Mathematical value of a `LoraAction`.
pub enum LoraActionV {
    Stay,
    AskNodeIp { prompt: Seq<char>, prefill: Seq<char> },
    Send { kind: ChannelKind, text: Seq<char> },
}

impl View for LoraAction {
    type V = LoraActionV;

    open spec fn view(&self) -> LoraActionV {
        match self {
            LoraAction::Stay => LoraActionV::Stay,
            LoraAction::AskNodeIp { prompt, prefill } => LoraActionV::AskNodeIp {
                prompt: prompt@,
                prefill: prefill@,
            },
            LoraAction::Send { kind, text } => LoraActionV::Send { kind: *kind, text: text@ },
        }
    }
}

/// What a key did: the new cursor and app state, whether the key was
/// used, and the action for the caller.
pub struct LoraKeyOutcome {
    pub cursor: usize,
    pub app: LoraAppStateV,
    pub handled: bool,
    pub action: LoraActionV,
}

/// Rows of the right pane: the LongFast row and one per node.
pub open spec fn pane_rows(nodes: Seq<LoraNodeV>) -> int {
    if nodes.len() < usize::MAX {
        nodes.len() + 1int
    } else {
        usize::MAX as int
    }
}

pub open spec fn sat_add(a: usize, b: usize) -> usize {
    if a + b > usize::MAX {
        usize::MAX
    } else {
        (a + b) as usize
    }
}

pub open spec fn sat_sub(a: usize, b: usize) -> usize {
    if a < b {
        0
    } else {
        (a - b) as usize
    }
}

/// The keys the focused right pane takes for itself.
pub open spec fn right_pane_key(key: Key) -> bool {
    key == Key::Down || key == Key::Char('j') || key == Key::Up || key == Key::Char('k')
        || key == Key::Enter || key == Key::Esc
}

pub open spec fn unhandled(cursor: usize, app: LoraAppStateV) -> LoraKeyOutcome {
    LoraKeyOutcome { cursor, app, handled: false, action: LoraActionV::Stay }
}

pub open spec fn quiet(cursor: usize, app: LoraAppStateV) -> LoraKeyOutcome {
    LoraKeyOutcome { cursor, app, handled: true, action: LoraActionV::Stay }
}

/// What a key does on the LoRa screen. With the right pane focused,
/// Down/`j` and Up/`k` move the cursor within the rows (no wrap), Enter
/// opens the row under it (LongFast or the node's direct thread) and Esc
/// goes back to LongFast. Otherwise `j`/`k`/Down/Up scroll the chat by a
/// line, PageDown/PageUp by ten, End/`G` jump to the tail, `g` to the
/// oldest line; `i` on an empty compose line asks for the node address;
/// Enter sends the compose line to the active thread and clears it;
/// Backspace deletes its last character; any other character is typed
/// while the line is under 200 bytes.
pub open spec fn lora_key_step(cursor: usize, app: LoraAppStateV, key: Key) -> LoraKeyOutcome {
    if app.right_pane && right_pane_key(key) {
        if key == Key::Down || key == Key::Char('j') {
            quiet(
                if cursor + 1 < pane_rows(app.nodes) {
                    (cursor + 1) as usize
                } else {
                    cursor
                },
                app,
            )
        } else if key == Key::Up || key == Key::Char('k') {
            quiet(
                if cursor > 0 {
                    (cursor - 1) as usize
                } else {
                    cursor
                },
                app,
            )
        } else if key == Key::Enter {
            if cursor == 0 {
                quiet(cursor, LoraAppStateV { active: ChannelKind::LongFast, ..app })
            } else if cursor - 1 < app.nodes.len() {
                quiet(
                    cursor,
                    LoraAppStateV {
                        active: ChannelKind::Direct(node_num_of(app.nodes[cursor - 1].node_id)),
                        ..app
                    },
                )
            } else {
                quiet(cursor, app)
            }
        } else {
            quiet(cursor, LoraAppStateV { active: ChannelKind::LongFast, ..app })
        }
    } else if key == Key::Char('j') || key == Key::Down {
        quiet(cursor, LoraAppStateV { chat_offset: sat_add(app.chat_offset, 1), ..app })
    } else if key == Key::Char('k') || key == Key::Up {
        quiet(cursor, LoraAppStateV { chat_offset: sat_sub(app.chat_offset, 1), ..app })
    } else if key == Key::End || key == Key::Char('G') {
        quiet(cursor, LoraAppStateV { chat_offset: 0, ..app })
    } else if key == Key::Char('g') {
        quiet(cursor, LoraAppStateV { chat_offset: usize::MAX, ..app })
    } else if key == Key::PageDown {
        quiet(cursor, LoraAppStateV { chat_offset: sat_add(app.chat_offset, PAGE_ROWS), ..app })
    } else if key == Key::PageUp {
        quiet(cursor, LoraAppStateV { chat_offset: sat_sub(app.chat_offset, PAGE_ROWS), ..app })
    } else if key == Key::Enter {
        LoraKeyOutcome {
            cursor,
            app: LoraAppStateV { input: Seq::empty(), ..app },
            handled: true,
            action: LoraActionV::Send { kind: app.active, text: app.input },
        }
    } else if key == Key::Backspace {
        quiet(
            cursor,
            LoraAppStateV {
                input: if app.input.len() > 0 {
                    app.input.drop_last()
                } else {
                    app.input
                },
                ..app
            },
        )
    } else if key == Key::Char('i') && app.input.len() == 0 {
        LoraKeyOutcome {
            cursor,
            app,
            handled: true,
            action: LoraActionV::AskNodeIp {
                prompt: NODE_IP_PROMPT@,
                prefill: match app.node_ip {
                    Some(ip) => ip,
                    None => Seq::empty(),
                },
            },
        }
    } else {
        match key {
            Key::Char(c) => if encode_utf8(app.input).len() < MAX_INPUT_BYTES {
                quiet(cursor, LoraAppStateV { input: app.input.push(c), ..app })
            } else {
                quiet(cursor, app)
            },
            _ => unhandled(cursor, app),
        }
    }
}

/// `s` without its last character (unchanged when empty).
pub(crate) fn pop_char(s: &String) -> (r: String)
    ensures
        r@ == if s@.len() > 0 {
            s@.drop_last()
        } else {
            s@
        },
{
    let mut cs = chars_of(s.as_str());
    if cs.len() > 0 {
        cs.pop();
    }
    string_of(&cs)
}

impl LoraScreen {
    /// A screen with the cursor on the LongFast row and no node yet.
    pub fn new() -> (s: LoraScreen)
        ensures
            s.cursor == 0,
            s.current_node_ip is None,
    {
        LoraScreen { cursor: 0, current_node_ip: None }
    }

    /// Handle a key (see `lora_key_step`): `true` when the key was used,
    /// with the action the caller must carry out.
    pub fn on_key(&mut self, key: Key, app: &mut LoraAppState) -> (r: (bool, LoraAction))
        requires
            old(app).right_pane && (key == Key::Down || key == Key::Char('j')) ==> old(
                self,
            ).cursor < usize::MAX,
        ensures
            ({
                let o = lora_key_step(old(self).cursor, old(app)@, key);
                &&& final(self).cursor == o.cursor
                &&& final(app)@ == o.app
                &&& r.0 == o.handled
                &&& r.1@ == o.action
            }),
            final(self).current_node_ip == old(self).current_node_ip,
    {
        if app.right_pane {
            let total_rows: usize = if app.nodes.len() < usize::MAX {
                app.nodes.len() + 1
            } else {
                usize::MAX
            };
            if key == Key::Down || key == Key::Char('j') {
                if self.cursor + 1 < total_rows {
                    self.cursor += 1;
                }
                return (true, LoraAction::Stay);
            } else if key == Key::Up || key == Key::Char('k') {
                if self.cursor > 0 {
                    self.cursor -= 1;
                }
                return (true, LoraAction::Stay);
            } else if key == Key::Enter {
                if self.cursor == 0 {
                    app.active = ChannelKind::LongFast;
                } else if self.cursor - 1 < app.nodes.len() {
                    let num = node_id_to_num(app.nodes[self.cursor - 1].node_id.as_str());
                    app.active = ChannelKind::Direct(num);
                }
                return (true, LoraAction::Stay);
            } else if key == Key::Esc {
                app.active = ChannelKind::LongFast;
                return (true, LoraAction::Stay);
            }
        }
        if key == Key::Char('j') || key == Key::Down {
            app.chat_offset = app.chat_offset.saturating_add(1);
            (true, LoraAction::Stay)
        } else if key == Key::Char('k') || key == Key::Up {
            app.chat_offset = app.chat_offset.saturating_sub(1);
            (true, LoraAction::Stay)
        } else if key == Key::End || key == Key::Char('G') {
            app.chat_offset = 0;
            (true, LoraAction::Stay)
        } else if key == Key::Char('g') {
            app.chat_offset = usize::MAX;
            (true, LoraAction::Stay)
        } else if key == Key::PageDown {
            app.chat_offset = app.chat_offset.saturating_add(PAGE_ROWS);
            (true, LoraAction::Stay)
        } else if key == Key::PageUp {
            app.chat_offset = app.chat_offset.saturating_sub(PAGE_ROWS);
            (true, LoraAction::Stay)
        } else if key == Key::Enter {
            let draft = app.input.clone();
            app.input = String::new();
            (true, LoraAction::Send { kind: app.active, text: draft })
        } else if key == Key::Backspace {
            app.input = pop_char(&app.input);
            (true, LoraAction::Stay)
        } else if key == Key::Char('i') && app.input.as_str().is_empty() {
            let prefill = match &app.node_ip {
                Some(ip) => ip.clone(),
                None => String::new(),
            };
            (true, LoraAction::AskNodeIp { prompt: NODE_IP_PROMPT.to_owned(), prefill })
        } else {
            match key {
                Key::Char(c) => {
                    if app.input.as_str().as_bytes().len() < MAX_INPUT_BYTES {
                        push_char(&mut app.input, c);
                    }
                    (true, LoraAction::Stay)
                },
                _ => (false, LoraAction::Stay),
            }
        }
    }
}

// ─── After a send ───────────────────────────────────────────────────────

/// The toast a send raises: `sent`, or what went wrong.
pub open spec fn send_toast_of(r: Result<(), LoraError>) -> (ToastKind, Seq<char>) {
    match r {
        Ok(_) => (ToastKind::Success, "sent"@),
        Err(LoraError::NotConnected) => (ToastKind::Warn, "lora: not connected"@),
        Err(LoraError::Empty) => (ToastKind::Warn, "empty message"@),
        Err(LoraError::TooLong) => (ToastKind::Warn, "message too long (max 200)"@),
        Err(LoraError::Io(s)) => (ToastKind::Error, "lora io: "@ + s@),
    }
}

/// The toast for the outcome of a send.
pub fn send_toast(r: &Result<(), LoraError>) -> (t: Toast)
    ensures
        (t.kind, t.text@) == send_toast_of(*r),
{
    match r {
        Ok(_) => Toast { kind: ToastKind::Success, text: "sent".to_owned() },
        Err(LoraError::NotConnected) => Toast {
            kind: ToastKind::Warn,
            text: "lora: not connected".to_owned(),
        },
        Err(LoraError::Empty) => Toast { kind: ToastKind::Warn, text: "empty message".to_owned() },
        Err(LoraError::TooLong) => Toast {
            kind: ToastKind::Warn,
            text: "message too long (max 200)".to_owned(),
        },
        Err(LoraError::Io(s)) => Toast {
            kind: ToastKind::Error,
            text: concat("lora io: ", s.as_str()),
        },
    }
}

// ─── Poll ───────────────────────────────────────────────────────────────

/// Whether some thread of `threads` is of kind `k`.
pub open spec fn has_thread(threads: Seq<ThreadV>, k: ChannelKind) -> bool {
    exists|i: int| 0 <= i < threads.len() && #[trigger] threads[i].kind == k
}

/// The threads of report `tt` with a new, empty thread for node `n`
/// (labelled as `dm_label` says) added, stably sorted by key.
pub open spec fn seeded_threads(tt: Seq<ThreadV>, nodes: Seq<LoraNodeV>, n: u32, fin: Seq<ThreadV>) -> bool {
    let added = tt.push(
        ThreadV { kind: ChannelKind::Direct(n), label: dm_label(nodes, n), lines: Seq::empty() },
    );
    &&& fin.len() == added.len()
    &&& keys_sorted(fin)
    &&& forall|key: int| #[trigger] with_key(fin, key) == with_key(added, key)
}

/// However often the same report is polled while a direct conversation
/// missing from it is active, the app ends up with the same threads, and
/// they hold exactly one thread for that node: new, empty, labelled after
/// it.
pub proof fn lemma_repeated_polls_agree(
    tt: Seq<ThreadV>,
    nodes: Seq<LoraNodeV>,
    n: u32,
    a: Seq<ThreadV>,
    b: Seq<ThreadV>,
)
    requires
        !has_thread(tt, ChannelKind::Direct(n)),
        seeded_threads(tt, nodes, n, a),
        seeded_threads(tt, nodes, n, b),
    ensures
        a == b,
        with_key(a, n as int) == seq![
            ThreadV { kind: ChannelKind::Direct(n), label: dm_label(nodes, n), lines: Seq::empty() },
        ],
{
    let t = ThreadV { kind: ChannelKind::Direct(n), label: dm_label(nodes, n), lines: Seq::empty() };
    let added = tt.push(t);
    assert forall|key: int| #[trigger] with_key(a, key) == with_key(b, key) by {
        assert(with_key(a, key) == with_key(added, key));
        assert(with_key(b, key) == with_key(added, key));
    }
    lemma_sorted_by_key_unique(a, b);
    lemma_with_key_member(tt, n as int);
    if with_key(tt, n as int).len() > 0 {
        let i = choose|i: int| 0 <= i < tt.len() && thread_key(#[trigger] tt[i].kind) == n as int;
        assert(tt[i].kind == ChannelKind::Direct(n));
    }
    assert(added.drop_last() =~= tt);
    assert(with_key(a, n as int) == with_key(added, n as int));
    assert(with_key(added, n as int) =~= seq![t]);
}

/// Index of the first node whose id names node number `n`, or the length.
pub open spec fn first_node_numbered(nodes: Seq<LoraNodeV>, n: u32) -> int
    decreases nodes.len(),
{
    if nodes.len() == 0 {
        0
    } else if node_num_of(nodes[0].node_id) == n {
        0
    } else {
        1 + first_node_numbered(nodes.drop_first(), n)
    }
}

/// Label of a direct thread with node `n`: the first matching node's
/// label, else the node id.
pub open spec fn dm_label(nodes: Seq<LoraNodeV>, n: u32) -> Seq<char> {
    let k = first_node_numbered(nodes, n);
    if k < nodes.len() {
        node_label(nodes[k])
    } else {
        node_id_text(n)
    }
}

proof fn lemma_first_node_numbered_at(nodes: Seq<LoraNodeV>, n: u32, i: int)
    requires
        0 <= i <= nodes.len(),
        i < nodes.len() ==> node_num_of(nodes[i].node_id) == n,
        forall|j: int| 0 <= j < i ==> node_num_of(#[trigger] nodes[j].node_id) != n,
    ensures
        first_node_numbered(nodes, n) == i,
    decreases nodes.len(),
{
    if nodes.len() > 0 && i > 0 {
        assert forall|j: int| 0 <= j < i - 1 implies node_num_of(
            #[trigger] nodes.drop_first()[j].node_id,
        ) != n by {
            assert(nodes.drop_first()[j] == nodes[j + 1]);
        }
        lemma_first_node_numbered_at(nodes.drop_first(), n, i - 1);
    }
}

fn dm_thread_label(nodes: &Vec<LoraNode>, n: u32) -> (s: String)
    ensures
        s@ == dm_label(lora_nodes_view(nodes@), n),
{
    let ghost v = lora_nodes_view(nodes@);
    let mut i: usize = 0;
    while i < nodes.len()
        invariant
            i <= nodes@.len(),
            v == lora_nodes_view(nodes@),
            forall|j: int| 0 <= j < i ==> node_num_of(#[trigger] v[j].node_id) != n,
        decreases nodes@.len() - i,
    {
        if node_id_to_num(nodes[i].node_id.as_str()) == n {
            proof {
                lemma_first_node_numbered_at(v, n, i as int);
            }
            return nodes[i].label();
        }
        i += 1;
    }
    proof {
        lemma_first_node_numbered_at(v, n, i as int);
    }
    node_id_from_num(n)
}

fn find_kind(threads: &Vec<Thread>, k: ChannelKind) -> (r: bool)
    ensures
        r == has_thread(threads_view(threads@), k),
{
    let ghost v = threads_view(threads@);
    let mut i: usize = 0;
    while i < threads.len()
        invariant
            i <= threads@.len(),
            v == threads_view(threads@),
            forall|j: int| 0 <= j < i ==> v[j].kind != k,
        decreases threads@.len() - i,
    {
        if threads[i].kind == k {
            assert(v[i as int].kind == k);
            return true;
        }
        i += 1;
    }
    false
}

impl LoraScreen {
    /// After the caller ran the send a key asked for: on success the
    /// thread list is replaced by the transport's `threads`; either way
    /// the toast to show is returned.
    pub fn after_send(
        app: &mut LoraAppState,
        result: &Result<(), LoraError>,
        threads: Vec<Thread>,
    ) -> (t: Toast)
        ensures
            (t.kind, t.text@) == send_toast_of(*result),
            final(app)@ == if result is Ok {
                LoraAppStateV { threads: threads_view(threads@), ..old(app)@ }
            } else {
                old(app)@
            },
    {
        if result.is_ok() {
            app.threads = threads;
        }
        send_toast(result)
    }

    /// Copy what the transport reports into the app; the active thread
    /// never changes. When no thread of a direct conversation's kind
    /// exists, one is added for it (labelled after the node, else its id)
    /// and the list is re-sorted, so a freshly opened conversation stays
    /// selected.
    pub fn poll(
        &mut self,
        app: &mut LoraAppState,
        connected: bool,
        nodes: Vec<LoraNode>,
        threads: Vec<Thread>,
    )
        ensures
            final(self).cursor == old(self).cursor,
            final(self).current_node_ip == old(self).current_node_ip,
            final(app)@.connected == connected,
            final(app)@.nodes == lora_nodes_view(nodes@),
            final(app)@.right_pane == old(app)@.right_pane,
            final(app)@.chat_offset == old(app)@.chat_offset,
            final(app)@.input == old(app)@.input,
            final(app)@.node_ip == old(app)@.node_ip,
            final(app)@.active == old(app)@.active,
            has_thread(threads_view(threads@), old(app)@.active) ==> {
                &&& final(app)@.threads == threads_view(threads@)
                &&& final(app)@.active == old(app)@.active
            },
            !has_thread(threads_view(threads@), old(app)@.active) ==> match old(app)@.active {
                ChannelKind::Direct(n) => {
                    &&& final(app)@.active == old(app)@.active
                    &&& seeded_threads(
                        threads_view(threads@),
                        lora_nodes_view(nodes@),
                        n,
                        final(app)@.threads,
                    )
                },
                ChannelKind::LongFast => {
                    &&& final(app)@.threads == threads_view(threads@)
                    &&& final(app)@.active == ChannelKind::LongFast
                },
            },
    {
        app.connected = connected;
        app.nodes = nodes;
        app.threads = threads;
        if !find_kind(&app.threads, app.active) {
            match app.active {
                ChannelKind::Direct(n) => {
                    let label = dm_thread_label(&app.nodes, n);
                    let t = Thread::new(ChannelKind::Direct(n), label.as_str());
                    let ghost before = threads_view(app.threads@);
                    app.threads.push(t);
                    assert(threads_view(app.threads@) =~= before.push(t@));
                    sort_lora_threads(&mut app.threads);
                },
                ChannelKind::LongFast => {
                    app.active = ChannelKind::LongFast;
                },
            }
        }
    }
}

// ─── Transport swap ─────────────────────────────────────────────────────

/// What a poll does about the transport when the configured node address
/// may have changed.
pub enum TransportSwap {
    /// The address is the one the transport was built for.
    Keep,
    /// Build an HTTP transport for this address.
    Connect(String),
    /// The address was cleared: back to the in-process transport.
    Disconnect,
}

fn same_text(a: &Option<String>, b: &Option<String>) -> (r: bool)
    ensures
        r == (opt_chars(*a) == opt_chars(*b)),
{
    match (a, b) {
        (Some(x), Some(y)) => {
            let xs = chars_of(x.as_str());
            let ys = chars_of(y.as_str());
            if xs.len() != ys.len() {
                assert(x@.len() != y@.len());
                return false;
            }
            let mut i: usize = 0;
            while i < xs.len()
                invariant
                    xs@ == x@,
                    ys@ == y@,
                    opt_chars(*a) == Some(x@),
                    opt_chars(*b) == Some(y@),
                    xs@.len() == ys@.len(),
                    i <= xs@.len(),
                    forall|j: int| 0 <= j < i ==> xs@[j] == ys@[j],
                decreases xs@.len() - i,
            {
                if xs[i] != ys[i] {
                    assert(x@[i as int] != y@[i as int]);
                    return false;
                }
                i += 1;
            }
            assert(x@ =~= y@);
            true
        },
        (None, None) => true,
        _ => false,
    }
}

impl LoraScreen {
    /// What to do about the transport for the configured `node_ip`.
    pub fn transport_swap(&self, node_ip: &Option<String>) -> (r: TransportSwap)
        ensures
            opt_chars(*node_ip) == opt_chars(self.current_node_ip) ==> r is Keep,
            opt_chars(*node_ip) != opt_chars(self.current_node_ip) ==> match *node_ip {
                Some(ip) => r matches TransportSwap::Connect(a) && a@ == ip@,
                None => r is Disconnect,
            },
    {
        if same_text(node_ip, &self.current_node_ip) {
            TransportSwap::Keep
        } else {
            match node_ip {
                Some(ip) => TransportSwap::Connect(ip.clone()),
                None => TransportSwap::Disconnect,
            }
        }
    }

    /// Record the swap the caller made for `node_ip`: a transport that
    /// could not be built leaves no address recorded, so the next poll
    /// tries again.
    pub fn swapped(&mut self, node_ip: Option<String>, built: bool)
        ensures
            final(self).cursor == old(self).cursor,
            opt_chars(final(self).current_node_ip) == if built {
                opt_chars(node_ip)
            } else {
                None
            },
    {
        if built {
            self.current_node_ip = node_ip;
        } else {
            self.current_node_ip = None;
        }
    }
}

/// Decide from what the file system said of a path (whether it exists,
/// its directory and its file name, each when that is valid UTF-8)
/// whether it is a Meshtastic USB serial device (`/dev/ttyUSB*` or
/// `/dev/ttyACM*`).
pub fn is_meshtastic_serial_path(exists: bool, parent: Option<&str>, file_name: Option<&str>) -> (r: bool)
    ensures
        r == serial_path_ok(
            exists,
            match parent {
                Some(d) => Some(d@),
                None => None,
            },
            match file_name {
                Some(n) => Some(n@),
                None => None,
            },
        ),
{
    crate::mesh::is_meshtastic_serial_path(exists, parent, file_name)
}

} // verus!
