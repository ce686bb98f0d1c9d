//! The Mesh screen (Meshtastic over a TCP bridge): the node and chat
//! model, the in-process transport, and the screen's key decisions. The
//! transport calls are made by the caller with the action a key returns.
use vstd::prelude::*;
use vstd::string::StringSliceAdditionalSpecFns;
use vstd::utf8::encode_utf8;
use crate::lora_screen::{sat_add, sat_sub};
use crate::text::{chars_of, concat, has_prefix, push_char, starts_with, str_trim, string_of, trim_seq};
use crate::ui::{Key, Toast, ToastKind};

verus! {

/// A node of the mesh.
#[derive(Debug, Clone, PartialEq, Eq)]
pub struct MeshNode {
    pub node_id: String,
    pub long_name: String,
    pub short_name: String,
    pub hops_away: u8,
    pub last_heard_secs: u64,
    /// Signal-to-noise ratio of the last packet in dB, as the bit pattern
    /// of an `f32` (`f32::to_bits`); only the renderer reads it.
    pub snr_bits: Option<u32>,
}

/// Mathematical value of a `MeshNode`.
pub struct MeshNodeV {
    pub node_id: Seq<char>,
    pub long_name: Seq<char>,
    pub short_name: Seq<char>,
    pub hops_away: u8,
    pub last_heard_secs: u64,
    pub snr_bits: Option<u32>,
}

impl View for MeshNode {
    type V = MeshNodeV;

    open spec fn view(&self) -> MeshNodeV {
        MeshNodeV {
            node_id: self.node_id@,
            long_name: self.long_name@,
            short_name: self.short_name@,
            hops_away: self.hops_away,
            last_heard_secs: self.last_heard_secs,
            snr_bits: self.snr_bits,
        }
    }
}

/// Best human-readable name: the long name, else the short name, else the
/// node id.
pub open spec fn mesh_label(n: MeshNodeV) -> Seq<char> {
    if n.long_name.len() > 0 {
        n.long_name
    } else if n.short_name.len() > 0 {
        n.short_name
    } else {
        n.node_id
    }
}

impl MeshNode {
    /// Best human-readable name for this node.
    pub fn label(&self) -> (r: String)
        ensures
            r@ == mesh_label(self@),
    {
        if !self.long_name.as_str().is_empty() {
            return self.long_name.clone();
        }
        if !self.short_name.as_str().is_empty() {
            return self.short_name.clone();
        }
        self.node_id.clone()
    }

    /// A field-by-field copy.
    pub fn duplicate(&self) -> (r: MeshNode)
        ensures
            r@ == self@,
    {
        MeshNode {
            node_id: self.node_id.clone(),
            long_name: self.long_name.clone(),
            short_name: self.short_name.clone(),
            hops_away: self.hops_away,
            last_heard_secs: self.last_heard_secs,
            snr_bits: self.snr_bits,
        }
    }
}

pub open spec fn mesh_nodes_view(v: Seq<MeshNode>) -> Seq<MeshNodeV> {
    v.map_values(|n: MeshNode| n@)
}

/// A copy of a node list.
pub fn copy_mesh_nodes(v: &Vec<MeshNode>) -> (r: Vec<MeshNode>)
    ensures
        mesh_nodes_view(r@) == mesh_nodes_view(v@),
{
    let mut r: Vec<MeshNode> = Vec::new();
    for i in 0..v.len()
        invariant
            mesh_nodes_view(r@) == mesh_nodes_view(v@.take(i as int)),
    {
        r.push(v[i].duplicate());
        assert(mesh_nodes_view(v@.take(i + 1)) =~= mesh_nodes_view(v@.take(i as int)).push(
            v@[i as int]@,
        ));
    }
    assert(v@.take(v@.len() as int) =~= v@);
    r
}

/// One chat line on the shared channel; `from` is the sender's label,
/// `"me"` for local echoes.
#[derive(Debug, Clone, PartialEq, Eq)]
pub struct MeshChatLine {
    pub from: String,
    pub text: String,
    pub hops_away: u8,
    pub is_local: bool,
}

/// Mathematical value of a `MeshChatLine`.
pub struct MeshChatLineV {
    pub from: Seq<char>,
    pub text: Seq<char>,
    pub hops_away: u8,
    pub is_local: bool,
}

impl View for MeshChatLine {
    type V = MeshChatLineV;

    open spec fn view(&self) -> MeshChatLineV {
        MeshChatLineV {
            from: self.from@,
            text: self.text@,
            hops_away: self.hops_away,
            is_local: self.is_local,
        }
    }
}

impl MeshChatLine {
    /// A field-by-field copy.
    pub fn duplicate(&self) -> (r: MeshChatLine)
        ensures
            r@ == self@,
    {
        MeshChatLine {
            from: self.from.clone(),
            text: self.text.clone(),
            hops_away: self.hops_away,
            is_local: self.is_local,
        }
    }
}

pub open spec fn mesh_lines_view(v: Seq<MeshChatLine>) -> Seq<MeshChatLineV> {
    v.map_values(|l: MeshChatLine| l@)
}

/// A copy of a chat log.
pub fn copy_mesh_lines(v: &Vec<MeshChatLine>) -> (r: Vec<MeshChatLine>)
    ensures
        mesh_lines_view(r@) == mesh_lines_view(v@),
{
    let mut r: Vec<MeshChatLine> = Vec::new();
    for i in 0..v.len()
        invariant
            mesh_lines_view(r@) == mesh_lines_view(v@.take(i as int)),
    {
        r.push(v[i].duplicate());
        assert(mesh_lines_view(v@.take(i + 1)) =~= mesh_lines_view(v@.take(i as int)).push(
            v@[i as int]@,
        ));
    }
    assert(v@.take(v@.len() as int) =~= v@);
    r
}

/// Why a send was refused.
#[derive(Debug, Clone, PartialEq, Eq)]
pub enum MeshError {
    NotConnected,
    Empty,
    TooLong,
    Io(String),
}

/// Longest message, in UTF-8 bytes.
pub const MAX_MESH_MESSAGE_BYTES: usize = 200;

/// How a send of `text` is judged: refused without a link, when the
/// trimmed text is empty, or when it is longer than 200 bytes; otherwise
/// the trimmed text goes out.
pub open spec fn mesh_send_check(connected: bool, text: Seq<char>) -> Result<Seq<char>, MeshError> {
    let t = trim_seq(text);
    if !connected {
        Err(MeshError::NotConnected)
    } else if t.len() == 0 {
        Err(MeshError::Empty)
    } else if encode_utf8(t).len() > MAX_MESH_MESSAGE_BYTES {
        Err(MeshError::TooLong)
    } else {
        Ok(t)
    }
}

pub open spec fn mesh_strings_view(v: Seq<String>) -> Seq<Seq<char>> {
    v.map_values(|s: String| s@)
}

/// A transport with no device behind it: what tests and a box without a
/// bridge use. Sends are checked and echoed locally.
pub struct FakeTransport {
    pub nodes: Vec<MeshNode>,
    pub messages: Vec<MeshChatLine>,
    pub connected: bool,
    /// Messages sent, in order.
    pub sent: Vec<String>,
}

impl FakeTransport {
    /// No nodes, no messages, not connected.
    pub fn new() -> (t: FakeTransport)
        ensures
            t.nodes@.len() == 0,
            t.messages@.len() == 0,
            !t.connected,
            t.sent@.len() == 0,
    {
        FakeTransport { nodes: Vec::new(), messages: Vec::new(), connected: false, sent: Vec::new() }
    }

    /// A disconnected transport that knows `nodes`.
    pub fn with_nodes(nodes: Vec<MeshNode>) -> (t: FakeTransport)
        ensures
            t.nodes@ == nodes@,
            t.messages@.len() == 0,
            !t.connected,
            t.sent@.len() == 0,
    {
        FakeTransport { nodes, messages: Vec::new(), connected: false, sent: Vec::new() }
    }

    /// The same transport with the link flag set.
    pub fn with_connected(self, connected: bool) -> (t: FakeTransport)
        ensures
            t.nodes@ == self.nodes@,
            t.messages@ == self.messages@,
            t.connected == connected,
            t.sent@ == self.sent@,
    {
        let mut t = self;
        t.connected = connected;
        t
    }

    /// The known nodes.
    pub fn nodes(&self) -> (r: Vec<MeshNode>)
        ensures
            mesh_nodes_view(r@) == mesh_nodes_view(self.nodes@),
    {
        copy_mesh_nodes(&self.nodes)
    }

    /// The chat log.
    pub fn messages(&self) -> (r: Vec<MeshChatLine>)
        ensures
            mesh_lines_view(r@) == mesh_lines_view(self.messages@),
    {
        copy_mesh_lines(&self.messages)
    }

    /// Whether a device is attached.
    pub fn connected(&self) -> (r: bool)
        ensures
            r == self.connected,
    {
        self.connected
    }

    /// Send on the shared channel: refused as `mesh_send_check` says;
    /// otherwise the trimmed text is recorded and echoed as a local line
    /// from `me`.
    pub fn send_longfast(&mut self, text: &str) -> (r: Result<(), MeshError>)
        ensures
            final(self).connected == old(self).connected,
            mesh_nodes_view(final(self).nodes@) == mesh_nodes_view(old(self).nodes@),
            match mesh_send_check(old(self).connected, text@) {
                Err(e) => {
                    &&& r == Err::<(), MeshError>(e)
                    &&& mesh_lines_view(final(self).messages@) == mesh_lines_view(
                        old(self).messages@,
                    )
                    &&& mesh_strings_view(final(self).sent@) == mesh_strings_view(old(self).sent@)
                },
                Ok(t) => {
                    &&& r is Ok
                    &&& mesh_lines_view(final(self).messages@) == mesh_lines_view(
                        old(self).messages@,
                    ).push(MeshChatLineV { from: "me"@, text: t, hops_away: 0, is_local: true })
                    &&& mesh_strings_view(final(self).sent@) == mesh_strings_view(
                        old(self).sent@,
                    ).push(t)
                },
            },
    {
        if !self.connected {
            return Err(MeshError::NotConnected);
        }
        let trimmed_text = str_trim(text);
        let trimmed = trimmed_text.as_str();
        if trimmed.is_empty() {
            return Err(MeshError::Empty);
        }
        if trimmed.as_bytes().len() > MAX_MESH_MESSAGE_BYTES {
            return Err(MeshError::TooLong);
        }
        let ghost sent0 = mesh_strings_view(self.sent@);
        let ghost msgs0 = mesh_lines_view(self.messages@);
        self.sent.push(trimmed.to_owned());
        let line = MeshChatLine {
            from: "me".to_owned(),
            text: trimmed.to_owned(),
            hops_away: 0,
            is_local: true,
        };
        self.messages.push(line);
        assert(mesh_strings_view(self.sent@) =~= sent0.push(trimmed@));
        assert(mesh_lines_view(self.messages@) =~= msgs0.push(
            MeshChatLineV { from: "me"@, text: trimmed@, hops_away: 0, is_local: true },
        ));
        Ok(())
    }
}

// ─── The screen ─────────────────────────────────────────────────────────

/// What the Mesh screen reads and writes of the app.
pub struct MeshAppState {
    pub connected: bool,
    pub nodes: Vec<MeshNode>,
    pub chat: Vec<MeshChatLine>,
    /// Chat scroll offset from the live tail (0 = tail).
    pub chat_offset: usize,
    /// The compose line.
    pub input: String,
}

/// Mathematical value of `MeshAppState`.
pub struct MeshAppStateV {
    pub connected: bool,
    pub nodes: Seq<MeshNodeV>,
    pub chat: Seq<MeshChatLineV>,
    pub chat_offset: usize,
    pub input: Seq<char>,
}

impl View for MeshAppState {
    type V = MeshAppStateV;

    open spec fn view(&self) -> MeshAppStateV {
        MeshAppStateV {
            connected: self.connected,
            nodes: mesh_nodes_view(self.nodes@),
            chat: mesh_lines_view(self.chat@),
            chat_offset: self.chat_offset,
            input: self.input@,
        }
    }
}

impl MeshAppState {
    /// The app's Mesh state at start-up: no link, no nodes, an empty log
    /// at its tail, an empty compose line.
    pub fn new() -> (a: MeshAppState)
        ensures
            a@ == (MeshAppStateV {
                connected: false,
                nodes: Seq::empty(),
                chat: Seq::empty(),
                chat_offset: 0,
                input: Seq::empty(),
            }),
    {
        let a = MeshAppState {
            connected: false,
            nodes: Vec::new(),
            chat: Vec::new(),
            chat_offset: 0,
            input: String::new(),
        };
        assert(a@.nodes =~= Seq::<MeshNodeV>::empty());
        assert(a@.chat =~= Seq::<MeshChatLineV>::empty());
        a
    }
}

/// The screen's own state.
pub struct MeshScreen {
    /// Selected node in the right pane; drives the `to:` hint only.
    pub nodes_selected: usize,
}

/// What a key asks the caller to do beyond the state change.
pub enum MeshAction {
    /// Nothing beyond the state change.
    Stay,
    /// Send `text` on the shared channel through the transport.
    Send(String),
}

/// Mathematical value of a `MeshAction`.
pub enum MeshActionV {
    Stay,
    Send(Seq<char>),
}

impl View for MeshAction {
    type V = MeshActionV;

    open spec fn view(&self) -> MeshActionV {
        match self {
            MeshAction::Stay => MeshActionV::Stay,
            MeshAction::Send(t) => MeshActionV::Send(t@),
        }
    }
}

/// What a key did on the Mesh screen.
pub struct MeshKeyOutcome {
    pub selected: usize,
    pub app: MeshAppStateV,
    pub handled: bool,
    pub action: MeshActionV,
}

pub open spec fn mesh_quiet(selected: usize, app: MeshAppStateV) -> MeshKeyOutcome {
    MeshKeyOutcome { selected, app, handled: true, action: MeshActionV::Stay }
}

/// What a key does on the Mesh screen: `j`/`k`/Down/Up scroll the chat
/// by a line, PageDown/PageUp by ten, End/`G` jump to the tail, `g` to the
/// oldest line; Tab and BackTab move the node selection with wrap-around;
/// Enter sends the compose line and clears it; Backspace deletes its last
/// character; any other character is typed while the line is under 200
/// bytes.
pub open spec fn mesh_key_step(selected: usize, app: MeshAppStateV, key: Key) -> MeshKeyOutcome {
    let n = app.nodes.len();
    if key == Key::Char('j') || key == Key::Down {
        mesh_quiet(selected, MeshAppStateV { chat_offset: sat_add(app.chat_offset, 1), ..app })
    } else if key == Key::Char('k') || key == Key::Up {
        mesh_quiet(selected, MeshAppStateV { chat_offset: sat_sub(app.chat_offset, 1), ..app })
    } else if key == Key::End || key == Key::Char('G') {
        mesh_quiet(selected, MeshAppStateV { chat_offset: 0, ..app })
    } else if key == Key::Char('g') {
        mesh_quiet(selected, MeshAppStateV { chat_offset: usize::MAX, ..app })
    } else if key == Key::PageDown {
        mesh_quiet(selected, MeshAppStateV { chat_offset: sat_add(app.chat_offset, 10), ..app })
    } else if key == Key::PageUp {
        mesh_quiet(selected, MeshAppStateV { chat_offset: sat_sub(app.chat_offset, 10), ..app })
    } else if key == Key::Tab {
        mesh_quiet(
            if n == 0 {
                selected
            } else {
                ((selected + 1) % (n as int)) as usize
            },
            app,
        )
    } else if key == Key::BackTab {
        mesh_quiet(
            if n == 0 {
                selected
            } else if selected == 0 {
                (n - 1) as usize
            } else {
                (selected - 1) as usize
            },
            app,
        )
    } else if key == Key::Enter {
        MeshKeyOutcome {
            selected,
            app: MeshAppStateV { input: Seq::empty(), ..app },
            handled: true,
            action: MeshActionV::Send(app.input),
        }
    } else if key == Key::Backspace {
        mesh_quiet(
            selected,
            MeshAppStateV {
                input: if app.input.len() > 0 {
                    app.input.drop_last()
                } else {
                    app.input
                },
                ..app
            },
        )
    } else {
        match key {
            Key::Char(c) => if encode_utf8(app.input).len() < 200 {
                mesh_quiet(selected, MeshAppStateV { input: app.input.push(c), ..app })
            } else {
                mesh_quiet(selected, app)
            },
            _ => MeshKeyOutcome { selected, app, handled: false, action: MeshActionV::Stay },
        }
    }
}

fn pop_last_char(s: &String) -> (r: String)
    ensures
        r@ == if s@.len() > 0 {
            s@.drop_last()
        } else {
            s@
        },
{
    let mut cs = chars_of(s.as_str());
    if cs.len() > 0 {
        cs.pop();
    }
    string_of(&cs)
}

/// The toast a send raises: `sent`, or what went wrong.
pub open spec fn mesh_toast_of(r: Result<(), MeshError>) -> (ToastKind, Seq<char>) {
    match r {
        Ok(_) => (ToastKind::Success, "sent"@),
        Err(MeshError::NotConnected) => (ToastKind::Warn, "mesh: not connected"@),
        Err(MeshError::Empty) => (ToastKind::Warn, "empty message"@),
        Err(MeshError::TooLong) => (ToastKind::Warn, "message too long (max 200)"@),
        Err(MeshError::Io(s)) => (ToastKind::Error, "mesh io: "@ + s@),
    }
}

impl MeshScreen {
    /// A screen with the first node selected.
    pub fn new() -> (s: MeshScreen)
        ensures
            s.nodes_selected == 0,
    {
        MeshScreen { nodes_selected: 0 }
    }

    /// Copy what the transport reports into the app.
    pub fn poll(
        &mut self,
        app: &mut MeshAppState,
        connected: bool,
        nodes: Vec<MeshNode>,
        messages: Vec<MeshChatLine>,
    )
        ensures
            final(self).nodes_selected == old(self).nodes_selected,
            final(app)@ == (MeshAppStateV {
                connected,
                nodes: mesh_nodes_view(nodes@),
                chat: mesh_lines_view(messages@),
                ..old(app)@
            }),
    {
        app.connected = connected;
        app.nodes = nodes;
        app.chat = messages;
    }

    /// Handle a key (see `mesh_key_step`): `true` when the key was used,
    /// with the action the caller must carry out.
    pub fn on_key(&mut self, key: Key, app: &mut MeshAppState) -> (r: (bool, MeshAction))
        requires
            key == Key::Tab && old(app).nodes@.len() > 0 ==> old(self).nodes_selected < usize::MAX,
        ensures
            ({
                let o = mesh_key_step(old(self).nodes_selected, old(app)@, key);
                &&& final(self).nodes_selected == o.selected
                &&& final(app)@ == o.app
                &&& r.0 == o.handled
                &&& r.1@ == o.action
            }),
    {
        if key == Key::Char('j') || key == Key::Down {
            app.chat_offset = app.chat_offset.saturating_add(1);
            (true, MeshAction::Stay)
        } else if key == Key::Char('k') || key == Key::Up {
            app.chat_offset = app.chat_offset.saturating_sub(1);
            (true, MeshAction::Stay)
        } else if key == Key::End || key == Key::Char('G') {
            app.chat_offset = 0;
            (true, MeshAction::Stay)
        } else if key == Key::Char('g') {
            app.chat_offset = usize::MAX;
            (true, MeshAction::Stay)
        } else if key == Key::PageDown {
            app.chat_offset = app.chat_offset.saturating_add(10);
            (true, MeshAction::Stay)
        } else if key == Key::PageUp {
            app.chat_offset = app.chat_offset.saturating_sub(10);
            (true, MeshAction::Stay)
        } else if key == Key::Tab {
            if app.nodes.len() > 0 {
                self.nodes_selected = (self.nodes_selected + 1) % app.nodes.len();
            }
            (true, MeshAction::Stay)
        } else if key == Key::BackTab {
            if app.nodes.len() > 0 {
                self.nodes_selected = if self.nodes_selected == 0 {
                    app.nodes.len() - 1
                } else {
                    self.nodes_selected - 1
                };
            }
            (true, MeshAction::Stay)
        } else if key == Key::Enter {
            let draft = app.input.clone();
            app.input = String::new();
            (true, MeshAction::Send(draft))
        } else if key == Key::Backspace {
            app.input = pop_last_char(&app.input);
            (true, MeshAction::Stay)
        } else {
            match key {
                Key::Char(c) => {
                    if app.input.as_str().as_bytes().len() < 200 {
                        push_char(&mut app.input, c);
                    }
                    (true, MeshAction::Stay)
                },
                _ => (false, MeshAction::Stay),
            }
        }
    }

    /// After the caller ran the send a key asked for: on success the chat
    /// log is replaced by the transport's `messages`; either way the toast
    /// to show is returned.
    pub fn after_send(
        app: &mut MeshAppState,
        result: &Result<(), MeshError>,
        messages: Vec<MeshChatLine>,
    ) -> (t: Toast)
        ensures
            (t.kind, t.text@) == mesh_toast_of(*result),
            final(app)@ == if result is Ok {
                MeshAppStateV { chat: mesh_lines_view(messages@), ..old(app)@ }
            } else {
                old(app)@
            },
    {
        if result.is_ok() {
            app.chat = messages;
        }
        match result {
            Ok(_) => Toast { kind: ToastKind::Success, text: "sent".to_owned() },
            Err(MeshError::NotConnected) => Toast {
                kind: ToastKind::Warn,
                text: "mesh: not connected".to_owned(),
            },
            Err(MeshError::Empty) => Toast {
                kind: ToastKind::Warn,
                text: "empty message".to_owned(),
            },
            Err(MeshError::TooLong) => Toast {
                kind: ToastKind::Warn,
                text: "message too long (max 200)".to_owned(),
            },
            Err(MeshError::Io(s)) => Toast {
                kind: ToastKind::Error,
                text: concat("mesh io: ", s.as_str()),
            },
        }
    }
}

/// Whether a device path looks like a Meshtastic USB-CDC mount
/// (`/dev/ttyUSB*` or `/dev/ttyACM*`): it exists, its directory is `/dev`
/// and its file name starts with `ttyUSB` or `ttyACM`.
pub open spec fn serial_path_ok(exists: bool, parent: Option<Seq<char>>, file_name: Option<Seq<char>>) -> bool {
    &&& exists
    &&& parent == Some("/dev"@)
    &&& match file_name {
        Some(n) => has_prefix(n, "ttyUSB"@) || has_prefix(n, "ttyACM"@),
        None => false,
    }
}

/// Decide from what the file system said of a path (whether it exists,
/// its directory and its file name, each when that is valid UTF-8)
/// whether it is a Meshtastic serial device.
pub fn is_meshtastic_serial_path(exists: bool, parent: Option<&str>, file_name: Option<&str>) -> (r: bool)
    ensures
        r == serial_path_ok(
            exists,
            match parent {
                Some(d) => Some(d@),
                None => None,
            },
            match file_name {
                Some(n) => Some(n@),
                None => None,
            },
        ),
{
    if !exists {
        return false;
    }
    let in_dev = match parent {
        Some(d) => crate::text::same_str(d, "/dev"),
        None => false,
    };
    if !in_dev {
        return false;
    }
    match file_name {
        Some(name) => starts_with(name, "ttyUSB") || starts_with(name, "ttyACM"),
        None => false,
    }
}

} // verus!
