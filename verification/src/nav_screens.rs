//! The D-pad screens. Each takes a navigation event and the screen's own
//! state, changes the state, and says whether it used the event and what
//! the application is asked to do besides.
use vstd::prelude::*;
use vstd::utf8::encode_utf8;
use crate::lines::{line_seqs, lines_of, views};
use crate::lists::clamped;
use crate::lora_screen::{pop_char, sat_sub};
use crate::system_screens::{pick, volume_down, volume_up, BtDevice, Sink};
use crate::text::{concat, dec_text, decimal, push_char, str_trim, trim_seq, truncate_chars, truncated};
use crate::ui::{Consumed, NavEvent, RunAction};

verus! {

/// What a D-pad event asks of the application besides the screen's state.
pub enum NavRequest {
    /// Nothing more.
    Stay,
    /// Go back to the previous screen.
    GoBack,
    /// Queue a system action.
    Queue(RunAction),
    /// Ask to confirm `message`, then queue `action`.
    ConfirmRun { message: String, action: RunAction },
    /// Submit a prompt to the assistant.
    SubmitPrompt(String),
    /// Send a message on the LongFast channel.
    SendLongFast(String),
    /// Ask for a node to add (`IP [optional label]`).
    AddNode,
    /// Ask to confirm removing the saved node at `idx`.
    DeleteNode { idx: usize, message: String },
    /// Read the screen's data again.
    Reload,
    /// Move into the named directory and list it.
    OpenDir(String),
    /// Move to the parent directory and list it.
    ParentDir,
}

/// Whether the request is `Stay`.
pub open spec fn stays(r: NavRequest) -> bool {
    r is Stay
}

// ─── Focus zones ────────────────────────────────────────────────────────

/// The focus zone after an event on a two-pane screen: Left and Right pick
/// the pane, Tab and BackTab cycle; other events keep it.
pub open spec fn zone_after(focus: usize, ev: NavEvent) -> usize {
    match ev {
        NavEvent::Left => 0,
        NavEvent::Right => 1,
        NavEvent::Tab => ((focus + 1) % 2) as usize,
        NavEvent::BackTab => ((focus + 2 - 1) % 2) as usize,
        _ => focus,
    }
}

/// Whether an event moves the focus between panes.
pub open spec fn is_zone_event(ev: NavEvent) -> bool {
    ev is Left || ev is Right || ev is Tab || ev is BackTab
}

/// Whether cycling the focus stays within `usize`.
pub open spec fn zone_fits(focus: usize, ev: NavEvent) -> bool {
    &&& ev is Tab ==> focus < usize::MAX
    &&& ev is BackTab ==> focus + 2 <= usize::MAX
}

/// Move the focus between the two panes (see `zone_after`); whether the
/// event was a pane event.
pub fn focus_step(focus: &mut usize, ev: NavEvent) -> (used: bool)
    requires
        zone_fits(*old(focus), ev),
    ensures
        used == is_zone_event(ev),
        *final(focus) == zone_after(*old(focus), ev),
{
    match ev {
        NavEvent::Left => {
            *focus = 0;
            true
        },
        NavEvent::Right => {
            *focus = 1;
            true
        },
        NavEvent::Tab => {
            *focus = (*focus + 1) % 2;
            true
        },
        NavEvent::BackTab => {
            *focus = (*focus + 2 - 1) % 2;
            true
        },
        _ => false,
    }
}

/// The pane in focus is the right one only for focus 1.
pub open spec fn right_focused(focus: usize) -> bool {
    focus == 1
}

// ─── Cursor steps shared by the lists ───────────────────────────────────

/// The cursor one row down in a list of `count` rows (never past the last).
pub open spec fn step_down(selected: usize, count: usize) -> usize {
    if selected + 1 < count - 1 {
        (selected + 1) as usize
    } else {
        (count - 1) as usize
    }
}

fn down_in(selected: usize, count: usize) -> (r: usize)
    requires
        count > 0,
        selected < usize::MAX,
    ensures
        r == step_down(selected, count),
{
    if selected + 1 < count - 1 {
        selected + 1
    } else {
        count - 1
    }
}

/// The outcome of a plain list event: Up moves up, Down moves down when
/// the list is not empty, Back goes back; other events are not used.
pub open spec fn list_event(selected: usize, count: usize, ev: NavEvent) -> (usize, Consumed, bool) {
    match ev {
        NavEvent::Up => (sat_sub(selected, 1), Consumed::Yes, false),
        NavEvent::Down => if count > 0 {
            (step_down(selected, count), Consumed::Yes, false)
        } else {
            (selected, Consumed::No, false)
        },
        NavEvent::Back => (selected, Consumed::Yes, true),
        _ => (selected, Consumed::No, false),
    }
}

/// Whether a Down on the list cannot overflow.
pub open spec fn down_fits(selected: usize, ev: NavEvent) -> bool {
    ev is Down ==> selected < usize::MAX
}

fn list_step(selected: &mut usize, count: usize, ev: NavEvent) -> (r: (Consumed, NavRequest))
    requires
        down_fits(*old(selected), ev),
    ensures
        ({
            let (s, c, back) = list_event(*old(selected), count, ev);
            &&& *final(selected) == s
            &&& r.0 == c
            &&& if back {
                r.1 is GoBack
            } else {
                r.1 is Stay
            }
        }),
{
    match ev {
        NavEvent::Up => {
            *selected = selected.saturating_sub(1);
            (Consumed::Yes, NavRequest::Stay)
        },
        NavEvent::Down => {
            if count > 0 {
                *selected = down_in(*selected, count);
                (Consumed::Yes, NavRequest::Stay)
            } else {
                (Consumed::No, NavRequest::Stay)
            }
        },
        NavEvent::Back => (Consumed::Yes, NavRequest::GoBack),
        _ => (Consumed::No, NavRequest::Stay),
    }
}

// ─── Packages ───────────────────────────────────────────────────────────

/// The packages list.
pub struct PackagesScreenV2 {
    pub selected: usize,
}

impl PackagesScreenV2 {
    pub fn new() -> (s: Self)
        ensures
            s.selected == 0,
    {
        PackagesScreenV2 { selected: 0 }
    }

    /// Up and Down move over the `count` upgradable packages; Back goes back.
    pub fn on_nav(&mut self, ev: NavEvent, count: usize) -> (r: (Consumed, NavRequest))
        requires
            down_fits(old(self).selected, ev),
        ensures
            ({
                let (s, c, back) = list_event(old(self).selected, count, ev);
                &&& final(self).selected == s
                &&& r.0 == c
                &&& if back {
                    r.1 is GoBack
                } else {
                    r.1 is Stay
                }
            }),
    {
        list_step(&mut self.selected, count, ev)
    }
}

// ─── Network ────────────────────────────────────────────────────────────

/// The interface list beside the Wi-Fi pane.
pub struct NetworkScreenV2 {
    pub selected: usize,
}

impl NetworkScreenV2 {
    pub fn new() -> (s: Self)
        ensures
            s.selected == 0,
    {
        NetworkScreenV2 { selected: 0 }
    }

    /// Left, Right, Tab and BackTab move the focus between the panes; Up
    /// and Down move over the `count` interfaces; Back goes back.
    pub fn on_nav(&mut self, ev: NavEvent, focus: &mut usize, count: usize) -> (r: (
        Consumed,
        NavRequest,
    ))
        requires
            zone_fits(*old(focus), ev),
            down_fits(old(self).selected, ev),
        ensures
            *final(focus) == zone_after(*old(focus), ev),
            is_zone_event(ev) ==> r.0 == Consumed::Yes && r.1 is Stay && final(self).selected
                == old(self).selected,
            !is_zone_event(ev) ==> ({
                let (s, c, back) = list_event(old(self).selected, count, ev);
                &&& final(self).selected == s
                &&& r.0 == c
                &&& if back {
                    r.1 is GoBack
                } else {
                    r.1 is Stay
                }
            }),
    {
        if focus_step(focus, ev) {
            return (Consumed::Yes, NavRequest::Stay);
        }
        list_step(&mut self.selected, count, ev)
    }
}

// ─── Intel ──────────────────────────────────────────────────────────────

/// The layer grid beside the layer detail.
pub struct IntelScreenV2 {
    pub selected: usize,
}

/// The layer after an Up or Down in a ring of `n` layers.
pub open spec fn ring_step(selected: usize, n: usize, down: bool) -> usize {
    if down {
        ((selected + 1) % (n as int)) as usize
    } else if selected == 0 {
        (n - 1) as usize
    } else {
        (selected - 1) as usize
    }
}

impl IntelScreenV2 {
    pub fn new() -> (s: Self)
        ensures
            s.selected == 0,
    {
        IntelScreenV2 { selected: 0 }
    }

    /// Pane events move the focus; Down and Up walk the `layers` layers as a
    /// ring; Back goes back.
    pub fn on_nav(&mut self, ev: NavEvent, focus: &mut usize, layers: usize) -> (r: (
        Consumed,
        NavRequest,
    ))
        requires
            layers > 0,
            zone_fits(*old(focus), ev),
            down_fits(old(self).selected, ev),
        ensures
            *final(focus) == zone_after(*old(focus), ev),
            is_zone_event(ev) ==> r.0 == Consumed::Yes && r.1 is Stay && final(self).selected
                == old(self).selected,
            ev is Down ==> r.0 == Consumed::Yes && r.1 is Stay && final(self).selected == ring_step(
                old(self).selected,
                layers,
                true,
            ),
            ev is Up ==> r.0 == Consumed::Yes && r.1 is Stay && final(self).selected == ring_step(
                old(self).selected,
                layers,
                false,
            ),
            ev is Back ==> r.0 == Consumed::Yes && r.1 is GoBack && final(self).selected == old(self).selected,
            !(is_zone_event(ev) || ev is Down || ev is Up || ev is Back) ==> r.0 == Consumed::No
                && r.1 is Stay && final(self).selected == old(self).selected,
    {
        if focus_step(focus, ev) {
            return (Consumed::Yes, NavRequest::Stay);
        }
        match ev {
            NavEvent::Down => {
                self.selected = (self.selected + 1) % layers;
                (Consumed::Yes, NavRequest::Stay)
            },
            NavEvent::Up => {
                self.selected = if self.selected == 0 {
                    layers - 1
                } else {
                    self.selected - 1
                };
                (Consumed::Yes, NavRequest::Stay)
            },
            NavEvent::Back => (Consumed::Yes, NavRequest::GoBack),
            _ => (Consumed::No, NavRequest::Stay),
        }
    }
}

// ─── Audio ──────────────────────────────────────────────────────────────

/// The sink list beside the sink detail.
pub struct AudioScreenV2 {
    pub selected: usize,
}

/// Whether an event acts on the selected sink.
pub open spec fn is_sink_event(ev: NavEvent) -> bool {
    ev is Left || ev is Right || ev == NavEvent::Char('m') || ev is Confirm
}

/// What an event on the selected sink asks for: Left and Right set the
/// volume five points lower or higher (0 to 150), `m` toggles mute, Confirm
/// asks to make a sink that is not the default the default one. Sinks go
/// by their number; nothing happens without a sink.
pub open spec fn sink_request(sinks: Seq<Sink>, selected: usize, ev: NavEvent, r: NavRequest) -> bool {
    if sinks.len() == 0 {
        r is Stay
    } else {
        let s = pick(sinks, selected);
        if ev is Left || ev is Right {
            &&& r matches NavRequest::Queue(RunAction::SetVolume { target, percent })
            &&& target@ == dec_text(s.id as nat)
            &&& percent == if ev is Left {
                volume_down(s.volume)
            } else {
                volume_up(s.volume)
            }
        } else if ev == NavEvent::Char('m') {
            &&& r matches NavRequest::Queue(RunAction::MuteSink { target, mute })
            &&& target@ == dec_text(s.id as nat)
            &&& mute == !s.muted
        } else if s.default {
            r is Stay
        } else {
            &&& r matches NavRequest::ConfirmRun { message, action: RunAction::SetDefaultSink(t) }
            &&& message@ == "Set '"@ + truncated(s.name@, 20) + "' as default sink?"@
            &&& t@ == dec_text(s.id as nat)
        }
    }
}

impl AudioScreenV2 {
    pub fn new() -> (s: Self)
        ensures
            s.selected == 0,
    {
        AudioScreenV2 { selected: 0 }
    }

    /// Up and Down move over the sinks, Back goes back; Left, Right, `m`
    /// and Confirm act on the selected sink (see `sink_request`).
    pub fn on_nav(&mut self, ev: NavEvent, sinks: &Vec<Sink>) -> (r: (Consumed, NavRequest))
        requires
            down_fits(old(self).selected, ev),
        ensures
            is_sink_event(ev) ==> r.0 == Consumed::Yes && final(self).selected == old(self).selected
                && sink_request(sinks@, old(self).selected, ev, r.1),
            !is_sink_event(ev) ==> ({
                let (s, c, back) = list_event(old(self).selected, sinks@.len() as usize, ev);
                &&& final(self).selected == s
                &&& r.0 == c
                &&& if back {
                    r.1 is GoBack
                } else {
                    r.1 is Stay
                }
            }),
    {
        if !(ev == NavEvent::Left || ev == NavEvent::Right || ev == NavEvent::Char('m') || ev
            == NavEvent::Confirm) {
            return list_step(&mut self.selected, sinks.len(), ev);
        }
        if sinks.len() == 0 {
            return (Consumed::Yes, NavRequest::Stay);
        }
        let i = if self.selected < sinks.len() - 1 {
            self.selected
        } else {
            sinks.len() - 1
        };
        let s = &sinks[i];
        let target = decimal(s.id as u64);
        if ev == NavEvent::Left || ev == NavEvent::Right {
            let percent = if ev == NavEvent::Left {
                if s.volume < 5 {
                    0
                } else {
                    s.volume - 5
                }
            } else if s.volume < 145 {
                s.volume + 5
            } else {
                150
            };
            (Consumed::Yes, NavRequest::Queue(RunAction::SetVolume { target, percent }))
        } else if ev == NavEvent::Char('m') {
            (Consumed::Yes, NavRequest::Queue(RunAction::MuteSink { target, mute: !s.muted }))
        } else if s.default {
            (Consumed::Yes, NavRequest::Stay)
        } else {
            let name = truncate_chars(s.name.as_str(), 20);
            let a = concat("Set '", name.as_str());
            let message = concat(a.as_str(), "' as default sink?");
            (
                Consumed::Yes,
                NavRequest::ConfirmRun { message, action: RunAction::SetDefaultSink(target) },
            )
        }
    }
}

// ─── Bluetooth ──────────────────────────────────────────────────────────

/// The device list beside the device detail.
pub struct BluetoothScreenV2 {
    pub selected: usize,
}

/// What Confirm asks for: for the device under the cursor (not clamped),
/// to confirm disconnecting it when connected, connecting to it otherwise.
pub open spec fn bt_confirm_request(devices: Seq<BtDevice>, selected: usize, r: NavRequest) -> bool {
    if selected < devices.len() {
        let d = devices[selected as int];
        if d.connected {
            &&& r matches NavRequest::ConfirmRun {
                message,
                action: RunAction::BluetoothDisconnect(m),
            }
            &&& message@ == "Disconnect "@ + d.name@ + "?"@
            &&& m@ == d.mac@
        } else {
            &&& r matches NavRequest::ConfirmRun { message, action: RunAction::BluetoothConnect(m) }
            &&& message@ == "Connect to "@ + d.name@ + "?"@
            &&& m@ == d.mac@
        }
    } else {
        r is Stay
    }
}

impl BluetoothScreenV2 {
    pub fn new() -> (s: Self)
        ensures
            s.selected == 0,
    {
        BluetoothScreenV2 { selected: 0 }
    }

    /// Up and Down move over the devices, Back goes back; Confirm asks to
    /// connect or disconnect (see `bt_confirm_request`); `s` scans.
    pub fn on_nav(&mut self, ev: NavEvent, devices: &Vec<BtDevice>) -> (r: (Consumed, NavRequest))
        requires
            down_fits(old(self).selected, ev),
        ensures
            ev is Confirm ==> r.0 == Consumed::Yes && final(self).selected == old(self).selected
                && bt_confirm_request(devices@, old(self).selected, r.1),
            ev == NavEvent::Char('s') ==> r.0 == Consumed::Yes && final(self).selected == old(self).selected && r.1 matches NavRequest::Queue(RunAction::BluetoothScan),
            !(ev is Confirm || ev == NavEvent::Char('s')) ==> ({
                let (s, c, back) = list_event(old(self).selected, devices@.len() as usize, ev);
                &&& final(self).selected == s
                &&& r.0 == c
                &&& if back {
                    r.1 is GoBack
                } else {
                    r.1 is Stay
                }
            }),
    {
        if ev == NavEvent::Confirm {
            if self.selected < devices.len() {
                let d = &devices[self.selected];
                if d.connected {
                    let a = concat("Disconnect ", d.name.as_str());
                    let message = concat(a.as_str(), "?");
                    return (
                        Consumed::Yes,
                        NavRequest::ConfirmRun {
                            message,
                            action: RunAction::BluetoothDisconnect(d.mac.clone()),
                        },
                    );
                } else {
                    let a = concat("Connect to ", d.name.as_str());
                    let message = concat(a.as_str(), "?");
                    return (
                        Consumed::Yes,
                        NavRequest::ConfirmRun {
                            message,
                            action: RunAction::BluetoothConnect(d.mac.clone()),
                        },
                    );
                }
            }
            return (Consumed::Yes, NavRequest::Stay);
        }
        if ev == NavEvent::Char('s') {
            return (Consumed::Yes, NavRequest::Queue(RunAction::BluetoothScan));
        }
        list_step(&mut self.selected, devices.len(), ev)
    }
}

// ─── Display ────────────────────────────────────────────────────────────

/// The brightness control above the display list.
pub struct DisplayScreenV2 {
    pub selected: usize,
    pub brightness: u8,
}

impl DisplayScreenV2 {
    /// The cursor on the first display and the brightness at 100%.
    pub fn new() -> (s: Self)
        ensures
            s.selected == 0,
            s.brightness == 100,
    {
        DisplayScreenV2 { selected: 0, brightness: 100 }
    }

    /// Up and Down move over the `count` displays, Back goes back; Left and
    /// Right take the brightness ten points down or up (0 to 100); Confirm
    /// asks to apply it.
    pub fn on_nav(&mut self, ev: NavEvent, count: usize) -> (r: (Consumed, NavRequest))
        requires
            down_fits(old(self).selected, ev),
        ensures
            ev is Left ==> r.0 == Consumed::Yes && r.1 is Stay && final(self).brightness == sat_sub(
                old(self).brightness as usize,
                10,
            ) && final(self).selected == old(self).selected,
            ev is Right ==> r.0 == Consumed::Yes && r.1 is Stay && final(self).brightness == (if old(self).brightness < 90 {
                old(self).brightness + 10
            } else {
                100
            }) && final(self).selected == old(self).selected,
            ev is Confirm ==> ({
                &&& r.0 == Consumed::Yes
                &&& *final(self) == *old(self)
                &&& r.1 matches NavRequest::ConfirmRun {
                    message,
                    action: RunAction::SetBrightness(b),
                }
                &&& message@ == "Set brightness to "@ + dec_text(old(self).brightness as nat) + "%?"@
                &&& b == old(self).brightness
            }),
            !(ev is Left || ev is Right || ev is Confirm) ==> ({
                let (s, c, back) = list_event(old(self).selected, count, ev);
                &&& final(self).selected == s
                &&& final(self).brightness == old(self).brightness
                &&& r.0 == c
                &&& if back {
                    r.1 is GoBack
                } else {
                    r.1 is Stay
                }
            }),
    {
        match ev {
            NavEvent::Left => {
                self.brightness = self.brightness.saturating_sub(10);
                (Consumed::Yes, NavRequest::Stay)
            },
            NavEvent::Right => {
                self.brightness = if self.brightness < 90 {
                    self.brightness + 10
                } else {
                    100
                };
                (Consumed::Yes, NavRequest::Stay)
            },
            NavEvent::Confirm => {
                let n = decimal(self.brightness as u64);
                let a = concat("Set brightness to ", n.as_str());
                let message = concat(a.as_str(), "%?");
                (
                    Consumed::Yes,
                    NavRequest::ConfirmRun {
                        message,
                        action: RunAction::SetBrightness(self.brightness),
                    },
                )
            },
            _ => list_step(&mut self.selected, count, ev),
        }
    }
}

// ─── Editor ─────────────────────────────────────────────────────────────

/// A read-only view of a text file, one row per line.
pub struct EditorScreenV2 {
    pub path: Option<String>,
    pub lines: Vec<String>,
    pub cursor_row: usize,
    pub view_offset: usize,
}

/// The rows a file's text shows: one empty row for empty text, else its
/// lines.
pub open spec fn editor_rows(content: Seq<char>) -> Seq<Seq<char>> {
    if content.len() == 0 {
        seq![Seq::<char>::empty()]
    } else {
        line_seqs(content)
    }
}

impl EditorScreenV2 {
    /// No file: one empty row.
    pub fn new() -> (s: Self)
        ensures
            s.path is None,
            views(s.lines@) == seq![Seq::<char>::empty()],
            s.cursor_row == 0,
            s.view_offset == 0,
    {
        let lines = vec![String::new()];
        proof {
            assert(views(lines@) =~= seq![Seq::<char>::empty()]);
        }
        EditorScreenV2 { path: None, lines, cursor_row: 0, view_offset: 0 }
    }

    /// The file at `path` whose text is `content` (empty when it could not
    /// be read), shown from the top.
    pub fn open(path: &str, content: &str) -> (s: Self)
        ensures
            s.path matches Some(p) && p@ == path@,
            views(s.lines@) == editor_rows(content@),
            s.cursor_row == 0,
            s.view_offset == 0,
    {
        let lines = if content.is_empty() {
            let v = vec![String::new()];
            proof {
                assert(views(v@) =~= seq![Seq::<char>::empty()]);
            }
            v
        } else {
            lines_of(content)
        };
        EditorScreenV2 { path: Some(path.to_owned()), lines, cursor_row: 0, view_offset: 0 }
    }

    /// Up moves the cursor up and scrolls the view to keep it; Down moves it
    /// down within the lines; Back goes back.
    pub fn on_nav(&mut self, ev: NavEvent) -> (r: (Consumed, NavRequest))
        requires
            down_fits(old(self).cursor_row, ev),
        ensures
            final(self).path == old(self).path,
            final(self).lines == old(self).lines,
            ({
                let (c, used, back) = list_event(old(self).cursor_row, old(self).lines@.len() as usize, ev);
                &&& final(self).cursor_row == c
                &&& r.0 == used
                &&& if back {
                    r.1 is GoBack
                } else {
                    r.1 is Stay
                }
            }),
            final(self).view_offset == if ev is Up && sat_sub(old(self).cursor_row, 1) < old(self).view_offset {
                sat_sub(old(self).cursor_row, 1)
            } else {
                old(self).view_offset
            },
    {
        let count = self.lines.len();
        let r = list_step(&mut self.cursor_row, count, ev);
        if ev == NavEvent::Up && self.cursor_row < self.view_offset {
            self.view_offset = self.cursor_row;
        }
        r
    }
}

// ─── Logs ───────────────────────────────────────────────────────────────

/// The journal, newest line at the bottom.
pub struct LogsScreenV2 {
    pub lines: Vec<String>,
    pub offset: usize,
    pub loaded: bool,
}

/// How many journal lines the screen keeps.
pub const JOURNAL_LINES: usize = 500;

/// The last `n` items of `s`.
pub open spec fn last_n<T>(s: Seq<T>, n: nat) -> Seq<T> {
    if s.len() <= n {
        s
    } else {
        s.skip(s.len() - n)
    }
}

/// The rows a journal read gives: the last 500 lines of its output read as
/// UTF-8 (invalid bytes replaced), or one line saying the journal could
/// not be read.
pub open spec fn journal_rows(output: Option<Seq<u8>>) -> Seq<Seq<char>> {
    match output {
        Some(b) => last_n(line_seqs(crate::proto::lossy_text(b)), JOURNAL_LINES as nat),
        None => seq!["(journalctl unavailable)"@],
    }
}

impl LogsScreenV2 {
    /// Nothing read yet.
    pub fn new() -> (s: Self)
        ensures
            s.lines@.len() == 0,
            s.offset == 0,
            !s.loaded,
    {
        LogsScreenV2 { lines: Vec::new(), offset: 0, loaded: false }
    }

    /// Take in what the journal printed (`None` when it could not run):
    /// the rows of `journal_rows`, the cursor on the newest.
    pub fn load(&mut self, output: Option<&[u8]>)
        ensures
            views(final(self).lines@) == journal_rows(
                match output {
                    Some(b) => Some(b@),
                    None => None,
                },
            ),
            final(self).offset == sat_sub(final(self).lines@.len() as usize, 1),
            final(self).loaded,
    {
        let lines = match output {
            Some(b) => {
                let text = crate::proto::string_from_utf8_lossy(b);
                let all = lines_of(text.as_str());
                let n = all.len();
                if n <= JOURNAL_LINES {
                    all
                } else {
                    let mut kept: Vec<String> = Vec::new();
                    let start = n - JOURNAL_LINES;
                    let mut i = start;
                    while i < n
                        invariant
                            start <= i <= n,
                            n == all@.len(),
                            views(kept@) == views(all@).subrange(start as int, i as int),
                        decreases n - i,
                    {
                        let ghost prev = kept@;
                        let line = all[i].clone();
                        kept.push(line);
                        proof {
                            assert(kept@ == prev.push(line));
                            assert(line@ == all@[i as int]@);
                            assert(views(kept@) =~= views(prev).push(line@));
                            assert(views(kept@) =~= views(all@).subrange(start as int, i + 1));
                        }
                        i += 1;
                    }
                    proof {
                        assert(views(all@).skip(n - JOURNAL_LINES) =~= views(all@).subrange(
                            start as int,
                            n as int,
                        ));
                    }
                    kept
                }
            },
            None => {
                let v = vec!["(journalctl unavailable)".to_owned()];
                proof {
                    assert(views(v@) =~= seq!["(journalctl unavailable)"@]);
                }
                v
            },
        };
        self.offset = lines.len().saturating_sub(1);
        self.lines = lines;
        self.loaded = true;
    }

    /// Up and Down move over the lines, `r` asks to read the journal again,
    /// Back goes back.
    pub fn on_nav(&mut self, ev: NavEvent) -> (r: (Consumed, NavRequest))
        requires
            down_fits(old(self).offset, ev),
        ensures
            final(self).lines == old(self).lines,
            final(self).loaded == old(self).loaded,
            ev == NavEvent::Char('r') ==> r.0 == Consumed::Yes && r.1 is Reload && final(self).offset == old(self).offset,
            ev != NavEvent::Char('r') ==> ({
                let (o, c, back) = list_event(old(self).offset, old(self).lines@.len() as usize, ev);
                &&& final(self).offset == o
                &&& r.0 == c
                &&& if back {
                    r.1 is GoBack
                } else {
                    r.1 is Stay
                }
            }),
    {
        if ev == NavEvent::Char('r') {
            return (Consumed::Yes, NavRequest::Reload);
        }
        let count = self.lines.len();
        list_step(&mut self.offset, count, ev)
    }
}

// ─── AI chat ────────────────────────────────────────────────────────────

/// The assistant chat: the draft, the scroll, and the display toggles.
pub struct AiScreenV2 {
    pub input: String,
    pub scroll: usize,
    pub auto_scroll: bool,
    pub show_thinking: bool,
}

impl AiScreenV2 {
    /// An empty draft, following the newest message, thinking shown.
    pub fn new() -> (s: Self)
        ensures
            s.input@.len() == 0,
            s.scroll == 0,
            s.auto_scroll,
            s.show_thinking,
    {
        AiScreenV2 { input: String::new(), scroll: 0, auto_scroll: true, show_thinking: true }
    }

    /// Up scrolls up (and stops following the newest message), Down scrolls
    /// down; characters and Backspace edit the draft; Confirm submits the
    /// trimmed draft when it is not empty (clearing it and following again);
    /// Tab shows or hides the thinking; Back goes back.
    pub fn on_nav(&mut self, ev: NavEvent) -> (r: (Consumed, NavRequest))
        requires
            ev is Down ==> old(self).scroll < usize::MAX,
        ensures
            ev is Up ==> r.0 == Consumed::Yes && r.1 is Stay && final(self).input == old(self).input
                && final(self).show_thinking == old(self).show_thinking && if old(self).scroll > 0 {
                final(self).scroll == old(self).scroll - 1 && !final(self).auto_scroll
            } else {
                final(self).scroll == 0 && final(self).auto_scroll == old(self).auto_scroll
            },
            ev is Down ==> r.0 == Consumed::Yes && r.1 is Stay && final(self).scroll == old(self).scroll
                + 1 && final(self).input == old(self).input && final(self).auto_scroll == old(
                self).auto_scroll && final(self).show_thinking == old(self).show_thinking,
            ev matches NavEvent::Char(c) ==> r.0 == Consumed::Yes && r.1 is Stay && final(self).input@
                == old(self).input@.push(c) && final(self).scroll == old(self).scroll && final(
                self).auto_scroll == old(self).auto_scroll && final(self).show_thinking == old(
                self).show_thinking,
            ev is Backspace ==> r.0 == Consumed::Yes && r.1 is Stay && final(self).input@ == (if old(
                self).input@.len() > 0 {
                old(self).input@.drop_last()
            } else {
                old(self).input@
            }) && final(self).scroll == old(self).scroll && final(self).auto_scroll == old(
                self).auto_scroll && final(self).show_thinking == old(self).show_thinking,
            ev is Confirm ==> r.0 == Consumed::Yes && final(self).scroll == old(self).scroll && final(
                self).show_thinking == old(self).show_thinking && if trim_seq(old(self).input@).len()
                > 0 {
                &&& r.1 matches NavRequest::SubmitPrompt(t)
                &&& t@ == trim_seq(old(self).input@)
                &&& final(self).input@.len() == 0
                &&& final(self).auto_scroll
            } else {
                r.1 is Stay && final(self).input == old(self).input && final(self).auto_scroll == old(
                    self).auto_scroll
            },
            ev is Tab ==> r.0 == Consumed::Yes && r.1 is Stay && final(self).show_thinking == !old(
                self).show_thinking && final(self).input == old(self).input && final(self).scroll
                == old(self).scroll && final(self).auto_scroll == old(self).auto_scroll,
            ev is Back ==> r.0 == Consumed::Yes && r.1 is GoBack && *final(self) == *old(self),
            (ev is Left || ev is Right || ev is BackTab) ==> r.0 == Consumed::No && r.1 is Stay
                && *final(self) == *old(self),
    {
        match ev {
            NavEvent::Up => {
                if self.scroll > 0 {
                    self.scroll = self.scroll - 1;
                    self.auto_scroll = false;
                }
                (Consumed::Yes, NavRequest::Stay)
            },
            NavEvent::Down => {
                self.scroll = self.scroll + 1;
                (Consumed::Yes, NavRequest::Stay)
            },
            NavEvent::Char(c) => {
                push_char(&mut self.input, c);
                (Consumed::Yes, NavRequest::Stay)
            },
            NavEvent::Backspace => {
                self.input = pop_char(&self.input);
                (Consumed::Yes, NavRequest::Stay)
            },
            NavEvent::Confirm => {
                let text = str_trim(self.input.as_str());
                if text.as_str().is_empty() {
                    (Consumed::Yes, NavRequest::Stay)
                } else {
                    self.input = String::new();
                    self.auto_scroll = true;
                    (Consumed::Yes, NavRequest::SubmitPrompt(text))
                }
            },
            NavEvent::Tab => {
                self.show_thinking = !self.show_thinking;
                (Consumed::Yes, NavRequest::Stay)
            },
            NavEvent::Back => (Consumed::Yes, NavRequest::GoBack),
            _ => (Consumed::No, NavRequest::Stay),
        }
    }
}

// ─── AI logs ────────────────────────────────────────────────────────────

/// Who wrote a chat message.
#[derive(Debug, Clone, Copy, PartialEq, Eq, Structural)]
pub enum AiRole {
    User,
    Assistant,
}

/// A chat message: the text and, for the assistant, its thinking, the
/// tools it called, and whether it is still arriving.
pub struct AiMessage {
    pub role: AiRole,
    pub content: String,
    pub thinking: String,
    pub tool_log: Vec<String>,
    pub streaming: bool,
}

/// What a row of the log shows of its message.
#[derive(Debug, Clone, Copy, PartialEq, Eq, Structural)]
pub enum EntryKind {
    User,
    Think,
    Asst,
}

/// A row of the log: which part of which message.
#[derive(Debug, Clone, Copy, PartialEq, Eq, Structural)]
pub struct Entry {
    pub kind: EntryKind,
    pub msg_idx: usize,
}

/// The log rows of a chat: a user message gives one row; an assistant
/// message gives a thinking row when it has thinking, then its answer row.
pub open spec fn entries_of(msgs: Seq<AiMessage>) -> Seq<Entry>
    decreases msgs.len(),
{
    if msgs.len() == 0 {
        Seq::empty()
    } else {
        let p = entries_of(msgs.drop_last());
        let i = (msgs.len() - 1) as usize;
        let m = msgs.last();
        if m.role == AiRole::User {
            p.push(Entry { kind: EntryKind::User, msg_idx: i })
        } else if m.thinking@.len() > 0 {
            p.push(Entry { kind: EntryKind::Think, msg_idx: i }).push(
                Entry { kind: EntryKind::Asst, msg_idx: i },
            )
        } else {
            p.push(Entry { kind: EntryKind::Asst, msg_idx: i })
        }
    }
}

/// The log rows of `msgs` (see `entries_of`).
pub fn build_entries(msgs: &Vec<AiMessage>) -> (r: Vec<Entry>)
    ensures
        r@ == entries_of(msgs@),
{
    let mut out: Vec<Entry> = Vec::new();
    let mut i: usize = 0;
    while i < msgs.len()
        invariant
            i <= msgs@.len(),
            out@ == entries_of(msgs@.take(i as int)),
        decreases msgs@.len() - i,
    {
        let m = &msgs[i];
        proof {
            assert(msgs@.take(i + 1).drop_last() =~= msgs@.take(i as int));
        }
        if m.role == AiRole::User {
            out.push(Entry { kind: EntryKind::User, msg_idx: i });
        } else {
            if !m.thinking.as_str().is_empty() {
                out.push(Entry { kind: EntryKind::Think, msg_idx: i });
            }
            out.push(Entry { kind: EntryKind::Asst, msg_idx: i });
        }
        i += 1;
    }
    proof {
        assert(msgs@.take(msgs@.len() as int) =~= msgs@);
    }
    out
}

/// How many log rows a chat has: two for an assistant message with
/// thinking, one for any other.
pub open spec fn entry_count(msgs: Seq<AiMessage>) -> int
    decreases msgs.len(),
{
    if msgs.len() == 0 {
        0
    } else {
        entry_count(msgs.drop_last()) + if msgs.last().role == AiRole::Assistant
            && msgs.last().thinking@.len() > 0 {
            2int
        } else {
            1int
        }
    }
}

proof fn lemma_entry_count_bound(msgs: Seq<AiMessage>)
    ensures
        0 <= entry_count(msgs) <= 2 * msgs.len(),
    decreases msgs.len(),
{
    if msgs.len() > 0 {
        lemma_entry_count_bound(msgs.drop_last());
    }
}

fn count_entries(msgs: &Vec<AiMessage>) -> (n: usize)
    requires
        msgs@.len() <= usize::MAX / 2,
    ensures
        n == entry_count(msgs@),
{
    let mut n: usize = 0;
    let mut i: usize = 0;
    while i < msgs.len()
        invariant
            i <= msgs@.len() <= usize::MAX / 2,
            n == entry_count(msgs@.take(i as int)),
            n <= 2 * i,
        decreases msgs@.len() - i,
    {
        proof {
            assert(msgs@.take(i + 1).drop_last() =~= msgs@.take(i as int));
        }
        let m = &msgs[i];
        if m.role == AiRole::Assistant && !m.thinking.as_str().is_empty() {
            n = n + 2;
        } else {
            n = n + 1;
        }
        i += 1;
    }
    proof {
        assert(msgs@.take(msgs@.len() as int) =~= msgs@);
    }
    n
}

/// The conversation log: the selected row, the first shown row, whether
/// the selected message is expanded, and how many rows the last drawing
/// showed.
pub struct AiLogsScreen {
    pub selected: usize,
    pub scroll: usize,
    pub expanded: bool,
    pub visible_rows: usize,
}

impl AiLogsScreen {
    /// The first row selected, collapsed, ten rows assumed visible.
    pub fn new() -> (s: Self)
        ensures
            s.selected == 0,
            s.scroll == 0,
            !s.expanded,
            s.visible_rows == 10,
    {
        AiLogsScreen { selected: 0, scroll: 0, expanded: false, visible_rows: 10 }
    }

    /// Up selects the row above, scrolling to keep it shown; Down selects
    /// the row below while there is one, scrolling so it stays within the
    /// visible rows (at least one); Confirm expands or collapses; Back goes
    /// back.
    pub fn on_nav(&mut self, ev: NavEvent, msgs: &Vec<AiMessage>) -> (r: (Consumed, NavRequest))
        requires
            msgs@.len() <= usize::MAX / 2,
            ev is Down ==> old(self).scroll + old(self).visible_rows < usize::MAX,
        ensures
            final(self).visible_rows == old(self).visible_rows,
            ev is Up ==> ({
                let s = sat_sub(old(self).selected, 1);
                &&& r.0 == Consumed::Yes
                &&& r.1 is Stay
                &&& final(self).selected == s
                &&& final(self).scroll == if s < old(self).scroll {
                    s
                } else {
                    old(self).scroll
                }
                &&& final(self).expanded == old(self).expanded
            }),
            ev is Down ==> ({
                let n = entry_count(msgs@);
                let vis = if old(self).visible_rows > 1 {
                    old(self).visible_rows as int
                } else {
                    1int
                };
                &&& r.0 == Consumed::Yes
                &&& r.1 is Stay
                &&& final(self).expanded == old(self).expanded
                &&& if n > 0 && old(self).selected + 1 < n {
                    &&& final(self).selected == old(self).selected + 1
                    &&& final(self).scroll == if final(self).selected >= old(self).scroll + vis {
                        final(self).selected + 1 - vis
                    } else {
                        old(self).scroll as int
                    }
                } else {
                    final(self).selected == old(self).selected && final(self).scroll == old(
                        self).scroll
                }
            }),
            ev is Confirm ==> r.0 == Consumed::Yes && r.1 is Stay && final(self).expanded == !old(
                self).expanded && final(self).selected == old(self).selected && final(self).scroll
                == old(self).scroll,
            ev is Back ==> r.0 == Consumed::Yes && r.1 is GoBack && *final(self) == *old(self),
            !(ev is Up || ev is Down || ev is Confirm || ev is Back) ==> r.0 == Consumed::No
                && r.1 is Stay && *final(self) == *old(self),
    {
        match ev {
            NavEvent::Up => {
                self.selected = self.selected.saturating_sub(1);
                if self.selected < self.scroll {
                    self.scroll = self.selected;
                }
                (Consumed::Yes, NavRequest::Stay)
            },
            NavEvent::Down => {
                let n = count_entries(msgs);
                if n > 0 && self.selected < n - 1 {
                    self.selected = self.selected + 1;
                    let visible = if self.visible_rows > 1 {
                        self.visible_rows
                    } else {
                        1
                    };
                    if self.selected >= self.scroll + visible {
                        self.scroll = self.selected + 1 - visible;
                    }
                }
                (Consumed::Yes, NavRequest::Stay)
            },
            NavEvent::Confirm => {
                self.expanded = !self.expanded;
                (Consumed::Yes, NavRequest::Stay)
            },
            NavEvent::Back => (Consumed::Yes, NavRequest::GoBack),
            _ => (Consumed::No, NavRequest::Stay),
        }
    }
}

/// The first line of `s` (empty when `s` has none).
pub open spec fn first_line(s: Seq<char>) -> Seq<char> {
    if line_seqs(s).len() > 0 {
        line_seqs(s)[0]
    } else {
        Seq::empty()
    }
}

/// A one-line preview: the trimmed first line, cut to `max - 3`
/// characters (none below 3) with `...` when it was longer.
pub open spec fn preview_of(s: Seq<char>, max: usize) -> Seq<char> {
    let first = trim_seq(first_line(s));
    let keep = sat_sub(max, 3) as int;
    if first.len() > keep {
        first.take(keep) + "..."@
    } else {
        first
    }
}

/// The one-line preview of `s` (see `preview_of`).
pub fn one_line_preview(s: &str, max_chars: usize) -> (r: String)
    ensures
        r@ == preview_of(s@, max_chars),
{
    let lines = lines_of(s);
    let first = if lines.len() > 0 {
        lines[0].clone()
    } else {
        String::new()
    };
    proof {
        assert(first@ == first_line(s@));
    }
    let t = crate::text::chars_of(str_trim(first.as_str()).as_str());
    let keep = max_chars.saturating_sub(3);
    if t.len() > keep {
        let mut out = String::new();
        let mut i: usize = 0;
        while i < keep
            invariant
                i <= keep < t@.len(),
                out@ == t@.take(i as int),
            decreases keep - i,
        {
            push_char(&mut out, t[i]);
            proof {
                assert(t@.take(i + 1) =~= t@.take(i as int).push(t@[i as int]));
            }
            i += 1;
        }
        concat(out.as_str(), "...")
    } else {
        crate::text::string_of(&t)
    }
}

// ─── LoRa (chat and saved nodes) ────────────────────────────────────────

/// A node endpoint the user saved.
pub struct SavedLoraNode {
    pub ip: String,
    pub label: Option<String>,
}

/// The chat pane (left) and the saved nodes (right). The saved-node
/// cursor runs over the nodes and then the `[ + Add Node ]` row.
pub struct LoraScreenV2 {
    pub input: String,
    pub scroll: usize,
    pub saved_sel: usize,
    pub active_ip: Option<String>,
}

/// The longest draft, in bytes, that still takes a character.
pub const DRAFT_LIMIT: usize = 200;

/// The saved-node cursor one row down, stopping on the add row.
pub open spec fn saved_down(sel: usize, nodes: nat) -> usize {
    if sel + 1 < nodes {
        (sel + 1) as usize
    } else {
        nodes as usize
    }
}

/// The state after an event in the chat pane (the request aside): Up and
/// Down scroll, a character joins a draft shorter than 200 bytes,
/// Backspace drops the last character, Confirm with a draft that trims to
/// something sends it, clears the draft and scrolls to the newest.
pub open spec fn chat_pane_after(input: Seq<char>, scroll: usize, ev: NavEvent) -> (Seq<char>, usize) {
    match ev {
        NavEvent::Up => (input, sat_sub(scroll, 1)),
        NavEvent::Down => (input, (scroll + 1) as usize),
        NavEvent::Char(c) => (
            if encode_utf8(input).len() < DRAFT_LIMIT {
                input.push(c)
            } else {
                input
            },
            scroll,
        ),
        NavEvent::Backspace => (
            if input.len() > 0 {
                input.drop_last()
            } else {
                input
            },
            scroll,
        ),
        NavEvent::Confirm => if trim_seq(input).len() > 0 {
            (Seq::empty(), 0)
        } else {
            (input, scroll)
        },
        _ => (input, scroll),
    }
}

impl LoraScreenV2 {
    /// An empty draft, no scroll, the cursor on the first saved row, no
    /// active node.
    pub fn new() -> (s: Self)
        ensures
            s.input@.len() == 0,
            s.scroll == 0,
            s.saved_sel == 0,
            s.active_ip is None,
    {
        LoraScreenV2 { input: String::new(), scroll: 0, saved_sel: 0, active_ip: None }
    }

    /// Pane events move the focus. In the chat pane (focus other than 1)
    /// the draft and scroll change as `chat_pane_after` says, and Confirm
    /// sends the trimmed draft when it is not empty. In the nodes pane Up
    /// and Down move the cursor, Confirm activates the node under it (or
    /// asks for a new node on the add row), `d` asks to confirm removing the
    /// node under it. Back goes back.
    pub fn on_nav(&mut self, ev: NavEvent, focus: &mut usize, nodes: &Vec<SavedLoraNode>) -> (r: (
        Consumed,
        NavRequest,
    ))
        requires
            zone_fits(*old(focus), ev),
            ev is Down ==> old(self).scroll < usize::MAX && old(self).saved_sel < usize::MAX,
        ensures
            *final(focus) == zone_after(*old(focus), ev),
            is_zone_event(ev) ==> r.0 == Consumed::Yes && r.1 is Stay && *final(self) == *old(self),
            ev is Back ==> r.0 == Consumed::Yes && r.1 is GoBack && *final(self) == *old(self),
            !is_zone_event(ev) && !(ev is Back) && !right_focused(*old(focus)) ==> ({
                let (input, scroll) = chat_pane_after(old(self).input@, old(self).scroll, ev);
                &&& final(self).input@ == input
                &&& final(self).scroll == scroll
                &&& final(self).saved_sel == old(self).saved_sel
                &&& final(self).active_ip == old(self).active_ip
                &&& r.0 == if ev is Up || ev is Down || ev is Char || ev is Backspace
                    || ev is Confirm {
                    Consumed::Yes
                } else {
                    Consumed::No
                }
                &&& if ev is Confirm && trim_seq(old(self).input@).len() > 0 {
                    r.1 matches NavRequest::SendLongFast(t) && t@ == trim_seq(old(self).input@)
                } else {
                    r.1 is Stay
                }
            }),
            !is_zone_event(ev) && !(ev is Back) && right_focused(*old(focus)) ==> ({
                &&& final(self).input == old(self).input
                &&& final(self).scroll == old(self).scroll
                &&& ev is Up ==> r.0 == Consumed::Yes && r.1 is Stay && final(self).saved_sel
                    == sat_sub(old(self).saved_sel, 1) && final(self).active_ip == old(
                    self).active_ip
                &&& ev is Down ==> r.0 == Consumed::Yes && r.1 is Stay && final(self).saved_sel
                    == saved_down(old(self).saved_sel, nodes@.len()) && final(self).active_ip
                    == old(self).active_ip
                &&& ev is Confirm ==> r.0 == Consumed::Yes && final(self).saved_sel == old(
                    self).saved_sel && if old(self).saved_sel < nodes@.len() {
                    &&& r.1 is Stay
                    &&& final(self).active_ip matches Some(ip)
                    &&& ip@ == nodes@[old(self).saved_sel as int].ip@
                } else {
                    r.1 is AddNode && final(self).active_ip == old(self).active_ip
                }
                &&& ev == NavEvent::Char('d') ==> r.0 == Consumed::Yes && *final(self) == *old(
                    self) && if old(self).saved_sel < nodes@.len() {
                    &&& r.1 matches NavRequest::DeleteNode { idx, message }
                    &&& idx == old(self).saved_sel
                    &&& message@ == "Remove "@ + nodes@[old(self).saved_sel as int].ip@ + "?"@
                } else {
                    r.1 is Stay
                }
                &&& !(ev is Up || ev is Down || ev is Confirm || ev == NavEvent::Char('d'))
                    ==> r.0 == Consumed::No && r.1 is Stay && *final(self) == *old(self)
            }),
    {
        if focus_step(focus, ev) {
            return (Consumed::Yes, NavRequest::Stay);
        }
        if ev == NavEvent::Back {
            return (Consumed::Yes, NavRequest::GoBack);
        }
        if *focus != 1 {
            match ev {
                NavEvent::Up => {
                    self.scroll = self.scroll.saturating_sub(1);
                    (Consumed::Yes, NavRequest::Stay)
                },
                NavEvent::Down => {
                    self.scroll = self.scroll + 1;
                    (Consumed::Yes, NavRequest::Stay)
                },
                NavEvent::Char(c) => {
                    if self.input.as_str().as_bytes().len() < DRAFT_LIMIT {
                        push_char(&mut self.input, c);
                    }
                    (Consumed::Yes, NavRequest::Stay)
                },
                NavEvent::Backspace => {
                    self.input = pop_char(&self.input);
                    (Consumed::Yes, NavRequest::Stay)
                },
                NavEvent::Confirm => {
                    let text = str_trim(self.input.as_str());
                    if text.as_str().is_empty() {
                        (Consumed::Yes, NavRequest::Stay)
                    } else {
                        self.input = String::new();
                        self.scroll = 0;
                        (Consumed::Yes, NavRequest::SendLongFast(text))
                    }
                },
                _ => (Consumed::No, NavRequest::Stay),
            }
        } else {
            match ev {
                NavEvent::Up => {
                    self.saved_sel = self.saved_sel.saturating_sub(1);
                    (Consumed::Yes, NavRequest::Stay)
                },
                NavEvent::Down => {
                    let max = nodes.len();
                    self.saved_sel = if self.saved_sel + 1 < max {
                        self.saved_sel + 1
                    } else {
                        max
                    };
                    (Consumed::Yes, NavRequest::Stay)
                },
                NavEvent::Confirm => {
                    if self.saved_sel < nodes.len() {
                        self.active_ip = Some(nodes[self.saved_sel].ip.clone());
                        (Consumed::Yes, NavRequest::Stay)
                    } else {
                        (Consumed::Yes, NavRequest::AddNode)
                    }
                },
                _ => {
                    if ev == NavEvent::Char('d') {
                        if self.saved_sel < nodes.len() {
                            let a = concat("Remove ", nodes[self.saved_sel].ip.as_str());
                            let message = concat(a.as_str(), "?");
                            (Consumed::Yes, NavRequest::DeleteNode { idx: self.saved_sel, message })
                        } else {
                            (Consumed::Yes, NavRequest::Stay)
                        }
                    } else {
                        (Consumed::No, NavRequest::Stay)
                    }
                },
            }
        }
    }
}

/// A row of the saved-nodes list: whether it is the active node, and its
/// text.
pub struct NodeRow {
    pub active: bool,
    pub text: String,
}

/// The text of a saved node: `ip (label)`, or the IP alone.
pub open spec fn node_label(n: SavedLoraNode) -> Seq<char> {
    match n.label {
        Some(l) => n.ip@ + " ("@ + l@ + ")"@,
        None => n.ip@,
    }
}

/// Whether `n` is the active node.
pub open spec fn is_active_node(n: SavedLoraNode, active_ip: Option<String>) -> bool {
    active_ip matches Some(a) && a@ == n.ip@
}

/// The add row's text.
pub open spec fn add_row_text() -> Seq<char> {
    "  [ + Add Node ]"@
}

/// The rows of the saved-nodes list and the row the cursor highlights:
/// with no node, a hint row and the add row, the add row highlighted; else
/// one row per node (`● ` before the active one, two spaces before the
/// others) and the add row, the cursor kept at most on the add row.
pub fn build_node_items(nodes: &Vec<SavedLoraNode>, saved_sel: usize, active_ip: &Option<String>) -> (r: (
    Vec<NodeRow>,
    usize,
))
    ensures
        nodes@.len() == 0 ==> ({
            &&& r.0@.len() == 2
            &&& r.0@[0].text@ == "  No saved nodes — press Enter to add one"@
            &&& !r.0@[0].active
            &&& r.0@[1].text@ == add_row_text()
            &&& !r.0@[1].active
            &&& r.1 == 1
        }),
        nodes@.len() > 0 ==> ({
            &&& r.0@.len() == nodes@.len() + 1
            &&& forall|i: int|
                0 <= i < nodes@.len() ==> {
                    let act = is_active_node(#[trigger] nodes@[i], *active_ip);
                    &&& r.0@[i].active == act
                    &&& r.0@[i].text@ == (if act {
                        "● "@
                    } else {
                        "  "@
                    }) + node_label(nodes@[i])
                }
            &&& r.0@[nodes@.len() as int].text@ == add_row_text()
            &&& !r.0@[nodes@.len() as int].active
            &&& r.1 == if saved_sel < nodes@.len() {
                saved_sel
            } else {
                nodes@.len() as usize
            }
        }),
{
    let add = NodeRow { active: false, text: "  [ + Add Node ]".to_owned() };
    if nodes.len() == 0 {
        let hint = NodeRow {
            active: false,
            text: "  No saved nodes — press Enter to add one".to_owned(),
        };
        return (vec![hint, add], 1);
    }
    let mut rows: Vec<NodeRow> = Vec::new();
    let mut i: usize = 0;
    while i < nodes.len()
        invariant
            i <= nodes@.len(),
            rows@.len() == i,
            forall|k: int|
                0 <= k < i ==> {
                    let act = is_active_node(#[trigger] nodes@[k], *active_ip);
                    &&& rows@[k].active == act
                    &&& rows@[k].text@ == (if act {
                        "● "@
                    } else {
                        "  "@
                    }) + node_label(nodes@[k])
                },
        decreases nodes@.len() - i,
    {
        let n = &nodes[i];
        let act = match active_ip {
            Some(a) => crate::text::same_str(a.as_str(), n.ip.as_str()),
            None => false,
        };
        let label = match &n.label {
            Some(l) => {
                let a = concat(n.ip.as_str(), " (");
                let b = concat(a.as_str(), l.as_str());
                concat(b.as_str(), ")")
            },
            None => n.ip.clone(),
        };
        let prefix = if act {
            "● "
        } else {
            "  "
        };
        let text = concat(prefix, label.as_str());
        rows.push(NodeRow { active: act, text });
        i += 1;
    }
    rows.push(add);
    let sel = if saved_sel < nodes.len() {
        saved_sel
    } else {
        nodes.len()
    };
    (rows, sel)
}

/// The tag a log row shows for its kind.
pub open spec fn kind_tag(k: EntryKind) -> Seq<char> {
    match k {
        EntryKind::User => "USER "@,
        EntryKind::Think => "THINK"@,
        EntryKind::Asst => "ASST "@,
    }
}

/// The text a log row previews: the thinking for a thinking row, else the
/// message.
pub open spec fn entry_text(m: AiMessage, k: EntryKind) -> Seq<char> {
    match k {
        EntryKind::Think => m.thinking@,
        _ => m.content@,
    }
}

/// The detail panel's title for a kind.
pub open spec fn panel_title(k: EntryKind) -> Seq<char> {
    match k {
        EntryKind::User => " User "@,
        EntryKind::Think => " Thinking "@,
        EntryKind::Asst => " Assistant "@,
    }
}

/// What the conversation log draws: the rows of its window with their
/// kinds, the selected row (kept on the list) and window start, and the
/// detail panel's title and text for the selected row.
pub struct AiLogsView {
    pub rows: Vec<(String, EntryKind)>,
    pub selected: usize,
    pub scroll: usize,
    pub detail: Option<(String, String, EntryKind)>,
}

impl AiLogsScreen {
    /// The log's view in `visible` rows of `width` cells: nothing for an
    /// empty chat; else the selection kept on the rows, the window start
    /// moved just enough to show it, and per shown row `► ` on the
    /// selected one (two spaces on others), its index, its kind's tag and
    /// a one-line preview 14 cells narrower than the width.
    pub fn view(&self, msgs: &Vec<AiMessage>, visible: usize, width: usize) -> (v: AiLogsView)
        ensures
            ({
                let es = entries_of(msgs@);
                let n = es.len();
                if n == 0 {
                    v.rows@.len() == 0 && v.detail is None
                } else {
                    let sel = if self.selected < n - 1 {
                        self.selected as int
                    } else {
                        n - 1
                    };
                    let lo = if self.scroll < sel {
                        self.scroll as int
                    } else {
                        sel
                    };
                    let floor = sat_sub(sel as usize, sat_sub(visible, 1));
                    let scroll = if lo > floor {
                        lo
                    } else {
                        floor as int
                    };
                    let end = if scroll + visible < n {
                        scroll + visible
                    } else {
                        n as int
                    };
                    let pw = sat_sub(width, 14);
                    &&& v.selected == sel
                    &&& v.scroll == scroll
                    &&& v.rows@.len() == end - scroll
                    &&& forall|k: int|
                        0 <= k < v.rows@.len() ==> {
                            let i = scroll + k;
                            let e = es[i];
                            let m = msgs@[e.msg_idx as int];
                            &&& (#[trigger] v.rows@[k]).1 == e.kind
                            &&& v.rows@[k].0@ == (if i == sel {
                                "► "@
                            } else {
                                "  "@
                            }) + "["@ + dec_text(i as nat) + "] "@ + kind_tag(e.kind) + "  "@
                                + preview_of(entry_text(m, e.kind), pw)
                        }
                    &&& v.detail matches Some(d) && d.0@ == panel_title(es[sel].kind) && d.1@
                        == entry_text(msgs@[es[sel].msg_idx as int], es[sel].kind) && d.2
                        == es[sel].kind
                }
            }),
    {
        let es = build_entries(msgs);
        proof {
            lemma_entries_in_range(msgs@);
        }
        let n = es.len();
        if n == 0 {
            return AiLogsView { rows: Vec::new(), selected: 0, scroll: 0, detail: None };
        }
        let sel = if self.selected < n - 1 {
            self.selected
        } else {
            n - 1
        };
        let lo = if self.scroll < sel {
            self.scroll
        } else {
            sel
        };
        let floor = sel.saturating_sub(visible.saturating_sub(1));
        let scroll = if lo > floor {
            lo
        } else {
            floor
        };
        let end = if visible < n - scroll {
            scroll + visible
        } else {
            n
        };
        let pw = width.saturating_sub(14);
        let mut rows: Vec<(String, EntryKind)> = Vec::new();
        let mut i = scroll;
        while i < end
            invariant
                scroll <= i <= end <= n,
                n == es@.len(),
                es@ == entries_of(msgs@),
                forall|j: int| 0 <= j < es@.len() ==> (#[trigger] es@[j]).msg_idx < msgs@.len(),
                rows@.len() == i - scroll,
                forall|k: int|
                    0 <= k < rows@.len() ==> {
                        let ii = scroll + k;
                        let e = es@[ii];
                        let m = msgs@[e.msg_idx as int];
                        &&& (#[trigger] rows@[k]).1 == e.kind
                        &&& rows@[k].0@ == (if ii == sel {
                            "► "@
                        } else {
                            "  "@
                        }) + "["@ + dec_text(ii as nat) + "] "@ + kind_tag(e.kind) + "  "@
                            + preview_of(entry_text(m, e.kind), pw)
                    },
            decreases end - i,
        {
            let e = es[i];
            let m = &msgs[e.msg_idx];
            let text = match e.kind {
                EntryKind::Think => m.thinking.as_str(),
                _ => m.content.as_str(),
            };
            let tag = match e.kind {
                EntryKind::User => "USER ",
                EntryKind::Think => "THINK",
                EntryKind::Asst => "ASST ",
            };
            let preview = one_line_preview(text, pw);
            let cur = if i == sel {
                "► "
            } else {
                "  "
            };
            let a = concat(cur, "[");
            let b = concat(a.as_str(), decimal(i as u64).as_str());
            let c = concat(b.as_str(), "] ");
            let d = concat(c.as_str(), tag);
            let f = concat(d.as_str(), "  ");
            let line = concat(f.as_str(), preview.as_str());
            rows.push((line, e.kind));
            i += 1;
        }
        let e = es[sel];
        let m = &msgs[e.msg_idx];
        let (title, full) = match e.kind {
            EntryKind::User => (" User ", m.content.clone()),
            EntryKind::Think => (" Thinking ", m.thinking.clone()),
            EntryKind::Asst => (" Assistant ", m.content.clone()),
        };
        AiLogsView { rows, selected: sel, scroll, detail: Some((title.to_owned(), full, e.kind)) }
    }
}

proof fn lemma_entries_in_range(msgs: Seq<AiMessage>)
    ensures
        forall|j: int|
            0 <= j < entries_of(msgs).len() ==> (#[trigger] entries_of(msgs)[j]).msg_idx < msgs.len(),
    decreases msgs.len(),
{
    if msgs.len() > 0 {
        lemma_entries_in_range(msgs.drop_last());
    }
}

/// In a ring of layers, Up undoes Down and Down undoes Up, and both stay
/// on the ring.
pub proof fn lemma_ring_undo(selected: usize, n: usize)
    requires
        0 < n,
        selected < n,
    ensures
        ring_step(selected, n, true) < n,
        ring_step(selected, n, false) < n,
        ring_step(ring_step(selected, n, true), n, false) == selected,
        ring_step(ring_step(selected, n, false), n, true) == selected,
{
    let m = n as int;
    assert(m % m == 0) by (nonlinear_arith)
        requires
            m > 0,
    ;
    let s = selected as int;
    assert(s % m == s) by (nonlinear_arith)
        requires
            0 <= s < m,
    ;
    if s + 1 < m {
        assert((s + 1) % m == s + 1) by (nonlinear_arith)
            requires
                0 <= s + 1 < m,
        ;
    }
}

} // verus!
