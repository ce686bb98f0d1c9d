//! Key decisions of the system screens that list what the machine
//! reports (audio sinks, Bluetooth devices, displays, upgradable packages,
//! log lines, interfaces and Wi-Fi networks) plus the power screen. Each
//! handler moves the screen's cursor and returns what the app must run or
//! open; the system calls are the app's.
use vstd::prelude::*;
use vstd::string::StringSliceAdditionalSpecFns;
use crate::lists::{clamped, list_nav, nav_fits, nav_target, selected_index};
use crate::lora_screen::{sat_add, sat_sub};
use crate::text::{chars_of, concat, dec_i64, dec_text, decimal, i64_from_dec};
use crate::ui::{ConfirmKind, InputKind, Key, Modal, RunAction};

verus! {

/// The item a cursor designates in a non-empty list.
pub open spec fn pick<T>(s: Seq<T>, selected: usize) -> T {
    s[clamped(selected, s.len() as usize)]
}

// ─── Audio ──────────────────────────────────────────────────────────────

/// An audio sink.
pub struct Sink {
    pub id: u32,
    pub name: String,
    pub description: String,
    pub volume: u8,
    pub muted: bool,
    pub default: bool,
}

/// Volume after `+`: five points up, at most 150.
pub open spec fn volume_up(v: u8) -> u8 {
    if v < 145 {
        (v + 5) as u8
    } else {
        150
    }
}

/// Volume after `-`: five points down, at least 0.
pub open spec fn volume_down(v: u8) -> u8 {
    if v < 5 {
        0
    } else {
        (v - 5) as u8
    }
}

/// The audio screen.
pub struct AudioScreen;

impl AudioScreen {
    /// The audio screen's keys: list keys (page 5) move the cursor; on the
    /// selected sink `+`/`=` and `-` change the volume by five points (between
    /// 0 and 150), `m` toggles mute and `d` makes it the default sink.
    pub fn on_key(&self, selected: &mut usize, sinks: &Vec<Sink>, key: Key) -> (r: (bool, Option<RunAction>))
        requires
            nav_fits(*old(selected), sinks@.len() as usize, key, 5),
        ensures
            match nav_target(*old(selected), sinks@.len() as usize, key, 5) {
                Some(t) => *final(selected) == t && r == (true, None::<RunAction>),
                None => {
                    &&& *final(selected) == *old(selected)
                    &&& sinks@.len() == 0 ==> r == (false, None::<RunAction>)
                    &&& sinks@.len() > 0 ==> {
                        let s = pick(sinks@, *old(selected));
                        &&& (key == Key::Char('+') || key == Key::Char('=')) ==> (r.0 && (r.1 matches Some(
                            RunAction::SetVolume { target, percent },
                        ) && target@ == s.name@ && percent == volume_up(s.volume)))
                        &&& key == Key::Char('-') ==> (r.0 && (r.1 matches Some(
                            RunAction::SetVolume { target, percent },
                        ) && target@ == s.name@ && percent == volume_down(s.volume)))
                        &&& key == Key::Char('m') ==> (r.0 && (r.1 matches Some(
                            RunAction::MuteSink { target, mute },
                        ) && target@ == s.name@ && mute == !s.muted))
                        &&& key == Key::Char('d') ==> (r.0 && (r.1 matches Some(
                            RunAction::SetDefaultSink(target),
                        ) && target@ == s.name@))
                        &&& !(key == Key::Char('+') || key == Key::Char('=') || key == Key::Char('-')
                            || key == Key::Char('m') || key == Key::Char('d')) ==> r == (
                            false,
                            None::<RunAction>,
                        )
                    }
                },
            },
    {
        match list_nav(*selected, sinks.len(), key, 5) {
            Some(t) => {
                *selected = t;
                return (true, None);
            },
            None => {},
        }
        let idx = match selected_index(*selected, sinks.len()) {
            Some(i) => i,
            None => {
                return (false, None);
            },
        };
        let s = &sinks[idx];
        if key == Key::Char('+') || key == Key::Char('=') {
            let next = if s.volume < 145 {
                s.volume + 5
            } else {
                150
            };
            (true, Some(RunAction::SetVolume { target: s.name.clone(), percent: next }))
        } else if key == Key::Char('-') {
            let next = if s.volume < 5 {
                0
            } else {
                s.volume - 5
            };
            (true, Some(RunAction::SetVolume { target: s.name.clone(), percent: next }))
        } else if key == Key::Char('m') {
            (true, Some(RunAction::MuteSink { target: s.name.clone(), mute: !s.muted }))
        } else if key == Key::Char('d') {
            (true, Some(RunAction::SetDefaultSink(s.name.clone())))
        } else {
            (false, None)
        }
}
}

// ─── Bluetooth ──────────────────────────────────────────────────────────

/// A Bluetooth device.
pub struct BtDevice {
    pub mac: String,
    pub name: String,
    pub paired: bool,
    pub connected: bool,
    pub trusted: bool,
    pub rssi: Option<i16>,
}

/// What a Bluetooth key asks for.
pub enum BtAction {
    Stay,
    Run(RunAction),
    /// Switch the adapter on when it lists no device (or cannot list),
    /// off otherwise.
    TogglePower,
}

/// The Bluetooth screen.
pub struct BluetoothScreen;

impl BluetoothScreen {
    /// The Bluetooth screen's keys: list keys (page 10) move the cursor; on the
    /// selected device `p` pairs, `c` connects, `C` disconnects and `t`
    /// trusts; `P` toggles the adapter's power.
    pub fn on_key(&self, selected: &mut usize, devices: &Vec<BtDevice>, key: Key) -> (r: (bool, BtAction))
        requires
            nav_fits(*old(selected), devices@.len() as usize, key, 10),
        ensures
            match nav_target(*old(selected), devices@.len() as usize, key, 10) {
                Some(t) => *final(selected) == t && r.0 && r.1 is Stay,
                None => {
                    &&& *final(selected) == *old(selected)
                    &&& devices@.len() > 0 ==> {
                        let d = pick(devices@, *old(selected));
                        &&& key == Key::Char('p') ==> (r.0 && (r.1 matches BtAction::Run(
                            RunAction::BluetoothPair(m),
                        ) && m@ == d.mac@))
                        &&& key == Key::Char('c') ==> (r.0 && (r.1 matches BtAction::Run(
                            RunAction::BluetoothConnect(m),
                        ) && m@ == d.mac@))
                        &&& key == Key::Char('C') ==> (r.0 && (r.1 matches BtAction::Run(
                            RunAction::BluetoothDisconnect(m),
                        ) && m@ == d.mac@))
                        &&& key == Key::Char('t') ==> (r.0 && (r.1 matches BtAction::Run(
                            RunAction::BluetoothTrust(m),
                        ) && m@ == d.mac@))
                    }
                    &&& (devices@.len() == 0 || !(key == Key::Char('p') || key == Key::Char('c') || key
                        == Key::Char('C') || key == Key::Char('t'))) ==> if key == Key::Char('P') {
                        r.0 && r.1 is TogglePower
                    } else {
                        !r.0 && r.1 is Stay
                    }
                },
            },
    {
        match list_nav(*selected, devices.len(), key, 10) {
            Some(t) => {
                *selected = t;
                return (true, BtAction::Stay);
            },
            None => {},
        }
        match selected_index(*selected, devices.len()) {
            Some(i) => {
                let mac = devices[i].mac.clone();
                if key == Key::Char('p') {
                    return (true, BtAction::Run(RunAction::BluetoothPair(mac)));
                } else if key == Key::Char('c') {
                    return (true, BtAction::Run(RunAction::BluetoothConnect(mac)));
                } else if key == Key::Char('C') {
                    return (true, BtAction::Run(RunAction::BluetoothDisconnect(mac)));
                } else if key == Key::Char('t') {
                    return (true, BtAction::Run(RunAction::BluetoothTrust(mac)));
                }
            },
            None => {},
        }
        if key == Key::Char('P') {
            (true, BtAction::TogglePower)
        } else {
            (false, BtAction::Stay)
        }
}
}

/// The adapter power a toggle asks for, from how many devices the adapter
/// listed (`None` when listing failed): on when it listed none.
pub fn power_toggle_target(listed: Option<usize>) -> (on: bool)
    ensures
        on == match listed {
            Some(n) => n == 0,
            None => true,
        },
{
    match listed {
        Some(n) => n == 0,
        None => true,
    }
}

/// The toast after a successful power toggle.
pub fn power_toggle_toast(on: bool) -> (r: String)
    ensures
        r@ == if on {
            "bluetooth on"@
        } else {
            "bluetooth off"@
        },
{
    if on {
        "bluetooth on".to_owned()
    } else {
        "bluetooth off".to_owned()
    }
}

// ─── Display ────────────────────────────────────────────────────────────

/// What a display key asks for.
pub enum DisplayAction {
    Stay,
    /// Read the brightness and lower it five points.
    BrightnessDown,
    /// Read the brightness and raise it five points.
    BrightnessUp,
}

/// The display screen.
pub struct DisplayScreen;

impl DisplayScreen {
    /// The display screen's keys: list keys (page 5) move the cursor over the
    /// outputs; Left and Right lower and raise the brightness.
    pub fn on_key(&self, selected: &mut usize, outputs: usize, key: Key) -> (r: (bool, DisplayAction))
        requires
            nav_fits(*old(selected), outputs, key, 5),
        ensures
            match nav_target(*old(selected), outputs, key, 5) {
                Some(t) => *final(selected) == t && r.0 && r.1 is Stay,
                None => {
                    &&& *final(selected) == *old(selected)
                    &&& key == Key::Left ==> r.0 && r.1 is BrightnessDown
                    &&& key == Key::Right ==> r.0 && r.1 is BrightnessUp
                    &&& key != Key::Left && key != Key::Right ==> !r.0 && r.1 is Stay
                },
            },
    {
        match list_nav(*selected, outputs, key, 5) {
            Some(t) => {
                *selected = t;
                (true, DisplayAction::Stay)
            },
            None => if key == Key::Left {
                (true, DisplayAction::BrightnessDown)
            } else if key == Key::Right {
                (true, DisplayAction::BrightnessUp)
            } else {
                (false, DisplayAction::Stay)
            },
        }
}
}

/// Brightness five points lower, at least 0.
pub fn brightness_down(cur: u8) -> (r: u8)
    ensures
        r == volume_down(cur),
{
    if cur < 5 {
        0
    } else {
        cur - 5
    }
}

/// Brightness five points higher, at most 100.
pub fn brightness_up(cur: u8) -> (r: u8)
    ensures
        r == if cur < 95 {
            cur + 5
        } else {
            100
        },
{
    if cur < 95 {
        cur + 5
    } else {
        100
    }
}

/// The toast after setting the brightness.
pub fn brightness_toast(pct: u8) -> (r: String)
    ensures
        r@ == "brightness "@ + dec_text(pct as nat) + "%"@,
{
    let n = decimal(pct as u64);
    let a = concat("brightness ", n.as_str());
    concat(a.as_str(), "%")
}

// ─── Power ──────────────────────────────────────────────────────────────

/// What a power key asks for.
pub enum PowerAction {
    Run(RunAction),
    Open(Modal),
    /// Read the CPU governor and switch it (see `next_governor`).
    ToggleGovernor,
}

/// The power screen.
pub struct PowerScreen;

impl PowerScreen {
    /// The power screen's keys: `s` suspends, `h` hibernates, `r` and `p` ask
    /// to confirm a reboot or a shutdown, `g` toggles the CPU governor.
    pub fn on_key(&self, key: Key) -> (r: Option<PowerAction>)
        ensures
            key == Key::Char('s') ==> r matches Some(PowerAction::Run(RunAction::Suspend)),
            key == Key::Char('h') ==> r matches Some(PowerAction::Run(RunAction::Hibernate)),
            key == Key::Char('r') ==> (r matches Some(
                PowerAction::Open(Modal::Confirm { message, kind, arg }),
            ) && message@ == "Reboot the system?"@ && kind == ConfirmKind::Reboot && arg@.len() == 0),
            key == Key::Char('p') ==> (r matches Some(
                PowerAction::Open(Modal::Confirm { message, kind, arg }),
            ) && message@ == "Shut down the system?"@ && kind == ConfirmKind::Shutdown && arg@.len()
                == 0),
            key == Key::Char('g') ==> r matches Some(PowerAction::ToggleGovernor),
            !(key == Key::Char('s') || key == Key::Char('h') || key == Key::Char('r') || key
                == Key::Char('p') || key == Key::Char('g')) ==> r is None,
    {
        if key == Key::Char('s') {
            Some(PowerAction::Run(RunAction::Suspend))
        } else if key == Key::Char('h') {
            Some(PowerAction::Run(RunAction::Hibernate))
        } else if key == Key::Char('r') {
            Some(
                PowerAction::Open(
                    Modal::Confirm {
                        message: "Reboot the system?".to_owned(),
                        kind: ConfirmKind::Reboot,
                        arg: String::new(),
                    },
                ),
            )
        } else if key == Key::Char('p') {
            Some(
                PowerAction::Open(
                    Modal::Confirm {
                        message: "Shut down the system?".to_owned(),
                        kind: ConfirmKind::Shutdown,
                        arg: String::new(),
                    },
                ),
            )
        } else if key == Key::Char('g') {
            Some(PowerAction::ToggleGovernor)
        } else {
            None
        }
}
}

/// The governor a toggle switches to: `powersave` from `performance`,
/// `performance` from anything else.
pub fn next_governor(cur: &str) -> (r: &'static str)
    ensures
        r@ == if cur@ == "performance"@ {
            "powersave"@
        } else {
            "performance"@
        },
{
    if crate::text::same_str(cur, "performance") {
        "powersave"
    } else {
        "performance"
    }
}

/// How a battery capacity is coloured.
#[derive(Debug, Clone, Copy, PartialEq, Eq, Structural)]
pub enum Severity {
    Good,
    Warn,
    Error,
}

/// Below 20% an error, below 50% a warning, otherwise fine.
pub fn battery_severity(cap: u8) -> (r: Severity)
    ensures
        r == if cap < 20 {
            Severity::Error
        } else if cap < 50 {
            Severity::Warn
        } else {
            Severity::Good
        },
{
    if cap < 20 {
        Severity::Error
    } else if cap < 50 {
        Severity::Warn
    } else {
        Severity::Good
    }
}

// ─── Packages ───────────────────────────────────────────────────────────

/// What a packages key asks for.
pub enum PackagesAction {
    Stay,
    Run(RunAction),
    Open(Modal),
    /// Clear the filter field.
    ClearFilter,
}

/// The name of the selected upgradable package, if any.
pub fn selected_upgradable(names: &Vec<String>, selected: usize) -> (r: Option<String>)
    ensures
        names@.len() == 0 ==> r is None,
        names@.len() > 0 ==> (r matches Some(n) && n@ == pick(names@, selected)@),
{
    match selected_index(selected, names.len()) {
        Some(i) => Some(names[i].clone()),
        None => None,
    }
}

/// The packages screen.
pub struct PackagesScreen;

impl PackagesScreen {
    /// The packages screen's keys: list keys (page 10) move the cursor over
    /// the upgradable packages; `u` refreshes the index, `U` upgrades all, `i`
    /// installs the selected package, `r` asks to confirm its removal, `s`
    /// asks for a search query and `/` clears the filter.
    pub fn on_key(&self, selected: &mut usize, names: &Vec<String>, key: Key) -> (r: (
        bool,
        PackagesAction,
    ))
        requires
            nav_fits(*old(selected), names@.len() as usize, key, 10),
        ensures
            match nav_target(*old(selected), names@.len() as usize, key, 10) {
                Some(t) => *final(selected) == t && r.0 && r.1 is Stay,
                None => {
                    &&& *final(selected) == *old(selected)
                    &&& key == Key::Char('u') ==> (r.0 && (r.1 matches PackagesAction::Run(
                        RunAction::PackageUpdate,
                    )))
                    &&& key == Key::Char('U') ==> (r.0 && (r.1 matches PackagesAction::Run(
                        RunAction::PackageUpgrade,
                    )))
                    &&& key == Key::Char('i') ==> (r.0 && if names@.len() > 0 {
                        (r.1 matches PackagesAction::Run(RunAction::PackageInstall(p)) && p@ == pick(
                            names@,
                            *old(selected),
                        )@)
                    } else {
                        r.1 is Stay
                    })
                    &&& key == Key::Char('r') ==> (r.0 && if names@.len() > 0 {
                        let p = pick(names@, *old(selected))@;
                        (r.1 matches PackagesAction::Open(Modal::Confirm { message, kind, arg })
                            && message@ == "Remove package `"@ + p + "`?"@ && kind
                            == ConfirmKind::Remove && arg@ == p)
                    } else {
                        r.1 is Stay
                    })
                    &&& key == Key::Char('s') ==> (r.0 && (r.1 matches PackagesAction::Open(
                        Modal::Input { prompt, buf, kind },
                    ) && prompt@ == "search packages"@ && buf@.len() == 0 && kind
                        == InputKind::PackageSearch))
                    &&& key == Key::Char('/') ==> (r.0 && r.1 is ClearFilter)
                    &&& !(key == Key::Char('u') || key == Key::Char('U') || key == Key::Char('i') || key
                        == Key::Char('r') || key == Key::Char('s') || key == Key::Char('/')) ==> (!r.0
                        && r.1 is Stay)
                },
            },
    {
        match list_nav(*selected, names.len(), key, 10) {
            Some(t) => {
                *selected = t;
                return (true, PackagesAction::Stay);
            },
            None => {},
        }
        if key == Key::Char('u') {
            (true, PackagesAction::Run(RunAction::PackageUpdate))
        } else if key == Key::Char('U') {
            (true, PackagesAction::Run(RunAction::PackageUpgrade))
        } else if key == Key::Char('i') {
            match selected_upgradable(names, *selected) {
                Some(p) => (true, PackagesAction::Run(RunAction::PackageInstall(p))),
                None => (true, PackagesAction::Stay),
            }
        } else if key == Key::Char('r') {
            match selected_upgradable(names, *selected) {
                Some(p) => {
                    let a = concat("Remove package `", p.as_str());
                    let message = concat(a.as_str(), "`?");
                    (
                        true,
                        PackagesAction::Open(Modal::Confirm { message, kind: ConfirmKind::Remove, arg: p }),
                    )
                },
                None => (true, PackagesAction::Stay),
            }
        } else if key == Key::Char('s') {
            (
                true,
                PackagesAction::Open(
                    Modal::Input {
                        prompt: "search packages".to_owned(),
                        buf: String::new(),
                        kind: InputKind::PackageSearch,
                    },
                ),
            )
        } else if key == Key::Char('/') {
            (true, PackagesAction::ClearFilter)
        } else {
            (false, PackagesAction::Stay)
        }
}
}

// ─── Logs ───────────────────────────────────────────────────────────────

/// What a logs key asks for.
pub enum LogsAction {
    Stay,
    /// Empty the log buffer.
    Clear,
    /// Fetch the last minute of the journal now.
    Refresh,
    /// Fetch the last fifty journal entries.
    FetchRecent,
}

/// What `serde_json` reads in a journal line written as JSON: `None` when
/// the line is not JSON; otherwise its `__REALTIME_TIMESTAMP` and its
/// `MESSAGE`, each when the line is an object holding that key with a
/// string value.
pub uninterp spec fn journal_json_fields(raw: Seq<u8>) -> Option<(Option<Seq<char>>, Option<Seq<char>>)>;

/// The two fields as plain text.
pub open spec fn fields_view(r: Option<(Option<String>, Option<String>)>) -> Option<(Option<Seq<char>>, Option<Seq<char>>)> {
    match r {
        Some((a, b)) => Some((opt_text_of(a), opt_text_of(b))),
        None => None,
    }
}

/// The text of an optional string.
pub open spec fn opt_text_of(o: Option<String>) -> Option<Seq<char>> {
    match o {
        Some(s) => Some(s@),
        None => None,
    }
}

/// Read a journal line as JSON with `serde_json` and pick its timestamp
/// and message strings.
#[verifier::external_body]
fn journal_fields(raw: &[u8]) -> (r: Option<(Option<String>, Option<String>)>)
    ensures
        fields_view(r) == journal_json_fields(raw@),
{
    let v: serde_json::Value = serde_json::from_slice(raw).ok()?;
    let ts = v.get("__REALTIME_TIMESTAMP").and_then(|x| x.as_str()).map(|x| x.to_string());
    let msg = v.get("MESSAGE").and_then(|x| x.as_str()).map(|x| x.to_string());
    Some((ts, msg))
}

/// The entry a journal line gives: none for an empty line, a line that
/// is not JSON, one without a timestamp that reads as an `i64` number of
/// microseconds, or one whose message is empty or missing; otherwise the
/// timestamp and the message.
pub open spec fn journal_entry_of(raw: Seq<u8>) -> Option<(i64, Seq<char>)> {
    if raw.len() == 0 {
        None
    } else {
        match journal_json_fields(raw) {
            None => None,
            Some((ts, msg)) => match ts {
                None => None,
                Some(t) => match dec_i64(t) {
                    None => None,
                    Some(us) => {
                        let m = match msg {
                            Some(m) => m,
                            None => Seq::empty(),
                        };
                        if m.len() == 0 {
                            None
                        } else {
                            Some((us, m))
                        }
                    },
                },
            },
        }
    }
}

/// One line of `journalctl -o json` as a log entry (see
/// `journal_entry_of`): the time in microseconds since the epoch and the
/// message.
pub fn journal_entry(raw: &[u8]) -> (r: Option<(i64, String)>)
    ensures
        match journal_entry_of(raw@) {
            None => r is None,
            Some((us, m)) => r matches Some((u, s)) && u == us && s@ == m,
        },
{
    if raw.len() == 0 {
        return None;
    }
    let (ts, msg) = match journal_fields(raw) {
        Some(f) => f,
        None => {
            return None;
        },
    };
    let us = match &ts {
        Some(t) => match i64_from_dec(t.as_str()) {
            Some(u) => u,
            None => {
                return None;
            },
        },
        None => {
            return None;
        },
    };
    let m = match msg {
        Some(m) => m,
        None => String::new(),
    };
    if m.as_str().is_empty() {
        return None;
    }
    Some((us, m))
}

/// The logs screen.
pub struct LogsScreen;

impl LogsScreen {
    /// The logs screen's keys: `c` clears the buffer (back to the tail), `r`
    /// and `f` fetch; `j`/`k`/Down/Up scroll by a line, PageDown/Space and
    /// PageUp by ten, Home/`g` go to the oldest line and End/`G` to the tail.
    /// The offset counts lines back from the tail.
    pub fn on_key(&self, offset: &mut usize, key: Key) -> (r: (bool, LogsAction))
        ensures
            key == Key::Char('c') ==> *final(offset) == 0 && r.0 && r.1 is Clear,
            key == Key::Char('r') ==> *final(offset) == *old(offset) && r.0 && r.1 is Refresh,
            key == Key::Char('f') ==> *final(offset) == *old(offset) && r.0 && r.1 is FetchRecent,
            (key == Key::Char('j') || key == Key::Down) ==> *final(offset) == sat_add(*old(offset), 1)
                && r.0 && r.1 is Stay,
            (key == Key::Char('k') || key == Key::Up) ==> *final(offset) == sat_sub(*old(offset), 1)
                && r.0 && r.1 is Stay,
            (key == Key::PageDown || key == Key::Char(' ')) ==> *final(offset) == sat_add(
                *old(offset),
                10,
            ) && r.0 && r.1 is Stay,
            key == Key::PageUp ==> *final(offset) == sat_sub(*old(offset), 10) && r.0 && r.1 is Stay,
            (key == Key::Home || key == Key::Char('g')) ==> *final(offset) == usize::MAX && r.0
                && r.1 is Stay,
            (key == Key::End || key == Key::Char('G')) ==> *final(offset) == 0 && r.0 && r.1 is Stay,
            !(key == Key::Char('c') || key == Key::Char('r') || key == Key::Char('f') || key
                == Key::Char('j') || key == Key::Down || key == Key::Char('k') || key == Key::Up || key
                == Key::PageDown || key == Key::Char(' ') || key == Key::PageUp || key == Key::Home
                || key == Key::Char('g') || key == Key::End || key == Key::Char('G')) ==> *final(offset)
                == *old(offset) && !r.0 && r.1 is Stay,
    {
        if key == Key::Char('c') {
            *offset = 0;
            (true, LogsAction::Clear)
        } else if key == Key::Char('r') {
            (true, LogsAction::Refresh)
        } else if key == Key::Char('f') {
            (true, LogsAction::FetchRecent)
        } else if key == Key::Char('j') || key == Key::Down {
            *offset = offset.saturating_add(1);
            (true, LogsAction::Stay)
        } else if key == Key::Char('k') || key == Key::Up {
            *offset = offset.saturating_sub(1);
            (true, LogsAction::Stay)
        } else if key == Key::PageDown || key == Key::Char(' ') {
            *offset = offset.saturating_add(10);
            (true, LogsAction::Stay)
        } else if key == Key::PageUp {
            *offset = offset.saturating_sub(10);
            (true, LogsAction::Stay)
        } else if key == Key::Home || key == Key::Char('g') {
            *offset = usize::MAX;
            (true, LogsAction::Stay)
        } else if key == Key::End || key == Key::Char('G') {
            *offset = 0;
            (true, LogsAction::Stay)
        } else {
            (false, LogsAction::Stay)
        }
}
}

/// The visible slice of the log buffer: the offset is capped so the
/// window never scrolls past the oldest line; lines `start..end` show.
pub fn logs_window(total: usize, offset: usize, visible: usize) -> (r: (usize, usize, usize))
    ensures
        r.0 == if offset > sat_sub(total, visible) {
            sat_sub(total, visible)
        } else {
            offset
        },
        r.2 == total - r.0,
        r.1 == sat_sub(r.2, visible),
        r.1 <= r.2 <= total,
{
    let max_off = total.saturating_sub(visible);
    let off = if offset > max_off {
        max_off
    } else {
        offset
    };
    let end = total - off;
    let start = end.saturating_sub(visible);
    (off, start, end)
}

// ─── Network ────────────────────────────────────────────────────────────

/// A network interface.
pub struct Interface {
    pub name: String,
    pub state: String,
}

/// A Wi-Fi network from a scan; empty `security` for an open network.
pub struct WifiNet {
    pub ssid: String,
    pub security: String,
}

/// What a network key asks for.
pub enum NetworkAction {
    Stay,
    Run(RunAction),
    Open(Modal),
    /// Remember the SSID and ask for its password (masked).
    AskPassword { ssid: String, prompt: String },
    /// Show or hide the saved-networks pane.
    ToggleSaved,
}

/// ASCII lower case of a character.
pub open spec fn ascii_lower(c: char) -> char {
    if 'A' <= c <= 'Z' {
        ((c as int) + 32) as char
    } else {
        c
    }
}

/// Equal ignoring ASCII case.
pub open spec fn eq_ignore_ascii_case(a: Seq<char>, b: Seq<char>) -> bool {
    a.len() == b.len() && forall|i: int| 0 <= i < a.len() ==> ascii_lower(a[i]) == ascii_lower(b[i])
}

fn lower(c: char) -> (r: char)
    ensures
        r == ascii_lower(c),
{
    if 'A' <= c && c <= 'Z' {
        match c {
            'A' => 'a',
            'B' => 'b',
            'C' => 'c',
            'D' => 'd',
            'E' => 'e',
            'F' => 'f',
            'G' => 'g',
            'H' => 'h',
            'I' => 'i',
            'J' => 'j',
            'K' => 'k',
            'L' => 'l',
            'M' => 'm',
            'N' => 'n',
            'O' => 'o',
            'P' => 'p',
            'Q' => 'q',
            'R' => 'r',
            'S' => 's',
            'T' => 't',
            'U' => 'u',
            'V' => 'v',
            'W' => 'w',
            'X' => 'x',
            'Y' => 'y',
            _ => 'z',
        }
    } else {
        c
    }
}

/// Whether two strings are equal ignoring ASCII case.
pub fn same_ignoring_ascii_case(a: &str, b: &str) -> (r: bool)
    ensures
        r == eq_ignore_ascii_case(a@, b@),
{
    let ac = chars_of(a);
    let bc = chars_of(b);
    if ac.len() != bc.len() {
        return false;
    }
    let mut i: usize = 0;
    while i < ac.len()
        invariant
            ac@ == a@,
            bc@ == b@,
            ac@.len() == bc@.len(),
            i <= ac@.len(),
            forall|k: int| 0 <= k < i ==> ascii_lower(a@[k]) == ascii_lower(b@[k]),
        decreases ac@.len() - i,
    {
        if lower(ac[i]) != lower(bc[i]) {
            return false;
        }
        i += 1;
    }
    true
}

/// The state a toggle asks of an interface: up unless it reports `up` or
/// `unknown` (in any case).
pub fn toggle_up(state: &str) -> (up: bool)
    ensures
        up == (!eq_ignore_ascii_case(state@, "up"@) && !eq_ignore_ascii_case(state@, "unknown"@)),
{
    !same_ignoring_ascii_case(state, "up") && !same_ignoring_ascii_case(state, "unknown")
}

/// The network screen.
pub struct NetworkScreen;

impl NetworkScreen {
    /// The network screen's keys over one list of the interfaces followed by
    /// the Wi-Fi networks: `j`/`k`/Down/Up step, `h`/Left jumps to the last
    /// interface, `l`/Right to the first network, `G`/End to the last row,
    /// `g`/Home to the first; Enter on a network connects to an open one or
    /// asks for the password of a secured one; `r` scans, `c` asks for an
    /// SSID, `d` asks to confirm disconnecting, Space toggles the selected
    /// interface up or down, `s` shows or hides the saved networks.
    pub fn on_key(&self, 
        selected: &mut usize,
        ifaces: &Vec<Interface>,
        wifi: &Vec<WifiNet>,
        key: Key,
    ) -> (r: (bool, NetworkAction))
        requires
            ifaces@.len() + wifi@.len() <= usize::MAX,
            (key == Key::Char('j') || key == Key::Down) ==> *old(selected) < usize::MAX,
        ensures
            ({
                let ni = ifaces@.len() as int;
                let nw = wifi@.len() as int;
                let total = ni + nw;
                let sel = *old(selected) as int;
                &&& (key == Key::Char('j') || key == Key::Down) ==> r.0 && r.1 is Stay
                    && *final(selected) == if total > 0 {
                    if sel + 1 < total - 1 {
                        sel + 1
                    } else {
                        total - 1
                    }
                } else {
                    sel
                }
                &&& (key == Key::Char('k') || key == Key::Up) ==> r.0 && r.1 is Stay && *final(selected)
                    == sat_sub(*old(selected), 1)
                &&& (key == Key::Char('h') || key == Key::Left) ==> r.0 && r.1 is Stay
                    && *final(selected) == if ni > 0 {
                    ni - 1
                } else {
                    0
                }
                &&& (key == Key::Char('l') || key == Key::Right) ==> r.0 && r.1 is Stay
                    && *final(selected) == if nw > 0 {
                    ni
                } else {
                    sel
                }
                &&& (key == Key::Char('G') || key == Key::End) ==> r.0 && r.1 is Stay
                    && *final(selected) == if total > 0 {
                    total - 1
                } else {
                    sel
                }
                &&& (key == Key::Char('g') || key == Key::Home) ==> r.0 && r.1 is Stay
                    && *final(selected) == 0
                &&& key == Key::Enter ==> (r.0 && *final(selected) == sel && if ni <= sel < total {
                    let net = wifi@[sel - ni];
                    if net.security@.len() == 0 {
                        (r.1 matches NetworkAction::Run(RunAction::WifiConnect { ssid, password })
                            && ssid@ == net.ssid@ && password is None)
                    } else {
                        (r.1 matches NetworkAction::AskPassword { ssid, prompt } && ssid@ == net.ssid@
                            && prompt@ == "Wi-Fi password for "@ + net.ssid@)
                    }
                } else {
                    r.1 is Stay
                })
                &&& key == Key::Char('r') ==> (r.0 && *final(selected) == sel && (r.1 matches NetworkAction::Run(
                    RunAction::WifiScan,
                )))
                &&& key == Key::Char('c') ==> (r.0 && *final(selected) == sel && (r.1 matches NetworkAction::Open(
                    Modal::Input { prompt, buf, kind },
                ) && prompt@ == "Connect to SSID:"@ && buf@.len() == 0 && kind == InputKind::ConnectSsid))
                &&& key == Key::Char('d') ==> (r.0 && *final(selected) == sel && (r.1 matches NetworkAction::Open(
                    Modal::Confirm { message, kind, arg },
                ) && message@ == "Disconnect from Wi-Fi?"@ && kind == ConfirmKind::DisconnectWifi
                    && arg@.len() == 0))
                &&& key == Key::Char(' ') ==> (r.0 && *final(selected) == sel && if ni > 0 {
                    let it = pick(ifaces@, *old(selected));
                    (r.1 matches NetworkAction::Run(RunAction::SetInterfaceUp(name, up)) && name@
                        == it.name@ && up == (!eq_ignore_ascii_case(it.state@, "up"@)
                        && !eq_ignore_ascii_case(it.state@, "unknown"@)))
                } else {
                    r.1 is Stay
                })
                &&& key == Key::Char('s') ==> r.0 && *final(selected) == sel && r.1 is ToggleSaved
                &&& !(key == Key::Char('j') || key == Key::Down || key == Key::Char('k') || key == Key::Up
                    || key == Key::Char('h') || key == Key::Left || key == Key::Char('l') || key
                    == Key::Right || key == Key::Char('G') || key == Key::End || key == Key::Char('g')
                    || key == Key::Home || key == Key::Enter || key == Key::Char('r') || key
                    == Key::Char('c') || key == Key::Char('d') || key == Key::Char(' ') || key
                    == Key::Char('s')) ==> !r.0 && r.1 is Stay && *final(selected) == sel
            }),
    {
        let ni = ifaces.len();
        let nw = wifi.len();
        let total = ni + nw;
        if key == Key::Char('j') || key == Key::Down {
            if total > 0 {
                *selected = if *selected + 1 < total - 1 {
                    *selected + 1
                } else {
                    total - 1
                };
            }
            (true, NetworkAction::Stay)
        } else if key == Key::Char('k') || key == Key::Up {
            *selected = selected.saturating_sub(1);
            (true, NetworkAction::Stay)
        } else if key == Key::Char('h') || key == Key::Left {
            *selected = if ni > 0 {
                ni - 1
            } else {
                0
            };
            (true, NetworkAction::Stay)
        } else if key == Key::Char('l') || key == Key::Right {
            if nw > 0 {
                *selected = ni;
            }
            (true, NetworkAction::Stay)
        } else if key == Key::Char('G') || key == Key::End {
            if total > 0 {
                *selected = total - 1;
            }
            (true, NetworkAction::Stay)
        } else if key == Key::Char('g') || key == Key::Home {
            *selected = 0;
            (true, NetworkAction::Stay)
        } else if key == Key::Enter {
            if *selected >= ni && *selected - ni < nw {
                let net = &wifi[*selected - ni];
                if net.security.as_str().is_empty() {
                    (
                        true,
                        NetworkAction::Run(
                            RunAction::WifiConnect { ssid: net.ssid.clone(), password: None },
                        ),
                    )
                } else {
                    let prompt = concat("Wi-Fi password for ", net.ssid.as_str());
                    (true, NetworkAction::AskPassword { ssid: net.ssid.clone(), prompt })
                }
            } else {
                (true, NetworkAction::Stay)
            }
        } else if key == Key::Char('r') {
            (true, NetworkAction::Run(RunAction::WifiScan))
        } else if key == Key::Char('c') {
            (
                true,
                NetworkAction::Open(
                    Modal::Input {
                        prompt: "Connect to SSID:".to_owned(),
                        buf: String::new(),
                        kind: InputKind::ConnectSsid,
                    },
                ),
            )
        } else if key == Key::Char('d') {
            (
                true,
                NetworkAction::Open(
                    Modal::Confirm {
                        message: "Disconnect from Wi-Fi?".to_owned(),
                        kind: ConfirmKind::DisconnectWifi,
                        arg: String::new(),
                    },
                ),
            )
        } else if key == Key::Char(' ') {
            match selected_index(*selected, ni) {
                Some(i) => {
                    let it = &ifaces[i];
                    let up = toggle_up(it.state.as_str());
                    (true, NetworkAction::Run(RunAction::SetInterfaceUp(it.name.clone(), up)))
                },
                None => (true, NetworkAction::Stay),
            }
        } else if key == Key::Char('s') {
            (true, NetworkAction::ToggleSaved)
        } else {
            (false, NetworkAction::Stay)
        }
}
}

/// Volume keys stay between 0 and 150, and `-` undoes `+` (and `+` undoes
/// `-`) away from the ends.
pub proof fn lemma_volume_keys(v: u8)
    ensures
        v <= 150 ==> volume_up(v) <= 150,
        v <= 145 ==> volume_down(volume_up(v)) == v,
        5 <= v <= 150 ==> volume_up(volume_down(v)) == v,
{
}

} // verus!
