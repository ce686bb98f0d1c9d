//! What every screen shares: the keys it is handed and the toasts it
//! raises. The terminal's own key events are mapped onto `Key` by the
//! caller.
use vstd::prelude::*;

verus! {

/// A key press, as the screens tell keys apart. A character typed with
/// Control held is still a `Char`; the screens that care are told about
/// the modifier separately.
#[derive(Debug, Clone, Copy, PartialEq, Eq, Structural)]
pub enum Key {
    Char(char),
    Enter,
    Esc,
    Backspace,
    Tab,
    BackTab,
    Up,
    Down,
    Left,
    Right,
    Home,
    End,
    PageUp,
    PageDown,
    /// A function key, by number.
    F(u8),
    /// Any key no screen reacts to.
    Other,
}

/// Severity of a toast.
#[derive(Debug, Clone, Copy, PartialEq, Eq, Structural)]
pub enum ToastKind {
    Info,
    Success,
    Warn,
    Error,
}

/// A toast a screen asks the app to show.
#[derive(Debug, Clone, PartialEq, Eq)]
pub struct Toast {
    pub kind: ToastKind,
    pub text: String,
}

/// The screens of the app.
#[derive(Debug, Clone, Copy, PartialEq, Eq, Hash, Structural)]
pub enum ScreenId {
    Overworld,
    MainMenu,
    Screensaver,
    System,
    Network,
    Bluetooth,
    Power,
    Display,
    Audio,
    Storage,
    LoRa,
    Mesh,
    City,
    Intel,
    Recon,
    Files,
    Processes,
    Services,
    Packages,
    Logs,
    Settings,
    Editor,
    Ai,
    AiLogs,
}

/// A navigation event of the menu-driven screens.
#[derive(Debug, Clone, Copy, PartialEq, Eq, Structural)]
pub enum NavEvent {
    Up,
    Down,
    Left,
    Right,
    Confirm,
    Back,
    Tab,
    BackTab,
    Backspace,
    Char(char),
}

/// Whether a screen used a navigation event.
#[derive(Debug, Clone, Copy, PartialEq, Eq, Structural)]
pub enum Consumed {
    Yes,
    No,
}

/// What a confirmation modal confirms.
#[derive(Debug, Clone, Copy, PartialEq, Eq, Structural)]
pub enum ConfirmKind {
    Reboot,
    Shutdown,
    Remove,
    DisconnectWifi,
    /// Throw away the editor's unsaved changes.
    Discard,
}

/// What a text-input modal is for.
#[derive(Debug, Clone, Copy, PartialEq, Eq, Structural)]
pub enum InputKind {
    PackageSearch,
    ConnectSsid,
    WifiPassword,
    /// The path to save the editor's text under.
    EditorSaveAs,
}

/// A modal a screen opens.
#[derive(Debug, Clone, PartialEq, Eq)]
pub enum Modal {
    /// A yes/no question; `arg` is handed to the confirmed action.
    Confirm { message: String, kind: ConfirmKind, arg: String },
    /// A text prompt, pre-filled with `buf`.
    Input { prompt: String, buf: String, kind: InputKind },
    /// A masked text prompt.
    Secret { prompt: String, kind: InputKind },
}

/// A system action a screen asks the app to run.
#[derive(Debug, Clone, PartialEq, Eq)]
pub enum RunAction {
    Suspend,
    Hibernate,
    SetVolume { target: String, percent: u8 },
    MuteSink { target: String, mute: bool },
    SetDefaultSink(String),
    SetBrightness(u8),
    BluetoothPair(String),
    BluetoothConnect(String),
    BluetoothDisconnect(String),
    BluetoothTrust(String),
    BluetoothScan,
    WifiScan,
    WifiConnect { ssid: String, password: Option<String> },
    SetInterfaceUp(String, bool),
    PackageUpdate,
    PackageUpgrade,
    PackageInstall(String),
}

} // verus!
