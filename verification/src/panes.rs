//! What the two-pane and single-list screens of the navigation layout
//! draw: the list rows, which one is highlighted, and the detail or
//! header lines beside them.
use vstd::prelude::*;
use crate::lists::bar_text;
use crate::lora::LoraChatLine;
use crate::lora_screen::sat_sub;
use crate::files::FilesScreenV2;
use crate::nav_screens::{
    AudioScreenV2, BluetoothScreenV2, DisplayScreenV2, EditorScreenV2, LogsScreenV2, LoraScreenV2,
    NetworkScreenV2, PackagesScreenV2,
};
use crate::views::OutputInfo;
use crate::system_screens::{BtDevice, Sink};
use crate::text::{
    concat, dec_text, decimal, pad_left, pad_right, padded_left, padded_right, signed_dec_text,
    truncate_chars, truncated,
};
use crate::system_screens::{eq_ignore_ascii_case, same_ignoring_ascii_case};
use crate::views::{push_row, row_view, rows_view, run, single, TextRun, Tone};

verus! {

/// A list beside a panel of lines: the list's rows, the highlighted row,
/// and the panel's lines.
pub struct SplitView {
    pub rows: Vec<Vec<TextRun>>,
    pub selected: Option<usize>,
    pub detail: Vec<Vec<TextRun>>,
}

/// A row of one dimmed text.
pub open spec fn dim_row(s: Seq<char>) -> Seq<(Seq<char>, Tone)> {
    seq![(s, Tone::Dim)]
}

/// A detail line: a dimmed label, then the value in its tone.
pub open spec fn kv_row(label: Seq<char>, value: Seq<char>, tone: Tone) -> Seq<(Seq<char>, Tone)> {
    seq![(label, Tone::Dim), (value, tone)]
}

/// The cursor kept on a list of `n` items: at most the last one.
pub open spec fn kept(sel: usize, n: nat) -> int {
    if n == 0 {
        0
    } else if sel < n - 1 {
        sel as int
    } else {
        n - 1
    }
}

/// The highlight of a list of `n` items: none when empty, else the kept
/// cursor.
pub open spec fn highlight(sel: usize, n: nat) -> Option<usize> {
    if n == 0 {
        None
    } else {
        Some(kept(sel, n) as usize)
    }
}

fn keep(sel: usize, n: usize) -> (r: usize)
    ensures
        r == kept(sel, n as nat),
{
    if n == 0 {
        0
    } else if sel < n - 1 {
        sel
    } else {
        n - 1
    }
}

fn highlight_of(sel: usize, n: usize) -> (r: Option<usize>)
    ensures
        r == highlight(sel, n as nat),
{
    if n == 0 {
        None
    } else {
        Some(keep(sel, n))
    }
}

fn dim_line(s: &str) -> (r: Vec<TextRun>)
    ensures
        row_view(r@) == dim_row(s@),
{
    single(s.to_owned(), Tone::Dim)
}

fn blank_line() -> (r: Vec<TextRun>)
    ensures
        row_view(r@) == Seq::<(Seq<char>, Tone)>::empty(),
{
    let r: Vec<TextRun> = Vec::new();
    proof {
        assert(row_view(r@) =~= Seq::<(Seq<char>, Tone)>::empty());
    }
    r
}

fn kv_line(label: &str, value: String, tone: Tone) -> (r: Vec<TextRun>)
    ensures
        row_view(r@) == kv_row(label@, value@, tone),
{
    let r = vec![run(label.to_owned(), Tone::Dim), run(value, tone)];
    proof {
        assert(row_view(r@) =~= kv_row(label@, value@, tone));
    }
    r
}

/// The one-row list shown while a list is being read.
pub open spec fn refreshing_rows() -> Seq<Seq<(Seq<char>, Tone)>> {
    seq![dim_row("  (refreshing…)"@)]
}

fn refreshing_list() -> (r: Vec<Vec<TextRun>>)
    ensures
        rows_view(r@) == refreshing_rows(),
{
    let r = vec![dim_line("  (refreshing…)")];
    proof {
        assert(rows_view(r@) =~= refreshing_rows());
    }
    r
}

/// The one-line panel shown while a list is being read.
pub open spec fn refreshing_detail() -> Seq<Seq<(Seq<char>, Tone)>> {
    seq![dim_row("(refreshing…)"@)]
}

fn refreshing_panel() -> (r: Vec<Vec<TextRun>>)
    ensures
        rows_view(r@) == refreshing_detail(),
{
    let r = vec![dim_line("(refreshing…)")];
    proof {
        assert(rows_view(r@) =~= refreshing_detail());
    }
    r
}

fn one_line(s: &str) -> (r: Vec<Vec<TextRun>>)
    ensures
        rows_view(r@) == seq![dim_row(s@)],
{
    let r = vec![dim_line(s)];
    proof {
        assert(rows_view(r@) =~= seq![dim_row(s@)]);
    }
    r
}

// ─── Network ────────────────────────────────────────────────────────────

/// A network interface with all its addresses.
pub struct IfaceDetail {
    pub name: String,
    pub state: String,
    pub ipv4: Vec<String>,
    pub ipv6: Vec<String>,
}

/// Good for an interface that is `up` (in any case), dimmed otherwise.
pub open spec fn state_tone(state: Seq<char>) -> Tone {
    if eq_ignore_ascii_case(state, "up"@) {
        Tone::Good
    } else {
        Tone::Dim
    }
}

/// An interface row: the name (width 12), the state (width 6) and the
/// first IPv4 address when it has one.
pub open spec fn iface_line_of(i: IfaceDetail) -> Seq<(Seq<char>, Tone)> {
    let base = seq![
        (crate::text::padded_right(i.name@, 12), Tone::Fg),
        (crate::text::padded_right(i.state@, 6), state_tone(i.state@)),
    ];
    if i.ipv4@.len() > 0 {
        base.push((" "@ + i.ipv4@[0]@, Tone::Accent))
    } else {
        base
    }
}

/// An interface's detail: name and state, a line per IPv4 and per IPv6
/// address, and the active Wi-Fi network when there is one.
pub open spec fn iface_detail_of(i: IfaceDetail, ssid: Option<String>) -> Seq<Seq<(Seq<char>, Tone)>> {
    let head = seq![kv_row("name   "@, i.name@, Tone::Fg), kv_row("state  "@, i.state@, state_tone(i.state@))];
    let v4 = i.ipv4@.map_values(|a: String| kv_row("ipv4   "@, a@, Tone::Accent));
    let v6 = i.ipv6@.map_values(|a: String| kv_row("ipv6   "@, a@, Tone::Fg));
    let tail = match ssid {
        Some(s) => seq![kv_row("ssid   "@, s@, Tone::Good)],
        None => Seq::empty(),
    };
    head + v4 + v6 + tail
}

fn iface_line(i: &IfaceDetail) -> (r: Vec<TextRun>)
    ensures
        row_view(r@) == iface_line_of(*i),
{
    let up = same_ignoring_ascii_case(i.state.as_str(), "up");
    let mut r = vec![
        run(crate::text::pad_right(i.name.as_str(), 12), Tone::Fg),
        run(
            crate::text::pad_right(i.state.as_str(), 6),
            if up {
                Tone::Good
            } else {
                Tone::Dim
            },
        ),
    ];
    proof {
        assert(row_view(r@) =~= seq![
            (crate::text::padded_right(i.name@, 12), Tone::Fg),
            (crate::text::padded_right(i.state@, 6), state_tone(i.state@)),
        ]);
    }
    if i.ipv4.len() > 0 {
        let ghost before = r@;
        r.push(run(crate::text::concat(" ", i.ipv4[0].as_str()), Tone::Accent));
        proof {
            assert(row_view(r@) =~= row_view(before).push((" "@ + i.ipv4@[0]@, Tone::Accent)));
        }
    }
    r
}

fn addr_lines(rows: &mut Vec<Vec<TextRun>>, addrs: &Vec<String>, label: &str, tone: Tone)
    ensures
        rows_view(final(rows)@) == rows_view(old(rows)@) + addrs@.map_values(
            |a: String| kv_row(label@, a@, tone),
        ),
{
    let ghost start = rows_view(rows@);
    let mut k: usize = 0;
    while k < addrs.len()
        invariant
            k <= addrs@.len(),
            rows_view(rows@) == start + addrs@.take(k as int).map_values(
                |a: String| kv_row(label@, a@, tone),
            ),
        decreases addrs@.len() - k,
    {
        let ghost prev = rows_view(rows@);
        push_row(rows, kv_line(label, addrs[k].clone(), tone));
        proof {
            assert(addrs@.take(k + 1).map_values(|a: String| kv_row(label@, a@, tone))
                =~= addrs@.take(k as int).map_values(|a: String| kv_row(label@, a@, tone)).push(
                kv_row(label@, addrs@[k as int]@, tone),
            ));
        }
        k += 1;
    }
    proof {
        assert(addrs@.take(addrs@.len() as int) =~= addrs@);
    }
}

impl NetworkScreenV2 {
    /// The interfaces pane (`None` while the list is being read): a row per
    /// interface with the cursor kept on the list, and the kept
    /// interface's detail beside it.
    pub fn view(&self, ifaces: Option<&Vec<IfaceDetail>>, ssid: &Option<String>) -> (v: SplitView)
        ensures
            match ifaces {
                None => {
                    &&& rows_view(v.rows@) == refreshing_rows()
                    &&& v.selected is None
                    &&& rows_view(v.detail@) == refreshing_detail()
                },
                Some(l) => {
                    let n = l@.len();
                    &&& rows_view(v.rows@) == l@.map_values(|i: IfaceDetail| iface_line_of(i))
                    &&& v.selected == highlight(self.selected, n)
                    &&& rows_view(v.detail@) == if n == 0 {
                        seq![dim_row("(no interface selected)"@)]
                    } else {
                        iface_detail_of(l@[kept(self.selected, n)], *ssid)
                    }
                },
            },
    {
        match ifaces {
            None => SplitView { rows: refreshing_list(), selected: None, detail: refreshing_panel() },
            Some(l) => {
                let n = l.len();
                let mut rows: Vec<Vec<TextRun>> = Vec::new();
                let mut k: usize = 0;
                while k < n
                    invariant
                        k <= n == l@.len(),
                        rows_view(rows@) == l@.take(k as int).map_values(
                            |i: IfaceDetail| iface_line_of(i),
                        ),
                    decreases n - k,
                {
                    push_row(&mut rows, iface_line(&l[k]));
                    proof {
                        assert(l@.take(k + 1).map_values(|i: IfaceDetail| iface_line_of(i))
                            =~= l@.take(k as int).map_values(|i: IfaceDetail| iface_line_of(i)).push(
                            iface_line_of(l@[k as int]),
                        ));
                    }
                    k += 1;
                }
                proof {
                    assert(l@.take(n as int) =~= l@);
                }
                let sel = keep(self.selected, n);
                let detail = if n == 0 {
                    one_line("(no interface selected)")
                } else {
                    let i = &l[sel];
                    let up = same_ignoring_ascii_case(i.state.as_str(), "up");
                    let mut d: Vec<Vec<TextRun>> = Vec::new();
                    push_row(&mut d, kv_line("name   ", i.name.clone(), Tone::Fg));
                    push_row(
                        &mut d,
                        kv_line(
                            "state  ",
                            i.state.clone(),
                            if up {
                                Tone::Good
                            } else {
                                Tone::Dim
                            },
                        ),
                    );
                    proof {
                        assert(rows_view(d@) =~= seq![
                            kv_row("name   "@, i.name@, Tone::Fg),
                            kv_row("state  "@, i.state@, state_tone(i.state@)),
                        ]);
                    }
                    addr_lines(&mut d, &i.ipv4, "ipv4   ", Tone::Accent);
                    addr_lines(&mut d, &i.ipv6, "ipv6   ", Tone::Fg);
                    match ssid {
                        Some(s) => push_row(&mut d, kv_line("ssid   ", s.clone(), Tone::Good)),
                        None => {},
                    }
                    proof {
                        assert(rows_view(d@) =~= iface_detail_of(*i, *ssid));
                    }
                    d
                };
                SplitView { rows, selected: highlight_of(self.selected, n), detail }
            },
        }
    }
}

// ─── Audio ──────────────────────────────────────────────────────────────

/// A sink row: `★` for the default sink (`○` otherwise), then its name
/// cut to 24 characters and `[M]` when muted.
pub open spec fn sink_line_of(k: Sink) -> Seq<(Seq<char>, Tone)> {
    seq![
        (if k.default {
            " ★ "@
        } else {
            " ○ "@
        }, if k.default {
            Tone::Good
        } else {
            Tone::Dim
        }),
        (truncated(k.name@, 24) + if k.muted {
            " [M]"@
        } else {
            Seq::<char>::empty()
        }, Tone::Fg),
    ]
}

/// Cells of a 16-cell volume bar that are filled: a sixteenth per 6.25%,
/// all of them from 100% up.
pub open spec fn vol_cells(volume: u8) -> int {
    if volume * 16 / 100 < 16 {
        volume * 16 / 100
    } else {
        16
    }
}

/// A yes/no word.
pub open spec fn yes_no(b: bool) -> Seq<char> {
    if b {
        "yes"@
    } else {
        "no"@
    }
}

/// A sink's detail: name, number, the volume bar with its percentage (a
/// warning above 100%), mute and default state, the description cut to
/// 30 characters and the keys.
pub open spec fn sink_detail_of(k: Sink) -> Seq<Seq<(Seq<char>, Tone)>> {
    let f = vol_cells(k.volume);
    seq![
        kv_row("name   "@, k.name@, Tone::Fg),
        kv_row("id     "@, dec_text(k.id as nat), Tone::Dim),
        kv_row(
            "volume "@,
            "["@ + bar_text(f as nat, (16 - f) as nat) + "] "@ + dec_text(k.volume as nat) + "%"@,
            if k.volume > 100 {
                Tone::Warn
            } else {
                Tone::Good
            },
        ),
        kv_row("muted  "@, yes_no(k.muted), if k.muted {
            Tone::Warn
        } else {
            Tone::Good
        }),
        kv_row("default"@, if k.default {
            " ★ yes"@
        } else {
            " no"@
        }, if k.default {
            Tone::Good
        } else {
            Tone::Dim
        }),
        Seq::empty(),
        dim_row(truncated(k.description@, 30)),
        Seq::empty(),
        dim_row("  ◀/▶ volume  m mute"@),
        dim_row("  A set as default"@),
    ]
}

fn sink_line(k: &Sink) -> (r: Vec<TextRun>)
    ensures
        row_view(r@) == sink_line_of(*k),
{
    let name = truncate_chars(k.name.as_str(), 24);
    let r = vec![
        run(
            (if k.default {
                " ★ "
            } else {
                " ○ "
            }).to_owned(),
            if k.default {
                Tone::Good
            } else {
                Tone::Dim
            },
        ),
        run(
            concat(
                name.as_str(),
                if k.muted {
                    " [M]"
                } else {
                    ""
                },
            ),
            Tone::Fg,
        ),
    ];
    proof {
        assert(""@ =~= Seq::<char>::empty()) by {
            reveal_strlit("");
        }
        assert(row_view(r@) =~= sink_line_of(*k));
    }
    r
}

fn sink_detail(k: &Sink) -> (r: Vec<Vec<TextRun>>)
    ensures
        rows_view(r@) == sink_detail_of(*k),
{
    let f0 = (k.volume as usize) * 16 / 100;
    let f = if f0 < 16 {
        f0
    } else {
        16
    };
    let b = crate::lists::bar(f, 16 - f);
    let b1 = concat("[", b.as_str());
    let b2 = concat(b1.as_str(), "] ");
    let b3 = concat(b2.as_str(), decimal(k.volume as u64).as_str());
    let vol = concat(b3.as_str(), "%");
    let r = vec![
        kv_line("name   ", k.name.clone(), Tone::Fg),
        kv_line("id     ", decimal(k.id as u64), Tone::Dim),
        kv_line(
            "volume ",
            vol,
            if k.volume > 100 {
                Tone::Warn
            } else {
                Tone::Good
            },
        ),
        kv_line(
            "muted  ",
            (if k.muted {
                "yes"
            } else {
                "no"
            }).to_owned(),
            if k.muted {
                Tone::Warn
            } else {
                Tone::Good
            },
        ),
        kv_line(
            "default",
            (if k.default {
                " ★ yes"
            } else {
                " no"
            }).to_owned(),
            if k.default {
                Tone::Good
            } else {
                Tone::Dim
            },
        ),
        blank_line(),
        single(truncate_chars(k.description.as_str(), 30), Tone::Dim),
        blank_line(),
        dim_line("  ◀/▶ volume  m mute"),
        dim_line("  A set as default"),
    ];
    proof {
        assert(f == vol_cells(k.volume));
        assert(rows_view(r@) =~= sink_detail_of(*k));
    }
    r
}

impl AudioScreenV2 {
    /// The sinks pane (`None` while the list is being read): a row per
    /// sink (a hint when there are none) with the cursor kept on the list,
    /// and the kept sink's detail beside it.
    pub fn view(&self, sinks: Option<&Vec<Sink>>) -> (v: SplitView)
        ensures
            match sinks {
                None => {
                    &&& rows_view(v.rows@) == refreshing_rows()
                    &&& v.selected is None
                    &&& rows_view(v.detail@) == refreshing_detail()
                },
                Some(l) => {
                    let n = l@.len();
                    &&& rows_view(v.rows@) == if n == 0 {
                        seq![dim_row("  (no audio sinks)"@)]
                    } else {
                        l@.map_values(|k: Sink| sink_line_of(k))
                    }
                    &&& v.selected == highlight(self.selected, n)
                    &&& rows_view(v.detail@) == if n == 0 {
                        seq![dim_row("(no sink selected)"@)]
                    } else {
                        sink_detail_of(l@[kept(self.selected, n)])
                    }
                },
            },
    {
        match sinks {
            None => SplitView { rows: refreshing_list(), selected: None, detail: refreshing_panel() },
            Some(l) => {
                let n = l.len();
                if n == 0 {
                    return SplitView {
                        rows: one_line("  (no audio sinks)"),
                        selected: None,
                        detail: one_line("(no sink selected)"),
                    };
                }
                let mut rows: Vec<Vec<TextRun>> = Vec::new();
                let mut k: usize = 0;
                while k < n
                    invariant
                        k <= n == l@.len(),
                        rows_view(rows@) == l@.take(k as int).map_values(|s: Sink| sink_line_of(s)),
                    decreases n - k,
                {
                    push_row(&mut rows, sink_line(&l[k]));
                    proof {
                        assert(l@.take(k + 1).map_values(|s: Sink| sink_line_of(s)) =~= l@.take(
                            k as int,
                        ).map_values(|s: Sink| sink_line_of(s)).push(sink_line_of(l@[k as int])));
                    }
                    k += 1;
                }
                proof {
                    assert(l@.take(n as int) =~= l@);
                }
                let sel = keep(self.selected, n);
                SplitView { rows, selected: highlight_of(self.selected, n), detail: sink_detail(&l[sel]) }
            },
        }
    }
}

// ─── Bluetooth ──────────────────────────────────────────────────────────

/// A device's mark between spaces: `●` when connected, `○` when only
/// paired, `·` otherwise.
pub open spec fn bt_mark(d: BtDevice) -> Seq<char> {
    if d.connected {
        " ● "@
    } else if d.paired {
        " ○ "@
    } else {
        " · "@
    }
}

/// Good when `b` holds, dimmed otherwise.
pub open spec fn good_if(b: bool) -> Tone {
    if b {
        Tone::Good
    } else {
        Tone::Dim
    }
}

/// A device row: its mark (good when connected), then its name.
pub open spec fn bt_line_of(d: BtDevice) -> Seq<(Seq<char>, Tone)> {
    seq![(bt_mark(d), good_if(d.connected)), (d.name@, Tone::Fg)]
}

/// A device's detail: name, address, pairing, connection and trust, the
/// signal strength when known, and the keys.
pub open spec fn bt_detail_of(d: BtDevice) -> Seq<Seq<(Seq<char>, Tone)>> {
    seq![
        kv_row("name      "@, d.name@, Tone::Fg),
        kv_row("mac       "@, d.mac@, Tone::Accent),
        kv_row("paired    "@, yes_no(d.paired), good_if(d.paired)),
        kv_row("connected "@, yes_no(d.connected), good_if(d.connected)),
        kv_row("trusted   "@, yes_no(d.trusted), good_if(d.trusted)),
        match d.rssi {
            Some(r) => kv_row("rssi      "@, signed_dec_text(r as int) + " dBm"@, Tone::Fg),
            None => dim_row("rssi      —"@),
        },
        Seq::empty(),
        dim_row("  A = connect/disconnect"@),
        dim_row("  s = scan for devices"@),
    ]
}

fn yes_no_text(b: bool) -> (r: String)
    ensures
        r@ == yes_no(b),
{
    (if b {
        "yes"
    } else {
        "no"
    }).to_owned()
}

fn good_tone(b: bool) -> (t: Tone)
    ensures
        t == good_if(b),
{
    if b {
        Tone::Good
    } else {
        Tone::Dim
    }
}

fn bt_line(d: &BtDevice) -> (r: Vec<TextRun>)
    ensures
        row_view(r@) == bt_line_of(*d),
{
    let mark = if d.connected {
        " ● "
    } else if d.paired {
        " ○ "
    } else {
        " · "
    };
    let r = vec![run(mark.to_owned(), good_tone(d.connected)), run(d.name.clone(), Tone::Fg)];
    proof {
        assert(row_view(r@) =~= bt_line_of(*d));
    }
    r
}

fn bt_detail(d: &BtDevice) -> (r: Vec<Vec<TextRun>>)
    ensures
        rows_view(r@) == bt_detail_of(*d),
{
    let rssi = match d.rssi {
        Some(x) => kv_line("rssi      ", concat(crate::text::decimal_signed(x as i64).as_str(), " dBm"), Tone::Fg),
        None => dim_line("rssi      —"),
    };
    let r = vec![
        kv_line("name      ", d.name.clone(), Tone::Fg),
        kv_line("mac       ", d.mac.clone(), Tone::Accent),
        kv_line("paired    ", yes_no_text(d.paired), good_tone(d.paired)),
        kv_line("connected ", yes_no_text(d.connected), good_tone(d.connected)),
        kv_line("trusted   ", yes_no_text(d.trusted), good_tone(d.trusted)),
        rssi,
        blank_line(),
        dim_line("  A = connect/disconnect"),
        dim_line("  s = scan for devices"),
    ];
    proof {
        assert(rows_view(r@) =~= bt_detail_of(*d));
    }
    r
}

impl BluetoothScreenV2 {
    /// The devices pane (`None` while the list is being read): a row per
    /// device (a hint when there are none) with the cursor kept on the
    /// list, and the kept device's detail beside it.
    pub fn view(&self, devices: Option<&Vec<BtDevice>>) -> (v: SplitView)
        ensures
            match devices {
                None => {
                    &&& rows_view(v.rows@) == refreshing_rows()
                    &&& v.selected is None
                    &&& rows_view(v.detail@) == refreshing_detail()
                },
                Some(l) => {
                    let n = l@.len();
                    &&& rows_view(v.rows@) == if n == 0 {
                        seq![dim_row("  (no devices — press s to scan)"@)]
                    } else {
                        l@.map_values(|d: BtDevice| bt_line_of(d))
                    }
                    &&& v.selected == highlight(self.selected, n)
                    &&& rows_view(v.detail@) == if n == 0 {
                        seq![dim_row("(no device selected)"@)]
                    } else {
                        bt_detail_of(l@[kept(self.selected, n)])
                    }
                },
            },
    {
        match devices {
            None => SplitView { rows: refreshing_list(), selected: None, detail: refreshing_panel() },
            Some(l) => {
                let n = l.len();
                if n == 0 {
                    return SplitView {
                        rows: one_line("  (no devices — press s to scan)"),
                        selected: None,
                        detail: one_line("(no device selected)"),
                    };
                }
                let mut rows: Vec<Vec<TextRun>> = Vec::new();
                let mut k: usize = 0;
                while k < n
                    invariant
                        k <= n == l@.len(),
                        rows_view(rows@) == l@.take(k as int).map_values(|d: BtDevice| bt_line_of(d)),
                    decreases n - k,
                {
                    push_row(&mut rows, bt_line(&l[k]));
                    proof {
                        assert(l@.take(k + 1).map_values(|d: BtDevice| bt_line_of(d)) =~= l@.take(
                            k as int,
                        ).map_values(|d: BtDevice| bt_line_of(d)).push(bt_line_of(l@[k as int])));
                    }
                    k += 1;
                }
                proof {
                    assert(l@.take(n as int) =~= l@);
                }
                let sel = keep(self.selected, n);
                SplitView { rows, selected: highlight_of(self.selected, n), detail: bt_detail(&l[sel]) }
            },
        }
    }
}

// ─── Single lists under a header ────────────────────────────────────────

/// A list under a few header lines: the header, the list's rows and the
/// highlighted row.
pub struct HeaderedList {
    pub header: Vec<Vec<TextRun>>,
    pub rows: Vec<Vec<TextRun>>,
    pub selected: Option<usize>,
}

// ─── Display ────────────────────────────────────────────────────────────

/// Cells of a 20-cell brightness bar that are filled: one per 5%, all of
/// them from 100% up.
pub open spec fn bright_cells(b: u8) -> int {
    if b * 20 / 100 < 20 {
        b * 20 / 100
    } else {
        20
    }
}

/// The brightness pane: the bar with its percentage between blank lines,
/// then the keys.
pub open spec fn brightness_pane_of(b: u8) -> Seq<Seq<(Seq<char>, Tone)>> {
    let f = bright_cells(b);
    seq![
        Seq::empty(),
        seq![
            ("  brightness  "@, Tone::Dim),
            ("["@ + bar_text(f as nat, (20 - f) as nat) + "]"@, Tone::Good),
            (" "@ + dec_text(b as nat) + "%"@, Tone::Fg),
        ],
        Seq::empty(),
        dim_row("  ◀/▶ adjust   A to apply"@),
    ]
}

/// A display row: `●` when enabled (`○` otherwise), the name cut to 12
/// (width 12), the mode cut to 16, and the scale after `×`.
pub open spec fn display_line_of(o: OutputInfo) -> Seq<(Seq<char>, Tone)> {
    seq![
        (if o.enabled {
            " ● "@
        } else {
            " ○ "@
        }, good_if(o.enabled)),
        (padded_right(truncated(o.name@, 12), 12), Tone::Fg),
        (truncated(o.mode@, 16), Tone::Accent),
        ("  ×"@ + o.scale_text@, Tone::Dim),
    ]
}

fn display_line(o: &OutputInfo) -> (r: Vec<TextRun>)
    ensures
        row_view(r@) == display_line_of(*o),
{
    let name = truncate_chars(o.name.as_str(), 12);
    let r = vec![
        run(
            (if o.enabled {
                " ● "
            } else {
                " ○ "
            }).to_owned(),
            good_tone(o.enabled),
        ),
        run(pad_right(name.as_str(), 12), Tone::Fg),
        run(truncate_chars(o.mode.as_str(), 16), Tone::Accent),
        run(concat("  ×", o.scale_text.as_str()), Tone::Dim),
    ];
    proof {
        assert(row_view(r@) =~= display_line_of(*o));
    }
    r
}

impl DisplayScreenV2 {
    /// The brightness pane and the displays list (`None` while it is being
    /// read; a hint when there are none) with the cursor kept on it.
    pub fn view(&self, displays: Option<&Vec<OutputInfo>>) -> (v: HeaderedList)
        ensures
            rows_view(v.header@) == brightness_pane_of(self.brightness),
            match displays {
                None => rows_view(v.rows@) == refreshing_rows() && v.selected is None,
                Some(l) => {
                    &&& rows_view(v.rows@) == if l@.len() == 0 {
                        seq![dim_row("  (no displays detected)"@)]
                    } else {
                        l@.map_values(|o: OutputInfo| display_line_of(o))
                    }
                    &&& v.selected == highlight(self.selected, l@.len())
                },
            },
    {
        let b = self.brightness;
        let f0 = (b as usize) * 20 / 100;
        let f = if f0 < 20 {
            f0
        } else {
            20
        };
        let bar = crate::lists::bar(f, 20 - f);
        let b1 = concat("[", bar.as_str());
        let p1 = concat(" ", decimal(b as u64).as_str());
        let mid = vec![
            run("  brightness  ".to_owned(), Tone::Dim),
            run(concat(b1.as_str(), "]"), Tone::Good),
            run(concat(p1.as_str(), "%"), Tone::Fg),
        ];
        proof {
            assert(f == bright_cells(b));
            assert(row_view(mid@) =~= brightness_pane_of(b)[1]);
        }
        let header = vec![blank_line(), mid, blank_line(), dim_line("  ◀/▶ adjust   A to apply")];
        proof {
            assert(rows_view(header@) =~= brightness_pane_of(b));
        }
        match displays {
            None => HeaderedList { header, rows: refreshing_list(), selected: None },
            Some(l) => {
                let n = l.len();
                if n == 0 {
                    return HeaderedList { header, rows: one_line("  (no displays detected)"), selected: None };
                }
                let mut rows: Vec<Vec<TextRun>> = Vec::new();
                let mut k: usize = 0;
                while k < n
                    invariant
                        k <= n == l@.len(),
                        rows_view(rows@) == l@.take(k as int).map_values(
                            |o: OutputInfo| display_line_of(o),
                        ),
                    decreases n - k,
                {
                    push_row(&mut rows, display_line(&l[k]));
                    proof {
                        assert(l@.take(k + 1).map_values(|o: OutputInfo| display_line_of(o))
                            =~= l@.take(k as int).map_values(|o: OutputInfo| display_line_of(o)).push(
                            display_line_of(l@[k as int]),
                        ));
                    }
                    k += 1;
                }
                proof {
                    assert(l@.take(n as int) =~= l@);
                }
                HeaderedList { header, rows, selected: highlight_of(self.selected, n) }
            },
        }
    }
}

// ─── Packages ───────────────────────────────────────────────────────────

/// An upgradable package: its name and the version on offer.
pub struct PackageInfo {
    pub name: String,
    pub version: String,
}

/// A package row: the name cut to 30 (width 30, indented two), then the
/// version cut to 20.
pub open spec fn package_line_of(p: PackageInfo) -> Seq<(Seq<char>, Tone)> {
    seq![("  "@ + padded_right(truncated(p.name@, 30), 30), Tone::Fg), (truncated(p.version@, 20), Tone::Accent)]
}

/// The header: how many packages can be upgraded.
pub open spec fn packages_header_of(count: nat) -> Seq<Seq<(Seq<char>, Tone)>> {
    seq![seq![("  upgradable: "@, Tone::Dim), (dec_text(count), Tone::Warn), (" package(s)"@, Tone::Dim)]]
}

fn package_line(p: &PackageInfo) -> (r: Vec<TextRun>)
    ensures
        row_view(r@) == package_line_of(*p),
{
    let name = pad_right(truncate_chars(p.name.as_str(), 30).as_str(), 30);
    let r = vec![run(concat("  ", name.as_str()), Tone::Fg), run(truncate_chars(p.version.as_str(), 20), Tone::Accent)];
    proof {
        assert(row_view(r@) =~= package_line_of(*p));
    }
    r
}

impl PackagesScreenV2 {
    /// The upgradable count and the packages list (`None` while it is
    /// being read; a note that all is up to date when empty) with the
    /// cursor kept on it.
    pub fn view(&self, packages: Option<&Vec<PackageInfo>>) -> (v: HeaderedList)
        ensures
            ({
                let count: nat = match packages {
                    Some(l) => l@.len(),
                    None => 0,
                };
                &&& rows_view(v.header@) == packages_header_of(count)
                &&& v.selected == highlight(self.selected, count)
                &&& rows_view(v.rows@) == match packages {
                    None => refreshing_rows(),
                    Some(l) => if l@.len() == 0 {
                        seq![seq![("  all packages up to date"@, Tone::Good)]]
                    } else {
                        l@.map_values(|p: PackageInfo| package_line_of(p))
                    },
                }
            }),
    {
        let count = match packages {
            Some(l) => l.len(),
            None => 0,
        };
        let head = vec![
            run("  upgradable: ".to_owned(), Tone::Dim),
            run(decimal(count as u64), Tone::Warn),
            run(" package(s)".to_owned(), Tone::Dim),
        ];
        proof {
            assert(row_view(head@) =~= packages_header_of(count as nat)[0]);
        }
        let header = vec![head];
        proof {
            assert(rows_view(header@) =~= packages_header_of(count as nat));
        }
        let rows = match packages {
            None => refreshing_list(),
            Some(l) => {
                if l.len() == 0 {
                    let r = vec![single("  all packages up to date".to_owned(), Tone::Good)];
                    proof {
                        assert(rows_view(r@) =~= seq![seq![("  all packages up to date"@, Tone::Good)]]);
                    }
                    r
                } else {
                    let n = l.len();
                    let mut rows: Vec<Vec<TextRun>> = Vec::new();
                    let mut k: usize = 0;
                    while k < n
                        invariant
                            k <= n == l@.len(),
                            rows_view(rows@) == l@.take(k as int).map_values(
                                |p: PackageInfo| package_line_of(p),
                            ),
                        decreases n - k,
                    {
                        push_row(&mut rows, package_line(&l[k]));
                        proof {
                            assert(l@.take(k + 1).map_values(|p: PackageInfo| package_line_of(p))
                                =~= l@.take(k as int).map_values(|p: PackageInfo| package_line_of(p)).push(
                                package_line_of(l@[k as int]),
                            ));
                        }
                        k += 1;
                    }
                    proof {
                        assert(l@.take(n as int) =~= l@);
                    }
                    rows
                }
            },
        };
        HeaderedList { header, rows, selected: highlight_of(self.selected, count) }
    }
}

// ─── Files ──────────────────────────────────────────────────────────────

/// A listing row: directories marked `▶` and good, files plain.
pub open spec fn entry_line_of(e: (String, bool)) -> Seq<(Seq<char>, Tone)> {
    if e.1 {
        seq![("▶ "@, Tone::Good), (e.0@, Tone::Good)]
    } else {
        seq![("  "@, Tone::Fg), (e.0@, Tone::Fg)]
    }
}

fn entry_line(name: &String, is_dir: bool) -> (r: Vec<TextRun>)
    ensures
        row_view(r@) == entry_line_of((*name, is_dir)),
{
    let r = if is_dir {
        vec![run("▶ ".to_owned(), Tone::Good), run(name.clone(), Tone::Good)]
    } else {
        vec![run("  ".to_owned(), Tone::Fg), run(name.clone(), Tone::Fg)]
    };
    proof {
        assert(row_view(r@) =~= entry_line_of((*name, is_dir)));
    }
    r
}

impl FilesScreenV2 {
    /// The path header and the listing (a note for an empty directory);
    /// the highlight is kept on the rows shown.
    pub fn view(&self) -> (v: HeaderedList)
        ensures
            rows_view(v.header@) == seq![seq![("  "@, Tone::Dim), (self.cwd@, Tone::Accent)]],
            rows_view(v.rows@) == if self.entries@.len() == 0 {
                seq![dim_row("  (empty directory)"@)]
            } else {
                self.entries@.map_values(|e: (String, bool)| entry_line_of(e))
            },
            v.selected == Some(kept(self.selected, v.rows@.len()) as usize),
    {
        let head = vec![run("  ".to_owned(), Tone::Dim), run(self.cwd.clone(), Tone::Accent)];
        proof {
            assert(row_view(head@) =~= seq![("  "@, Tone::Dim), (self.cwd@, Tone::Accent)]);
        }
        let header = vec![head];
        proof {
            assert(rows_view(header@) =~= seq![seq![("  "@, Tone::Dim), (self.cwd@, Tone::Accent)]]);
        }
        let n = self.entries.len();
        let rows = if n == 0 {
            one_line("  (empty directory)")
        } else {
            let mut rows: Vec<Vec<TextRun>> = Vec::new();
            let mut k: usize = 0;
            while k < n
                invariant
                    k <= n == self.entries@.len(),
                    rows_view(rows@) == self.entries@.take(k as int).map_values(
                        |e: (String, bool)| entry_line_of(e),
                    ),
                decreases n - k,
            {
                let e = &self.entries[k];
                push_row(&mut rows, entry_line(&e.0, e.1));
                proof {
                    assert(self.entries@.take(k + 1).map_values(|e: (String, bool)| entry_line_of(e))
                        =~= self.entries@.take(k as int).map_values(|e: (String, bool)| entry_line_of(e)).push(
                        entry_line_of(self.entries@[k as int]),
                    ));
                }
                k += 1;
            }
            proof {
                assert(self.entries@.take(n as int) =~= self.entries@);
            }
            rows
        };
        let sel = keep(self.selected, rows.len());
        HeaderedList { header, rows, selected: Some(sel) }
    }
}

// ─── Logs ───────────────────────────────────────────────────────────────

/// Whether `p` occurs in `s`.
pub open spec fn has_infix(s: Seq<char>, p: Seq<char>) -> bool {
    exists|i: int| 0 <= i && i + p.len() <= s.len() && #[trigger] s.subrange(i, i + p.len()) == p
}

fn matches_at(s: &Vec<char>, p: &Vec<char>, i: usize) -> (r: bool)
    requires
        i + p@.len() <= s@.len(),
    ensures
        r == (s@.subrange(i as int, i + p@.len()) == p@),
{
    let m = p.len();
    let mut k: usize = 0;
    while k < m
        invariant
            k <= m == p@.len(),
            i + m <= s@.len() == s.len(),
            s@.subrange(i as int, i + k) == p@.take(k as int),
        decreases m - k,
    {
        if s[i + k] != p[k] {
            proof {
                assert(s@.subrange(i as int, i + m)[k as int] != p@[k as int]);
            }
            return false;
        }
        proof {
            assert(s@.subrange(i as int, i + k + 1) =~= p@.take(k + 1));
        }
        k += 1;
    }
    proof {
        assert(p@.take(m as int) =~= p@);
    }
    true
}

/// Whether `p` occurs in `s` (see `has_infix`).
pub fn contains_text(s: &str, p: &str) -> (r: bool)
    ensures
        r == has_infix(s@, p@),
{
    let sc = crate::text::chars_of(s);
    let pc = crate::text::chars_of(p);
    let n = sc.len();
    let m = pc.len();
    if m > n {
        return false;
    }
    if m == 0 {
        proof {
            assert(s@.subrange(0int, 0int + p@.len()) =~= p@);
        }
        return true;
    }
    let mut i: usize = 0;
    while i <= n - m
        invariant
            1 <= m <= n,
            n == sc@.len() == s@.len(),
            m == pc@.len() == p@.len(),
            sc@ == s@,
            pc@ == p@,
            forall|j: int| 0 <= j < i ==> #[trigger] s@.subrange(j, j + m) != p@,
        decreases n - m + 1 - i,
    {
        if matches_at(&sc, &pc, i) {
            return true;
        }
        i += 1;
    }
    false
}

/// A journal line's tone: an error when it mentions `error` (lower,
/// capitalised or upper case), a warning when it mentions `warn` so,
/// plain otherwise.
pub open spec fn log_tone(l: Seq<char>) -> Tone {
    if has_infix(l, "error"@) || has_infix(l, "Error"@) || has_infix(l, "ERROR"@) {
        Tone::Bad
    } else if has_infix(l, "warn"@) || has_infix(l, "Warn"@) || has_infix(l, "WARN"@) {
        Tone::Warn
    } else {
        Tone::Fg
    }
}

fn log_line_tone(l: &str) -> (t: Tone)
    ensures
        t == log_tone(l@),
{
    if contains_text(l, "error") || contains_text(l, "Error") || contains_text(l, "ERROR") {
        Tone::Bad
    } else if contains_text(l, "warn") || contains_text(l, "Warn") || contains_text(l, "WARN") {
        Tone::Warn
    } else {
        Tone::Fg
    }
}

impl LogsScreenV2 {
    /// The journal list: a prompt before the first load, a note when there
    /// are no lines, else a row per line in its tone; the highlight is the
    /// offset kept on the rows shown.
    pub fn view(&self) -> (v: HeaderedList)
        ensures
            v.header@.len() == 0,
            rows_view(v.rows@) == if !self.loaded {
                seq![dim_row("  (press any key to load…)"@)]
            } else if self.lines@.len() == 0 {
                seq![dim_row("  (no log entries)"@)]
            } else {
                self.lines@.map_values(|l: String| seq![(l@, log_tone(l@))])
            },
            v.selected == Some(kept(self.offset, v.rows@.len()) as usize),
    {
        let rows = if !self.loaded {
            one_line("  (press any key to load…)")
        } else if self.lines.len() == 0 {
            one_line("  (no log entries)")
        } else {
            let n = self.lines.len();
            let mut rows: Vec<Vec<TextRun>> = Vec::new();
            let mut k: usize = 0;
            while k < n
                invariant
                    k <= n == self.lines@.len(),
                    rows_view(rows@) == self.lines@.take(k as int).map_values(
                        |l: String| seq![(l@, log_tone(l@))],
                    ),
                decreases n - k,
            {
                let l = &self.lines[k];
                push_row(&mut rows, single(l.clone(), log_line_tone(l.as_str())));
                proof {
                    assert(self.lines@.take(k + 1).map_values(|l: String| seq![(l@, log_tone(l@))])
                        =~= self.lines@.take(k as int).map_values(|l: String| seq![(l@, log_tone(l@))]).push(
                        seq![(self.lines@[k as int]@, log_tone(self.lines@[k as int]@))],
                    ));
                }
                k += 1;
            }
            proof {
                assert(self.lines@.take(n as int) =~= self.lines@);
            }
            rows
        };
        let sel = keep(self.offset, rows.len());
        HeaderedList { header: Vec::new(), rows, selected: Some(sel) }
    }
}

// ─── Editor ─────────────────────────────────────────────────────────────

/// The first line shown in `visible` rows: the stored offset, unless the
/// cursor is below the window, then just enough to show it on the last
/// row.
pub open spec fn editor_offset(cursor: usize, offset: usize, visible: usize) -> int {
    if cursor >= offset + visible {
        cursor + 1 - visible
    } else {
        offset as int
    }
}

/// A text row: its number (right-aligned, width 4) and the line, drawn
/// selected on the cursor's row.
pub open spec fn text_line_of(row: int, line: Seq<char>, cursor: usize) -> Seq<(Seq<char>, Tone)> {
    seq![
        (padded_left(dec_text((row + 1) as nat), 4) + " "@, Tone::Dim),
        (line, if row == cursor {
            Tone::Selected
        } else {
            Tone::Fg
        }),
    ]
}

impl EditorScreenV2 {
    /// The path line and the text window of `visible` rows: the path (or
    /// `(no file)`) and cursor position, the numbered lines from the
    /// window start, and the cursor's row highlighted (kept on the rows).
    pub fn view(&self, visible: usize) -> (v: HeaderedList)
        requires
            self.cursor_row < usize::MAX,
            self.view_offset + visible <= usize::MAX,
            self.lines@.len() < usize::MAX,
        ensures
            ({
                let off = editor_offset(self.cursor_row, self.view_offset, visible);
                let len = self.lines@.len() as int;
                let end = if off + visible < len {
                    off + visible
                } else {
                    len
                };
                let count = if end > off {
                    end - off
                } else {
                    0
                };
                &&& rows_view(v.header@) == seq![
                    seq![
                        (" "@, Tone::Dim),
                        (match self.path {
                            Some(p) => p@,
                            None => "(no file)"@,
                        }, Tone::Accent),
                        ("  "@ + dec_text((self.cursor_row + 1) as nat) + ":1"@, Tone::Dim),
                    ],
                ]
                &&& v.rows@.len() == count
                &&& forall|k: int|
                    0 <= k < count ==> row_view((#[trigger] v.rows@[k])@) == text_line_of(
                        off + k,
                        self.lines@[off + k]@,
                        self.cursor_row,
                    )
                &&& v.selected == if count == 0 {
                    None::<usize>
                } else {
                    let d = if self.cursor_row >= off {
                        self.cursor_row - off
                    } else {
                        0
                    };
                    Some((if d < count - 1 {
                        d
                    } else {
                        count - 1
                    }) as usize)
                }
            }),
    {
        let path = match &self.path {
            Some(p) => p.clone(),
            None => "(no file)".to_owned(),
        };
        let pos = concat("  ", decimal((self.cursor_row + 1) as u64).as_str());
        let head = vec![run(" ".to_owned(), Tone::Dim), run(path, Tone::Accent), run(concat(pos.as_str(), ":1"), Tone::Dim)];
        proof {
            assert(row_view(head@) =~= seq![
                (" "@, Tone::Dim),
                (match self.path {
                    Some(p) => p@,
                    None => "(no file)"@,
                }, Tone::Accent),
                ("  "@ + dec_text((self.cursor_row + 1) as nat) + ":1"@, Tone::Dim),
            ]);
        }
        let header = vec![head];
        let off = if self.cursor_row >= self.view_offset + visible {
            self.cursor_row + 1 - visible
        } else {
            self.view_offset
        };
        let len = self.lines.len();
        let end = if off >= len {
            off
        } else if len - off <= visible {
            len
        } else {
            off + visible
        };
        let ghost count: int = end - off;
        let mut rows: Vec<Vec<TextRun>> = Vec::new();
        let mut row = off;
        while row < end
            invariant
                off <= row <= end,
                end <= len || end == off,
                len == self.lines@.len() < usize::MAX,
                rows@.len() == row - off,
                forall|k: int|
                    0 <= k < rows@.len() ==> row_view((#[trigger] rows@[k])@) == text_line_of(
                        off + k,
                        self.lines@[off + k]@,
                        self.cursor_row,
                    ),
            decreases end - row,
        {
            let num = pad_left(decimal((row + 1) as u64).as_str(), 4);
            let r = vec![
                run(concat(num.as_str(), " "), Tone::Dim),
                run(
                    self.lines[row].clone(),
                    if row == self.cursor_row {
                        Tone::Selected
                    } else {
                        Tone::Fg
                    },
                ),
            ];
            proof {
                assert(row_view(r@) =~= text_line_of(row as int, self.lines@[row as int]@, self.cursor_row));
            }
            rows.push(r);
            row += 1;
        }
        let n = rows.len();
        let selected = if n == 0 {
            None
        } else {
            let d = self.cursor_row.saturating_sub(off);
            Some(
                if d < n - 1 {
                    d
                } else {
                    n - 1
                },
            )
        };
        HeaderedList { header, rows, selected }
    }
}

// ─── LoRa chat ──────────────────────────────────────────────────────────

/// The chat pane: its title and rows, the draft last.
pub struct ChatPane {
    pub title: String,
    pub rows: Vec<Vec<TextRun>>,
}

/// A chat row: the sender in angle brackets (good for our own lines,
/// accented for others), then the text.
pub open spec fn chat_line_of(l: LoraChatLine) -> Seq<(Seq<char>, Tone)> {
    seq![
        ("<"@ + l.from@ + "> "@, if l.is_local {
            Tone::Good
        } else {
            Tone::Accent
        }),
        (l.text@, Tone::Fg),
    ]
}

/// The draft row: a prompt, then the draft or a dimmed hint when empty.
pub open spec fn draft_row_of(input: Seq<char>) -> Seq<(Seq<char>, Tone)> {
    seq![
        ("> "@, Tone::Accent),
        if input.len() == 0 {
            ("(type to compose)"@, Tone::Dim)
        } else {
            (input, Tone::Fg)
        },
    ]
}

/// Lines back from the newest that the chat shows: the stored scroll,
/// at most as far as keeps the window full.
pub open spec fn chat_scroll(scroll: usize, total: usize, visible: usize) -> int {
    if scroll < sat_sub(total, visible) {
        scroll as int
    } else {
        sat_sub(total, visible) as int
    }
}

fn chat_line(l: &LoraChatLine) -> (r: Vec<TextRun>)
    ensures
        row_view(r@) == chat_line_of(*l),
{
    let a = concat("<", l.from.as_str());
    let r = vec![
        run(
            concat(a.as_str(), "> "),
            if l.is_local {
                Tone::Good
            } else {
                Tone::Accent
            },
        ),
        run(l.text.clone(), Tone::Fg),
    ];
    proof {
        assert(row_view(r@) =~= chat_line_of(*l));
    }
    r
}

impl LoraScreenV2 {
    /// The chat pane for `visible` message rows: the title shows whether
    /// the radio is connected; the window ends the (kept) scroll back from
    /// the newest message, a hint when there are none; the draft row last.
    pub fn chat_view(&self, messages: &Vec<LoraChatLine>, connected: bool, visible: usize) -> (v: ChatPane)
        ensures
            v.title@ == if connected {
                " chat ● "@
            } else {
                " chat ○ "@
            },
            ({
                let total = messages@.len();
                let end = total - chat_scroll(self.scroll, total as usize, visible);
                let start = if end > visible {
                    end - visible
                } else {
                    0
                };
                let body = if total == 0 {
                    seq![
                        dim_row(if connected {
                            "  (no messages yet — type and press A to send)"@
                        } else {
                            "  (not connected — select a node →)"@
                        }),
                    ]
                } else {
                    messages@.subrange(start, end).map_values(|l: LoraChatLine| chat_line_of(l))
                };
                rows_view(v.rows@) == body.push(draft_row_of(self.input@))
            }),
    {
        let total = messages.len();
        let max = total.saturating_sub(visible);
        let scroll = if self.scroll < max {
            self.scroll
        } else {
            max
        };
        let end = total - scroll;
        let start = end.saturating_sub(visible);
        let mut rows: Vec<Vec<TextRun>> = Vec::new();
        if total == 0 {
            rows = one_line(
                if connected {
                    "  (no messages yet — type and press A to send)"
                } else {
                    "  (not connected — select a node →)"
                },
            );
        } else {
            let mut k = start;
            while k < end
                invariant
                    start <= k <= end <= total == messages@.len(),
                    rows_view(rows@) == messages@.subrange(start as int, k as int).map_values(
                        |l: LoraChatLine| chat_line_of(l),
                    ),
                decreases end - k,
            {
                push_row(&mut rows, chat_line(&messages[k]));
                proof {
                    assert(messages@.subrange(start as int, k + 1).map_values(
                        |l: LoraChatLine| chat_line_of(l),
                    ) =~= messages@.subrange(start as int, k as int).map_values(
                        |l: LoraChatLine| chat_line_of(l),
                    ).push(chat_line_of(messages@[k as int])));
                }
                k += 1;
            }
        }
        let empty = self.input.as_str().is_empty();
        let draft = vec![
            run("> ".to_owned(), Tone::Accent),
            if empty {
                run("(type to compose)".to_owned(), Tone::Dim)
            } else {
                run(self.input.clone(), Tone::Fg)
            },
        ];
        proof {
            assert(row_view(draft@) =~= draft_row_of(self.input@));
        }
        push_row(&mut rows, draft);
        let title = (if connected {
            " chat ● "
        } else {
            " chat ○ "
        }).to_owned();
        ChatPane { title, rows }
    }
}

// ─── Power: processor and thermals ──────────────────────────────────────

/// The processor: how many cores and its model name.
pub struct CpuInfo {
    pub count: u32,
    pub model: String,
}

/// The frequency-scaling driver, the governor in use and those on offer.
pub struct GovernorInfo {
    pub driver: String,
    pub governor: String,
    pub available: Vec<String>,
}

/// A thermal sensor: its label, its reading as drawn, and whether it is
/// above 75 °C (`hot`) or above 60 °C (`warm`).
pub struct ThermalRow {
    pub label: String,
    pub temp_text: String,
    pub hot: bool,
    pub warm: bool,
}

/// The texts of `v` joined with `sep` between them.
pub open spec fn joined_with(v: Seq<String>, sep: Seq<char>) -> Seq<char>
    decreases v.len(),
{
    if v.len() == 0 {
        Seq::empty()
    } else if v.len() == 1 {
        v[0]@
    } else {
        joined_with(v.drop_last(), sep) + sep + v.last()@
    }
}

fn join_with(v: &Vec<String>, sep: &str) -> (r: String)
    ensures
        r@ == joined_with(v@, sep@),
{
    let mut r = String::new();
    let mut k: usize = 0;
    while k < v.len()
        invariant
            k <= v@.len(),
            r@ == joined_with(v@.take(k as int), sep@),
        decreases v@.len() - k,
    {
        proof {
            assert(v@.take(k + 1).drop_last() =~= v@.take(k as int));
            assert(v@.take(k + 1).last() == v@[k as int]);
        }
        if k == 0 {
            r = v[0].clone();
            proof {
                assert(v@.take(1).len() == 1);
            }
        } else {
            let a = concat(r.as_str(), sep);
            r = concat(a.as_str(), v[k].as_str());
        }
        k += 1;
    }
    proof {
        assert(v@.take(v@.len() as int) =~= v@);
    }
    r
}

/// A thermal row: the label (width 14) and the reading, bad when hot,
/// a warning when warm, good otherwise.
pub open spec fn thermal_row_of(t: ThermalRow) -> Seq<(Seq<char>, Tone)> {
    seq![
        ("  thermal  "@, Tone::Dim),
        (padded_right(t.label@, 14), Tone::Fg),
        (t.temp_text@, if t.hot {
            Tone::Bad
        } else if t.warm {
            Tone::Warn
        } else {
            Tone::Good
        }),
    ]
}

/// The power screen's right pane: the processor when known, the scaling
/// driver, governor and the governors on offer when known, a blank line
/// and a row per thermal sensor when the sensors were read, then the
/// governor key.
pub open spec fn power_side_of(cpu: Option<CpuInfo>, gov: Option<GovernorInfo>, thermals: Option<Seq<ThermalRow>>) -> Seq<Seq<(Seq<char>, Tone)>> {
    let a = match cpu {
        Some(c) => seq![kv_row("  cpu      "@, dec_text(c.count as nat) + " × "@ + truncated(c.model@, 36), Tone::Fg)],
        None => Seq::empty(),
    };
    let b = match gov {
        Some(g) => seq![
            kv_row("  driver   "@, g.driver@, Tone::Fg),
            kv_row("  governor "@, g.governor@, Tone::Accent),
            dim_row("  available: "@ + joined_with(g.available@, ", "@)),
        ],
        None => Seq::empty(),
    };
    let c = match thermals {
        Some(ts) => seq![Seq::empty()] + ts.map_values(|t: ThermalRow| thermal_row_of(t)),
        None => Seq::empty(),
    };
    a + b + c + seq![Seq::empty(), dim_row("  g toggle governor (performance↔powersave)"@)]
}

/// The power screen's right pane (see `power_side_of`).
pub fn power_side_view(cpu: &Option<CpuInfo>, gov: &Option<GovernorInfo>, thermals: Option<&Vec<ThermalRow>>) -> (r: Vec<Vec<TextRun>>)
    ensures
        rows_view(r@) == power_side_of(
            *cpu,
            *gov,
            match thermals {
                Some(t) => Some(t@),
                None => None,
            },
        ),
{
    let mut rows: Vec<Vec<TextRun>> = Vec::new();
    proof {
        assert(rows_view(rows@) =~= Seq::<Seq<(Seq<char>, Tone)>>::empty());
    }
    match cpu {
        Some(c) => {
            let a = concat(decimal(c.count as u64).as_str(), " × ");
            let b = concat(a.as_str(), truncate_chars(c.model.as_str(), 36).as_str());
            push_row(&mut rows, kv_line("  cpu      ", b, Tone::Fg));
        },
        None => {},
    }
    let ghost after_cpu = rows_view(rows@);
    match gov {
        Some(g) => {
            push_row(&mut rows, kv_line("  driver   ", g.driver.clone(), Tone::Fg));
            push_row(&mut rows, kv_line("  governor ", g.governor.clone(), Tone::Accent));
            let list = join_with(&g.available, ", ");
            push_row(&mut rows, single(concat("  available: ", list.as_str()), Tone::Dim));
        },
        None => {},
    }
    let ghost after_gov = rows_view(rows@);
    match thermals {
        Some(ts) => {
            push_row(&mut rows, blank_line());
            let ghost base = rows_view(rows@);
            let mut k: usize = 0;
            while k < ts.len()
                invariant
                    k <= ts@.len(),
                    rows_view(rows@) == base + ts@.take(k as int).map_values(|t: ThermalRow| thermal_row_of(t)),
                decreases ts@.len() - k,
            {
                let t = &ts[k];
                let tone = if t.hot {
                    Tone::Bad
                } else if t.warm {
                    Tone::Warn
                } else {
                    Tone::Good
                };
                let r = vec![
                    run("  thermal  ".to_owned(), Tone::Dim),
                    run(pad_right(t.label.as_str(), 14), Tone::Fg),
                    run(t.temp_text.clone(), tone),
                ];
                proof {
                    assert(row_view(r@) =~= thermal_row_of(*t));
                }
                push_row(&mut rows, r);
                proof {
                    assert(ts@.take(k + 1).map_values(|t: ThermalRow| thermal_row_of(t)) =~= ts@.take(
                        k as int,
                    ).map_values(|t: ThermalRow| thermal_row_of(t)).push(thermal_row_of(ts@[k as int])));
                }
                k += 1;
            }
            proof {
                assert(ts@.take(ts@.len() as int) =~= ts@);
            }
        },
        None => {},
    }
    let ghost after_th = rows_view(rows@);
    push_row(&mut rows, blank_line());
    push_row(&mut rows, dim_line("  g toggle governor (performance↔powersave)"));
    proof {
        let th = match thermals {
            Some(t) => Some(t@),
            None => None,
        };
        assert(rows_view(rows@) =~= power_side_of(*cpu, *gov, th));
    }
    rows
}

} // verus!
