//! What the list screens draw: the rows of text with their tones, which
//! row is highlighted and where each list window starts. The drawing
//! itself happens elsewhere.
use vstd::prelude::*;
use crate::lists::{compute_offset, spec_offset};
use crate::system_screens::eq_ignore_ascii_case;
use crate::text::{
    concat, dec_text, decimal, pad_left, pad_right, padded_left, padded_right, truncate_chars,
    truncated,
};

verus! {

/// How a run of text is drawn.
#[derive(Debug, Clone, Copy, PartialEq, Eq, Structural)]
pub enum Tone {
    Fg,
    Dim,
    Good,
    Warn,
    Bad,
    Accent,
    Title,
    Selected,
}

/// A run of text in one tone.
pub struct TextRun {
    pub text: String,
    pub tone: Tone,
}

/// A row: its runs of text.
pub open spec fn row_view(r: Seq<TextRun>) -> Seq<(Seq<char>, Tone)> {
    r.map_values(|t: TextRun| (t.text@, t.tone))
}

/// The rows of a list.
pub open spec fn rows_view(rows: Seq<Vec<TextRun>>) -> Seq<Seq<(Seq<char>, Tone)>> {
    rows.map_values(|r: Vec<TextRun>| row_view(r@))
}

pub(crate) fn run(text: String, tone: Tone) -> (t: TextRun)
    ensures
        t.text@ == text@,
        t.tone == tone,
{
    TextRun { text, tone }
}

pub(crate) fn single(text: String, tone: Tone) -> (r: Vec<TextRun>)
    ensures
        row_view(r@) == seq![(text@, tone)],
{
    let v = vec![run(text, tone)];
    proof {
        assert(row_view(v@) =~= seq![(text@, tone)]);
    }
    v
}

// ─── Network ────────────────────────────────────────────────────────────

/// A network interface as the list shows it.
pub struct IfaceInfo {
    pub name: String,
    pub state: String,
    pub ipv4_first: Option<String>,
    pub ipv6_count: usize,
}

/// An interface row: name (width 12), state (width 8, good when `up` in
/// any case), the first IPv4 address and the IPv6 count when there are
/// any.
pub open spec fn iface_row_of(i: IfaceInfo) -> Seq<(Seq<char>, Tone)> {
    let base = seq![
        (padded_right(i.name@, 12), Tone::Fg),
        (padded_right(i.state@, 8), if eq_ignore_ascii_case(i.state@, "up"@) {
            Tone::Good
        } else {
            Tone::Dim
        }),
    ];
    let with_ip = match i.ipv4_first {
        Some(ip) => base.push((" "@ + ip@, Tone::Accent)),
        None => base,
    };
    if i.ipv6_count > 0 {
        with_ip.push((" +"@ + dec_text(i.ipv6_count as nat) + "v6"@, Tone::Dim))
    } else {
        with_ip
    }
}

/// The row of an interface (see `iface_row_of`).
pub fn iface_row(i: &IfaceInfo) -> (r: Vec<TextRun>)
    ensures
        row_view(r@) == iface_row_of(*i),
{
    let up = crate::system_screens::same_ignoring_ascii_case(i.state.as_str(), "up");
    let mut r = vec![
        run(pad_right(i.name.as_str(), 12), Tone::Fg),
        run(
            pad_right(i.state.as_str(), 8),
            if up {
                Tone::Good
            } else {
                Tone::Dim
            },
        ),
    ];
    let ghost r0 = row_view(r@);
    match &i.ipv4_first {
        Some(ip) => {
            r.push(run(concat(" ", ip.as_str()), Tone::Accent));
        },
        None => {},
    }
    let ghost r1 = row_view(r@);
    proof {
        assert(r1 =~= match i.ipv4_first {
            Some(ip) => r0.push((" "@ + ip@, Tone::Accent)),
            None => r0,
        });
    }
    if i.ipv6_count > 0 {
        let n = decimal(i.ipv6_count as u64);
        let a = concat(" +", n.as_str());
        r.push(run(concat(a.as_str(), "v6"), Tone::Dim));
    }
    proof {
        assert(row_view(r@) =~= iface_row_of(*i));
    }
    r
}

/// A network from a scan.
pub struct WifiInfo {
    pub ssid: String,
    pub signal: u8,
    pub security: String,
    pub in_use: bool,
}

/// The signal glyphs, strongest first.
pub struct SignalGlyphs {
    pub full: String,
    pub mid: String,
    pub low: String,
    pub none: String,
}

/// The glyph for a signal percentage: full from 75, mid from 50, low from
/// 25, none below.
pub open spec fn bars_of(g: SignalGlyphs, signal: u8) -> Seq<char> {
    if 75 <= signal <= 100 {
        g.full@
    } else if 50 <= signal <= 74 {
        g.mid@
    } else if 25 <= signal <= 49 {
        g.low@
    } else {
        g.none@
    }
}

/// A scan row: indent, the bars (width 4) and a space, the SSID cut to 24
/// characters (width 24, good when in use), the signal (width 3) with `%`
/// and a space, and the security (`open` when there is none).
pub open spec fn wifi_row_of(n: WifiInfo, g: SignalGlyphs) -> Seq<(Seq<char>, Tone)> {
    seq![
        ("  "@, Tone::Dim),
        (padded_right(bars_of(g, n.signal), 4) + " "@, Tone::Accent),
        (padded_right(truncated(n.ssid@, 24), 24), if n.in_use {
            Tone::Good
        } else {
            Tone::Fg
        }),
        (padded_left(dec_text(n.signal as nat), 3) + "% "@, Tone::Fg),
        (if n.security@.len() == 0 {
            "open"@
        } else {
            n.security@
        }, Tone::Dim),
    ]
}

/// The row of a scanned network (see `wifi_row_of`).
pub fn wifi_row(n: &WifiInfo, g: &SignalGlyphs) -> (r: Vec<TextRun>)
    ensures
        row_view(r@) == wifi_row_of(*n, *g),
{
    let s = n.signal;
    let bars = if 75 <= s && s <= 100 {
        g.full.as_str()
    } else if 50 <= s && s <= 74 {
        g.mid.as_str()
    } else if 25 <= s && s <= 49 {
        g.low.as_str()
    } else {
        g.none.as_str()
    };
    let b = pad_right(bars, 4);
    let name = truncate_chars(n.ssid.as_str(), 24);
    let pct = decimal(s as u64);
    let p = pad_left(pct.as_str(), 3);
    let sec = if n.security.as_str().is_empty() {
        "open".to_owned()
    } else {
        n.security.clone()
    };
    let r = vec![
        run("  ".to_owned(), Tone::Dim),
        run(concat(b.as_str(), " "), Tone::Accent),
        run(
            pad_right(name.as_str(), 24),
            if n.in_use {
                Tone::Good
            } else {
                Tone::Fg
            },
        ),
        run(concat(p.as_str(), "% "), Tone::Fg),
        run(sec, Tone::Dim),
    ];
    proof {
        assert(row_view(r@) =~= wifi_row_of(*n, *g));
    }
    r
}

/// A saved Wi-Fi connection.
pub struct SavedConnection {
    pub ssid: String,
    pub security: String,
    pub autoconnect_priority: i64,
}

/// A saved-connection row: indent, the SSID cut to 20 (width 20), the
/// security cut to 8 (width 8) after a space, and the priority.
pub open spec fn saved_row_of(c: SavedConnection) -> Seq<(Seq<char>, Tone)> {
    seq![
        ("  "@, Tone::Dim),
        (padded_right(truncated(c.ssid@, 20), 20), Tone::Fg),
        (" "@ + padded_right(truncated(c.security@, 8), 8), Tone::Dim),
        (" prio:"@ + crate::text::signed_dec_text(c.autoconnect_priority as int), Tone::Accent),
    ]
}

/// The row of a saved connection (see `saved_row_of`).
pub fn saved_row(c: &SavedConnection) -> (r: Vec<TextRun>)
    ensures
        row_view(r@) == saved_row_of(*c),
{
    let ssid = truncate_chars(c.ssid.as_str(), 20);
    let sec = truncate_chars(c.security.as_str(), 8);
    let sp = pad_right(sec.as_str(), 8);
    let prio = crate::text::decimal_signed(c.autoconnect_priority);
    let r = vec![
        run("  ".to_owned(), Tone::Dim),
        run(pad_right(ssid.as_str(), 20), Tone::Fg),
        run(concat(" ", sp.as_str()), Tone::Dim),
        run(concat(" prio:", prio.as_str()), Tone::Accent),
    ];
    proof {
        assert(row_view(r@) =~= saved_row_of(*c));
    }
    r
}

/// The saved-connections pane: a loading note until the first list
/// arrives, then one row per connection.
pub fn saved_rows(conns: &Vec<SavedConnection>) -> (r: Vec<Vec<TextRun>>)
    ensures
        conns@.len() == 0 ==> rows_view(r@) == seq![seq![("  (loading…)"@, Tone::Dim)]],
        conns@.len() > 0 ==> r@.len() == conns@.len() && forall|i: int|
            0 <= i < conns@.len() ==> row_view((#[trigger] r@[i])@) == saved_row_of(conns@[i]),
{
    if conns.len() == 0 {
        let v = vec![single("  (loading…)".to_owned(), Tone::Dim)];
        proof {
            assert(rows_view(v@) =~= seq![seq![("  (loading…)"@, Tone::Dim)]]);
        }
        return v;
    }
    let mut out: Vec<Vec<TextRun>> = Vec::new();
    let mut i: usize = 0;
    while i < conns.len()
        invariant
            i <= conns@.len(),
            out@.len() == i,
            forall|k: int| 0 <= k < i ==> row_view((#[trigger] out@[k])@) == saved_row_of(conns@[k]),
        decreases conns@.len() - i,
    {
        out.push(saved_row(&conns[i]));
        i += 1;
    }
    out
}

/// The footer's position text: `no items`, or the 1-based row of the
/// cursor out of the total.
pub open spec fn position_text(selected: usize, total: usize) -> Seq<char> {
    if total == 0 {
        "  no items"@
    } else {
        "  "@ + dec_text((selected + 1) as nat) + "/"@ + dec_text(total as nat) + "  "@
    }
}

/// The footer's position text (see `position_text`).
pub fn position(selected: usize, total: usize) -> (r: String)
    requires
        selected < usize::MAX,
    ensures
        r@ == position_text(selected, total),
{
    if total == 0 {
        return "  no items".to_owned();
    }
    let a = decimal((selected + 1) as u64);
    let b = decimal(total as u64);
    let s1 = concat("  ", a.as_str());
    let s2 = concat(s1.as_str(), "/");
    let s3 = concat(s2.as_str(), b.as_str());
    concat(s3.as_str(), "  ")
}

/// What the network screen draws: the interface rows with the
/// highlighted one and the window start, the Wi-Fi rows likewise, and the
/// footer's position text.
pub struct NetworkView {
    pub iface_rows: Vec<Vec<TextRun>>,
    pub iface_selected: Option<usize>,
    pub iface_offset: usize,
    pub wifi_rows: Vec<Vec<TextRun>>,
    pub wifi_selected: Option<usize>,
    pub wifi_offset: usize,
    pub position: String,
}

/// The rows of the Wi-Fi pane: the active SSID (`(none)` when not
/// associated) when it could be read, then a heading, then one row per
/// network, or a hint to scan when there are none.
pub open spec fn wifi_head(active: Option<Option<String>>) -> Seq<Seq<(Seq<char>, Tone)>> {
    active_rows(active).push(seq![("  scan results:"@, Tone::Dim)])
}

/// How far the Wi-Fi highlight is moved down past the heading rows: two
/// rows when the active SSID could be read, none otherwise.
pub open spec fn header_shift(active: Option<Option<String>>) -> int {
    if active is Some {
        2
    } else {
        0
    }
}

/// The key hints after the position in the network screen's footer; the
/// last names what `s` does to the saved-networks pane.
pub open spec fn network_hints_of(show_saved: bool) -> Seq<(Seq<char>, Tone)> {
    seq![
        (" r "@, Tone::Accent),
        ("scan  "@, Tone::Dim),
        (" c "@, Tone::Accent),
        ("connect  "@, Tone::Dim),
        (" d "@, Tone::Accent),
        ("disconnect  "@, Tone::Dim),
        (" ⏎ "@, Tone::Accent),
        ("join  "@, Tone::Dim),
        (" space "@, Tone::Accent),
        ("iface up/down "@, Tone::Dim),
        (" s "@, Tone::Accent),
        (if show_saved {
            "hide saved"@
        } else {
            "saved Wi-Fi"@
        }, Tone::Dim),
    ]
}

/// The network screen's footer: the position, then the key hints (see
/// `network_hints_of`).
pub fn network_footer(position: &str, show_saved: bool) -> (r: Vec<TextRun>)
    ensures
        row_view(r@) == seq![(position@, Tone::Dim)] + network_hints_of(show_saved),
{
    let r = vec![
        run(position.to_owned(), Tone::Dim),
        run(" r ".to_owned(), Tone::Accent),
        run("scan  ".to_owned(), Tone::Dim),
        run(" c ".to_owned(), Tone::Accent),
        run("connect  ".to_owned(), Tone::Dim),
        run(" d ".to_owned(), Tone::Accent),
        run("disconnect  ".to_owned(), Tone::Dim),
        run(" ⏎ ".to_owned(), Tone::Accent),
        run("join  ".to_owned(), Tone::Dim),
        run(" space ".to_owned(), Tone::Accent),
        run("iface up/down ".to_owned(), Tone::Dim),
        run(" s ".to_owned(), Tone::Accent),
        run(
            (if show_saved {
                "hide saved"
            } else {
                "saved Wi-Fi"
            }).to_owned(),
            Tone::Dim,
        ),
    ];
    proof {
        assert(row_view(r@) =~= seq![(position@, Tone::Dim)] + network_hints_of(show_saved));
    }
    r
}

/// The active-SSID row, when the active SSID could be read.
pub open spec fn active_rows(active: Option<Option<String>>) -> Seq<Seq<(Seq<char>, Tone)>> {
    match active {
        Some(a) => seq![
            seq![
                ("  active   "@, Tone::Dim),
                (match a {
                    Some(s) => s@,
                    None => "(none)"@,
                }, Tone::Accent),
            ],
        ],
        None => Seq::empty(),
    }
}

/// The network screen's view. The cursor runs over the interfaces and
/// then the networks; `selected` is kept on that list (the caller stores
/// it back). The interface list highlights the cursor while it is on an
/// interface; the Wi-Fi list highlights it while it is on a network, at
/// the network's index moved down two rows (past the active and heading
/// rows) when the active SSID could be read and not moved otherwise. Each
/// list's window keeps its highlighted row (the first row when none) in
/// view.
pub fn network_view(
    selected: &mut usize,
    ifaces: &Vec<IfaceInfo>,
    wifi: &Vec<WifiInfo>,
    active: Option<Option<String>>,
    glyphs: &SignalGlyphs,
    left_h: usize,
    right_h: usize,
) -> (v: NetworkView)
    requires
        ifaces@.len() + wifi@.len() + 2 <= usize::MAX,
    ensures
        ({
            let ni = ifaces@.len();
            let nw = wifi@.len();
            let total = ni + nw;
            let sel = crate::files::clamp_cursor(*old(selected), total as usize);
            let head = wifi_head(active);
            &&& *final(selected) == sel
            &&& ni == 0 ==> rows_view(v.iface_rows@) == seq![seq![("  (no interfaces)"@, Tone::Dim)]]
            &&& ni > 0 ==> v.iface_rows@.len() == ni && forall|i: int|
                0 <= i < ni ==> row_view((#[trigger] v.iface_rows@[i])@) == iface_row_of(ifaces@[i])
            &&& v.iface_selected == if sel < ni {
                Some(sel)
            } else {
                None::<usize>
            }
            &&& v.iface_offset == spec_offset(
                match v.iface_selected {
                    Some(k) => k,
                    None => 0,
                },
                v.iface_rows@.len() as usize,
                left_h,
            )
            &&& rows_view(v.wifi_rows@).take(head.len() as int) == head
            &&& nw == 0 ==> v.wifi_rows@.len() == head.len() + 1 && row_view(
                v.wifi_rows@[head.len() as int]@,
            ) == seq![("  (press r to scan)"@, Tone::Dim)]
            &&& nw > 0 ==> v.wifi_rows@.len() == head.len() + nw && forall|i: int|
                0 <= i < nw ==> row_view((#[trigger] v.wifi_rows@[head.len() + i])@)
                    == wifi_row_of(wifi@[i], *glyphs)
            &&& v.wifi_selected == if sel >= ni && sel - ni + header_shift(active) < v.wifi_rows@.len() {
                Some((sel - ni + header_shift(active)) as usize)
            } else {
                None::<usize>
            }
            &&& v.wifi_offset == spec_offset(
                match v.wifi_selected {
                    Some(k) => k,
                    None => 0,
                },
                v.wifi_rows@.len() as usize,
                right_h,
            )
            &&& v.position@ == position_text(sel, total as usize)
        }),
{
    let ni = ifaces.len();
    let nw = wifi.len();
    let total = ni + nw;
    if total == 0 {
        *selected = 0;
    } else if *selected >= total {
        *selected = total - 1;
    }
    let sel = *selected;
    let mut iface_rows: Vec<Vec<TextRun>> = Vec::new();
    let mut i: usize = 0;
    while i < ni
        invariant
            ni == ifaces@.len(),
            i <= ni,
            iface_rows@.len() == i,
            forall|k: int|
                0 <= k < i ==> row_view((#[trigger] iface_rows@[k])@) == iface_row_of(ifaces@[k]),
        decreases ni - i,
    {
        iface_rows.push(iface_row(&ifaces[i]));
        i += 1;
    }
    if ni == 0 {
        iface_rows.push(single("  (no interfaces)".to_owned(), Tone::Dim));
        proof {
            assert(rows_view(iface_rows@) =~= seq![seq![("  (no interfaces)"@, Tone::Dim)]]);
        }
    }
    let iface_selected = if sel < ni {
        Some(sel)
    } else {
        None
    };
    let iface_offset = compute_offset(
        match iface_selected {
            Some(k) => k,
            None => 0,
        },
        iface_rows.len(),
        left_h,
    );
    let mut wifi_rows: Vec<Vec<TextRun>> = Vec::new();
    match &active {
        Some(a) => {
            let name = match a {
                Some(s) => s.clone(),
                None => "(none)".to_owned(),
            };
            let ghost nv = name@;
            proof {
                assert(nv == match *a {
                    Some(x) => x@,
                    None => "(none)"@,
                });
            }
            let row = vec![run("  active   ".to_owned(), Tone::Dim), run(name, Tone::Accent)];
            proof {
                assert(row_view(row@) =~= seq![("  active   "@, Tone::Dim), (nv, Tone::Accent)]);
            }
            wifi_rows.push(row);
            proof {
                assert(rows_view(wifi_rows@) =~= seq![row_view(row@)]);
                assert(active == Some(*a));
                assert(row_view(row@) == seq![
                    ("  active   "@, Tone::Dim),
                    (match *a {
                        Some(x) => x@,
                        None => "(none)"@,
                    }, Tone::Accent),
                ]);
                assert(rows_view(wifi_rows@) =~= active_rows(active));
            }
        },
        None => {
            proof {
                assert(rows_view(wifi_rows@) =~= active_rows(active));
            }
        },
    }
    let ghost before = rows_view(wifi_rows@);
    let sr = single("  scan results:".to_owned(), Tone::Dim);
    let ghost srv = row_view(sr@);
    wifi_rows.push(sr);
    proof {
        assert(rows_view(wifi_rows@) =~= before.push(srv));
    }
    let hl = wifi_rows.len();
    let ghost head = rows_view(wifi_rows@);
    proof {
        assert(before == active_rows(active));
        assert(srv =~= seq![("  scan results:"@, Tone::Dim)]);
        assert(head =~= wifi_head(active));
    }
    let mut j: usize = 0;
    while j < nw
        invariant
            nw == wifi@.len(),
            j <= nw,
            hl == head.len(),
            hl <= 2,
            wifi_rows@.len() == hl + j,
            rows_view(wifi_rows@).take(hl as int) == head,
            forall|k: int|
                0 <= k < j ==> row_view((#[trigger] wifi_rows@[hl + k])@) == wifi_row_of(
                    wifi@[k],
                    *glyphs,
                ),
        decreases nw - j,
    {
        let ghost prev = wifi_rows@;
        wifi_rows.push(wifi_row(&wifi[j], glyphs));
        proof {
            assert(rows_view(wifi_rows@).take(hl as int) =~= rows_view(prev).take(hl as int));
            assert forall|k: int| 0 <= k < j + 1 implies row_view(
                (#[trigger] wifi_rows@[hl + k])@,
            ) == wifi_row_of(wifi@[k], *glyphs) by {
                if k < j {
                    assert(wifi_rows@[hl + k] == prev[hl + k]);
                }
            }
        }
        j += 1;
    }
    if nw == 0 {
        let ghost prev = wifi_rows@;
        wifi_rows.push(single("  (press r to scan)".to_owned(), Tone::Dim));
        proof {
            assert(rows_view(wifi_rows@).take(hl as int) =~= rows_view(prev).take(hl as int));
        }
    }
    let shift: usize = if active.is_some() {
        2
    } else {
        0
    };
    let wifi_selected = if sel >= ni && sel - ni + shift < wifi_rows.len() {
        Some(sel - ni + shift)
    } else {
        None
    };
    let wifi_offset = compute_offset(
        match wifi_selected {
            Some(k) => k,
            None => 0,
        },
        wifi_rows.len(),
        right_h,
    );
    let pos = if total == 0 {
        "  no items".to_owned()
    } else {
        position(sel, total)
    };
    NetworkView {
        iface_rows,
        iface_selected,
        iface_offset,
        wifi_rows,
        wifi_selected,
        wifi_offset,
        position: pos,
    }
}

// ─── Files ──────────────────────────────────────────────────────────────

/// A listing row: a marker (`▸` for a directory) and a space, the name cut
/// to 32 characters (width 32), and for a file its size text
/// right-aligned in 10 (nothing for a directory).
pub open spec fn file_row_of(e: crate::lines::DirEntry, size_text: Seq<char>) -> Seq<(Seq<char>, Tone)> {
    seq![
        (if e.is_dir {
            "▸ "@
        } else {
            "  "@
        }, if e.is_dir {
            Tone::Accent
        } else {
            Tone::Dim
        }),
        (padded_right(truncated(e.name@, 32), 32), Tone::Fg),
        (if e.is_dir {
            Seq::empty()
        } else {
            padded_left(size_text, 10)
        }, Tone::Dim),
    ]
}

/// The row of a listing entry (see `file_row_of`).
pub fn file_row(e: &crate::lines::DirEntry, size_text: &str) -> (r: Vec<TextRun>)
    ensures
        row_view(r@) == file_row_of(*e, size_text@),
{
    let name = truncate_chars(e.name.as_str(), 32);
    let r = vec![
        run(
            (if e.is_dir {
                "▸ "
            } else {
                "  "
            }).to_owned(),
            if e.is_dir {
                Tone::Accent
            } else {
                Tone::Dim
            },
        ),
        run(pad_right(name.as_str(), 32), Tone::Fg),
        run(
            if e.is_dir {
                String::new()
            } else {
                pad_left(size_text, 10)
            },
            Tone::Dim,
        ),
    ];
    proof {
        assert(row_view(r@) =~= file_row_of(*e, size_text@));
    }
    r
}

fn file_rows(entries: &Vec<crate::lines::DirEntry>, sizes: &Vec<String>) -> (r: Vec<Vec<TextRun>>)
    requires
        sizes@.len() == entries@.len(),
    ensures
        r@.len() == entries@.len(),
        forall|i: int|
            0 <= i < entries@.len() ==> row_view((#[trigger] r@[i])@) == file_row_of(
                entries@[i],
                sizes@[i]@,
            ),
{
    let mut out: Vec<Vec<TextRun>> = Vec::new();
    let mut i: usize = 0;
    while i < entries.len()
        invariant
            sizes@.len() == entries@.len(),
            i <= entries@.len(),
            out@.len() == i,
            forall|k: int|
                0 <= k < i ==> row_view((#[trigger] out@[k])@) == file_row_of(
                    entries@[k],
                    sizes@[k]@,
                ),
        decreases entries@.len() - i,
    {
        out.push(file_row(&entries[i], sizes[i].as_str()));
        i += 1;
    }
    out
}

/// What the two-pane browser draws: the listing rows with the cursor and
/// the window start, the peeked directory's rows (a hint when empty) shown
/// from their tail, and the footer's position text.
pub struct FilesView {
    pub left_rows: Vec<Vec<TextRun>>,
    pub left_selected: Option<usize>,
    pub left_offset: usize,
    pub right_rows: Vec<Vec<TextRun>>,
    pub right_offset: usize,
    pub position: String,
}

/// The browser's view; `selected` is kept on the listing (the caller
/// stores it back). `sizes` and `right_sizes` are the size texts of the
/// entries, one per entry.
pub fn files_view(
    selected: &mut usize,
    entries: &Vec<crate::lines::DirEntry>,
    sizes: &Vec<String>,
    right: &Vec<crate::lines::DirEntry>,
    right_sizes: &Vec<String>,
    left_h: usize,
    right_h: usize,
) -> (v: FilesView)
    requires
        sizes@.len() == entries@.len(),
        right_sizes@.len() == right@.len(),
    ensures
        ({
            let n = entries@.len();
            let sel = crate::files::clamp_cursor(*old(selected), n as usize);
            &&& *final(selected) == sel
            &&& v.left_rows@.len() == n
            &&& forall|i: int|
                0 <= i < n ==> row_view((#[trigger] v.left_rows@[i])@) == file_row_of(
                    entries@[i],
                    sizes@[i]@,
                )
            &&& v.left_selected == if n > 0 {
                Some(sel)
            } else {
                None::<usize>
            }
            &&& v.left_offset == spec_offset(sel, n as usize, left_h)
            &&& right@.len() == 0 ==> rows_view(v.right_rows@) == seq![
                seq![("  (no selection — press space on a directory)"@, Tone::Dim)],
            ]
            &&& right@.len() > 0 ==> v.right_rows@.len() == right@.len() && forall|i: int|
                0 <= i < right@.len() ==> row_view((#[trigger] v.right_rows@[i])@) == file_row_of(
                    right@[i],
                    right_sizes@[i]@,
                )
            &&& v.right_offset == if v.right_rows@.len() > right_h {
                v.right_rows@.len() - right_h
            } else {
                0
            }
            &&& v.position@ == if n == 0 {
                "  (empty)"@
            } else {
                position_text(sel, n as usize)
            }
        }),
{
    let n = entries.len();
    if n == 0 {
        *selected = 0;
    } else if *selected >= n {
        *selected = n - 1;
    }
    let sel = *selected;
    let left_rows = file_rows(entries, sizes);
    let left_offset = compute_offset(sel, n, left_h);
    let right_rows = if right.len() == 0 {
        let v = vec![single("  (no selection — press space on a directory)".to_owned(), Tone::Dim)];
        proof {
            assert(rows_view(v@) =~= seq![
                seq![("  (no selection — press space on a directory)"@, Tone::Dim)],
            ]);
        }
        v
    } else {
        file_rows(right, right_sizes)
    };
    let rt = right_rows.len();
    let right_offset = if rt > right_h {
        rt - right_h
    } else {
        0
    };
    let position = if n == 0 {
        "  (empty)".to_owned()
    } else {
        position(sel, n)
    };
    FilesView {
        left_rows,
        left_selected: if n > 0 {
            Some(sel)
        } else {
            None
        },
        left_offset,
        right_rows,
        right_offset,
        position,
    }
}

// ─── Power ──────────────────────────────────────────────────────────────

/// A battery reading; `power_text` is the drawn power draw (`12.50 W`)
/// when the battery reports one.
pub struct BatteryInfo {
    pub capacity: u8,
    pub status: String,
    pub time_to_full: Option<String>,
    pub time_to_empty: Option<String>,
    pub power_text: Option<String>,
    pub health: Option<String>,
}

/// The tone of a battery capacity: bad below 20, a warning below 50.
pub open spec fn capacity_tone(cap: u8) -> Tone {
    if cap < 20 {
        Tone::Bad
    } else if cap < 50 {
        Tone::Warn
    } else {
        Tone::Good
    }
}

/// A labelled value row: the label dimmed, the value plain.
pub open spec fn field_row(label: Seq<char>, value: Seq<char>) -> Seq<(Seq<char>, Tone)> {
    seq![(label, Tone::Dim), (value, Tone::Fg)]
}

/// The optional labelled rows of a battery, in order: time to full, time
/// to empty, power, health (each only when reported).
pub open spec fn battery_extras(b: BatteryInfo) -> Seq<Seq<(Seq<char>, Tone)>> {
    let a = match b.time_to_full {
        Some(t) => seq![field_row("  to full  "@, t@)],
        None => Seq::empty(),
    };
    let c = match b.time_to_empty {
        Some(t) => a.push(field_row("  to empty "@, t@)),
        None => a,
    };
    let d = match b.power_text {
        Some(t) => c.push(field_row("  power    "@, t@)),
        None => c,
    };
    match b.health {
        Some(t) => d.push(field_row("  health   "@, t@)),
        None => d,
    }
}

/// The battery pane: when the battery could be read, its bar and
/// percentage (toned by capacity), its status and the reported extras, or
/// a note that there is none; then the action hints.
pub open spec fn battery_pane(b: Option<Option<BatteryInfo>>) -> Seq<Seq<(Seq<char>, Tone)>> {
    battery_top(b) + seq![
        seq![(Seq::<char>::empty(), Tone::Fg)],
        seq![("  actions:"@, Tone::Title)],
        seq![("  s "@, Tone::Accent), ("suspend  "@, Tone::Dim), (" h "@, Tone::Accent), ("hibernate"@, Tone::Dim)],
        seq![("  r "@, Tone::Accent), ("reboot   "@, Tone::Dim), (" p "@, Tone::Accent), ("poweroff"@, Tone::Dim)],
    ]
}

/// The battery part of the pane (see `battery_pane`).
pub open spec fn battery_top(b: Option<Option<BatteryInfo>>) -> Seq<Seq<(Seq<char>, Tone)>> {
    match b {
        Some(Some(bat)) => seq![
            seq![
                ("  "@, Tone::Dim),
                (crate::lists::bar_text((bat.capacity / 10) as nat, (10 - bat.capacity / 10) as nat), capacity_tone(bat.capacity)),
                (" "@ + padded_left(dec_text(bat.capacity as nat), 3) + "%"@, capacity_tone(bat.capacity)),
            ],
            field_row("  status   "@, bat.status@),
        ] + battery_extras(bat),
        Some(None) => seq![seq![("  (no battery — running on AC)"@, Tone::Dim)]],
        None => Seq::empty(),
    }
}

fn field(label: &str, value: String) -> (r: Vec<TextRun>)
    ensures
        row_view(r@) == field_row(label@, value@),
{
    let r = vec![run(label.to_owned(), Tone::Dim), run(value, Tone::Fg)];
    proof {
        assert(row_view(r@) =~= field_row(label@, value@));
    }
    r
}

pub(crate) fn push_row(rows: &mut Vec<Vec<TextRun>>, r: Vec<TextRun>)
    ensures
        rows_view(final(rows)@) == rows_view(old(rows)@).push(row_view(r@)),
{
    let ghost rv = row_view(r@);
    rows.push(r);
    proof {
        assert(rows_view(final(rows)@) =~= rows_view(old(rows)@).push(rv));
    }
}

/// The power screen's battery pane (see `battery_pane`). Capacities above
/// 109% are left out (the bar has ten cells).
pub fn battery_view(b: &Option<Option<BatteryInfo>>) -> (r: Vec<Vec<TextRun>>)
    requires
        b matches Some(Some(bat)) ==> bat.capacity <= 109,
    ensures
        rows_view(r@) == battery_pane(*b),
{
    let mut rows: Vec<Vec<TextRun>> = Vec::new();
    match b {
        Some(Some(bat)) => {
            let cap = bat.capacity;
            let tone = if cap < 20 {
                Tone::Bad
            } else if cap < 50 {
                Tone::Warn
            } else {
                Tone::Good
            };
            let pct = pad_left(decimal(cap as u64).as_str(), 3);
            let a = concat(" ", pct.as_str());
            let first = vec![
                run("  ".to_owned(), Tone::Dim),
                run(crate::lists::battery_bar(cap), tone),
                run(concat(a.as_str(), "%"), tone),
            ];
            let ghost fv = row_view(first@);
            push_row(&mut rows, first);
            push_row(&mut rows, field("  status   ", bat.status.clone()));
            let ghost head = rows_view(rows@);
            match &bat.time_to_full {
                Some(t) => push_row(&mut rows, field("  to full  ", t.clone())),
                None => {},
            }
            match &bat.time_to_empty {
                Some(t) => push_row(&mut rows, field("  to empty ", t.clone())),
                None => {},
            }
            match &bat.power_text {
                Some(t) => push_row(&mut rows, field("  power    ", t.clone())),
                None => {},
            }
            match &bat.health {
                Some(t) => push_row(&mut rows, field("  health   ", t.clone())),
                None => {},
            }
            proof {
                assert(rows_view(rows@) =~= head + battery_extras(*bat));
                assert(tone == capacity_tone(cap));
                assert(fv =~= seq![
                    ("  "@, Tone::Dim),
                    (crate::lists::bar_text((cap / 10) as nat, (10 - cap / 10) as nat), capacity_tone(cap)),
                    (" "@ + padded_left(dec_text(cap as nat), 3) + "%"@, capacity_tone(cap)),
                ]);
                assert(rows_view(rows@) =~= battery_top(*b));
            }
        },
        Some(None) => {
            push_row(&mut rows, single("  (no battery — running on AC)".to_owned(), Tone::Dim));
            proof {
                assert(rows_view(rows@) =~= battery_top(*b));
            }
        },
        None => {
            proof {
                assert(rows_view(rows@) =~= battery_top(*b));
            }
        },
    }
    let ghost top = rows_view(rows@);
    push_row(&mut rows, single(String::new(), Tone::Fg));
    push_row(&mut rows, single("  actions:".to_owned(), Tone::Title));
    let k1 = vec![
        run("  s ".to_owned(), Tone::Accent),
        run("suspend  ".to_owned(), Tone::Dim),
        run(" h ".to_owned(), Tone::Accent),
        run("hibernate".to_owned(), Tone::Dim),
    ];
    proof {
        assert(row_view(k1@) =~= seq![("  s "@, Tone::Accent), ("suspend  "@, Tone::Dim), (" h "@, Tone::Accent), ("hibernate"@, Tone::Dim)]);
    }
    push_row(&mut rows, k1);
    let k2 = vec![
        run("  r ".to_owned(), Tone::Accent),
        run("reboot   ".to_owned(), Tone::Dim),
        run(" p ".to_owned(), Tone::Accent),
        run("poweroff".to_owned(), Tone::Dim),
    ];
    proof {
        assert(row_view(k2@) =~= seq![("  r "@, Tone::Accent), ("reboot   "@, Tone::Dim), (" p "@, Tone::Accent), ("poweroff"@, Tone::Dim)]);
    }
    push_row(&mut rows, k2);
    proof {
        assert(rows_view(rows@) =~= battery_pane(*b));
    }
    rows
}

// ─── System lists ───────────────────────────────────────────────────────

/// What a list screen draws: its rows, the highlighted row, where the
/// window starts, and the footer's position text.
pub struct ListView {
    pub rows: Vec<Vec<TextRun>>,
    pub selected: Option<usize>,
    pub offset: usize,
    pub position: String,
}

/// The highlight, window start and position text of a list of `total`
/// items in `rows` rows (a hint row when empty) with the cursor at `sel`:
/// `none_text` when empty, else the position.
pub open spec fn list_frame(
    v: ListView,
    sel: usize,
    total: usize,
    visible: usize,
    none_text: Seq<char>,
) -> bool {
    &&& v.selected == if total > 0 {
        Some(sel)
    } else {
        None::<usize>
    }
    &&& v.offset == spec_offset(sel, v.rows@.len() as usize, visible)
    &&& v.position@ == if total == 0 {
        none_text
    } else {
        position_text(sel, total)
    }
}

fn frame_list(rows: Vec<Vec<TextRun>>, sel: usize, total: usize, visible: usize, none_text: &str) -> (v: ListView)
    requires
        sel < usize::MAX,
    ensures
        v.rows == rows,
        list_frame(v, sel, total, visible, none_text@),
{
    let offset = compute_offset(sel, rows.len(), visible);
    let position = if total == 0 {
        none_text.to_owned()
    } else {
        position(sel, total)
    };
    ListView {
        rows,
        selected: if total > 0 {
            Some(sel)
        } else {
            None
        },
        offset,
        position,
    }
}

/// A sink row: `◉` for the default sink (`○` otherwise), its description
/// cut to 48 (width 48), its number (width 4), the volume bar and
/// percentage (a warning when muted), and `muted` when it is.
pub open spec fn sink_row_of(k: crate::system_screens::Sink) -> Seq<(Seq<char>, Tone)> {
    let vt = if k.muted {
        Tone::Warn
    } else {
        Tone::Fg
    };
    let f = if k.volume / 5 < 20 {
        k.volume / 5
    } else {
        20
    };
    seq![
        (if k.default {
            "◉ "@
        } else {
            "○ "@
        }, if k.default {
            Tone::Accent
        } else {
            Tone::Dim
        }),
        (padded_right(truncated(k.description@, 48), 48), Tone::Fg),
        (padded_right(dec_text(k.id as nat), 4), Tone::Dim),
        ("  "@ + crate::lists::bar_text(f as nat, (20 - f) as nat), vt),
        (" "@ + padded_left(dec_text(k.volume as nat), 3) + "%"@, vt),
        (if k.muted {
            " muted"@
        } else {
            Seq::empty()
        }, if k.muted {
            Tone::Warn
        } else {
            Tone::Fg
        }),
    ]
}

fn sink_row(k: &crate::system_screens::Sink) -> (r: Vec<TextRun>)
    ensures
        row_view(r@) == sink_row_of(*k),
{
    let vt = if k.muted {
        Tone::Warn
    } else {
        Tone::Fg
    };
    let desc = truncate_chars(k.description.as_str(), 48);
    let id = decimal(k.id as u64);
    let bar = crate::lists::vol_bar(k.volume);
    let pct = pad_left(decimal(k.volume as u64).as_str(), 3);
    let p1 = concat(" ", pct.as_str());
    let r = vec![
        run(
            (if k.default {
                "◉ "
            } else {
                "○ "
            }).to_owned(),
            if k.default {
                Tone::Accent
            } else {
                Tone::Dim
            },
        ),
        run(pad_right(desc.as_str(), 48), Tone::Fg),
        run(pad_right(id.as_str(), 4), Tone::Dim),
        run(concat("  ", bar.as_str()), vt),
        run(concat(p1.as_str(), "%"), vt),
        run(
            if k.muted {
                " muted".to_owned()
            } else {
                String::new()
            },
            if k.muted {
                Tone::Warn
            } else {
                Tone::Fg
            },
        ),
    ];
    proof {
        assert(row_view(r@) =~= sink_row_of(*k));
    }
    r
}

/// The audio screen's list; `selected` is kept on the sinks (the caller
/// stores it back). `sinks` is `None` when the list could not be read.
pub fn audio_view(selected: &mut usize, sinks: Option<&Vec<crate::system_screens::Sink>>, visible: usize) -> (v: ListView)
    ensures
        ({
            let n: nat = match sinks {
                Some(s) => s@.len(),
                None => 0,
            };
            let sel = crate::files::clamp_cursor(*old(selected), n as usize);
            &&& *final(selected) == sel
            &&& list_frame(v, sel, n as usize, visible, "  no sinks"@)
            &&& match sinks {
                None => v.rows@.len() == 0,
                Some(s) => if s@.len() == 0 {
                    rows_view(v.rows@) == seq![
                        seq![("  (no sinks — install pipewire-audio or pulseaudio)"@, Tone::Dim)],
                    ]
                } else {
                    v.rows@.len() == s@.len() && forall|i: int|
                        0 <= i < s@.len() ==> row_view((#[trigger] v.rows@[i])@) == sink_row_of(s@[i])
                },
            }
        }),
{
    let n = match sinks {
        Some(s) => s.len(),
        None => 0,
    };
    if n == 0 {
        *selected = 0;
    } else if *selected >= n {
        *selected = n - 1;
    }
    let mut rows: Vec<Vec<TextRun>> = Vec::new();
    match sinks {
        Some(s) => {
            if s.len() == 0 {
                rows.push(single("  (no sinks — install pipewire-audio or pulseaudio)".to_owned(), Tone::Dim));
                proof {
                    assert(rows_view(rows@) =~= seq![
                        seq![("  (no sinks — install pipewire-audio or pulseaudio)"@, Tone::Dim)],
                    ]);
                }
            }
            let mut i: usize = 0;
            while i < s.len()
                invariant
                    i <= s@.len(),
                    s@.len() > 0 ==> rows@.len() == i,
                    s@.len() == 0 ==> rows_view(rows@) == seq![
                        seq![("  (no sinks — install pipewire-audio or pulseaudio)"@, Tone::Dim)],
                    ],
                    forall|k: int| 0 <= k < i ==> row_view((#[trigger] rows@[k])@) == sink_row_of(s@[k]),
                decreases s@.len() - i,
            {
                rows.push(sink_row(&s[i]));
                i += 1;
            }
        },
        None => {},
    }
    frame_list(rows, *selected, n, visible, "  no sinks")
}

/// A device row: address (width 17), name cut to 24 (width 24), state
/// (width 10; good when connected, accented when paired), signal (width
/// 10), and whether it is trusted.
pub open spec fn device_row_of(d: crate::system_screens::BtDevice) -> Seq<(Seq<char>, Tone)> {
    seq![
        (padded_right(d.mac@, 17), Tone::Fg),
        (padded_right(truncated(d.name@, 24), 24), Tone::Fg),
        (padded_right(if d.connected {
            "connected"@
        } else if d.paired {
            "paired"@
        } else {
            "—"@
        }, 10), if d.connected {
            Tone::Good
        } else if d.paired {
            Tone::Accent
        } else {
            Tone::Dim
        }),
        (padded_right(match d.rssi {
            Some(r) => crate::text::signed_dec_text(r as int) + " dBm"@,
            None => "—"@,
        }, 10), Tone::Dim),
        (if d.trusted {
            "[✓]"@
        } else {
            "[ ]"@
        }, Tone::Warn),
    ]
}

fn device_row(d: &crate::system_screens::BtDevice) -> (r: Vec<TextRun>)
    ensures
        row_view(r@) == device_row_of(*d),
{
    let name = truncate_chars(d.name.as_str(), 24);
    let state = if d.connected {
        "connected"
    } else if d.paired {
        "paired"
    } else {
        "—"
    };
    let tone = if d.connected {
        Tone::Good
    } else if d.paired {
        Tone::Accent
    } else {
        Tone::Dim
    };
    let signal = match d.rssi {
        Some(r) => {
            let n = crate::text::decimal_signed(r as i64);
            concat(n.as_str(), " dBm")
        },
        None => "—".to_owned(),
    };
    let r = vec![
        run(pad_right(d.mac.as_str(), 17), Tone::Fg),
        run(pad_right(name.as_str(), 24), Tone::Fg),
        run(pad_right(state, 10), tone),
        run(pad_right(signal.as_str(), 10), Tone::Dim),
        run(
            (if d.trusted {
                "[✓]"
            } else {
                "[ ]"
            }).to_owned(),
            Tone::Warn,
        ),
    ];
    proof {
        assert(row_view(r@) =~= device_row_of(*d));
    }
    r
}

/// The Bluetooth screen's list (as `audio_view`, over devices).
pub fn bluetooth_view(
    selected: &mut usize,
    devices: Option<&Vec<crate::system_screens::BtDevice>>,
    visible: usize,
) -> (v: ListView)
    ensures
        ({
            let n: nat = match devices {
                Some(s) => s@.len(),
                None => 0,
            };
            let sel = crate::files::clamp_cursor(*old(selected), n as usize);
            &&& *final(selected) == sel
            &&& list_frame(v, sel, n as usize, visible, "  no devices"@)
            &&& match devices {
                None => v.rows@.len() == 0,
                Some(s) => if s@.len() == 0 {
                    rows_view(v.rows@) == seq![
                        seq![("  (no devices — install bluetoothctl + bluez, then press P to power on)"@, Tone::Dim)],
                    ]
                } else {
                    v.rows@.len() == s@.len() && forall|i: int|
                        0 <= i < s@.len() ==> row_view((#[trigger] v.rows@[i])@) == device_row_of(s@[i])
                },
            }
        }),
{
    let n = match devices {
        Some(s) => s.len(),
        None => 0,
    };
    if n == 0 {
        *selected = 0;
    } else if *selected >= n {
        *selected = n - 1;
    }
    let mut rows: Vec<Vec<TextRun>> = Vec::new();
    match devices {
        Some(s) => {
            if s.len() == 0 {
                rows.push(single("  (no devices — install bluetoothctl + bluez, then press P to power on)".to_owned(), Tone::Dim));
                proof {
                    assert(rows_view(rows@) =~= seq![
                        seq![("  (no devices — install bluetoothctl + bluez, then press P to power on)"@, Tone::Dim)],
                    ]);
                }
            }
            let mut i: usize = 0;
            while i < s.len()
                invariant
                    i <= s@.len(),
                    s@.len() > 0 ==> rows@.len() == i,
                    s@.len() == 0 ==> rows_view(rows@) == seq![
                        seq![("  (no devices — install bluetoothctl + bluez, then press P to power on)"@, Tone::Dim)],
                    ],
                    forall|k: int| 0 <= k < i ==> row_view((#[trigger] rows@[k])@) == device_row_of(s@[k]),
                decreases s@.len() - i,
            {
                rows.push(device_row(&s[i]));
                i += 1;
            }
        },
        None => {},
    }
    frame_list(rows, *selected, n, visible, "  no devices")
}

/// The packages screen's list of upgradable packages (a hint row when
/// there are none). The cursor goes back to the top when the list is
/// empty or it is past the end (the caller stores it back); there is no
/// position text.
pub fn packages_view(selected: &mut usize, names: Option<&Vec<String>>, visible: usize) -> (v: ListView)
    ensures
        ({
            let n: nat = match names {
                Some(s) => s@.len(),
                None => 0,
            };
            let total: nat = if n == 0 {
                1
            } else {
                n
            };
            let sel = if *old(selected) >= total {
                0
            } else {
                *old(selected)
            };
            &&& *final(selected) == sel
            &&& v.selected == Some(sel)
            &&& v.offset == spec_offset(sel, total as usize, visible)
            &&& v.position@.len() == 0
            &&& if n == 0 {
                rows_view(v.rows@) == seq![
                    seq![("  (system up to date — press u to refresh)"@, Tone::Dim)],
                ]
            } else {
                v.rows@.len() == n && forall|i: int|
                    0 <= i < n ==> row_view((#[trigger] v.rows@[i])@) == seq![
                        ("▲ "@, Tone::Warn),
                        (match names {
                            Some(s) => s@[i]@,
                            None => Seq::empty(),
                        }, Tone::Fg),
                    ]
            }
        }),
{
    let mut rows: Vec<Vec<TextRun>> = Vec::new();
    let n = match names {
        Some(s) => s.len(),
        None => 0,
    };
    match names {
        Some(s) => {
            let mut i: usize = 0;
            while i < s.len()
                invariant
                    i <= s@.len(),
                    rows@.len() == i,
                    forall|k: int|
                        0 <= k < i ==> row_view((#[trigger] rows@[k])@) == seq![
                            ("▲ "@, Tone::Warn),
                            (s@[k]@, Tone::Fg),
                        ],
                decreases s@.len() - i,
            {
                let r = vec![run("▲ ".to_owned(), Tone::Warn), run(s[i].clone(), Tone::Fg)];
                proof {
                    assert(row_view(r@) =~= seq![("▲ "@, Tone::Warn), (s@[i as int]@, Tone::Fg)]);
                }
                rows.push(r);
                i += 1;
            }
        },
        None => {},
    }
    if n == 0 {
        rows = vec![single("  (system up to date — press u to refresh)".to_owned(), Tone::Dim)];
        proof {
            assert(rows_view(rows@) =~= seq![
                seq![("  (system up to date — press u to refresh)"@, Tone::Dim)],
            ]);
        }
    }
    let total = rows.len();
    if *selected >= total {
        *selected = 0;
    }
    let offset = compute_offset(*selected, total, visible);
    ListView { rows, selected: Some(*selected), offset, position: String::new() }
}

/// A display output; `scale_text` is its drawn scale (`1.00`).
pub struct OutputInfo {
    pub name: String,
    pub enabled: bool,
    pub mode: String,
    pub scale_text: String,
}

/// An output row: name (width 12), `on`/`off` (width 6, good when on),
/// mode (width 14), and the scale.
pub open spec fn output_row_of(o: OutputInfo) -> Seq<(Seq<char>, Tone)> {
    seq![
        (padded_right(o.name@, 12), Tone::Fg),
        (padded_right(if o.enabled {
            "on"@
        } else {
            "off"@
        }, 6), if o.enabled {
            Tone::Good
        } else {
            Tone::Dim
        }),
        (padded_right(o.mode@, 14), Tone::Accent),
        ("scale "@ + o.scale_text@, Tone::Dim),
    ]
}

fn output_row(o: &OutputInfo) -> (r: Vec<TextRun>)
    ensures
        row_view(r@) == output_row_of(*o),
{
    let r = vec![
        run(pad_right(o.name.as_str(), 12), Tone::Fg),
        run(
            pad_right(
                if o.enabled {
                    "on"
                } else {
                    "off"
                },
                6,
            ),
            if o.enabled {
                Tone::Good
            } else {
                Tone::Dim
            },
        ),
        run(pad_right(o.mode.as_str(), 14), Tone::Accent),
        run(concat("scale ", o.scale_text.as_str()), Tone::Dim),
    ];
    proof {
        assert(row_view(r@) =~= output_row_of(*o));
    }
    r
}

/// The display screen's output list (as `audio_view`, over outputs).
pub fn display_view(selected: &mut usize, outputs: Option<&Vec<OutputInfo>>, visible: usize) -> (v: ListView)
    ensures
        ({
            let n: nat = match outputs {
                Some(s) => s@.len(),
                None => 0,
            };
            let sel = crate::files::clamp_cursor(*old(selected), n as usize);
            &&& *final(selected) == sel
            &&& list_frame(v, sel, n as usize, visible, "  no outputs"@)
            &&& match outputs {
                None => v.rows@.len() == 0,
                Some(s) => if s@.len() == 0 {
                    rows_view(v.rows@) == seq![
                        seq![("  (no outputs — install wlr-randr or xrandr)"@, Tone::Dim)],
                    ]
                } else {
                    v.rows@.len() == s@.len() && forall|i: int|
                        0 <= i < s@.len() ==> row_view((#[trigger] v.rows@[i])@) == output_row_of(s@[i])
                },
            }
        }),
{
    let n = match outputs {
        Some(s) => s.len(),
        None => 0,
    };
    if n == 0 {
        *selected = 0;
    } else if *selected >= n {
        *selected = n - 1;
    }
    let mut rows: Vec<Vec<TextRun>> = Vec::new();
    match outputs {
        Some(s) => {
            if s.len() == 0 {
                rows.push(single("  (no outputs — install wlr-randr or xrandr)".to_owned(), Tone::Dim));
                proof {
                    assert(rows_view(rows@) =~= seq![
                        seq![("  (no outputs — install wlr-randr or xrandr)"@, Tone::Dim)],
                    ]);
                }
            }
            let mut i: usize = 0;
            while i < s.len()
                invariant
                    i <= s@.len(),
                    s@.len() > 0 ==> rows@.len() == i,
                    s@.len() == 0 ==> rows_view(rows@) == seq![
                        seq![("  (no outputs — install wlr-randr or xrandr)"@, Tone::Dim)],
                    ],
                    forall|k: int| 0 <= k < i ==> row_view((#[trigger] rows@[k])@) == output_row_of(s@[k]),
                decreases s@.len() - i,
            {
                rows.push(output_row(&s[i]));
                i += 1;
            }
        },
        None => {},
    }
    frame_list(rows, *selected, n, visible, "  no outputs")
}

/// The brightness pane: the bar and percentage with a hint, or why the
/// brightness could not be read. Percentages above 104 are left out (the
/// bar has twenty cells).
pub fn brightness_lines(read: &Result<u8, String>) -> (r: Vec<Vec<TextRun>>)
    requires
        read matches Ok(c) ==> c / 5 <= 20,
    ensures
        match *read {
            Ok(c) => rows_view(r@) == seq![
                seq![("  "@ + crate::lists::bar_text((c / 5) as nat, (20 - c / 5) as nat) + "  "@
                    + padded_left(dec_text(c as nat), 3) + "%"@, Tone::Accent)],
                seq![("  ← / → to dim / brighten (±5%)"@, Tone::Dim)],
            ],
            Err(e) => rows_view(r@) == seq![seq![("  brightness unavailable: "@ + e@, Tone::Warn)]],
        },
{
    match read {
        Ok(c) => {
            let bar = crate::lists::brightness_bar(*c);
            let pct = pad_left(decimal(*c as u64).as_str(), 3);
            let a = concat("  ", bar.as_str());
            let b = concat(a.as_str(), "  ");
            let d = concat(b.as_str(), pct.as_str());
            let r = vec![
                single(concat(d.as_str(), "%"), Tone::Accent),
                single("  ← / → to dim / brighten (±5%)".to_owned(), Tone::Dim),
            ];
            proof {
                assert(rows_view(r@) =~= seq![
                    seq![("  "@ + crate::lists::bar_text((*c / 5) as nat, (20 - *c / 5) as nat) + "  "@
                        + padded_left(dec_text(*c as nat), 3) + "%"@, Tone::Accent)],
                    seq![("  ← / → to dim / brighten (±5%)"@, Tone::Dim)],
                ]);
            }
            r
        },
        Err(e) => {
            let r = vec![single(concat("  brightness unavailable: ", e.as_str()), Tone::Warn)];
            proof {
                assert(rows_view(r@) =~= seq![seq![("  brightness unavailable: "@ + e@, Tone::Warn)]]);
            }
            r
        },
    }
}

// ─── Logs ───────────────────────────────────────────────────────────────

/// A log line: its time (as drawn, `HH:MM:SS`) and message.
pub struct LogLine {
    pub time_text: String,
    pub message: String,
}

/// What the logs screen draws: the rows of the window, the highlighted
/// (newest shown) row, the line count, and whether it follows the tail.
pub struct LogsView {
    pub rows: Vec<Vec<TextRun>>,
    pub highlight: Option<usize>,
    pub count_text: String,
    pub mode_text: String,
}

/// A log row: the time between spaces (dimmed) and the message.
pub open spec fn log_row_of(l: LogLine) -> Seq<(Seq<char>, Tone)> {
    seq![(" "@ + l.time_text@ + " "@, Tone::Dim), (l.message@, Tone::Fg)]
}

/// The logs screen's view: the offset (lines back from the newest) is
/// capped so the window never passes the oldest line (the caller stores
/// it back); the window's rows; the newest shown row highlighted; the line
/// count; and `live` at the tail, `paused` above it.
pub fn logs_view(offset: &mut usize, lines: &Vec<LogLine>, visible: usize) -> (v: LogsView)
    ensures
        ({
            let total = lines@.len();
            let max_off = if total > visible {
                total - visible
            } else {
                0
            };
            let off = if *old(offset) > max_off {
                max_off
            } else {
                *old(offset) as int
            };
            let end = total - off;
            let start = if end > visible {
                end - visible
            } else {
                0
            };
            &&& *final(offset) == off
            &&& v.rows@.len() == end - start
            &&& forall|k: int|
                0 <= k < v.rows@.len() ==> row_view((#[trigger] v.rows@[k])@) == log_row_of(
                    lines@[start + k],
                )
            &&& v.highlight == if end > start {
                Some((end - start - 1) as usize)
            } else {
                None::<usize>
            }
            &&& v.count_text@ == "  "@ + dec_text(total as nat) + " lines  "@
            &&& v.mode_text@ == if off == 0 {
                "  ● live (G to scroll up, j/k step, PgUp/PgDn page)"@
            } else {
                "  ⏸ paused — press G to jump back to live tail"@
            }
        }),
{
    let total = lines.len();
    let (off, start, end) = crate::system_screens::logs_window(total, *offset, visible);
    *offset = off;
    let mut rows: Vec<Vec<TextRun>> = Vec::new();
    let mut i = start;
    while i < end
        invariant
            start <= i <= end <= total,
            total == lines@.len(),
            rows@.len() == i - start,
            forall|k: int|
                0 <= k < rows@.len() ==> row_view((#[trigger] rows@[k])@) == log_row_of(
                    lines@[start + k],
                ),
        decreases end - i,
    {
        let l = &lines[i];
        let a = concat(" ", l.time_text.as_str());
        let r = vec![run(concat(a.as_str(), " "), Tone::Dim), run(l.message.clone(), Tone::Fg)];
        proof {
            assert(row_view(r@) =~= log_row_of(*l));
        }
        rows.push(r);
        i += 1;
    }
    let highlight = if end > start {
        Some(end - start - 1)
    } else {
        None
    };
    let n = decimal(total as u64);
    let c = concat("  ", n.as_str());
    let count_text = concat(c.as_str(), " lines  ");
    let mode_text = if off == 0 {
        "  ● live (G to scroll up, j/k step, PgUp/PgDn page)".to_owned()
    } else {
        "  ⏸ paused — press G to jump back to live tail".to_owned()
    };
    LogsView { rows, highlight, count_text, mode_text }
}

} // verus!
